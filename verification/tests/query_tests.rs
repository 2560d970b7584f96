//! The query builder's parameter translation, checked on concrete
//! filters.

use timely_server::query::QueryMap;
use timely_server::query::build_timelog_filter;
use timely_server::query::build_timelog_query;
use timely_server::query::build_user_filter;
use timely_server::query::build_user_query;
use timely_server::types::Direction;
use timely_server::types::Order;
use timely_server::types::TimelogFilter;
use timely_server::types::TimelogOrder;
use timely_server::types::TimelogQuery;
use timely_server::types::UserFilter;
use timely_server::types::UserQuery;

fn pairs_of(m: &QueryMap) -> Vec<(String, String)> {
    m.iter()
}

#[test]
fn user_filter_id_builds_exact_parameter() {
    let m = build_user_filter(&UserFilter::Id(7));
    assert_eq!(pairs_of(&m), vec![("id".to_string(), "eq.7".to_string())]);
}

#[test]
fn user_filter_name_builds_exact_parameter() {
    let m = build_user_filter(&UserFilter::Name("bob".to_string()));
    assert_eq!(pairs_of(&m), vec![("username".to_string(), "eq.bob".to_string())]);
}

#[test]
fn user_query_without_filter_is_empty() {
    let q = UserQuery { filter: None, limit: 10, offset: 0 };
    let m = build_user_query(&q);
    assert_eq!(pairs_of(&m), vec![]);
}

#[test]
fn timelog_filter_conjunction_builds_both_parameters() {
    let f = TimelogFilter::UserId(3).and(TimelogFilter::IsFinished(false));
    let m = build_timelog_filter(&f);
    assert_eq!(
        pairs_of(&m),
        vec![
            ("user_id".to_string(), "eq.3".to_string()),
            ("finished_at".to_string(), "is.null".to_string()),
        ]
    );
}

#[test]
fn timelog_filter_finished_true_uses_not_is_null() {
    let m = build_timelog_filter(&TimelogFilter::IsFinished(true));
    assert_eq!(pairs_of(&m), vec![("finished_at".to_string(), "not.is.null".to_string())]);
}

#[test]
fn timelog_filter_id_builds_exact_parameter() {
    let m = build_timelog_filter(&TimelogFilter::Id(42));
    assert_eq!(pairs_of(&m), vec![("id".to_string(), "eq.42".to_string())]);
}

#[test]
fn and_branch_reorder_keeps_parameter_multiset() {
    let a = TimelogFilter::UserId(3).and(TimelogFilter::IsFinished(false));
    let b = TimelogFilter::IsFinished(false).and(TimelogFilter::UserId(3));
    let mut pa = pairs_of(&build_timelog_filter(&a));
    let mut pb = pairs_of(&build_timelog_filter(&b));
    assert_ne!(pa, pb);
    pa.sort();
    pb.sort();
    assert_eq!(pa, pb);
}

#[test]
fn nested_and_reorder_keeps_parameter_multiset() {
    let a = TimelogFilter::And(vec![
        TimelogFilter::Id(1),
        TimelogFilter::And(vec![TimelogFilter::UserId(2), TimelogFilter::IsFinished(true)]),
    ]);
    let b = TimelogFilter::And(vec![
        TimelogFilter::And(vec![TimelogFilter::UserId(2), TimelogFilter::IsFinished(true)]),
        TimelogFilter::Id(1),
    ]);
    let mut pa = pairs_of(&build_timelog_filter(&a));
    let mut pb = pairs_of(&build_timelog_filter(&b));
    pa.sort();
    pb.sort();
    assert_eq!(pa, pb);
}

#[test]
fn order_parameters_preserve_input_sequence() {
    let q = TimelogQuery {
        filter: None,
        limit: 50,
        offset: 0,
        order: vec![
            Order::new(TimelogOrder::StartedAt, Direction::Desc),
            Order::new(TimelogOrder::Id, Direction::Asc),
        ],
    };
    let m = build_timelog_query(&q);
    assert_eq!(
        pairs_of(&m),
        vec![
            ("order".to_string(), "started_at.desc".to_string()),
            ("order".to_string(), "id.asc".to_string()),
        ]
    );
}

#[test]
fn full_query_combines_filter_and_order() {
    let q = TimelogQuery {
        filter: Some(TimelogFilter::UserId(9)),
        limit: 50,
        offset: 0,
        order: vec![Order::asc(TimelogOrder::Id)],
    };
    let m = build_timelog_query(&q);
    assert_eq!(
        pairs_of(&m),
        vec![
            ("user_id".to_string(), "eq.9".to_string()),
            ("order".to_string(), "id.asc".to_string()),
        ]
    );
}

#[test]
fn to_query_url_encodes_pairs() {
    let mut m = QueryMap::new();
    m.add("id", "eq.7");
    assert_eq!(m.to_query(), "id=eq.7");
    let mut m2 = QueryMap::new();
    m2.add("title", "a b&c");
    assert_eq!(m2.to_query(), "title=a+b%26c");
}

#[test]
fn to_query_of_empty_map_is_empty() {
    let m = QueryMap::new();
    assert_eq!(m.to_query(), "");
}

#[test]
fn query_map_add_appends_and_set_replaces() {
    let mut m = QueryMap::new();
    m.add("order", "a.asc");
    m.add("order", "b.desc");
    assert_eq!(
        m.iter(),
        vec![
            ("order".to_string(), "a.asc".to_string()),
            ("order".to_string(), "b.desc".to_string()),
        ]
    );
    m.set("order", "c.asc");
    assert_eq!(m.iter(), vec![("order".to_string(), "c.asc".to_string())]);
}
