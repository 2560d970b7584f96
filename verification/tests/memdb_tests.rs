//! The in-memory store's behavior through the repository interface.

use timely_server::db::Db;
use timely_server::memdb::MemDb;
use timely_server::types::TimelogCreate;
use timely_server::types::TimelogFilter;
use timely_server::types::TimelogPatch;
use timely_server::types::TimelogQuery;
use timely_server::types::UserCreate;
use timely_server::types::UserFilter;
use timely_server::types::UserQuery;

fn a_user_create(name: &str) -> UserCreate {
    UserCreate {
        username: name.to_string(),
        email: format!("{name}@example.com"),
        password_hash: "hash".to_string(),
    }
}

fn a_timelog_create(user_id: u64, title: &str) -> TimelogCreate {
    TimelogCreate {
        user_id,
        title: title.to_string(),
        description: None,
        created_at: "2024-01-01T08:00:00Z".to_string(),
        started_at: "2024-01-01T08:00:00Z".to_string(),
    }
}

#[test]
fn users_get_distinct_ids_and_are_findable() {
    let mut db = MemDb::new();
    let a = db.user_create(&a_user_create("alice")).unwrap();
    let b = db.user_create(&a_user_create("bob")).unwrap();
    assert_ne!(a.id, b.id);
    let found = db.user(&UserFilter::Name("bob".to_string())).unwrap().unwrap();
    assert_eq!(found.id, b.id);
    let by_id = db.user(&UserFilter::Id(a.id)).unwrap().unwrap();
    assert_eq!(by_id.username, "alice");
    assert!(db.user(&UserFilter::Name("carol".to_string())).unwrap().is_none());
    let all = db.users(&UserQuery { filter: None, limit: 10, offset: 0 }).unwrap();
    assert_eq!(all.len(), 2);
}

#[test]
fn created_timelogs_start_unfinished() {
    let mut db = MemDb::new();
    let u = db.user_create(&a_user_create("alice")).unwrap();
    let t = db.timelog_create(&a_timelog_create(u.id, "work")).unwrap();
    assert!(t.finished_at.is_none());
    assert_eq!(t.title, "work");
    assert_eq!(t.user_id, u.id);
}

#[test]
fn update_patches_only_matching_rows_and_echoes_them() {
    let mut db = MemDb::new();
    let u = db.user_create(&a_user_create("alice")).unwrap();
    let t1 = db.timelog_create(&a_timelog_create(u.id, "one")).unwrap();
    let t2 = db.timelog_create(&a_timelog_create(u.id, "two")).unwrap();
    let patch = TimelogPatch {
        title: None,
        description: None,
        finished_at: Some("2024-01-01T09:00:00Z".to_string()),
    };
    let updated = db.timelog_update(&TimelogQuery::new_single_id(t1.id), &patch).unwrap();
    assert_eq!(updated.len(), 1);
    assert_eq!(updated[0].id, t1.id);
    assert_eq!(updated[0].finished_at.as_deref(), Some("2024-01-01T09:00:00Z"));
    // the other row is untouched
    let rows = db
        .timelogs(&TimelogQuery {
            filter: Some(TimelogFilter::Id(t2.id)),
            limit: 1,
            offset: 0,
            order: vec![],
        })
        .unwrap();
    assert!(rows[0].finished_at.is_none());
}

#[test]
fn update_of_nothing_returns_no_rows() {
    let mut db = MemDb::new();
    let patch = TimelogPatch { title: None, description: None, finished_at: None };
    let updated = db.timelog_update(&TimelogQuery::new_single_id(123), &patch).unwrap();
    assert!(updated.is_empty());
}

#[test]
fn filters_conjoin() {
    let mut db = MemDb::new();
    let u = db.user_create(&a_user_create("alice")).unwrap();
    let t1 = db.timelog_create(&a_timelog_create(u.id, "one")).unwrap();
    let _t2 = db.timelog_create(&a_timelog_create(u.id, "two")).unwrap();
    let patch = TimelogPatch {
        title: None,
        description: None,
        finished_at: Some("2024-01-01T09:00:00Z".to_string()),
    };
    db.timelog_update(&TimelogQuery::new_single_id(t1.id), &patch).unwrap();
    let q = TimelogQuery {
        filter: Some(TimelogFilter::UserId(u.id).and(TimelogFilter::IsFinished(true))),
        limit: 100,
        offset: 0,
        order: vec![],
    };
    let finished = db.timelogs(&q).unwrap();
    assert_eq!(finished.len(), 1);
    assert_eq!(finished[0].id, t1.id);
}
