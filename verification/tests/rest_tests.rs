//! Request paths, URL resolution, pagination header, and error mapping.

use timely_server::db::timelog_by_id;
use timely_server::db::user_active_timelogs;
use timely_server::db::user_finished_timelogs;
use timely_server::errors::ApiError;
use timely_server::errors::BackendError;
use timely_server::rest::decode_failure;
use timely_server::rest::first_user;
use timely_server::rest::mutation_error;
use timely_server::rest::normalize_endpoint;
use timely_server::rest::range_header;
use timely_server::rest::resolve_url;
use timely_server::rest::single_created_timelog;
use timely_server::rest::single_created_user;
use timely_server::rest::status_is_success;
use timely_server::rest::timelog_update_path;
use timely_server::rest::timelogs_path;
use timely_server::rest::user_path;
use timely_server::rest::users_path;
use timely_server::rest::check_patch_echo;
use timely_server::rest::row_shows_patch;
use timely_server::types::Timelog;
use timely_server::types::TimelogPatch;
use timely_server::types::TimelogQuery;
use timely_server::types::User;
use timely_server::types::UserFilter;
use timely_server::types::UserQuery;

#[test]
fn endpoint_normalization_strips_one_trailing_slash() {
    assert_eq!(normalize_endpoint("https://x.example/"), "https://x.example");
    assert_eq!(normalize_endpoint("https://x.example"), "https://x.example");
}

#[test]
fn url_resolution_makes_exactly_one_slash() {
    assert_eq!(resolve_url("https://x.example", "/users?a=1"), "https://x.example/users?a=1");
    assert_eq!(resolve_url("https://x.example", "users?a=1"), "https://x.example/users?a=1");
}

#[test]
fn range_header_is_offset_dash_limit() {
    // carried literally: the second number is the limit, not an end offset
    assert_eq!(range_header(0, 100), "0-100");
    assert_eq!(range_header(20, 50), "20-50");
}

#[test]
fn user_paths_carry_filter_and_wildcard_select() {
    assert_eq!(user_path(&UserFilter::Id(7)), "/users?id=eq.7&select=*");
    assert_eq!(
        user_path(&UserFilter::Name("bob".to_string())),
        "/users?username=eq.bob&select=*"
    );
    let q = UserQuery { filter: None, limit: 10, offset: 0 };
    assert_eq!(users_path(&q), "/users?select=*");
}

#[test]
fn timelog_paths_carry_filters_orders_and_select() {
    assert_eq!(
        timelogs_path(&user_active_timelogs(3)),
        "/timelogs?user_id=eq.3&finished_at=is.null&order=started_at.desc&select=*"
    );
    assert_eq!(
        timelogs_path(&user_finished_timelogs(3)),
        "/timelogs?user_id=eq.3&finished_at=not.is.null&order=started_at.desc&select=*"
    );
    assert_eq!(timelogs_path(&timelog_by_id(9)), "/timelogs?id=eq.9&select=*");
    assert_eq!(
        timelog_update_path(&TimelogQuery::new_single_id(9)),
        "/timelogs?id=eq.9&select=*"
    );
}

#[test]
fn status_classification() {
    assert!(status_is_success(200));
    assert!(status_is_success(201));
    assert!(status_is_success(299));
    assert!(!status_is_success(199));
    assert!(!status_is_success(300));
    assert!(!status_is_success(404));
    assert!(!status_is_success(500));
}

#[test]
fn mutation_errors_map_parsed_payloads_and_fall_back() {
    let api = ApiError {
        message: "duplicate key".to_string(),
        code: "23505".to_string(),
        details: None,
        hint: None,
    };
    match mutation_error(Some(api)) {
        BackendError::Api(e) => assert_eq!(e.message, "duplicate key"),
        _ => panic!("expected the structured error"),
    }
    match mutation_error(None) {
        BackendError::Transport(m) => assert_eq!(m, "api request failed "),
        _ => panic!("expected the generic failure"),
    }
    match decode_failure() {
        BackendError::Decode(m) => assert_eq!(m, "could not deserialize response body"),
        _ => panic!("expected a decode error"),
    }
}

fn a_user(id: u64) -> User {
    User {
        id,
        username: "u".to_string(),
        email: "e@f".to_string(),
        password_hash: "h".to_string(),
        created_at: "2024-01-01T00:00:00Z".to_string(),
    }
}

#[test]
fn row_extraction_helpers() {
    assert!(first_user(vec![]).is_none());
    assert_eq!(first_user(vec![a_user(1), a_user(2)]).unwrap().id, 1);
    assert_eq!(single_created_user(vec![a_user(5)]).unwrap().id, 5);
    match single_created_user(vec![]) {
        Err(BackendError::Decode(m)) => assert_eq!(m, "API returned invalid data"),
        _ => panic!("expected a decode error"),
    }
    match single_created_timelog(vec![]) {
        Err(BackendError::Decode(m)) => assert_eq!(m, "No item in response"),
        _ => panic!("expected a decode error"),
    }
}

#[test]
fn error_messages_render() {
    let api = ApiError {
        message: "boom".to_string(),
        code: "c".to_string(),
        details: None,
        hint: None,
    };
    assert_eq!(api.describe(), "Supabase API error: boom");
    let e = timely_server::errors::AppError::Validation("bad input".to_string());
    assert_eq!(e.message(), "bad input");
    let p = timely_server::errors::PublicError::msg("shown to the user");
    assert_eq!(p.message(), "shown to the user");
}

#[test]
fn patch_echo_checking_accepts_patched_rows_and_rejects_stale_ones() {
    let patch = TimelogPatch {
        title: None,
        description: None,
        finished_at: Some("2024-01-01T12:00:00Z".to_string()),
    };
    let good = Timelog {
        id: 1,
        user_id: 1,
        title: "w".to_string(),
        description: None,
        created_at: "2024-01-01T10:00:00Z".to_string(),
        started_at: "2024-01-01T10:00:00Z".to_string(),
        finished_at: Some("2024-01-01T12:00:00Z".to_string()),
    };
    let stale = Timelog { finished_at: None, ..good.clone() };
    assert!(row_shows_patch(&good, &patch));
    assert!(!row_shows_patch(&stale, &patch));
    assert!(check_patch_echo(vec![good.clone()], &patch).is_ok());
    match check_patch_echo(vec![good, stale], &patch) {
        Err(BackendError::Decode(m)) => assert_eq!(m, "patched row does not show the patch"),
        _ => panic!("expected the echo check to fail"),
    }
}
