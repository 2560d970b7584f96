//! The session lifecycle against the in-memory store: single active
//! session, finishing, and the finished list.

use timely_server::auth::Signup;
use timely_server::auth::user_signup;
use timely_server::db::Db;
use timely_server::db::user_active_timelogs;
use timely_server::db::user_finished_timelogs;
use timely_server::errors::AppError;
use timely_server::memdb::MemDb;
use timely_server::session::try_finish;
use timely_server::session::try_start;
use timely_server::types::User;

fn user_in(db: &mut MemDb) -> User {
    user_signup(
        db,
        Signup {
            username: "bob".to_string(),
            email: "bob@example.com".to_string(),
            password: "hunter2222".to_string(),
        },
    )
    .unwrap()
}

#[test]
fn start_rejects_an_empty_title() {
    let mut db = MemDb::new();
    let u = user_in(&mut db);
    let r = try_start(&mut db, &u, "   ", "2024-01-01T10:00:00Z");
    match r {
        Err(AppError::Validation(m)) => assert_eq!(m, "Title may not be empty"),
        _ => panic!("expected a validation error"),
    }
    assert_eq!(db.timelogs(&user_active_timelogs(u.id)).unwrap().len(), 0);
}

#[test]
fn start_creates_an_active_timelog() {
    let mut db = MemDb::new();
    let u = user_in(&mut db);
    let t = try_start(&mut db, &u, "  write spec  ", "2024-01-01T10:00:00Z").unwrap();
    assert_eq!(t.user_id, u.id);
    assert_eq!(t.title, "write spec");
    assert_eq!(t.started_at, "2024-01-01T10:00:00Z");
    assert_eq!(t.created_at, "2024-01-01T10:00:00Z");
    assert!(t.finished_at.is_none());
    let active = db.timelogs(&user_active_timelogs(u.id)).unwrap();
    assert_eq!(active.len(), 1);
    assert_eq!(active[0].id, t.id);
}

#[test]
fn second_start_fails_and_creates_no_record() {
    let mut db = MemDb::new();
    let u = user_in(&mut db);
    try_start(&mut db, &u, "one", "2024-01-01T10:00:00Z").unwrap();
    let r = try_start(&mut db, &u, "two", "2024-01-01T11:00:00Z");
    match r {
        Err(AppError::Validation(m)) => {
            assert_eq!(m, "Other running tasks - finish them first!")
        },
        _ => panic!("expected a validation error"),
    }
    // no new record: still exactly one timelog for the user
    let active = db.timelogs(&user_active_timelogs(u.id)).unwrap();
    assert_eq!(active.len(), 1);
    assert_eq!(active[0].title, "one");
}

#[test]
fn finish_sets_the_finish_time_and_shows_in_finished_list() {
    let mut db = MemDb::new();
    let u = user_in(&mut db);
    let t = try_start(&mut db, &u, "work", "2024-01-01T10:00:00Z").unwrap();
    let done = try_finish(&mut db, t.id, "2024-01-01T12:34:56Z").unwrap();
    assert_eq!(done.id, t.id);
    assert_eq!(done.finished_at.as_deref(), Some("2024-01-01T12:34:56Z"));
    let finished = db.timelogs(&user_finished_timelogs(u.id)).unwrap();
    assert_eq!(finished.len(), 1);
    assert_eq!(finished[0].id, t.id);
    assert_eq!(finished[0].finished_at.as_deref(), Some("2024-01-01T12:34:56Z"));
    // and it no longer counts as active
    assert_eq!(db.timelogs(&user_active_timelogs(u.id)).unwrap().len(), 0);
}

#[test]
fn finishing_twice_is_a_validation_error() {
    let mut db = MemDb::new();
    let u = user_in(&mut db);
    let t = try_start(&mut db, &u, "work", "2024-01-01T10:00:00Z").unwrap();
    try_finish(&mut db, t.id, "2024-01-01T12:00:00Z").unwrap();
    let again = try_finish(&mut db, t.id, "2024-01-01T13:00:00Z");
    match again {
        Err(AppError::Validation(m)) => assert_eq!(m, "Log entry already closed"),
        _ => panic!("expected a validation error"),
    }
    // the earlier finish time is kept
    let finished = db.timelogs(&user_finished_timelogs(u.id)).unwrap();
    assert_eq!(finished[0].finished_at.as_deref(), Some("2024-01-01T12:00:00Z"));
}

#[test]
fn finishing_an_unknown_timelog_is_not_found() {
    let mut db = MemDb::new();
    let _u = user_in(&mut db);
    let r = try_finish(&mut db, 999, "2024-01-01T12:00:00Z");
    match r {
        Err(AppError::NotFound(m)) => assert_eq!(m, "Timelog not found"),
        _ => panic!("expected not-found"),
    }
}

#[test]
fn a_second_user_can_start_while_the_first_is_active() {
    let mut db = MemDb::new();
    let u1 = user_in(&mut db);
    let u2 = user_signup(
        &mut db,
        Signup {
            username: "alice".to_string(),
            email: "alice@example.com".to_string(),
            password: "hunter2222".to_string(),
        },
    )
    .unwrap();
    try_start(&mut db, &u1, "one", "2024-01-01T10:00:00Z").unwrap();
    let r = try_start(&mut db, &u2, "two", "2024-01-01T10:05:00Z");
    assert!(r.is_ok());
}
