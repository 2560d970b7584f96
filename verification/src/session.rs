//! Session lifecycle decisions: starting a work session and finishing
//! one. Both are read-then-write checks against the store; a validation
//! failure changes nothing.

use vstd::prelude::*;
use vstd::string::StrSliceExecFns;

use crate::db::Db;
use crate::db::timelog_by_id;
use crate::db::user_active_timelogs;
use crate::errors::AppError;
use crate::strutil::trim_spec;
use crate::strutil::trim_str;
use crate::types::Timelog;
use crate::types::TimelogCreate;
use crate::types::TimelogPatch;
use crate::types::TimelogQuery;
use crate::types::TimelogV;
use crate::types::User;
use crate::types::timelog_matches_query;

verus! {

/// Whether the store holds a running session for `user_id`.
pub open spec fn has_active_timelog(model: Seq<TimelogV>, user_id: u64) -> bool {
    exists|i: int|
        0 <= i < model.len() && (#[trigger] model[i]).user_id == user_id
            && model[i].finished_at is None
}

/// Start a session titled `title` (trimmed) for `user` at time `now`.
/// Rejected when the trimmed title is empty or the user already has a
/// running session; a rejected start creates no record.
pub fn try_start<D: Db>(db: &mut D, user: &User, title: &str, now: &str) -> (r: Result<
    Timelog,
    AppError,
>)
    ensures
        (match r {
            Ok(t) => trim_spec(title@).len() > 0 && !has_active_timelog(
                old(db).db_timelogs(),
                user.id,
            ) && t@.user_id == user.id && t@.title == trim_spec(title@)
                && t@.finished_at is None && t@.started_at == now@ && t@.created_at == now@
                && t@.description is None && final(db).db_timelogs() == old(db).db_timelogs().push(t@),
            Err(e) => e is Validation || e is Backend,
        }),
        trim_spec(title@).len() == 0 ==> (r matches Err(e) && e matches AppError::Validation(m)
            && m@ == "Title may not be empty"@),
        (r matches Err(e) && e matches AppError::Validation(m) && m@
            == "Title may not be empty"@) ==> trim_spec(title@).len() == 0,
        has_active_timelog(old(db).db_timelogs(), user.id) ==> !(r is Ok),
        (trim_spec(title@).len() > 0 && !has_active_timelog(old(db).db_timelogs(), user.id))
            ==> (r is Ok || (r matches Err(e) && e is Backend)),
        (r matches Err(e) && e is Validation) ==> final(db).db_timelogs() == old(db).db_timelogs() && final(db).db_users() == old(db).db_users(),
        r matches Err(e) ==> (e matches AppError::Validation(m) ==> (m@
            == "Title may not be empty"@ || m@ == "Other running tasks - finish them first!"@)),
        (r matches Err(e) && e matches AppError::Validation(m) && m@
            == "Other running tasks - finish them first!"@) ==> has_active_timelog(
            old(db).db_timelogs(),
            user.id,
        ),
{
    proof {
        broadcast use vstd::string::group_string_axioms;

        reveal_strlit("Title may not be empty");
        reveal_strlit("Other running tasks - finish them first!");
        assert("Title may not be empty"@.len() == 22);
        assert("Other running tasks - finish them first!"@.len() == 40);
    }
    let title_t = trim_str(title);
    if title_t.as_str().is_empty() {
        return Err(AppError::Validation("Title may not be empty".to_owned()));
    }
    let q = user_active_timelogs(user.id);
    let active = match db.timelogs(&q) {
        Ok(a) => a,
        Err(e) => {
            return Err(AppError::Backend(e));
        },
    };
    if active.len() > 0 {
        proof {
            assert(timelog_matches_query(active@[0]@, q));
            assert(db.db_timelogs().contains(active@[0]@));
            let i = choose|i: int|
                0 <= i < db.db_timelogs().len() && db.db_timelogs()[i] == active@[0]@;
            assert(has_active_timelog(db.db_timelogs(), user.id));
        }
        return Err(AppError::Validation("Other running tasks - finish them first!".to_owned()));
    }
    proof {
        assert(!has_active_timelog(db.db_timelogs(), user.id)) by {
            if has_active_timelog(db.db_timelogs(), user.id) {
                let i = choose|i: int|
                    0 <= i < db.db_timelogs().len() && (#[trigger] db.db_timelogs()[i]).user_id
                        == user.id && db.db_timelogs()[i].finished_at is None;
                assert(timelog_matches_query(db.db_timelogs()[i], q));
            }
        }
    }
    let create = TimelogCreate {
        user_id: user.id,
        title: title_t,
        description: None,
        created_at: now.to_owned(),
        started_at: now.to_owned(),
    };
    match db.timelog_create(&create) {
        Ok(t) => Ok(t),
        Err(e) => Err(AppError::Backend(e)),
    }
}

/// Finish the session with id `timelog_id` at time `now`. Rejected when
/// the session does not exist or is already finished; on success the
/// stored row's finish time is exactly `now`.
pub fn try_finish<D: Db>(db: &mut D, timelog_id: u64, now: &str) -> (r: Result<Timelog, AppError>)
    ensures
        (match r {
            Ok(t) => t@.id == timelog_id && t@.finished_at == Some(now@) && final(db).db_timelogs().contains(t@) && (exists|i: int|
                0 <= i < old(db).db_timelogs().len() && (#[trigger] old(db).db_timelogs()[i]).id
                    == timelog_id && old(db).db_timelogs()[i].finished_at is None),
            Err(e) => e is Validation || e is Backend || e is NotFound,
        }),
        r matches Err(e) ==> (e matches AppError::Validation(m) ==> m@
            == "Log entry already closed"@),
        (r matches Err(e) && e is Validation) ==> exists|i: int|
            0 <= i < old(db).db_timelogs().len() && (#[trigger] old(db).db_timelogs()[i]).id
                == timelog_id && old(db).db_timelogs()[i].finished_at is Some,
        ((exists|i: int|
            0 <= i < old(db).db_timelogs().len() && (#[trigger] old(db).db_timelogs()[i]).id
                == timelog_id) && (forall|i: int|
            0 <= i < old(db).db_timelogs().len() && (#[trigger] old(db).db_timelogs()[i]).id
                == timelog_id ==> old(db).db_timelogs()[i].finished_at is None)) ==> (r is Ok
            || (r matches Err(e) && e is Backend)),
        (r matches Err(e) && (e is Validation || e is NotFound)) ==> final(db).db_timelogs()
            == old(db).db_timelogs() && final(db).db_users() == old(db).db_users(),
        ((exists|i: int|
            0 <= i < old(db).db_timelogs().len() && (#[trigger] old(db).db_timelogs()[i]).id
                == timelog_id) && (forall|i: int|
            0 <= i < old(db).db_timelogs().len() && (#[trigger] old(db).db_timelogs()[i]).id
                == timelog_id ==> old(db).db_timelogs()[i].finished_at is Some)) ==> (r matches Err(e) && (e is Backend || e is Validation)),
        (forall|i: int|
            0 <= i < old(db).db_timelogs().len() ==> (#[trigger] old(db).db_timelogs()[i]).id
                != timelog_id) ==> (r matches Err(e) && (e is Backend || e is NotFound)),
{
    let q = timelog_by_id(timelog_id);
    let rows = match db.timelogs(&q) {
        Ok(rws) => rws,
        Err(e) => {
            return Err(AppError::Backend(e));
        },
    };
    if rows.len() == 0 {
        proof {
            if exists|i: int|
                0 <= i < db.db_timelogs().len() && (#[trigger] db.db_timelogs()[i]).id
                    == timelog_id {
                let i = choose|i: int|
                    0 <= i < db.db_timelogs().len() && (#[trigger] db.db_timelogs()[i]).id
                        == timelog_id;
                assert(timelog_matches_query(db.db_timelogs()[i], q));
            }
        }
        return Err(AppError::NotFound("Timelog not found".to_owned()));
    }
    proof {
        assert(timelog_matches_query(rows@[0]@, q));
        assert(rows@[0]@.id == timelog_id);
    }
    if rows[0].finished_at.is_some() {
        proof {
            assert(db.db_timelogs().contains(rows@[0]@));
            let i = choose|i: int|
                0 <= i < db.db_timelogs().len() && db.db_timelogs()[i] == rows@[0]@;
            assert((db.db_timelogs()[i]).id == timelog_id
                && db.db_timelogs()[i].finished_at is Some);
        }
        return Err(AppError::Validation("Log entry already closed".to_owned()));
    }
    proof {
        assert(db.db_timelogs().contains(rows@[0]@));
        let i = choose|i: int| 0 <= i < db.db_timelogs().len() && db.db_timelogs()[i] == rows@[0]@;
        assert((db.db_timelogs()[i]).id == timelog_id && db.db_timelogs()[i].finished_at is None);
    }
    let selector = TimelogQuery::new_single_id(timelog_id);
    let patch = TimelogPatch { title: None, description: None, finished_at: Some(now.to_owned()) };
    let ghost pre = db.db_timelogs();
    let out = match db.timelog_update(&selector, &patch) {
        Ok(o) => o,
        Err(e) => {
            return Err(AppError::Backend(e));
        },
    };
    proof {
        // The row read above matches the selector, so the update echoes at
        // least one row.
        let i = choose|i: int| 0 <= i < pre.len() && (#[trigger] pre[i]).id == timelog_id;
        assert(timelog_matches_query(pre[i], selector));
        assert(out@.len() > 0);
    }
    let t = out[0].clone();
    proof {
        assert(t@.finished_at == Some(now@));
        assert(t@.id == timelog_id);
    }
    Ok(t)
}

/// A session finished for a user matches that user's finished-sessions
/// query: the finished row shows up in a subsequent list filtered for
/// finished sessions.
pub proof fn lemma_finished_session_listed(t: TimelogV, uid: u64, q: TimelogQuery)
    requires
        t.user_id == uid,
        t.finished_at is Some,
        forall|x: TimelogV|
            #[trigger] timelog_matches_query(x, q) <==> (x.user_id == uid
                && x.finished_at is Some),
    ensures
        timelog_matches_query(t, q),
{
}

} // verus!
