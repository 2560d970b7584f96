//! The repository capability contract: read, list, create and update over
//! the two entities, independent of the backing store.
//!
//! The trait models the store's contents as sequences of record views;
//! every method states what a result means relative to that model. Any
//! call may fail with a `BackendError` — success is never owed, since the
//! production implementation talks to a remote backend.

use vstd::prelude::*;

use crate::errors::BackendError;
use crate::types::Direction;
use crate::types::Order;
use crate::types::Timelog;
use crate::types::TimelogCreate;
use crate::types::TimelogFilter;
use crate::types::TimelogId;
use crate::types::TimelogOrder;
use crate::types::TimelogPatch;
use crate::types::TimelogQuery;
use crate::types::TimelogV;
use crate::types::User;
use crate::types::UserCreate;
use crate::types::UserFilter;
use crate::types::UserId;
use crate::types::UserQuery;
use crate::types::UserV;
use crate::types::patch_applied;
use crate::types::timelog_matches;
use crate::types::seq_filters_match;
use crate::types::lemma_seq_filters_match_iff;
use crate::types::timelog_matches_query;
use crate::types::user_matches;
use crate::types::user_matches_query;

verus! {

/// Whether some element of `ts` has view `t`.
pub open spec fn tv_contains(ts: Seq<Timelog>, t: TimelogV) -> bool {
    exists|k: int| 0 <= k < ts.len() && ts[k]@ == t
}

/// Store capabilities over users and timelogs.
///
/// `db_users` / `db_timelogs` are the store's rows, as an abstract model;
/// reads are sound (and, for unpaginated queries, complete) with respect
/// to it, and writes say how they change it.
pub trait Db: Sized {
    /// The store's user rows. The default model is empty; a verified
    /// implementation overrides it.
    open spec fn db_users(&self) -> Seq<UserV> {
        Seq::empty()
    }

    /// The store's timelog rows. The default model is empty; a verified
    /// implementation overrides it.
    open spec fn db_timelogs(&self) -> Seq<TimelogV> {
        Seq::empty()
    }

    /// Fetch at most one user matching `filter`.
    fn user(&self, filter: &UserFilter) -> (r: Result<Option<User>, BackendError>)
        ensures
            (match r {
                Ok(Some(u)) => user_matches(u@, *filter) && self.db_users().contains(u@),
                Ok(None) => forall|i: int|
                    0 <= i < self.db_users().len() ==> !user_matches(
                        #[trigger] self.db_users()[i],
                        *filter,
                    ),
                Err(_) => true,
            }),
    ;

    /// List users matching the query's filter.
    fn users(&self, query: &UserQuery) -> (r: Result<Vec<User>, BackendError>)
        ensures
            (match r {
                Ok(us) => forall|i: int|
                    0 <= i < us@.len() ==> user_matches_query((#[trigger] us@[i])@, *query)
                        && self.db_users().contains(us@[i]@),
                Err(_) => true,
            }),
    ;

    /// Insert a user row; the store assigns id and creation time and
    /// echoes the stored row.
    fn user_create(&mut self, user: &UserCreate) -> (r: Result<User, BackendError>)
        ensures
            (match r {
                Ok(u) => u@.username == user.username@ && u@.email == user.email@
                    && u@.password_hash == user.password_hash@ && final(self).db_users()
                    == old(self).db_users().push(u@) && final(self).db_timelogs() == old(self).db_timelogs(),
                Err(_) => true,
            }),
    ;

    /// List timelogs matching the query's filter. A result is sound; for
    /// a query reading from the start it is also complete: an empty
    /// result means nothing matches, and when no more rows match than the
    /// limit allows, every matching row is present.
    fn timelogs(&self, query: &TimelogQuery) -> (r: Result<Vec<Timelog>, BackendError>)
        ensures
            (match r {
                Ok(ts) => (forall|i: int|
                    0 <= i < ts@.len() ==> timelog_matches_query((#[trigger] ts@[i])@, *query)
                        && self.db_timelogs().contains(ts@[i]@)) && (query.offset == 0
                    && query.limit > 0 && ts@.len() == 0 ==> forall|i: int|
                    0 <= i < self.db_timelogs().len() ==> !timelog_matches_query(
                        #[trigger] self.db_timelogs()[i],
                        *query,
                    )) && (query.offset == 0 && self.db_timelogs().filter(
                    |t: TimelogV| timelog_matches_query(t, *query),
                ).len() <= query.limit ==> forall|t: TimelogV|
                    self.db_timelogs().contains(t) && #[trigger] timelog_matches_query(t, *query)
                        ==> tv_contains(ts@, t)),
                Err(_) => true,
            }),
    ;

    /// Insert a timelog row; the store assigns the id, echoes the stored
    /// row, and the new row starts unfinished.
    fn timelog_create(&mut self, log: &TimelogCreate) -> (r: Result<Timelog, BackendError>)
        ensures
            (match r {
                Ok(t) => t@.user_id == log.user_id && t@.title == log.title@ && t@.description
                    == log.description.deep_view() && t@.created_at == log.created_at@
                    && t@.started_at == log.started_at@ && t@.finished_at is None
                    && final(self).db_timelogs() == old(self).db_timelogs().push(t@) && final(self).db_users()
                    == old(self).db_users(),
                Err(_) => true,
            }),
    ;

    /// Patch the rows matching `selector`'s filter and return the patched
    /// rows. Fields absent from the patch are untouched. When a matching
    /// row exists and the selector reads from the start, the result is
    /// non-empty.
    fn timelog_update(&mut self, selector: &TimelogQuery, patch: &TimelogPatch) -> (r: Result<
        Vec<Timelog>,
        BackendError,
    >)
        ensures
            (match r {
                Ok(ts) => final(self).db_users() == old(self).db_users() && (forall|i: int|
                    0 <= i < ts@.len() ==> patch_applied((#[trigger] ts@[i])@, *patch)
                        && final(self).db_timelogs().contains(ts@[i]@)) && (selector.filter matches Some(
                    TimelogFilter::Id(id),
                ) ==> forall|i: int| 0 <= i < ts@.len() ==> (#[trigger] ts@[i])@.id == id) && (selector.offset == 0
                    && selector.limit > 0 && (exists|j: int|
                    0 <= j < old(self).db_timelogs().len() && timelog_matches_query(
                        #[trigger] old(self).db_timelogs()[j],
                        *selector,
                    )) ==> ts@.len() > 0),
                Err(_) => true,
            }),
    ;
}

/// The query for a user's running sessions: unfinished timelogs of that
/// user, newest started first.
pub fn user_active_timelogs(user_id: UserId) -> (r: TimelogQuery)
    ensures
        r.limit == 100 && r.offset == 0,
        r.filter matches Some(f) && f matches TimelogFilter::And(items) && items@.len() == 2
            && items@[0] == TimelogFilter::UserId(user_id) && items@[1]
            == TimelogFilter::IsFinished(false),
        forall|t: TimelogV|
            #[trigger] timelog_matches_query(t, r) <==> (t.user_id == user_id
                && t.finished_at is None),
        r.order@.len() == 1 && r.order@[0].expr == TimelogOrder::StartedAt && r.order@[0].direction
            == Direction::Desc,
{
    let filter = TimelogFilter::UserId(user_id).and(TimelogFilter::IsFinished(false));
    let order: Vec<Order<TimelogOrder>> = vec![Order::desc(TimelogOrder::StartedAt)];
    let r = TimelogQuery { filter: Some(filter), limit: 100, offset: 0, order };
    proof {
        let f = r.filter->Some_0;
        let items = f->And_0;
        assert(items@.len() == 2);
        assert(items@[0] == TimelogFilter::UserId(user_id));
        assert(items@[1] == TimelogFilter::IsFinished(false));
        assert forall|t: TimelogV| #[trigger]
            timelog_matches_query(t, r) <==> (t.user_id == user_id
                && t.finished_at is None) by {
            lemma_seq_filters_match_iff(t, items@);
            if timelog_matches_query(t, r) {
                assert(timelog_matches(t, items@[0]));
                assert(timelog_matches(t, items@[1]));
            }
            if t.user_id == user_id && t.finished_at is None {
                assert forall|i: int| 0 <= i < items@.len() implies #[trigger] timelog_matches(
                    t,
                    items@[i],
                ) by {
                    if i == 0 {
                        assert(timelog_matches(t, items@[0]));
                    } else {
                        assert(timelog_matches(t, items@[1]));
                    }
                }
                assert(seq_filters_match(t, items@));
            }
        }
    }
    r
}

/// The query for a user's completed sessions: finished timelogs of that
/// user, newest started first.
pub fn user_finished_timelogs(user_id: UserId) -> (r: TimelogQuery)
    ensures
        r.limit == 100 && r.offset == 0,
        r.filter matches Some(f) && f matches TimelogFilter::And(items) && items@.len() == 2
            && items@[0] == TimelogFilter::UserId(user_id) && items@[1]
            == TimelogFilter::IsFinished(true),
        forall|t: TimelogV|
            #[trigger] timelog_matches_query(t, r) <==> (t.user_id == user_id
                && t.finished_at is Some),
        r.order@.len() == 1 && r.order@[0].expr == TimelogOrder::StartedAt && r.order@[0].direction
            == Direction::Desc,
{
    let filter = TimelogFilter::UserId(user_id).and(TimelogFilter::IsFinished(true));
    let order: Vec<Order<TimelogOrder>> = vec![Order::desc(TimelogOrder::StartedAt)];
    let r = TimelogQuery { filter: Some(filter), limit: 100, offset: 0, order };
    proof {
        let f = r.filter->Some_0;
        let items = f->And_0;
        assert(items@.len() == 2);
        assert(items@[0] == TimelogFilter::UserId(user_id));
        assert(items@[1] == TimelogFilter::IsFinished(true));
        assert forall|t: TimelogV| #[trigger]
            timelog_matches_query(t, r) <==> (t.user_id == user_id
                && t.finished_at is Some) by {
            lemma_seq_filters_match_iff(t, items@);
            if timelog_matches_query(t, r) {
                assert(timelog_matches(t, items@[0]));
                assert(timelog_matches(t, items@[1]));
            }
            if t.user_id == user_id && t.finished_at is Some {
                assert forall|i: int| 0 <= i < items@.len() implies #[trigger] timelog_matches(
                    t,
                    items@[i],
                ) by {
                    if i == 0 {
                        assert(timelog_matches(t, items@[0]));
                    } else {
                        assert(timelog_matches(t, items@[1]));
                    }
                }
                assert(seq_filters_match(t, items@));
            }
        }
    }
    r
}

/// The query for one timelog, by id.
pub fn timelog_by_id(id: TimelogId) -> (r: TimelogQuery)
    ensures
        r.limit == 1 && r.offset == 0 && r.order@.len() == 0,
        r.filter == Some(TimelogFilter::Id(id)),
        forall|t: TimelogV| #[trigger] timelog_matches_query(t, r) <==> t.id == id,
{
    TimelogQuery {
        filter: Some(TimelogFilter::Id(id)),
        limit: 1,
        offset: 0,
        order: Vec::new(),
    }
}

} // verus!
