//! An in-memory store implementing the repository contract, for use as a
//! test double. It keeps every row and proves the full `Db` contract,
//! and additionally that none of its calls ever fails; pagination and
//! ordering are not applied (every matching row is returned), which the
//! contract permits.

use vstd::prelude::*;
use vstd::pervasive::VecAdditionalExecFns;

use crate::db::Db;
use crate::db::tv_contains;
use crate::errors::BackendError;
use crate::strutil::str_eq;
use crate::types::Timelog;
use crate::types::TimelogCreate;
use crate::types::TimelogFilter;
use crate::types::TimelogPatch;
use crate::types::TimelogQuery;
use crate::types::TimelogV;
use crate::types::User;
use crate::types::UserCreate;
use crate::types::UserFilter;
use crate::types::UserQuery;
use crate::types::UserV;
use crate::types::clone_opt_string;
use crate::types::lemma_seq_filters_match_iff;
use crate::types::patch_applied;
use crate::types::seq_filters_match;
use crate::types::timelog_matches;
use crate::types::timelog_matches_query;
use crate::types::user_matches;
use crate::types::user_matches_query;

verus! {

/// Decide `user_matches` on concrete values.
pub fn user_matches_exec(u: &User, f: &UserFilter) -> (r: bool)
    ensures
        r == user_matches(u@, *f),
{
    match f {
        UserFilter::Id(id) => u.id == *id,
        UserFilter::Name(name) => str_eq(u.username.as_str(), name.as_str()),
    }
}

/// Decide `user_matches_query` on concrete values.
pub fn user_matches_query_exec(u: &User, q: &UserQuery) -> (r: bool)
    ensures
        r == user_matches_query(u@, *q),
{
    match &q.filter {
        Some(f) => user_matches_exec(u, f),
        None => true,
    }
}

/// Decide `timelog_matches` on concrete values.
#[verifier::loop_isolation(false)]
pub fn timelog_matches_exec(t: &Timelog, f: &TimelogFilter) -> (r: bool)
    ensures
        r == timelog_matches(t@, *f),
    decreases *f,
{
    match f {
        TimelogFilter::Id(id) => t.id == *id,
        TimelogFilter::UserId(u) => t.user_id == *u,
        TimelogFilter::IsFinished(flag) => t.finished_at.is_some() == *flag,
        TimelogFilter::And(items) => {
            let n = items.len();
            let mut i: usize = 0;
            while i < n
                invariant
                    n == items@.len(),
                    0 <= i <= n,
                    seq_filters_match(t@, items@.subrange(0, i as int)),
                decreases n - i,
            {
                proof {
                    assert(decreases_to!(*f => f->And_0));
                    assert(f->And_0 == *items);
                    assert(decreases_to!(*f => items@[i as int]));
                }
                if !timelog_matches_exec(t, &items[i]) {
                    proof {
                        lemma_seq_filters_match_iff(t@, items@);
                        assert(!timelog_matches(t@, items@[i as int]));
                    }
                    return false;
                }
                proof {
                    let p = items@.subrange(0, i + 1);
                    assert(p.drop_last() =~= items@.subrange(0, i as int));
                    assert(p.last() == items@[i as int]);
                }
                i = i + 1;
            }
            proof {
                assert(items@.subrange(0, n as int) =~= items@);
            }
            true
        },
    }
}

/// Decide `timelog_matches_query` on concrete values.
pub fn timelog_matches_query_exec(t: &Timelog, q: &TimelogQuery) -> (r: bool)
    ensures
        r == timelog_matches_query(t@, *q),
{
    match &q.filter {
        Some(f) => timelog_matches_exec(t, f),
        None => true,
    }
}

/// The view of a row after `p` is applied: fields the patch sets take its
/// values, the rest keep the row's.
pub open spec fn apply_patch_spec(t: TimelogV, p: TimelogPatch) -> TimelogV {
    TimelogV {
        title: (match p.title {
            Some(x) => x@,
            None => t.title,
        }),
        description: (match p.description {
            Some(x) => Some(x@),
            None => t.description,
        }),
        finished_at: (match p.finished_at {
            Some(x) => Some(x@),
            None => t.finished_at,
        }),
        ..t
    }
}

/// Apply a patch to one row.
pub fn apply_patch(t: &Timelog, p: &TimelogPatch) -> (r: Timelog)
    ensures
        r@ == apply_patch_spec(t@, *p),
{
    let r = Timelog {
        id: t.id,
        user_id: t.user_id,
        title: (match &p.title {
            Some(x) => x.clone(),
            None => t.title.clone(),
        }),
        description: (match &p.description {
            Some(x) => Some(x.clone()),
            None => clone_opt_string(&t.description),
        }),
        created_at: t.created_at.clone(),
        started_at: t.started_at.clone(),
        finished_at: (match &p.finished_at {
            Some(x) => Some(x.clone()),
            None => clone_opt_string(&t.finished_at),
        }),
    };
    proof {
        assert(r@ =~= apply_patch_spec(t@, *p));
    }
    r
}

/// In-memory store: rows live in vectors, ids are handed out in order
/// (saturating at the largest id, which no contract forbids).
pub struct MemDb {
    users: Vec<User>,
    timelogs: Vec<Timelog>,
    next_user_id: u64,
    next_timelog_id: u64,
}

impl MemDb {
    /// An empty store.
    pub fn new() -> (r: Self)
        ensures
            r.db_users() =~= Seq::<UserV>::empty(),
            r.db_timelogs() =~= Seq::<TimelogV>::empty(),
    {
        let r = MemDb { users: Vec::new(), timelogs: Vec::new(), next_user_id: 1, next_timelog_id: 1 };
        proof {
            assert(r.db_users() =~= Seq::<UserV>::empty());
            assert(r.db_timelogs() =~= Seq::<TimelogV>::empty());
        }
        r
    }
}

impl Db for MemDb {
    closed spec fn db_users(&self) -> Seq<UserV> {
        self.users@.map_values(|u: User| u@)
    }

    closed spec fn db_timelogs(&self) -> Seq<TimelogV> {
        self.timelogs@.map_values(|t: Timelog| t@)
    }

    #[verifier::loop_isolation(false)]
    fn user(&self, filter: &UserFilter) -> (r: Result<Option<User>, BackendError>)
        ensures
            r is Ok,
    {
        let n = self.users.len();
        let mut i: usize = 0;
        while i < n
            invariant
                0 <= i <= n,
                forall|j: int|
                    0 <= j < i ==> !user_matches(#[trigger] self.db_users()[j], *filter),
            decreases n - i,
        {
            if user_matches_exec(&self.users[i], filter) {
                let u = self.users[i].clone();
                proof {
                    assert(self.db_users()[i as int] == u@);
                }
                return Ok(Some(u));
            }
            i = i + 1;
        }
        Ok(None)
    }

    #[verifier::loop_isolation(false)]
    fn users(&self, query: &UserQuery) -> (r: Result<Vec<User>, BackendError>)
        ensures
            r is Ok,
    {
        let n = self.users.len();
        let mut out: Vec<User> = Vec::new();
        let mut i: usize = 0;
        while i < n
            invariant
                0 <= i <= n,
                forall|k: int|
                    0 <= k < out@.len() ==> user_matches_query((#[trigger] out@[k])@, *query)
                        && self.db_users().contains(out@[k]@),
            decreases n - i,
        {
            if user_matches_query_exec(&self.users[i], query) {
                let u = self.users[i].clone();
                proof {
                    assert(self.db_users()[i as int] == u@);
                }
                out.push(u);
            }
            i = i + 1;
        }
        Ok(out)
    }

    fn user_create(&mut self, user: &UserCreate) -> (r: Result<User, BackendError>)
        ensures
            r is Ok,
    {
        let u = User {
            id: self.next_user_id,
            username: user.username.clone(),
            email: user.email.clone(),
            password_hash: user.password_hash.clone(),
            created_at: String::new(),
        };
        if self.next_user_id < u64::MAX {
            self.next_user_id = self.next_user_id + 1;
        }
        let out = u.clone();
        self.users.push(u);
        proof {
            assert(self.db_users() =~= old(self).db_users().push(out@));
            assert(self.db_timelogs() =~= old(self).db_timelogs());
        }
        Ok(out)
    }

    #[verifier::loop_isolation(false)]
    fn timelogs(&self, query: &TimelogQuery) -> (r: Result<Vec<Timelog>, BackendError>)
        ensures
            r is Ok,
    {
        let n = self.timelogs.len();
        let mut out: Vec<Timelog> = Vec::new();
        let mut i: usize = 0;
        while i < n
            invariant
                0 <= i <= n,
                forall|k: int|
                    0 <= k < out@.len() ==> timelog_matches_query((#[trigger] out@[k])@, *query)
                        && self.db_timelogs().contains(out@[k]@),
                forall|j: int|
                    0 <= j < i && timelog_matches_query(
                        #[trigger] self.db_timelogs()[j],
                        *query,
                    ) ==> tv_contains(out@, self.db_timelogs()[j]),
            decreases n - i,
        {
            if timelog_matches_query_exec(&self.timelogs[i], query) {
                let t = self.timelogs[i].clone();
                proof {
                    assert(self.db_timelogs()[i as int] == t@);
                }
                let ghost out0 = out@;
                out.push(t);
                proof {
                    assert(forall|j: int|
                        0 <= j < i && tv_contains(out0, #[trigger] self.db_timelogs()[j])
                            ==> tv_contains(out@, self.db_timelogs()[j])) by {
                        assert(forall|k: int| 0 <= k < out0.len() ==> out@[k] == out0[k]);
                    }
                    assert(out@[out@.len() - 1]@ == self.db_timelogs()[i as int]);
                    assert(tv_contains(out@, self.db_timelogs()[i as int]));
                }
            }
            i = i + 1;
        }
        proof {
            assert forall|t: TimelogV|
                self.db_timelogs().contains(t) && #[trigger] timelog_matches_query(
                    t,
                    *query,
                ) implies tv_contains(out@, t) by {
                let j = choose|j: int|
                    0 <= j < self.db_timelogs().len() && self.db_timelogs()[j] == t;
                assert(tv_contains(out@, self.db_timelogs()[j]));
            }
            if out@.len() == 0 {
                assert forall|i2: int|
                    0 <= i2 < self.db_timelogs().len() implies !timelog_matches_query(
                    #[trigger] self.db_timelogs()[i2],
                    *query,
                ) by {
                    if timelog_matches_query(self.db_timelogs()[i2], *query) {
                        assert(tv_contains(out@, self.db_timelogs()[i2]));
                    }
                }
            }
        }
        Ok(out)
    }

    fn timelog_create(&mut self, log: &TimelogCreate) -> (r: Result<Timelog, BackendError>)
        ensures
            r is Ok,
    {
        let t = Timelog {
            id: self.next_timelog_id,
            user_id: log.user_id,
            title: log.title.clone(),
            description: clone_opt_string(&log.description),
            created_at: log.created_at.clone(),
            started_at: log.started_at.clone(),
            finished_at: None,
        };
        if self.next_timelog_id < u64::MAX {
            self.next_timelog_id = self.next_timelog_id + 1;
        }
        let out = t.clone();
        self.timelogs.push(t);
        proof {
            assert(self.db_timelogs() =~= old(self).db_timelogs().push(out@));
            assert(self.db_users() =~= old(self).db_users());
        }
        Ok(out)
    }

    #[verifier::loop_isolation(false)]
    fn timelog_update(&mut self, selector: &TimelogQuery, patch: &TimelogPatch) -> (r: Result<
        Vec<Timelog>,
        BackendError,
    >)
        ensures
            r is Ok,
    {
        let ghost tl0 = self.timelogs@;
        let n = self.timelogs.len();
        let mut out: Vec<Timelog> = Vec::new();
        let mut i: usize = 0;
        while i < n
            invariant
                0 <= i <= n,
                self.timelogs@.len() == n,
                self.users@ == old(self).users@,
                forall|j: int| i <= j < n ==> self.timelogs@[j] == #[trigger] tl0[j],
                forall|j: int|
                    0 <= j < i ==> (if timelog_matches_query((#[trigger] tl0[j])@, *selector) {
                        self.timelogs@[j]@ == apply_patch_spec(tl0[j]@, *patch)
                    } else {
                        self.timelogs@[j] == tl0[j]
                    }),
                forall|k: int|
                    0 <= k < out@.len() ==> patch_applied((#[trigger] out@[k])@, *patch)
                        && (exists|j: int| 0 <= j < i && self.timelogs@[j]@ == out@[k]@),
                (selector.filter matches Some(TimelogFilter::Id(id)) ==> forall|k: int|
                    0 <= k < out@.len() ==> (#[trigger] out@[k])@.id == id),
                forall|j: int|
                    0 <= j < i && timelog_matches_query((#[trigger] tl0[j])@, *selector)
                        ==> out@.len() > 0,
            decreases n - i,
        {
            if timelog_matches_query_exec(&self.timelogs[i], selector) {
                let patched = apply_patch(&self.timelogs[i], patch);
                let pc = patched.clone();
                let ghost out0 = out@;
                let ghost m_before = self.timelogs@;
                self.timelogs.set(i, patched);
                out.push(pc);
                proof {
                    assert(forall|k: int| 0 <= k < out0.len() ==> out@[k] == out0[k]);
                    assert(out@[out@.len() - 1]@ == apply_patch_spec(tl0[i as int]@, *patch));
                    assert(self.timelogs@[i as int]@ == apply_patch_spec(tl0[i as int]@, *patch));
                    assert(patch_applied(apply_patch_spec(tl0[i as int]@, *patch), *patch));
                    match &selector.filter {
                        Some(TimelogFilter::Id(id)) => {
                            assert(timelog_matches(tl0[i as int]@, TimelogFilter::Id(*id)));
                            assert(tl0[i as int]@.id == *id);
                        },
                        _ => {},
                    }
                    assert forall|k: int|
                        0 <= k < out0.len() implies (exists|j: int|
                        0 <= j < i + 1 && self.timelogs@[j]@ == (#[trigger] out@[k])@) by {
                        let j = choose|j: int| 0 <= j < i && m_before[j]@ == out0[k]@;
                        assert(self.timelogs@[j]@ == out@[k]@);
                    }
                }
            }
            i = i + 1;
        }
        proof {
            assert forall|k: int| 0 <= k < out@.len() implies final(self).db_timelogs().contains(
                (#[trigger] out@[k])@,
            ) by {
                let j = choose|j: int| 0 <= j < i && self.timelogs@[j]@ == out@[k]@;
                assert(self.db_timelogs()[j] == out@[k]@);
            }
            assert(self.db_users() =~= old(self).db_users());
            if selector.offset == 0 && selector.limit > 0 && (exists|j: int|
                0 <= j < old(self).db_timelogs().len() && timelog_matches_query(
                    #[trigger] old(self).db_timelogs()[j],
                    *selector,
                )) {
                let j = choose|j: int|
                    0 <= j < old(self).db_timelogs().len() && timelog_matches_query(
                        #[trigger] old(self).db_timelogs()[j],
                        *selector,
                    );
                assert(old(self).db_timelogs()[j] == tl0[j]@);
                assert(out@.len() > 0);
            }
        }
        Ok(out)
    }
}

} // verus!
