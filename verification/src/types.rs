//! Domain records (users, timelogs) and the typed filter / order /
//! pagination descriptors that the query builder translates.
//!
//! Each record type has a mathematical view (`UserV`, `TimelogV`, ...) whose
//! fields are plain sequences and integers; all contracts speak over those
//! views. Timestamps are carried as their RFC 3339 text, which is also their
//! wire form.

use vstd::prelude::*;

verus! {

pub type UserId = u64;

pub type TimelogId = u64;

/// Mathematical view of a `User`.
#[verifier::ext_equal]
pub ghost struct UserV {
    pub id: UserId,
    pub username: Seq<char>,
    pub email: Seq<char>,
    pub password_hash: Seq<char>,
    pub created_at: Seq<char>,
}

/// An identity record, owned by the backend store.
#[derive(Debug)]
pub struct User {
    pub id: UserId,
    pub username: String,
    pub email: String,
    pub password_hash: String,
    pub created_at: String,
}

impl View for User {
    type V = UserV;

    open spec fn view(&self) -> UserV {
        UserV {
            id: self.id,
            username: self.username@,
            email: self.email@,
            password_hash: self.password_hash@,
            created_at: self.created_at@,
        }
    }
}

impl Clone for User {
    fn clone(&self) -> (r: Self)
        ensures
            r == *self,
    {
        User {
            id: self.id,
            username: self.username.clone(),
            email: self.email.clone(),
            password_hash: self.password_hash.clone(),
            created_at: self.created_at.clone(),
        }
    }
}

/// The fields of a user row to be inserted; id and creation time are
/// assigned by the backend.
#[derive(Debug)]
pub struct UserCreate {
    pub username: String,
    pub email: String,
    pub password_hash: String,
}

/// A tag a user can define (not reachable from any route yet).
#[derive(Debug)]
pub struct UserTag {
    pub id: u64,
    pub user_id: UserId,
    pub name: String,
    pub description: Option<String>,
    pub color: Option<String>,
    pub created_at: String,
    pub updated_at: String,
}

/// Mathematical view of a `Timelog`.
#[verifier::ext_equal]
pub ghost struct TimelogV {
    pub id: TimelogId,
    pub user_id: UserId,
    pub title: Seq<char>,
    pub description: Option<Seq<char>>,
    pub created_at: Seq<char>,
    pub started_at: Seq<char>,
    pub finished_at: Option<Seq<char>>,
}

/// A work session. `finished_at` is `None` while the session is active.
#[derive(Debug)]
pub struct Timelog {
    pub id: TimelogId,
    pub user_id: UserId,
    pub title: String,
    pub description: Option<String>,
    pub created_at: String,
    pub started_at: String,
    pub finished_at: Option<String>,
}

impl View for Timelog {
    type V = TimelogV;

    open spec fn view(&self) -> TimelogV {
        TimelogV {
            id: self.id,
            user_id: self.user_id,
            title: self.title@,
            description: self.description.deep_view(),
            created_at: self.created_at@,
            started_at: self.started_at@,
            finished_at: self.finished_at.deep_view(),
        }
    }
}

impl Clone for Timelog {
    fn clone(&self) -> (r: Self)
        ensures
            r == *self,
    {
        Timelog {
            id: self.id,
            user_id: self.user_id,
            title: self.title.clone(),
            description: clone_opt_string(&self.description),
            created_at: self.created_at.clone(),
            started_at: self.started_at.clone(),
            finished_at: clone_opt_string(&self.finished_at),
        }
    }
}

pub fn clone_opt_string(o: &Option<String>) -> (r: Option<String>)
    ensures
        r == *o,
{
    match o {
        Some(s) => Some(s.clone()),
        None => None,
    }
}

/// The fields of a timelog row to be inserted; id is assigned by the
/// backend and the new row starts unfinished.
#[derive(Debug)]
pub struct TimelogCreate {
    pub user_id: UserId,
    pub title: String,
    pub description: Option<String>,
    pub created_at: String,
    pub started_at: String,
}

/// A partial update: a field that is `None` is left untouched (it is
/// absent from the request body, not set to null).
#[derive(Debug)]
pub struct TimelogPatch {
    pub title: Option<String>,
    pub description: Option<String>,
    pub finished_at: Option<String>,
}

/// Which rows a timelog query selects; conjunctions nest.
#[derive(Debug)]
pub enum TimelogFilter {
    Id(TimelogId),
    UserId(UserId),
    IsFinished(bool),
    And(Vec<TimelogFilter>),
}

impl TimelogFilter {
    /// The conjunction of `self` and `other`.
    pub fn and(self, other: Self) -> (r: Self)
        ensures
            r matches TimelogFilter::And(items) && items@.len() == 2 && items@[0] == self
                && items@[1] == other,
    {
        let items: Vec<TimelogFilter> = vec![self, other];
        TimelogFilter::And(items)
    }
}

/// Whether timelog `t` satisfies filter `f`.
pub open spec fn timelog_matches(t: TimelogV, f: TimelogFilter) -> bool
    decreases f,
{
    match f {
        TimelogFilter::Id(id) => t.id == id,
        TimelogFilter::UserId(u) => t.user_id == u,
        TimelogFilter::IsFinished(flag) => (t.finished_at is Some) == flag,
        TimelogFilter::And(items) => seq_filters_match(t, items@),
    }
}

/// Whether `t` satisfies every filter of `s`.
pub open spec fn seq_filters_match(t: TimelogV, s: Seq<TimelogFilter>) -> bool
    decreases s,
{
    if s.len() == 0 {
        true
    } else {
        seq_filters_match(t, s.drop_last()) && timelog_matches(t, s.last())
    }
}

/// A conjunction holds exactly when each of its branches does.
pub proof fn lemma_seq_filters_match_iff(t: TimelogV, s: Seq<TimelogFilter>)
    ensures
        seq_filters_match(t, s) <==> (forall|i: int|
            0 <= i < s.len() ==> #[trigger] timelog_matches(t, s[i])),
    decreases s.len(),
{
    if s.len() > 0 {
        lemma_seq_filters_match_iff(t, s.drop_last());
        if seq_filters_match(t, s) {
            assert forall|i: int| 0 <= i < s.len() implies #[trigger] timelog_matches(
                t,
                s[i],
            ) by {
                if i < s.len() - 1 {
                    assert(s.drop_last()[i] == s[i]);
                    assert(timelog_matches(t, s.drop_last()[i]));
                } else {
                    assert(s[i] == s.last());
                }
            }
        } else {
            if !seq_filters_match(t, s.drop_last()) {
                let i = choose|i: int|
                    0 <= i < s.drop_last().len() && !timelog_matches(t, s.drop_last()[i]);
                assert(s.drop_last()[i] == s[i]);
                assert(!timelog_matches(t, s[i]));
            } else {
                assert(!timelog_matches(t, s[s.len() - 1]));
            }
        }
    }
}

#[derive(PartialEq, Eq, Structural, Clone, Copy, Debug)]
pub enum Direction {
    Asc,
    Desc,
}

/// One ordering step: a column expression and a direction.
#[derive(Clone, Copy, Debug)]
pub struct Order<T> {
    pub expr: T,
    pub direction: Direction,
}

impl<T> Order<T> {
    pub fn new(expr: T, direction: Direction) -> (r: Self)
        ensures
            r.expr == expr && r.direction == direction,
    {
        Order { expr, direction }
    }

    pub fn asc(expr: T) -> (r: Self)
        ensures
            r.expr == expr && r.direction == Direction::Asc,
    {
        Order::new(expr, Direction::Asc)
    }

    pub fn desc(expr: T) -> (r: Self)
        ensures
            r.expr == expr && r.direction == Direction::Desc,
    {
        Order::new(expr, Direction::Desc)
    }
}

/// The columns a timelog list can be ordered by.
#[derive(Clone, Copy, Debug)]
pub enum TimelogOrder {
    Id,
    StartedAt,
}

/// A full timelog selection: filter, pagination and ordering.
#[derive(Debug)]
pub struct TimelogQuery {
    pub filter: Option<TimelogFilter>,
    pub limit: u64,
    pub offset: u64,
    pub order: Vec<Order<TimelogOrder>>,
}

impl TimelogQuery {
    /// The default selection: everything, first 50 rows.
    pub fn new() -> (r: Self)
        ensures
            r.filter is None && r.limit == 50 && r.offset == 0 && r.order@.len() == 0,
    {
        TimelogQuery { filter: None, limit: 50, offset: 0, order: Vec::new() }
    }

    /// Select at most one row, by id.
    pub fn new_single_id(id: TimelogId) -> (r: Self)
        ensures
            r.filter == Some(TimelogFilter::Id(id)) && r.limit == 1 && r.offset == 0
                && r.order@.len() == 0,
    {
        TimelogQuery {
            filter: Some(TimelogFilter::Id(id)),
            limit: 1,
            offset: 0,
            order: Vec::new(),
        }
    }
}

/// Whether timelog `t` satisfies the filter of query `q` (pagination and
/// ordering do not narrow membership).
pub open spec fn timelog_matches_query(t: TimelogV, q: TimelogQuery) -> bool {
    match q.filter {
        None => true,
        Some(f) => timelog_matches(t, f),
    }
}

/// Whether `t` shows every field that patch `p` sets.
pub open spec fn patch_applied(t: TimelogV, p: TimelogPatch) -> bool {
    &&& (p.title matches Some(x) ==> t.title == x@)
    &&& (p.description matches Some(x) ==> t.description == Some(x@))
    &&& (p.finished_at matches Some(x) ==> t.finished_at == Some(x@))
}

/// Link row between a timelog and a user tag.
#[derive(Clone, Debug)]
pub struct TimelogUserTag {
    pub user_tag_id: u64,
    pub timelog_id: TimelogId,
}

/// Which user a user query selects.
#[derive(Debug)]
pub enum UserFilter {
    Id(UserId),
    Name(String),
}

/// Whether user `u` satisfies filter `f`.
pub open spec fn user_matches(u: UserV, f: UserFilter) -> bool {
    match f {
        UserFilter::Id(id) => u.id == id,
        UserFilter::Name(name) => u.username == name@,
    }
}

/// A full user selection: filter and pagination.
#[derive(Debug)]
pub struct UserQuery {
    pub filter: Option<UserFilter>,
    pub limit: u64,
    pub offset: u64,
}

/// Whether user `u` satisfies the filter of query `q`.
pub open spec fn user_matches_query(u: UserV, q: UserQuery) -> bool {
    match q.filter {
        None => true,
        Some(f) => user_matches(u, f),
    }
}

} // verus!
