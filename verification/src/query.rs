//! The query builder: translates typed filter / order descriptors into the
//! REST backend's query-parameter language.
//!
//! Grammar: an equality filter on field `f` with value `v` becomes the
//! parameter `f = "eq.v"`; the boolean finished-state filter becomes
//! `finished_at = "not.is.null"` or `"is.null"`; a conjunction contributes
//! the union of its branches' parameters; each ordering step appends a
//! repeated `order` parameter `"column.asc"` / `"column.desc"` in input
//! sequence.

use vstd::prelude::*;
use vstd::multiset::Multiset;
use vstd::string::StrSliceExecFns;
use vstd::string::StringExecFns;

use crate::strutil::dec_str;
use crate::strutil::str_eq;
use crate::strutil::u64_to_string;
use crate::types::Direction;
use crate::types::Order;
use crate::types::TimelogFilter;
use crate::types::TimelogOrder;
use crate::types::TimelogQuery;
use crate::types::UserFilter;
use crate::types::UserQuery;

verus! {

/// One `(name, value)` query parameter.
pub type QueryPair = (Seq<char>, Seq<char>);

/// One entry of a `QueryMap`: a name and its values, in insertion order.
pub type QueryEntry = (Seq<char>, Seq<Seq<char>>);

/// A mapping from query-parameter name to one or more values. Repeated
/// values under one name are all preserved, in insertion order.
#[derive(Debug)]
pub struct QueryMap {
    entries: Vec<(String, Vec<String>)>,
}

/// Well-formedness of a query map: names are distinct and no entry is
/// empty.
pub open spec fn qm_wf(m: Seq<QueryEntry>) -> bool {
    &&& forall|i: int, j: int| 0 <= i < j < m.len() ==> #[trigger] m[i].0 != #[trigger] m[j].0
    &&& forall|i: int| 0 <= i < m.len() ==> #[trigger] m[i].1.len() > 0
}

/// The multiset of `(name, value)` pairs under one name.
pub open spec fn vals_mset(k: Seq<char>, vs: Seq<Seq<char>>) -> Multiset<QueryPair>
    decreases vs.len(),
{
    if vs.len() == 0 {
        Multiset::empty()
    } else {
        vals_mset(k, vs.drop_last()).insert((k, vs.last()))
    }
}

/// The multiset of all `(name, value)` pairs of a query map.
pub open spec fn qm_mset(m: Seq<QueryEntry>) -> Multiset<QueryPair>
    decreases m.len(),
{
    if m.len() == 0 {
        Multiset::empty()
    } else {
        qm_mset(m.drop_last()).add(vals_mset(m.last().0, m.last().1))
    }
}

/// The `(name, value)` pairs of a query map, flattened entry by entry.
pub open spec fn qm_pairs(m: Seq<QueryEntry>) -> Seq<QueryPair>
    decreases m.len(),
{
    if m.len() == 0 {
        Seq::empty()
    } else {
        qm_pairs(m.drop_last()) + m.last().1.map_values(|v: Seq<char>| (m.last().0, v))
    }
}

impl View for QueryMap {
    type V = Seq<QueryEntry>;

    closed spec fn view(&self) -> Seq<QueryEntry> {
        self.entries.deep_view()
    }
}

impl QueryMap {
    pub open spec fn wf(&self) -> bool {
        qm_wf(self@)
    }

    pub fn new() -> (r: Self)
        ensures
            r@ =~= Seq::<QueryEntry>::empty(),
            r.wf(),
    {
        let r = QueryMap { entries: Vec::new() };
        proof {
            assert(r@ =~= Seq::<QueryEntry>::empty());
        }
        r
    }

    /// Append `value` under `key`, after any values already there; other
    /// names are untouched.
    #[verifier::loop_isolation(false)]
pub fn add(&mut self, key: &str, value: &str)
        requires
            old(self).wf(),
        ensures
            final(self).wf(),
            (if exists|i: int| 0 <= i < old(self)@.len() && old(self)@[i].0 == key@ {
                exists|i: int|
                    0 <= i < old(self)@.len() && old(self)@[i].0 == key@ && final(self)@
                        =~= old(self)@.update(
                        i,
                        (key@, old(self)@[i].1.push(value@)),
                    )
            } else {
                final(self)@ =~= old(self)@.push((key@, seq![value@]))
            }),
            qm_mset(final(self)@) =~= qm_mset(old(self)@).insert((key@, value@)),
    {
        broadcast use vstd::multiset::group_multiset_axioms;

        let ghost m0 = self@;
        let n = self.entries.len();
        let mut i: usize = 0;
        while i < n
            invariant
                n == self.entries.len(),
                self@ == m0,
                0 <= i <= n,
                forall|j: int| 0 <= j < i ==> #[trigger] m0[j].0 != key@,
            decreases n - i,
        {
            if str_eq(self.entries[i].0.as_str(), key) {
                let k = self.entries[i].0.clone();
                let m = self.entries[i].1.len();
                let mut vs: Vec<String> = Vec::new();
                let mut t: usize = 0;
                while t < m
                    invariant
                        self@ == m0,
                        0 <= i < self.entries@.len(),
                        m == self.entries@[i as int].1.len(),
                        0 <= t <= m,
                        vs@.len() == t,
                        forall|u: int|
                            0 <= u < t ==> #[trigger] vs@[u] == self.entries@[i as int].1@[u],
                    decreases m - t,
                {
                    vs.push(self.entries[i].1[t].clone());
                    t = t + 1;
                }
                vs.push(value.to_owned());
                proof {
                    assert(vs.deep_view() =~= m0[i as int].1.push(value@)) by {
                        assert(m0[i as int] == self.entries@[i as int].deep_view());
                        assert(forall|u: int|
                            0 <= u < m ==> #[trigger] vs.deep_view()[u] == m0[i as int].1[u]);
                    }
                }
                self.entries.set(i, (k, vs));
                proof {
                    assert(self@ =~= m0.update(i as int, (key@, m0[i as int].1.push(value@))));
                    lemma_qm_mset_update_push(m0, i as int, value@);
                    assert(m0[i as int].0 == key@);
                    lemma_qm_wf_update_same_key(
                        m0,
                        i as int,
                        (key@, m0[i as int].1.push(value@)),
                    );
                }
                return ;
            }
            i = i + 1;
        }
        let mut vs: Vec<String> = Vec::new();
        vs.push(value.to_owned());
        self.entries.push((key.to_owned(), vs));
        proof {
            assert(vs.deep_view() =~= seq![value@]);
            assert(self@ =~= m0.push((key@, seq![value@])));
            assert(self@.drop_last() =~= m0);
            assert(vals_mset(key@, seq![value@]) =~= Multiset::empty().insert((key@, value@)))
                by {
                let e = seq![value@].drop_last();
                assert(e =~= Seq::<Seq<char>>::empty());
                assert(e.len() == 0);
                assert(vals_mset(key@, e) =~= Multiset::<QueryPair>::empty());
                assert(seq![value@].last() == value@);
            }
            assert(qm_mset(self@) =~= qm_mset(m0).insert((key@, value@)));
        }
    }

    /// Make `value` the only value under `key`; other names are untouched.
    #[verifier::loop_isolation(false)]
pub fn set(&mut self, key: &str, value: &str)
        requires
            old(self).wf(),
        ensures
            final(self).wf(),
            (if exists|i: int| 0 <= i < old(self)@.len() && old(self)@[i].0 == key@ {
                exists|i: int|
                    0 <= i < old(self)@.len() && old(self)@[i].0 == key@ && final(self)@
                        =~= old(self)@.update(i, (key@, seq![value@]))
            } else {
                final(self)@ =~= old(self)@.push((key@, seq![value@]))
            }),
    {
        let ghost m0 = self@;
        let n = self.entries.len();
        let mut i: usize = 0;
        while i < n
            invariant
                n == self.entries.len(),
                self@ == m0,
                0 <= i <= n,
                forall|j: int| 0 <= j < i ==> #[trigger] m0[j].0 != key@,
            decreases n - i,
        {
            if str_eq(self.entries[i].0.as_str(), key) {
                let mut vs: Vec<String> = Vec::new();
                vs.push(value.to_owned());
                let k = self.entries[i].0.clone();
                self.entries.set(i, (k, vs));
                proof {
                    assert(vs.deep_view() =~= seq![value@]) by {
                        assert(vs@.len() == 1);
                        assert(vs@[0]@ == value@);
                    }
                    assert(self@ =~= m0.update(i as int, (key@, seq![value@])));
                    assert(m0[i as int].0 == key@);
                    assert(m0 == old(self)@);
                    assert(qm_wf(m0));
                    lemma_qm_wf_update_same_key(m0, i as int, (key@, seq![value@]));
                }
                return ;
            }
            i = i + 1;
        }
        let mut vs: Vec<String> = Vec::new();
        vs.push(value.to_owned());
        self.entries.push((key.to_owned(), vs));
        proof {
            assert(vs.deep_view() =~= seq![value@]);
            assert(self@ =~= m0.push((key@, seq![value@])));
        }
    }

    /// All `(name, value)` pairs, flattened in entry order.
    #[verifier::loop_isolation(false)]
pub fn iter(&self) -> (r: Vec<(String, String)>)
        ensures
            r.deep_view() =~= qm_pairs(self@),
    {
        let mut out: Vec<(String, String)> = Vec::new();
        let n = self.entries.len();
        let mut i: usize = 0;
        while i < n
            invariant
                n == self.entries.len(),
                0 <= i <= n,
                out.deep_view() =~= qm_pairs(self@.subrange(0, i as int)),
            decreases n - i,
        {
            let m = self.entries[i].1.len();
            let mut j: usize = 0;
            while j < m
                invariant
                    n == self.entries.len(),
                    0 <= i < n,
                    m == self.entries[i as int].1.len(),
                    0 <= j <= m,
                    out.deep_view() =~= qm_pairs(self@.subrange(0, i as int)) + self@[i as int]
                        .1.subrange(0, j as int).map_values(
                        |v: Seq<char>| (self@[i as int].0, v),
                    ),
                decreases m - j,
            {
                let ghost dv0 = out.deep_view();
                out.push((self.entries[i].0.clone(), self.entries[i].1[j].clone()));
                proof {
                    let e = self@[i as int];
                    assert(self@[i as int] == self.entries@[i as int].deep_view());
                    assert(e.0 == self.entries@[i as int].0@);
                    assert(e.1[j as int] == self.entries@[i as int].1@[j as int]@);
                    assert(out@.last().0@ == e.0);
                    assert(out@.last().1@ == e.1[j as int]);
                    assert(out@.last().deep_view() == (e.0, e.1[j as int]));
                    assert(out.deep_view() =~= dv0.push((e.0, e.1[j as int]))) by {
                        assert(forall|k: int|
                            0 <= k < dv0.len() ==> out@[k] == #[trigger] out@.drop_last()[k]);
                    }
                    assert(e.1.subrange(0, j + 1).map_values(|v: Seq<char>| (e.0, v)) =~= e
                        .1.subrange(0, j as int).map_values(|v: Seq<char>| (e.0, v)).push(
                        (e.0, e.1[j as int]),
                    ));
                    assert(out.deep_view() =~= qm_pairs(self@.subrange(0, i as int)) + e
                        .1.subrange(0, j + 1).map_values(|v: Seq<char>| (e.0, v)));
                }
                j = j + 1;
            }
            proof {
                let p = self@.subrange(0, i + 1);
                assert(p.drop_last() =~= self@.subrange(0, i as int));
                assert(p.last() == self@[i as int]);
                assert(self@[i as int].1.subrange(0, m as int) =~= self@[i as int].1);
                assert(out.deep_view() =~= qm_pairs(self@.subrange(0, i + 1)));
            }
            i = i + 1;
        }
        proof {
            assert(self@.subrange(0, n as int) =~= self@);
        }
        out
    }

    /// The URL-encoded query string of all pairs.
    pub fn to_query(&self) -> (r: String)
        ensures
            r@ == urlencoded_of(qm_pairs(self@)),
    {
        let pairs = self.iter();
        urlencode_pairs(&pairs)
    }
}

/// The query string that `form_urlencoded` serializes the given pairs to.
pub uninterp spec fn urlencoded_of(pairs: Seq<QueryPair>) -> Seq<char>;

/// Relies on form_urlencoded::Serializer (`extend_pairs` + `finish`): the
/// result is the URL-encoded rendering of exactly the given pairs, in
/// order, and depends on them alone; no pairs give the empty string.
#[verifier::external_body]
fn urlencode_pairs(pairs: &Vec<(String, String)>) -> (r: String)
    ensures
        r@ == urlencoded_of(pairs.deep_view()),
        pairs@.len() == 0 ==> r@.len() == 0,
{
    form_urlencoded::Serializer::new(String::new())
        .extend_pairs(pairs.iter().map(|p| (p.0.as_str(), p.1.as_str())))
        .finish()
}

proof fn lemma_qm_mset_update_push(m: Seq<QueryEntry>, i: int, v: Seq<char>)
    requires
        0 <= i < m.len(),
    ensures
        qm_mset(m.update(i, (m[i].0, m[i].1.push(v)))) =~= qm_mset(m).insert((m[i].0, v)),
    decreases m.len(),
{
    let m2 = m.update(i, (m[i].0, m[i].1.push(v)));
    if i == m.len() - 1 {
        assert(m2.drop_last() =~= m.drop_last());
        assert(m2.last() == (m[i].0, m[i].1.push(v)));
        lemma_vals_mset_push(m[i].0, m[i].1, v);
    } else {
        assert(m2.drop_last() =~= m.drop_last().update(i, (m[i].0, m[i].1.push(v))));
        assert(m.drop_last()[i] == m[i]);
        lemma_qm_mset_update_push(m.drop_last(), i, v);
        assert(m2.last() == m.last());
    }
}

/// Updating one entry in place, keeping its name and leaving it
/// non-empty, preserves well-formedness.
proof fn lemma_qm_wf_update_same_key(m: Seq<QueryEntry>, i: int, e: QueryEntry)
    requires
        qm_wf(m),
        0 <= i < m.len(),
        e.0 == m[i].0,
        e.1.len() > 0,
    ensures
        qm_wf(m.update(i, e)),
{
    let m2 = m.update(i, e);
    assert(forall|a: int| 0 <= a < m2.len() ==> #[trigger] m2[a].0 == m[a].0);
}

proof fn lemma_vals_mset_push(k: Seq<char>, vs: Seq<Seq<char>>, v: Seq<char>)
    ensures
        vals_mset(k, vs.push(v)) =~= vals_mset(k, vs).insert((k, v)),
{
    assert(vs.push(v).drop_last() =~= vs);
    assert(vs.push(v).last() == v);
}

/// The query parameters contributed by a user filter.
pub open spec fn user_filter_entries(f: UserFilter) -> Seq<QueryEntry> {
    match f {
        UserFilter::Id(id) => seq![("id"@, seq!["eq."@ + dec_str(id as nat)])],
        UserFilter::Name(name) => seq![("username"@, seq!["eq."@ + name@])],
    }
}

/// Translate a user filter: an `Id` or `Name` equality parameter.
pub fn build_user_filter(f: &UserFilter) -> (r: QueryMap)
    ensures
        r.wf(),
        r@ =~= user_filter_entries(*f),
{
    let mut map = QueryMap::new();
    match f {
        UserFilter::Id(id) => {
            let mut val = String::from_str("eq.");
            let num = u64_to_string(*id);
            val.append(num.as_str());
            map.add("id", val.as_str());
        },
        UserFilter::Name(name) => {
            let mut val = String::from_str("eq.");
            val.append(name.as_str());
            map.add("username", val.as_str());
        },
    }
    map
}

/// The query parameters contributed by an optional user filter.
pub open spec fn user_query_entries(q: UserQuery) -> Seq<QueryEntry> {
    match q.filter {
        Some(f) => user_filter_entries(f),
        None => Seq::empty(),
    }
}

/// Translate a user query's filter; pagination travels out of band.
pub fn build_user_query(q: &UserQuery) -> (r: QueryMap)
    ensures
        r.wf(),
        r@ =~= user_query_entries(*q),
{
    match &q.filter {
        Some(f) => build_user_filter(f),
        None => QueryMap::new(),
    }
}

/// The parameter multiset contributed by a timelog filter.
pub open spec fn timelog_filter_mset(f: TimelogFilter) -> Multiset<QueryPair>
    decreases f,
{
    match f {
        TimelogFilter::Id(id) => Multiset::empty().insert(("id"@, "eq."@ + dec_str(id as nat))),
        TimelogFilter::UserId(u) => Multiset::empty().insert(
            ("user_id"@, "eq."@ + dec_str(u as nat)),
        ),
        TimelogFilter::IsFinished(flag) => if flag {
            Multiset::empty().insert(("finished_at"@, "not.is.null"@))
        } else {
            Multiset::empty().insert(("finished_at"@, "is.null"@))
        },
        TimelogFilter::And(items) => seq_filters_mset(items@),
    }
}

/// The parameter multiset contributed by a sequence of conjoined filters.
pub open spec fn seq_filters_mset(s: Seq<TimelogFilter>) -> Multiset<QueryPair>
    decreases s,
{
    if s.len() == 0 {
        Multiset::empty()
    } else {
        seq_filters_mset(s.drop_last()).add(timelog_filter_mset(s.last()))
    }
}

/// The `(name, value)` pairs a filter contributes, in traversal order:
/// leaves left to right.
pub open spec fn timelog_filter_pairs(f: TimelogFilter) -> Seq<QueryPair>
    decreases f,
{
    match f {
        TimelogFilter::Id(id) => seq![("id"@, "eq."@ + dec_str(id as nat))],
        TimelogFilter::UserId(u) => seq![("user_id"@, "eq."@ + dec_str(u as nat))],
        TimelogFilter::IsFinished(flag) => if flag {
            seq![("finished_at"@, "not.is.null"@)]
        } else {
            seq![("finished_at"@, "is.null"@)]
        },
        TimelogFilter::And(items) => seq_filters_pairs(items@),
    }
}

/// The pairs of a sequence of conjoined filters, in order.
pub open spec fn seq_filters_pairs(s: Seq<TimelogFilter>) -> Seq<QueryPair>
    decreases s,
{
    if s.len() == 0 {
        Seq::empty()
    } else {
        seq_filters_pairs(s.drop_last()) + timelog_filter_pairs(s.last())
    }
}

/// The values a map holds under name `k`, in order.
pub open spec fn values_under(m: Seq<QueryEntry>, k: Seq<char>) -> Seq<Seq<char>>
    decreases m.len(),
{
    if m.len() == 0 {
        Seq::empty()
    } else if m.last().0 == k {
        values_under(m.drop_last(), k) + m.last().1
    } else {
        values_under(m.drop_last(), k)
    }
}

/// The values under name `k` in a pair sequence, in order.
pub open spec fn pairs_under(ps: Seq<QueryPair>, k: Seq<char>) -> Seq<Seq<char>>
    decreases ps.len(),
{
    if ps.len() == 0 {
        Seq::empty()
    } else if ps.last().0 == k {
        pairs_under(ps.drop_last(), k) + seq![ps.last().1]
    } else {
        pairs_under(ps.drop_last(), k)
    }
}

proof fn lemma_pairs_under_concat(a: Seq<QueryPair>, b: Seq<QueryPair>, k: Seq<char>)
    ensures
        pairs_under(a + b, k) =~= pairs_under(a, k) + pairs_under(b, k),
    decreases b.len(),
{
    if b.len() == 0 {
        assert(a + b =~= a);
    } else {
        lemma_pairs_under_concat(a, b.drop_last(), k);
        assert((a + b).drop_last() =~= a + b.drop_last());
        assert((a + b).last() == b.last());
    }
}

/// Appending a value to entry `i` appends it to that name's values and
/// leaves every other name's values alone, provided names are distinct.
proof fn lemma_values_under_update_push(m: Seq<QueryEntry>, i: int, v: Seq<char>, k: Seq<char>)
    requires
        0 <= i < m.len(),
        forall|a: int, b: int| 0 <= a < b < m.len() ==> #[trigger] m[a].0 != #[trigger] m[b].0,
    ensures
        values_under(m.update(i, (m[i].0, m[i].1.push(v))), k) =~= (if k == m[i].0 {
            values_under(m, k).push(v)
        } else {
            values_under(m, k)
        }),
    decreases m.len(),
{
    let m2 = m.update(i, (m[i].0, m[i].1.push(v)));
    if i == m.len() - 1 {
        assert(m2.drop_last() =~= m.drop_last());
        assert(m2.last() == (m[i].0, m[i].1.push(v)));
        if k == m[i].0 {
            assert(values_under(m2, k) =~= values_under(m.drop_last(), k) + m[i].1.push(v));
            assert(values_under(m, k) =~= values_under(m.drop_last(), k) + m[i].1);
        }
    } else {
        assert(m2.drop_last() =~= m.drop_last().update(i, (m[i].0, m[i].1.push(v))));
        assert(m.drop_last()[i] == m[i]);
        lemma_values_under_update_push(m.drop_last(), i, v, k);
        assert(m2.last() == m.last());
    }
}

proof fn lemma_values_under_push_entry(m: Seq<QueryEntry>, e: QueryEntry, k: Seq<char>)
    ensures
        values_under(m.push(e), k) =~= (if k == e.0 {
            values_under(m, k) + e.1
        } else {
            values_under(m, k)
        }),
{
    assert(m.push(e).drop_last() =~= m);
    assert(m.push(e).last() == e);
}

proof fn lemma_pairs_under_singleton(p: QueryPair, k: Seq<char>)
    ensures
        pairs_under(seq![p], k) =~= (if p.0 == k {
            seq![p.1]
        } else {
            Seq::<Seq<char>>::empty()
        }),
{
    let e = seq![p].drop_last();
    assert(e =~= Seq::<QueryPair>::empty());
    assert(e.len() == 0);
    assert(pairs_under(e, k) =~= Seq::<Seq<char>>::empty());
    assert(seq![p].last() == p);
}

/// The one pair an `add` contributes, seen through `values_under`.
proof fn lemma_values_under_after_add(
    m0: Seq<QueryEntry>,
    m1: Seq<QueryEntry>,
    key: Seq<char>,
    value: Seq<char>,
    k: Seq<char>,
)
    requires
        forall|a: int, b: int|
            0 <= a < b < m0.len() ==> #[trigger] m0[a].0 != #[trigger] m0[b].0,
        (if exists|i: int| 0 <= i < m0.len() && m0[i].0 == key {
            exists|i: int|
                0 <= i < m0.len() && m0[i].0 == key && m1 =~= m0.update(
                    i,
                    (key, m0[i].1.push(value)),
                )
        } else {
            m1 =~= m0.push((key, seq![value]))
        }),
    ensures
        values_under(m1, k) =~= (if k == key {
            values_under(m0, k).push(value)
        } else {
            values_under(m0, k)
        }),
{
    if exists|i: int| 0 <= i < m0.len() && m0[i].0 == key {
        let i = choose|i: int|
            0 <= i < m0.len() && m0[i].0 == key && m1 =~= m0.update(
                i,
                (key, m0[i].1.push(value)),
            );
        lemma_values_under_update_push(m0, i, value, k);
    } else {
        lemma_values_under_push_entry(m0, (key, seq![value]), k);
        if k == key {
            assert(values_under(m0, k) + seq![value] =~= values_under(m0, k).push(value));
        }
    }
}

/// A leaf whose pair sequence is the one pair `add` put in: the values
/// under every name move as the leaf's pairs say.
proof fn lemma_leaf_values(
    m0: Seq<QueryEntry>,
    m1: Seq<QueryEntry>,
    key: Seq<char>,
    value: Seq<char>,
    f: TimelogFilter,
)
    requires
        forall|a: int, b: int|
            0 <= a < b < m0.len() ==> #[trigger] m0[a].0 != #[trigger] m0[b].0,
        (if exists|i: int| 0 <= i < m0.len() && m0[i].0 == key {
            exists|i: int|
                0 <= i < m0.len() && m0[i].0 == key && m1 =~= m0.update(
                    i,
                    (key, m0[i].1.push(value)),
                )
        } else {
            m1 =~= m0.push((key, seq![value]))
        }),
        timelog_filter_pairs(f) =~= seq![(key, value)],
    ensures
        forall|k: Seq<char>|
            #[trigger] values_under(m1, k) =~= values_under(m0, k) + pairs_under(
                timelog_filter_pairs(f),
                k,
            ),
{
    assert forall|k: Seq<char>| #[trigger]
        values_under(m1, k) =~= values_under(m0, k) + pairs_under(
            timelog_filter_pairs(f),
            k,
        ) by {
        lemma_values_under_after_add(m0, m1, key, value, k);
        lemma_pairs_under_singleton((key, value), k);
        assert(pairs_under(timelog_filter_pairs(f), k) =~= pairs_under(seq![(key, value)], k));
        if k == key {
            assert(values_under(m0, k).push(value) =~= values_under(m0, k) + seq![value]);
        } else {
            assert(values_under(m0, k) + Seq::<Seq<char>>::empty() =~= values_under(m0, k));
        }
    }
}

/// Translate one filter node, merging its parameters into `map`.
#[verifier::loop_isolation(false)]
pub fn build_timelog_filter_rec(f: &TimelogFilter, map: &mut QueryMap)
    requires
        old(map).wf(),
    ensures
        final(map).wf(),
        qm_mset(final(map)@) =~= qm_mset(old(map)@).add(timelog_filter_mset(*f)),
        forall|k: Seq<char>|
            #[trigger] values_under(final(map)@, k) =~= values_under(old(map)@, k) + pairs_under(
                timelog_filter_pairs(*f),
                k,
            ),
    decreases *f,
{
    match f {
        TimelogFilter::UserId(u) => {
            let mut val = String::from_str("eq.");
            let num = u64_to_string(*u);
            val.append(num.as_str());
            map.add("user_id", val.as_str());
            proof {
                lemma_mset_insert_as_add(qm_mset(old(map)@), ("user_id"@, val@));
                lemma_leaf_values(old(map)@, map@, "user_id"@, val@, *f);
            }
        },
        TimelogFilter::IsFinished(flag) => {
            if *flag {
                map.add("finished_at", "not.is.null");
                proof {
                    lemma_mset_insert_as_add(qm_mset(old(map)@), ("finished_at"@, "not.is.null"@));
                    lemma_leaf_values(old(map)@, map@, "finished_at"@, "not.is.null"@, *f);
                }
            } else {
                map.add("finished_at", "is.null");
                proof {
                    lemma_mset_insert_as_add(qm_mset(old(map)@), ("finished_at"@, "is.null"@));
                    lemma_leaf_values(old(map)@, map@, "finished_at"@, "is.null"@, *f);
                }
            }
        },
        TimelogFilter::And(items) => {
            let n = items.len();
            let mut i: usize = 0;
            proof {
                assert forall|k: Seq<char>| #[trigger]
                    values_under(map@, k) =~= values_under(old(map)@, k) + pairs_under(
                        seq_filters_pairs(items@.subrange(0, 0)),
                        k,
                    ) by {
                    assert(items@.subrange(0, 0) =~= Seq::<TimelogFilter>::empty());
                    assert(seq_filters_pairs(items@.subrange(0, 0)) =~= Seq::<QueryPair>::empty());
                    assert(values_under(map@, k) + Seq::<Seq<char>>::empty() =~= values_under(
                        map@,
                        k,
                    ));
                }
            }
            while i < n
                invariant
                    *f == TimelogFilter::And(*items),
                    n == items.len(),
                    0 <= i <= n,
                    map.wf(),
                    qm_mset(map@) =~= qm_mset(old(map)@).add(
                        seq_filters_mset(items@.subrange(0, i as int)),
                    ),
                    forall|k: Seq<char>|
                        #[trigger] values_under(map@, k) =~= values_under(old(map)@, k)
                            + pairs_under(seq_filters_pairs(items@.subrange(0, i as int)), k),
                decreases n - i,
            {
                assert(items@.subrange(0, i + 1).drop_last() =~= items@.subrange(0, i as int));
                proof {
                    assert(decreases_to!(*f => f->And_0));
                    assert(f->And_0 == *items);
                    assert(decreases_to!(*f => items@[i as int]));
                }
                let ghost m_prev = map@;
                build_timelog_filter_rec(&items[i], map);
                proof {
                    let pre = seq_filters_pairs(items@.subrange(0, i as int));
                    let step = timelog_filter_pairs(items@[i as int]);
                    assert(seq_filters_pairs(items@.subrange(0, i + 1)) =~= pre + step);
                    assert forall|k: Seq<char>| #[trigger]
                        values_under(map@, k) =~= values_under(old(map)@, k) + pairs_under(
                            seq_filters_pairs(items@.subrange(0, i + 1)),
                            k,
                        ) by {
                        lemma_pairs_under_concat(pre, step, k);
                        assert(values_under(map@, k) =~= values_under(m_prev, k) + pairs_under(
                            step,
                            k,
                        ));
                        assert(values_under(m_prev, k) =~= values_under(old(map)@, k)
                            + pairs_under(pre, k));
                        assert(pairs_under(seq_filters_pairs(items@.subrange(0, i + 1)), k)
                            =~= pairs_under(pre, k) + pairs_under(step, k));
                    }
                }
                i = i + 1;
            }
            proof {
                assert(items@.subrange(0, n as int) =~= items@);
                assert(seq_filters_pairs(items@.subrange(0, n as int)) =~= seq_filters_pairs(
                    items@,
                ));
            }
        },
        TimelogFilter::Id(id) => {
            let mut val = String::from_str("eq.");
            let num = u64_to_string(*id);
            val.append(num.as_str());
            map.add("id", val.as_str());
            proof {
                lemma_mset_insert_as_add(qm_mset(old(map)@), ("id"@, val@));
                lemma_leaf_values(old(map)@, map@, "id"@, val@, *f);
            }
        },
    }
}

proof fn lemma_mset_insert_as_add(m: Multiset<QueryPair>, p: QueryPair)
    ensures
        m.insert(p) =~= m.add(Multiset::empty().insert(p)),
{
}

/// Translate a timelog filter tree into its parameter map.
pub fn build_timelog_filter(f: &TimelogFilter) -> (r: QueryMap)
    ensures
        r.wf(),
        qm_mset(r@) =~= timelog_filter_mset(*f),
        forall|k: Seq<char>|
            #[trigger] values_under(r@, k) =~= pairs_under(timelog_filter_pairs(*f), k),
{
    let mut map = QueryMap::new();
    let ghost empty_map = map@;
    build_timelog_filter_rec(f, &mut map);
    proof {
        assert(qm_mset(Seq::<QueryEntry>::empty()) =~= Multiset::empty());
        assert forall|k: Seq<char>| #[trigger]
            values_under(map@, k) =~= pairs_under(timelog_filter_pairs(*f), k) by {
            assert(values_under(empty_map, k) =~= Seq::<Seq<char>>::empty());
            assert(values_under(map@, k) =~= values_under(empty_map, k) + pairs_under(
                timelog_filter_pairs(*f),
                k,
            ));
        }
    }
    map
}

/// The column name of an ordering expression.
pub open spec fn order_col(e: TimelogOrder) -> Seq<char> {
    match e {
        TimelogOrder::Id => "id"@,
        TimelogOrder::StartedAt => "started_at"@,
    }
}

/// The direction suffix of an ordering step.
pub open spec fn dir_str(d: Direction) -> Seq<char> {
    match d {
        Direction::Asc => "asc"@,
        Direction::Desc => "desc"@,
    }
}

/// The value of the repeated `order` parameter for one ordering step.
pub open spec fn order_val(o: Order<TimelogOrder>) -> Seq<char> {
    order_col(o.expr) + "."@ + dir_str(o.direction)
}

/// The parameter multiset contributed by a query's optional filter.
pub open spec fn query_filter_mset(q: TimelogQuery) -> Multiset<QueryPair> {
    match q.filter {
        Some(f) => timelog_filter_mset(f),
        None => Multiset::empty(),
    }
}

/// The parameter multiset of a whole timelog query: filter parameters plus
/// one `order` parameter per ordering step.
pub open spec fn timelog_query_mset(q: TimelogQuery) -> Multiset<QueryPair> {
    query_filter_mset(q).add(
        q.order@.map_values(|o: Order<TimelogOrder>| ("order"@, order_val(o))).to_multiset(),
    )
}

/// Translate a whole timelog query: filter parameters, then the `order`
/// parameters in input sequence. Pagination travels out of band.
#[verifier::loop_isolation(false)]
pub fn build_timelog_query(q: &TimelogQuery) -> (r: QueryMap)
    ensures
        r.wf(),
        qm_mset(r@) =~= timelog_query_mset(*q),
        q.order@.len() > 0 ==> r@.len() > 0 && r@.last().0 == "order"@ && r@.last().1
            =~= q.order@.map_values(|o: Order<TimelogOrder>| order_val(o)),
        forall|k: Seq<char>|
            k != "order"@ ==> #[trigger] values_under(r@, k) =~= (match q.filter {
                Some(f) => pairs_under(timelog_filter_pairs(f), k),
                None => Seq::<Seq<char>>::empty(),
            }),
{
    broadcast use vstd::seq_lib::group_to_multiset_ensures;

    let mut map = match &q.filter {
        Some(f) => build_timelog_filter(f),
        None => QueryMap::new(),
    };
    proof {
        assert(qm_mset(Seq::<QueryEntry>::empty()) =~= Multiset::empty());
    }
    let ghost base = map@;
    let ghost fmset = query_filter_mset(*q);
    proof {
        assert forall|k: Seq<char>| #[trigger]
            values_under(base, k) =~= (match q.filter {
                Some(f) => pairs_under(timelog_filter_pairs(f), k),
                None => Seq::<Seq<char>>::empty(),
            }) by {
            if q.filter is None {
                assert(values_under(base, k) =~= Seq::<Seq<char>>::empty());
            }
        }
    }
    let n = q.order.len();
    let mut i: usize = 0;
    while i < n
        invariant
            n == q.order@.len(),
            0 <= i <= n,
            map.wf(),
            qm_mset(map@) =~= fmset.add(
                q.order@.subrange(0, i as int).map_values(
                    |o: Order<TimelogOrder>| ("order"@, order_val(o)),
                ).to_multiset(),
            ),
            i == 0 ==> map@ == base && qm_mset(base) =~= fmset,
            i > 0 ==> map@.len() > 0 && map@.last().0 == "order"@ && map@.last().1 =~= q
                .order@.subrange(0, i as int).map_values(|o: Order<TimelogOrder>| order_val(o))
                && map@.drop_last() =~= base && (forall|j: int|
                0 <= j < base.len() ==> #[trigger] base[j].0 != "order"@),
            forall|k: Seq<char>|
                k != "order"@ ==> #[trigger] values_under(map@, k) =~= values_under(base, k),
        decreases n - i,
    {
        broadcast use vstd::seq_lib::group_to_multiset_ensures;

        let o = &q.order[i];
        let dir = match o.direction {
            Direction::Asc => "asc",
            Direction::Desc => "desc",
        };
        let col = match o.expr {
            TimelogOrder::Id => "id",
            TimelogOrder::StartedAt => "started_at",
        };
        let mut val = String::from_str(col);
        val.append(".");
        val.append(dir);
        assert(val@ == order_val(q.order@[i as int]));
        let ghost m_before = map@;
        map.add("order", val.as_str());
        proof {
            assert forall|k: Seq<char>|
                k != "order"@ implies #[trigger] values_under(map@, k) =~= values_under(
                base,
                k,
            ) by {
                lemma_values_under_after_add(m_before, map@, "order"@, val@, k);
            }
            let ovs = q.order@.subrange(0, i as int).map_values(
                |o: Order<TimelogOrder>| order_val(o),
            );
            let ovs1 = q.order@.subrange(0, i + 1).map_values(
                |o: Order<TimelogOrder>| order_val(o),
            );
            assert(q.order@.subrange(0, i + 1).drop_last() =~= q.order@.subrange(0, i as int));
            assert(ovs1 =~= ovs.push(order_val(q.order@[i as int])));
            let pvs = q.order@.subrange(0, i as int).map_values(
                |o: Order<TimelogOrder>| ("order"@, order_val(o)),
            );
            let pvs1 = q.order@.subrange(0, i + 1).map_values(
                |o: Order<TimelogOrder>| ("order"@, order_val(o)),
            );
            assert(pvs1 =~= pvs.push(("order"@, order_val(q.order@[i as int]))));
            assert(pvs1.to_multiset() =~= pvs.to_multiset().insert(
                ("order"@, order_val(q.order@[i as int])),
            ));
            if i == 0 {
                // No entry of the filter part is named "order": every name it
                // uses is a filter field name, which the add contract shows by
                // giving back the push case.
                if exists|k: int| 0 <= k < m_before.len() && m_before[k].0 == "order"@ {
                    let k = choose|k: int|
                        0 <= k < m_before.len() && m_before[k].0 == "order"@;
                    assert(m_before[k].1.len() > 0);
                    lemma_qm_mset_contains_entry_pair(m_before, k);
                    let pr = ("order"@, m_before[k].1[0]);
                    assert(qm_mset(m_before).contains(pr));
                    assert(qm_mset(m_before) == fmset);
                    assert(fmset.count(pr) > 0);
                    assert(query_filter_mset(*q).contains(pr));
                    lemma_filter_mset_keys(*q);
                    assert(pr.0 == "id"@ || pr.0 == "user_id"@ || pr.0 == "finished_at"@);
                    broadcast use vstd::string::group_string_axioms;

                    reveal_strlit("order");
                    reveal_strlit("id");
                    reveal_strlit("user_id");
                    reveal_strlit("finished_at");
                    assert("order"@.len() == 5 && "id"@.len() == 2 && "user_id"@.len() == 7
                        && "finished_at"@.len() == 11);
                    assert("order"@ != "id"@ && "order"@ != "user_id"@ && "order"@
                        != "finished_at"@);
                    assert(false);
                }
                assert(map@ =~= m_before.push(("order"@, seq![val@])));
                assert(map@.last().1 =~= ovs1);
            } else {
                // The unique "order" entry is the last one.
                let k = choose|k: int|
                    0 <= k < m_before.len() && m_before[k].0 == "order"@ && map@
                        =~= m_before.update(k, ("order"@, m_before[k].1.push(val@)));
                assert(m_before.last().0 == "order"@);
                if k != m_before.len() - 1 {
                    assert(m_before[k].0 == m_before[m_before.len() - 1].0);
                    assert(false);
                }
                assert(map@.last().1 =~= ovs1);
                assert(map@.drop_last() =~= base);
            }
        }
        i = i + 1;
    }
    proof {
        assert(q.order@.subrange(0, n as int) =~= q.order@);
    }
    map
}

/// Every pair a timelog filter contributes is named by a filter field, so
/// none is named `order`.
proof fn lemma_singleton_contains(x: QueryPair, p: QueryPair)
    requires
        Multiset::empty().insert(x).contains(p),
    ensures
        p == x,
{
    broadcast use vstd::multiset::group_multiset_axioms;

    if p != x {
        assert(Multiset::empty().insert(x).count(p) == Multiset::<QueryPair>::empty().count(p));
    }
}

proof fn lemma_filter_mset_keys_f(f: TimelogFilter)
    ensures
        forall|p: QueryPair|
            #[trigger] timelog_filter_mset(f).contains(p) ==> (p.0 == "id"@ || p.0 == "user_id"@
                || p.0 == "finished_at"@),
    decreases f,
{
    broadcast use vstd::multiset::group_multiset_axioms;

    match f {
        TimelogFilter::And(items) => {
            lemma_seq_filters_mset_keys(items@);
            assert forall|p: QueryPair| #[trigger] timelog_filter_mset(f).contains(p) implies (p.0
                == "id"@ || p.0 == "user_id"@ || p.0 == "finished_at"@) by {
                assert(seq_filters_mset(items@).contains(p));
            }
        },
        _ => {
            assert forall|p: QueryPair| #[trigger] timelog_filter_mset(f).contains(p) implies (p.0
                == "id"@ || p.0 == "user_id"@ || p.0 == "finished_at"@) by {
                match f {
                    TimelogFilter::Id(id) => {
                        lemma_singleton_contains(("id"@, "eq."@ + dec_str(id as nat)), p);
                    },
                    TimelogFilter::UserId(u) => {
                        lemma_singleton_contains(("user_id"@, "eq."@ + dec_str(u as nat)), p);
                    },
                    TimelogFilter::IsFinished(flag) => {
                        if flag {
                            lemma_singleton_contains(("finished_at"@, "not.is.null"@), p);
                        } else {
                            lemma_singleton_contains(("finished_at"@, "is.null"@), p);
                        }
                    },
                    TimelogFilter::And(_) => {},
                }
            }
        },
    }
}

proof fn lemma_seq_filters_mset_keys(s: Seq<TimelogFilter>)
    ensures
        forall|p: QueryPair|
            #[trigger] seq_filters_mset(s).contains(p) ==> (p.0 == "id"@ || p.0 == "user_id"@
                || p.0 == "finished_at"@),
    decreases s,
{
    broadcast use vstd::multiset::group_multiset_axioms;

    if s.len() > 0 {
        lemma_seq_filters_mset_keys(s.drop_last());
        lemma_filter_mset_keys_f(s.last());
        assert forall|p: QueryPair| #[trigger] seq_filters_mset(s).contains(p) implies (p.0
            == "id"@ || p.0 == "user_id"@ || p.0 == "finished_at"@) by {
            assert(seq_filters_mset(s.drop_last()).contains(p) || timelog_filter_mset(
                s.last(),
            ).contains(p));
        }
    }
}

proof fn lemma_filter_mset_keys(q: TimelogQuery)
    ensures
        forall|p: QueryPair|
            #[trigger] query_filter_mset(q).contains(p) ==> (p.0 == "id"@ || p.0 == "user_id"@
                || p.0 == "finished_at"@),
{
    broadcast use vstd::multiset::group_multiset_axioms;

    match q.filter {
        Some(f) => lemma_filter_mset_keys_f(f),
        None => {},
    }
}

/// Every `(name, value)` pair of a well-formed entry appears in the map's
/// multiset; used with the first value of an entry.
proof fn lemma_qm_mset_contains_entry_pair(m: Seq<QueryEntry>, k: int)
    requires
        0 <= k < m.len(),
        m[k].1.len() > 0,
    ensures
        qm_mset(m).contains((m[k].0, m[k].1[0])),
    decreases m.len(),
{
    broadcast use vstd::multiset::group_multiset_axioms;

    if k == m.len() - 1 {
        lemma_vals_mset_contains_first(m[k].0, m[k].1);
    } else {
        lemma_qm_mset_contains_entry_pair(m.drop_last(), k);
        assert(m.drop_last()[k] == m[k]);
    }
}

proof fn lemma_vals_mset_contains_first(key: Seq<char>, vs: Seq<Seq<char>>)
    requires
        vs.len() > 0,
    ensures
        vals_mset(key, vs).contains((key, vs[0])),
    decreases vs.len(),
{
    broadcast use vstd::multiset::group_multiset_axioms;

    if vs.len() == 1 {
    } else {
        lemma_vals_mset_contains_first(key, vs.drop_last());
        assert(vs.drop_last()[0] == vs[0]);
    }
}

/// Removing one branch of a conjunction removes exactly its parameters.
proof fn lemma_seq_filters_mset_remove(s: Seq<TimelogFilter>, j: int)
    requires
        0 <= j < s.len(),
    ensures
        seq_filters_mset(s) =~= seq_filters_mset(s.remove(j)).add(timelog_filter_mset(s[j])),
    decreases s.len(),
{
    if j == s.len() - 1 {
        assert(s.remove(j) =~= s.drop_last());
    } else {
        assert(s.remove(j).drop_last() =~= s.drop_last().remove(j));
        lemma_seq_filters_mset_remove(s.drop_last(), j);
        assert(s.remove(j).last() == s.last());
        assert(s.drop_last()[j] == s[j]);
    }
}

/// Reordering the branches of a conjunction does not change the parameter
/// multiset: two branch sequences holding the same branches (as a
/// multiset) contribute the same parameters.
pub proof fn lemma_and_params_reorder(xs: Seq<TimelogFilter>, ys: Seq<TimelogFilter>)
    requires
        xs.to_multiset() == ys.to_multiset(),
    ensures
        seq_filters_mset(xs) =~= seq_filters_mset(ys),
    decreases xs.len(),
{
    broadcast use vstd::seq_lib::group_to_multiset_ensures;
    broadcast use vstd::multiset::group_multiset_axioms;

    if xs.len() == 0 {
        assert(ys.to_multiset().len() == 0);
        assert(ys.len() == 0);
    } else {
        let x = xs.last();
        assert(xs.drop_last().push(x) =~= xs);
        assert(xs.drop_last().push(x).to_multiset() =~= xs.drop_last().to_multiset().insert(x));
        assert(ys.to_multiset().count(x) > 0);
        assert(ys.contains(x));
        let j = choose|j: int| 0 <= j < ys.len() && ys[j] == x;
        let ys2 = ys.remove(j);
        assert(ys2.to_multiset() =~= ys.to_multiset().remove(x));
        assert(xs.drop_last().to_multiset() =~= xs.to_multiset().remove(x));
        lemma_and_params_reorder(xs.drop_last(), ys2);
        lemma_seq_filters_mset_remove(ys, j);
    }
}

/// The same, stated of whole conjunction filters: `And(xs)` and `And(ys)`
/// translate to the same parameter multiset when `ys` reorders `xs`.
pub proof fn lemma_filter_params_reorder(xs: Vec<TimelogFilter>, ys: Vec<TimelogFilter>)
    requires
        xs@.to_multiset() == ys@.to_multiset(),
    ensures
        timelog_filter_mset(TimelogFilter::And(xs)) =~= timelog_filter_mset(
            TimelogFilter::And(ys),
        ),
{
    lemma_and_params_reorder(xs@, ys@);
}

} // verus!
