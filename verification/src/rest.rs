//! Request construction and response mapping for the REST backend: paths
//! with their query strings, the pagination header, base-URL resolution,
//! and the translation of failures into the error taxonomy.

use vstd::prelude::*;
use vstd::multiset::Multiset;
use vstd::string::StrSliceExecFns;
use vstd::string::StringExecFns;

use crate::errors::ApiError;
use crate::errors::BackendError;
use crate::query::QueryEntry;
use crate::query::QueryMap;
use crate::query::QueryPair;
use crate::query::build_timelog_query;
use crate::query::build_user_filter;
use crate::query::build_user_query;
use crate::query::qm_mset;
use crate::query::qm_pairs;
use crate::query::qm_wf;
use crate::query::timelog_query_mset;
use crate::query::urlencoded_of;
use crate::query::user_filter_entries;
use crate::query::user_query_entries;
use crate::strutil::dec_str;
use crate::strutil::str_eq;
use crate::strutil::strip_lead;
use crate::strutil::strip_leading_char;
use crate::strutil::strip_trail;
use crate::strutil::strip_trailing_char;
use crate::strutil::u64_to_string;
use crate::types::Timelog;
use crate::types::TimelogPatch;
use crate::types::TimelogQuery;
use crate::types::User;
use crate::types::patch_applied;
use crate::types::UserFilter;
use crate::types::UserQuery;

verus! {

/// A base URL with at most one trailing slash removed, as the client
/// stores it.
pub fn normalize_endpoint(endpoint: &str) -> (r: String)
    ensures
        r@ == strip_trail(endpoint@, '/'),
{
    String::from_str(strip_trailing_char(endpoint, '/'))
}

/// Resolve `path` against a normalized base: exactly one slash joins
/// them, whether or not the path brings its own.
pub fn resolve_url(endpoint: &str, path: &str) -> (r: String)
    ensures
        r@ == endpoint@ + "/"@ + strip_lead(path@, '/'),
{
    let mut out = String::from_str(endpoint);
    out.append("/");
    out.append(strip_leading_char(path, '/'));
    proof {
        assert(out@ =~= endpoint@ + "/"@ + strip_lead(path@, '/'));
    }
    out
}

/// The pagination header value `"{offset}-{limit}"`, carried literally as
/// the backend's protocol has it.
pub fn range_header(offset: u64, limit: u64) -> (r: String)
    ensures
        r@ == dec_str(offset as nat) + "-"@ + dec_str(limit as nat),
{
    let mut out = u64_to_string(offset);
    out.append("-");
    let l = u64_to_string(limit);
    out.append(l.as_str());
    proof {
        assert(out@ =~= dec_str(offset as nat) + "-"@ + dec_str(limit as nat));
    }
    out
}

/// The entry the wildcard column selection appends.
pub open spec fn select_all_entry() -> QueryEntry {
    ("select"@, seq!["*"@])
}

/// The path of a single-user read: the filter's parameters plus
/// `select=*`.
pub open spec fn user_path_spec(f: UserFilter) -> Seq<char> {
    "/users?"@ + urlencoded_of(qm_pairs(user_filter_entries(f).push(select_all_entry())))
}

proof fn lemma_select_fresh_for_user_entries(entries: Seq<QueryEntry>)
    requires
        forall|i: int|
            0 <= i < entries.len() ==> ((#[trigger] entries[i]).0 == "id"@ || entries[i].0
                == "username"@),
    ensures
        forall|i: int| 0 <= i < entries.len() ==> (#[trigger] entries[i]).0 != "select"@,
{
    broadcast use vstd::string::group_string_axioms;

    reveal_strlit("select");
    reveal_strlit("id");
    reveal_strlit("username");
    assert("select"@.len() == 6 && "id"@.len() == 2 && "username"@.len() == 8);
}

/// Build the path for fetching at most one user.
pub fn user_path(f: &UserFilter) -> (r: String)
    ensures
        r@ == user_path_spec(*f),
{
    let mut qm = build_user_filter(f);
    proof {
        let entries = user_filter_entries(*f);
        assert(forall|i: int|
            0 <= i < entries.len() ==> ((#[trigger] entries[i]).0 == "id"@ || entries[i].0
                == "username"@));
        lemma_select_fresh_for_user_entries(entries);
    }
    qm.set("select", "*");
    proof {
        assert(qm@ =~= user_filter_entries(*f).push(select_all_entry()));
    }
    let mut out = String::from_str("/users?");
    let query = qm.to_query();
    out.append(query.as_str());
    proof {
        assert(out@ =~= user_path_spec(*f));
    }
    out
}

/// The path of a user list: the query's parameters plus `select=*`.
pub open spec fn users_path_spec(q: UserQuery) -> Seq<char> {
    "/users?"@ + urlencoded_of(qm_pairs(user_query_entries(q).push(select_all_entry())))
}

/// Build the path for listing users; pagination goes in the range
/// header, not the path.
pub fn users_path(q: &UserQuery) -> (r: String)
    ensures
        r@ == users_path_spec(*q),
{
    let mut qm = build_user_query(q);
    proof {
        let entries = user_query_entries(*q);
        assert(forall|i: int|
            0 <= i < entries.len() ==> ((#[trigger] entries[i]).0 == "id"@ || entries[i].0
                == "username"@));
        lemma_select_fresh_for_user_entries(entries);
    }
    qm.set("select", "*");
    proof {
        assert(qm@ =~= user_query_entries(*q).push(select_all_entry()));
    }
    let mut out = String::from_str("/users?");
    let query = qm.to_query();
    out.append(query.as_str());
    proof {
        assert(out@ =~= users_path_spec(*q));
    }
    out
}

/// Whether a timelog path carries exactly the query's parameters plus one
/// `select=*`, rendered from some well-formed parameter map.
pub open spec fn is_timelog_path_for(r: Seq<char>, q: TimelogQuery) -> bool {
    exists|m: Seq<QueryEntry>|
        #![trigger qm_pairs(m)]
        qm_wf(m) && qm_mset(m) =~= timelog_query_mset(q).insert(("select"@, "*"@)) && r
            == "/timelogs?"@ + urlencoded_of(qm_pairs(m))
}

/// Build the path for listing timelogs: the query's parameters plus a
/// repeated `select=*`; pagination goes in the range header.
pub fn timelogs_path(q: &TimelogQuery) -> (r: String)
    ensures
        is_timelog_path_for(r@, *q),
{
    let mut qm = build_timelog_query(q);
    qm.add("select", "*");
    let mut out = String::from_str("/timelogs?");
    let query = qm.to_query();
    out.append(query.as_str());
    proof {
        assert(out@ == "/timelogs?"@ + urlencoded_of(qm_pairs(qm@))) by {
            assert(out@ =~= "/timelogs?"@ + urlencoded_of(qm_pairs(qm@)));
        }
        assert(qm_mset(qm@) =~= timelog_query_mset(*q).insert(("select"@, "*"@)));
    }
    out
}

/// Build the path for a timelog update: the selector's parameters plus
/// `select=*`, so the backend echoes the patched rows.
pub fn timelog_update_path(selector: &TimelogQuery) -> (r: String)
    ensures
        is_timelog_path_for(r@, *selector),
{
    let mut qm = build_timelog_query(selector);
    qm.add("select", "*");
    let mut out = String::from_str("/timelogs?");
    let query = qm.to_query();
    out.append(query.as_str());
    proof {
        assert(out@ == "/timelogs?"@ + urlencoded_of(qm_pairs(qm@))) by {
            assert(out@ =~= "/timelogs?"@ + urlencoded_of(qm_pairs(qm@)));
        }
        assert(qm_mset(qm@) =~= timelog_query_mset(*selector).insert(("select"@, "*"@)));
    }
    out
}

/// Whether an HTTP status reports success.
pub open spec fn is_success_status(status: u16) -> bool {
    200 <= status < 300
}

/// Decide `is_success_status` on a concrete status.
pub fn status_is_success(status: u16) -> (r: bool)
    ensures
        r == is_success_status(status),
{
    200 <= status && status < 300
}

/// The error for a failed mutation: the backend's structured error when
/// its body parsed, else a generic failure.
pub fn mutation_error(parsed: Option<ApiError>) -> (r: BackendError)
    ensures
        (match parsed {
            Some(e) => r == BackendError::Api(e),
            None => r matches BackendError::Transport(m) && m@ == "api request failed "@,
        }),
{
    match parsed {
        Some(e) => BackendError::Api(e),
        None => BackendError::Transport("api request failed ".to_owned()),
    }
}

/// The error for a success response whose body did not decode: distinct
/// from transport and backend-reported failures.
pub fn decode_failure() -> (r: BackendError)
    ensures
        r matches BackendError::Decode(m) && m@ == "could not deserialize response body"@,
{
    BackendError::Decode("could not deserialize response body".to_owned())
}

/// At most one user from a result list, as a single-row read returns it.
pub fn first_user(rows: Vec<User>) -> (r: Option<User>)
    ensures
        rows@.len() == 0 ==> r is None,
        rows@.len() > 0 ==> (r matches Some(u) && u == rows@[0]),
{
    if rows.len() == 0 {
        None
    } else {
        Some(rows[0].clone())
    }
}

/// The created user row a mutation must echo; an empty echo is a decode
/// failure.
pub fn single_created_user(rows: Vec<User>) -> (r: Result<User, BackendError>)
    ensures
        rows@.len() > 0 ==> (r matches Ok(u) && u == rows@[0]),
        rows@.len() == 0 ==> (r matches Err(e) && e matches BackendError::Decode(m) && m@
            == "API returned invalid data"@),
{
    if rows.len() == 0 {
        Err(BackendError::Decode("API returned invalid data".to_owned()))
    } else {
        Ok(rows[0].clone())
    }
}

/// The created timelog row a mutation must echo; an empty echo is a
/// decode failure.
pub fn single_created_timelog(rows: Vec<Timelog>) -> (r: Result<Timelog, BackendError>)
    ensures
        rows@.len() > 0 ==> (r matches Ok(t) && t == rows@[0]),
        rows@.len() == 0 ==> (r matches Err(e) && e matches BackendError::Decode(m) && m@
            == "No item in response"@),
{
    if rows.len() == 0 {
        Err(BackendError::Decode("No item in response".to_owned()))
    } else {
        Ok(rows[0].clone())
    }
}

/// Whether one echoed row shows every field the patch set.
pub fn row_shows_patch(row: &Timelog, patch: &TimelogPatch) -> (r: bool)
    ensures
        r == patch_applied(row@, *patch),
{
    let title_ok = match &patch.title {
        Some(x) => str_eq(row.title.as_str(), x.as_str()),
        None => true,
    };
    let desc_ok = match &patch.description {
        Some(x) => match &row.description {
            Some(d) => str_eq(d.as_str(), x.as_str()),
            None => false,
        },
        None => true,
    };
    let fin_ok = match &patch.finished_at {
        Some(x) => match &row.finished_at {
            Some(f) => str_eq(f.as_str(), x.as_str()),
            None => false,
        },
        None => true,
    };
    title_ok && desc_ok && fin_ok
}

/// Check that every row the backend echoed for a patch actually shows the
/// patch — in particular, that a set finish time came back non-null. The
/// unverified client runs every update echo through this before handing
/// it on.
#[verifier::loop_isolation(false)]
pub fn check_patch_echo(rows: Vec<Timelog>, patch: &TimelogPatch) -> (r: Result<
    Vec<Timelog>,
    BackendError,
>)
    ensures
        (match r {
            Ok(ts) => ts == rows && forall|i: int|
                0 <= i < ts@.len() ==> patch_applied((#[trigger] ts@[i])@, *patch),
            Err(e) => e matches BackendError::Decode(m) && m@
                == "patched row does not show the patch"@,
        }),
{
    let n = rows.len();
    let mut i: usize = 0;
    while i < n
        invariant
            0 <= i <= n,
            n == rows@.len(),
            forall|j: int| 0 <= j < i ==> patch_applied((#[trigger] rows@[j])@, *patch),
        decreases n - i,
    {
        if !row_shows_patch(&rows[i], patch) {
            return Err(BackendError::Decode("patched row does not show the patch".to_owned()));
        }
        i = i + 1;
    }
    Ok(rows)
}

} // verus!
