//! JSON framing for request bodies: the rows the library sends to the
//! backend are serialized here, with exact contracts. A patch serializes
//! only the fields it sets — an absent field is absent from the body, not
//! null — while a row to insert writes every field, a missing description
//! as null.

use vstd::prelude::*;
use vstd::string::StrSliceExecFns;
use vstd::string::StringExecFns;

use crate::strutil::dec_str;
use crate::strutil::u64_to_string;
use crate::types::TimelogCreate;
use crate::types::TimelogPatch;
use crate::types::UserCreate;

verus! {

/// The character for hex digit `d`, lowercase.
pub open spec fn hex_digit(d: int) -> char {
    if d == 0 {
        '0'
    } else if d == 1 {
        '1'
    } else if d == 2 {
        '2'
    } else if d == 3 {
        '3'
    } else if d == 4 {
        '4'
    } else if d == 5 {
        '5'
    } else if d == 6 {
        '6'
    } else if d == 7 {
        '7'
    } else if d == 8 {
        '8'
    } else if d == 9 {
        '9'
    } else if d == 10 {
        'a'
    } else if d == 11 {
        'b'
    } else if d == 12 {
        'c'
    } else if d == 13 {
        'd'
    } else if d == 14 {
        'e'
    } else {
        'f'
    }
}

/// How one character appears inside a JSON string: quote and backslash
/// get a backslash, the named control characters their short escape,
/// other control characters a `\u00xx` escape, everything else itself.
pub open spec fn json_escape_char(c: char) -> Seq<char> {
    if c == '"' {
        "\\\""@
    } else if c == '\\' {
        "\\\\"@
    } else if c == '\u{8}' {
        "\\b"@
    } else if c == '\u{c}' {
        "\\f"@
    } else if c == '\n' {
        "\\n"@
    } else if c == '\r' {
        "\\r"@
    } else if c == '\t' {
        "\\t"@
    } else if (c as u32) < 0x20 {
        "\\u00"@ + seq![hex_digit(c as u32 as int / 16), hex_digit(c as u32 as int % 16)]
    } else {
        seq![c]
    }
}

/// A whole string's characters, escaped.
pub open spec fn json_escaped(s: Seq<char>) -> Seq<char>
    decreases s.len(),
{
    if s.len() == 0 {
        Seq::empty()
    } else {
        json_escaped(s.drop_last()) + json_escape_char(s.last())
    }
}

fn hex_digit_str(d: u32) -> (r: &'static str)
    requires
        d < 16,
    ensures
        r@ =~= seq![hex_digit(d as int)],
{
    proof {
        reveal_strlit("0");
        reveal_strlit("1");
        reveal_strlit("2");
        reveal_strlit("3");
        reveal_strlit("4");
        reveal_strlit("5");
        reveal_strlit("6");
        reveal_strlit("7");
        reveal_strlit("8");
        reveal_strlit("9");
        reveal_strlit("a");
        reveal_strlit("b");
        reveal_strlit("c");
        reveal_strlit("d");
        reveal_strlit("e");
        reveal_strlit("f");
    }
    match d {
        0 => "0",
        1 => "1",
        2 => "2",
        3 => "3",
        4 => "4",
        5 => "5",
        6 => "6",
        7 => "7",
        8 => "8",
        9 => "9",
        10 => "a",
        11 => "b",
        12 => "c",
        13 => "d",
        14 => "e",
        15 => "f",
        _ => {
            proof {
                assert(false);
            }
            "0"
        },
    }
}

/// Escape `s` for inclusion in a JSON string.
#[verifier::loop_isolation(false)]
pub fn json_escape(s: &str) -> (r: String)
    ensures
        r@ == json_escaped(s@),
{
    let n = s.unicode_len();
    let mut out = String::new();
    let mut i: usize = 0;
    while i < n
        invariant
            0 <= i <= n,
            out@ =~= json_escaped(s@.subrange(0, i as int)),
        decreases n - i,
    {
        let c = s.get_char(i);
        if c == '"' {
            out.append("\\\"");
        } else if c == '\\' {
            out.append("\\\\");
        } else if c == '\u{8}' {
            out.append("\\b");
        } else if c == '\u{c}' {
            out.append("\\f");
        } else if c == '\n' {
            out.append("\\n");
        } else if c == '\r' {
            out.append("\\r");
        } else if c == '\t' {
            out.append("\\t");
        } else if (c as u32) < 0x20 {
            out.append("\\u00");
            out.append(hex_digit_str((c as u32) / 16));
            out.append(hex_digit_str((c as u32) % 16));
        } else {
            let one = char_str(c);
            out.append(one.as_str());
        }
        proof {
            let p = s@.subrange(0, i + 1);
            assert(p.drop_last() =~= s@.subrange(0, i as int));
            assert(p.last() == s@[i as int]);
            assert(out@ =~= json_escaped(s@.subrange(0, i + 1)));
        }
        i = i + 1;
    }
    proof {
        assert(s@.subrange(0, n as int) =~= s@);
    }
    out
}

/// Relies on String::push from std: appends exactly one character.
#[verifier::external_body]
fn char_str(c: char) -> (r: String)
    ensures
        r@ =~= seq![c],
{
    let mut s = String::new();
    s.push(c);
    s
}

/// The JSON member `"name":"value"`, the value escaped.
pub open spec fn json_string_member(name: Seq<char>, value: Seq<char>) -> Seq<char> {
    "\""@ + name + "\":\""@ + json_escaped(value) + "\""@
}

/// The JSON member `"name":n` for a number.
pub open spec fn json_number_member(name: Seq<char>, n: nat) -> Seq<char> {
    "\""@ + name + "\":"@ + dec_str(n)
}

/// The JSON member `"name":null`.
pub open spec fn json_null_member(name: Seq<char>) -> Seq<char> {
    "\""@ + name + "\":null"@
}

/// Members joined with commas.
pub open spec fn join_comma(members: Seq<Seq<char>>) -> Seq<char>
    decreases members.len(),
{
    if members.len() == 0 {
        Seq::empty()
    } else if members.len() == 1 {
        members[0]
    } else {
        join_comma(members.drop_last()) + ","@ + members.last()
    }
}

/// A JSON object of the given members.
pub open spec fn json_object(members: Seq<Seq<char>>) -> Seq<char> {
    "{"@ + join_comma(members) + "}"@
}

fn string_member(name: &str, value: &str) -> (r: String)
    ensures
        r@ == json_string_member(name@, value@),
{
    let mut out = String::from_str("\"");
    out.append(name);
    out.append("\":\"");
    let esc = json_escape(value);
    out.append(esc.as_str());
    out.append("\"");
    proof {
        assert(out@ =~= json_string_member(name@, value@));
    }
    out
}

fn number_member(name: &str, n: u64) -> (r: String)
    ensures
        r@ == json_number_member(name@, n as nat),
{
    let mut out = String::from_str("\"");
    out.append(name);
    out.append("\":");
    let num = u64_to_string(n);
    out.append(num.as_str());
    proof {
        assert(out@ =~= json_number_member(name@, n as nat));
    }
    out
}

fn null_member(name: &str) -> (r: String)
    ensures
        r@ == json_null_member(name@),
{
    let mut out = String::from_str("\"");
    out.append(name);
    out.append("\":null");
    proof {
        assert(out@ =~= json_null_member(name@));
    }
    out
}

/// Join members into an object.
#[verifier::loop_isolation(false)]
fn object_of(members: &Vec<String>) -> (r: String)
    ensures
        r@ == json_object(members.deep_view()),
{
    let mut out = String::from_str("{");
    let n = members.len();
    let mut i: usize = 0;
    while i < n
        invariant
            0 <= i <= n,
            out@ =~= "{"@ + join_comma(members.deep_view().subrange(0, i as int)),
        decreases n - i,
    {
        if i > 0 {
            out.append(",");
        }
        out.append(members[i].as_str());
        proof {
            let dv = members.deep_view();
            let p = dv.subrange(0, i + 1);
            assert(p.drop_last() =~= dv.subrange(0, i as int));
            assert(p.last() == dv[i as int]);
            assert(dv[i as int] == members@[i as int]@);
            if i == 0 {
                assert(join_comma(p) == p[0]);
                assert(out@ =~= "{"@ + join_comma(p));
            } else {
                assert(out@ =~= "{"@ + join_comma(p));
            }
        }
        i = i + 1;
    }
    out.append("}");
    proof {
        assert(members.deep_view().subrange(0, n as int) =~= members.deep_view());
        assert(out@ =~= json_object(members.deep_view()));
    }
    out
}

/// The members a patch writes: exactly the fields it sets, in field
/// order.
pub open spec fn patch_members(p: TimelogPatch) -> Seq<Seq<char>> {
    (match p.title {
        Some(t) => seq![json_string_member("title"@, t@)],
        None => Seq::empty(),
    }) + (match p.description {
        Some(d) => seq![json_string_member("description"@, d@)],
        None => Seq::empty(),
    }) + (match p.finished_at {
        Some(f) => seq![json_string_member("finished_at"@, f@)],
        None => Seq::empty(),
    })
}

/// The JSON body of a patch.
pub open spec fn patch_json(p: TimelogPatch) -> Seq<char> {
    json_object(patch_members(p))
}

impl TimelogPatch {
    /// Serialize the patch: only the fields it sets appear.
    pub fn to_json(&self) -> (r: String)
        ensures
            r@ == patch_json(*self),
    {
        let mut members: Vec<String> = Vec::new();
        match &self.title {
            Some(t) => {
                members.push(string_member("title", t.as_str()));
            },
            None => (),
        }
        match &self.description {
            Some(d) => {
                members.push(string_member("description", d.as_str()));
            },
            None => (),
        }
        match &self.finished_at {
            Some(f) => {
                members.push(string_member("finished_at", f.as_str()));
            },
            None => (),
        }
        proof {
            assert(members.deep_view() =~= patch_members(*self));
        }
        object_of(&members)
    }
}

/// A patch that sets only the finish time serializes to an object holding
/// solely that member: the other keys are absent, not null.
pub proof fn lemma_patch_json_only_finished(p: TimelogPatch)
    requires
        p.title is None,
        p.description is None,
        p.finished_at is Some,
    ensures
        patch_json(p) =~= "{"@ + json_string_member("finished_at"@, p.finished_at->0@) + "}"@,
{
    assert(patch_members(p) =~= seq![json_string_member("finished_at"@, p.finished_at->0@)]);
}

/// The members of a row to insert: every field, a missing description as
/// null.
pub open spec fn timelog_create_members(log: TimelogCreate) -> Seq<Seq<char>> {
    seq![
        json_number_member("user_id"@, log.user_id as nat),
        json_string_member("title"@, log.title@),
        (match log.description {
            Some(d) => json_string_member("description"@, d@),
            None => json_null_member("description"@),
        }),
        json_string_member("created_at"@, log.created_at@),
        json_string_member("started_at"@, log.started_at@),
    ]
}

/// The JSON body of a row to insert.
pub open spec fn timelog_create_json(log: TimelogCreate) -> Seq<char> {
    json_object(timelog_create_members(log))
}

impl TimelogCreate {
    /// Serialize the row for insertion.
    pub fn to_json(&self) -> (r: String)
        ensures
            r@ == timelog_create_json(*self),
    {
        let mut members: Vec<String> = Vec::new();
        members.push(number_member("user_id", self.user_id));
        members.push(string_member("title", self.title.as_str()));
        match &self.description {
            Some(d) => {
                members.push(string_member("description", d.as_str()));
            },
            None => {
                members.push(null_member("description"));
            },
        }
        members.push(string_member("created_at", self.created_at.as_str()));
        members.push(string_member("started_at", self.started_at.as_str()));
        proof {
            assert(members.deep_view() =~= timelog_create_members(*self));
        }
        object_of(&members)
    }
}

/// The members of a user row to insert.
pub open spec fn user_create_members(u: UserCreate) -> Seq<Seq<char>> {
    seq![
        json_string_member("username"@, u.username@),
        json_string_member("email"@, u.email@),
        json_string_member("password_hash"@, u.password_hash@),
    ]
}

/// The JSON body of a user row to insert.
pub open spec fn user_create_json(u: UserCreate) -> Seq<char> {
    json_object(user_create_members(u))
}

impl UserCreate {
    /// Serialize the row for insertion.
    pub fn to_json(&self) -> (r: String)
        ensures
            r@ == user_create_json(*self),
    {
        let mut members: Vec<String> = Vec::new();
        members.push(string_member("username", self.username.as_str()));
        members.push(string_member("email", self.email.as_str()));
        members.push(string_member("password_hash", self.password_hash.as_str()));
        proof {
            assert(members.deep_view() =~= user_create_members(*self));
        }
        object_of(&members)
    }
}

} // verus!
