//! The `application/x-www-form-urlencoded` grammar, as request bodies
//! arrive in it: segments split on `&` (empty ones skipped), each split
//! on its first `=`, `+` read as space, `%XX` percent-escapes decoded
//! (an invalid escape stays literal), and the bytes read as UTF-8,
//! lossily.

use vstd::prelude::*;

verus! {

/// The characters that `String::from_utf8_lossy` reads out of `bytes`.
pub uninterp spec fn utf8_lossy_of(bytes: Seq<u8>) -> Seq<char>;

/// Relies on String::from_utf8_lossy: the characters depend on the bytes
/// alone; an empty input gives the empty string.
#[verifier::external_body]
pub fn utf8_lossy(bytes: &Vec<u8>) -> (r: String)
    ensures
        r@ == utf8_lossy_of(bytes@),
        bytes@.len() == 0 ==> r@.len() == 0,
{
    String::from_utf8_lossy(bytes).into_owned()
}

/// The value of an ASCII hex digit, or 16 for any other byte.
pub open spec fn hex_val(b: u8) -> nat {
    if '0' as u8 <= b <= '9' as u8 {
        (b - '0' as u8) as nat
    } else if 'a' as u8 <= b <= 'f' as u8 {
        (b - 'a' as u8 + 10) as nat
    } else if 'A' as u8 <= b <= 'F' as u8 {
        (b - 'A' as u8 + 10) as nat
    } else {
        16
    }
}

/// `+` read as space.
pub open spec fn plus_to_space(s: Seq<u8>) -> Seq<u8> {
    s.map_values(|b: u8| if b == '+' as u8 { ' ' as u8 } else { b })
}

/// Percent-decoding: a `%` followed by two hex digits becomes that byte;
/// anything else stays as it is.
pub open spec fn percent_decoded(s: Seq<u8>) -> Seq<u8>
    decreases s.len(),
{
    if s.len() == 0 {
        Seq::empty()
    } else if s.len() >= 3 && s[0] == '%' as u8 && hex_val(s[1]) < 16 && hex_val(s[2]) < 16 {
        seq![(hex_val(s[1]) * 16 + hex_val(s[2])) as u8] + percent_decoded(
            s.subrange(3, s.len() as int),
        )
    } else {
        seq![s[0]] + percent_decoded(s.drop_first())
    }
}

/// One form component, decoded to characters.
pub open spec fn component_chars(s: Seq<u8>) -> Seq<char> {
    utf8_lossy_of(percent_decoded(plus_to_space(s)))
}

/// The index of the first `b` in `s`, or `s.len()` when absent.
pub open spec fn first_index_of(s: Seq<u8>, b: u8) -> int
    decreases s.len(),
{
    if s.len() == 0 {
        0
    } else if s[0] == b {
        0
    } else {
        1 + first_index_of(s.drop_first(), b)
    }
}

proof fn lemma_first_index_bounds(s: Seq<u8>, b: u8)
    ensures
        0 <= first_index_of(s, b) <= s.len(),
    decreases s.len(),
{
    if s.len() > 0 && s[0] != b {
        lemma_first_index_bounds(s.drop_first(), b);
    }
}

proof fn lemma_first_index_of(s: Seq<u8>, b: u8, i: int)
    requires
        0 <= i <= s.len(),
        forall|k: int| 0 <= k < i ==> s[k] != b,
        i < s.len() ==> s[i] == b,
    ensures
        first_index_of(s, b) == i,
    decreases i,
{
    if s.len() == 0 {
    } else if i == 0 {
    } else {
        lemma_first_index_of(s.drop_first(), b, i - 1);
    }
}

/// One segment's `(name, value)` pair: the part before the first `=` and
/// the part after it (empty when there is none), each decoded.
pub open spec fn segment_pair(seg: Seq<u8>) -> (Seq<char>, Seq<char>) {
    let e = first_index_of(seg, '=' as u8);
    let name = seg.subrange(0, e);
    let value = if e < seg.len() {
        seg.subrange(e + 1, seg.len() as int)
    } else {
        Seq::empty()
    };
    (component_chars(name), component_chars(value))
}

/// All `(name, value)` pairs of a form body, in order; empty segments
/// contribute nothing.
pub open spec fn form_pairs_spec(s: Seq<u8>) -> Seq<(Seq<char>, Seq<char>)>
    decreases s.len(),
    via form_pairs_spec_decreases
{
    if s.len() == 0 {
        Seq::empty()
    } else {
        let j = first_index_of(s, '&' as u8);
        let seg = s.subrange(0, j);
        let rest = if j < s.len() {
            s.subrange(j + 1, s.len() as int)
        } else {
            Seq::empty()
        };
        (if seg.len() == 0 {
            Seq::empty()
        } else {
            seq![segment_pair(seg)]
        }) + form_pairs_spec(rest)
    }
}

#[via_fn]
proof fn form_pairs_spec_decreases(s: Seq<u8>) {
    if s.len() > 0 {
        lemma_first_index_bounds(s, '&' as u8);
    }
}

/// Decode the bytes `from..to` of `body` as one form component.
#[verifier::loop_isolation(false)]
fn decode_component(body: &[u8], from: usize, to: usize) -> (r: Vec<u8>)
    requires
        from <= to <= body@.len(),
    ensures
        r@ == percent_decoded(plus_to_space(body@.subrange(from as int, to as int))),
{
    let ghost whole = plus_to_space(body@.subrange(from as int, to as int));
    let mut out: Vec<u8> = Vec::new();
    let mut i: usize = from;
    while i < to
        invariant
            from <= i <= to,
            out@ + percent_decoded(plus_to_space(body@.subrange(i as int, to as int)))
                =~= percent_decoded(whole),
        decreases to - i,
    {
        let ghost sfx = plus_to_space(body@.subrange(i as int, to as int));
        let b = body[i];
        if b == 37 && to - i >= 3 {
            let h1 = hex_val_exec(body[i + 1]);
            let h2 = hex_val_exec(body[i + 2]);
            if h1 < 16 && h2 < 16 {
                proof {
                    assert(sfx.len() >= 3);
                    assert(sfx[0] == '%' as u8);
                    assert(sfx[1] == plus_sp(body@[i + 1]));
                    assert(hex_val(sfx[1]) == hex_val(body@[i + 1]));
                    assert(hex_val(sfx[2]) == hex_val(body@[i + 2]));
                    assert(sfx.subrange(3, sfx.len() as int) =~= plus_to_space(
                        body@.subrange(i + 3, to as int),
                    ));
                }
                out.push((h1 * 16 + h2) as u8);
                i = i + 3;
                continue ;
            }
        }
        proof {
            assert(sfx[0] == plus_sp(body@[i as int]));
            if sfx.len() >= 3 && sfx[0] == '%' as u8 && hex_val(sfx[1]) < 16 && hex_val(sfx[2])
                < 16 {
                assert(body@[i as int] == '%' as u8);
                assert(hex_val(body@[i + 1]) == hex_val(sfx[1]));
                assert(false);
            }
            assert(sfx.drop_first() =~= plus_to_space(body@.subrange(i + 1, to as int)));
        }
        if b == 43 {
            out.push(32);
        } else {
            out.push(b);
        }
        i = i + 1;
    }
    proof {
        assert(plus_to_space(body@.subrange(to as int, to as int)) =~= Seq::<u8>::empty());
        assert(out@ =~= percent_decoded(whole));
    }
    out
}

/// `plus_to_space` on one byte.
pub open spec fn plus_sp(b: u8) -> u8 {
    if b == '+' as u8 {
        ' ' as u8
    } else {
        b
    }
}

fn hex_val_exec(b: u8) -> (r: u8)
    ensures
        r as nat == hex_val(b),
{
    if 48 <= b && b <= 57 {
        b - 48
    } else if 97 <= b && b <= 102 {
        b - 97 + 10
    } else if 65 <= b && b <= 70 {
        b - 65 + 10
    } else {
        16
    }
}

/// Parse a form body into its `(name, value)` pairs, in order.
#[verifier::loop_isolation(false)]
pub fn parse_form(body: &[u8]) -> (r: Vec<(String, String)>)
    ensures
        r.deep_view() =~= form_pairs_spec(body@),
{
    let n = body.len();
    let mut out: Vec<(String, String)> = Vec::new();
    proof {
        assert(body@.subrange(0, n as int) =~= body@);
        assert(out.deep_view() =~= Seq::<(Seq<char>, Seq<char>)>::empty());
    }
    let mut p: usize = 0;
    while p < n
        invariant
            0 <= p <= n,
            out.deep_view() + form_pairs_spec(body@.subrange(p as int, n as int))
                =~= form_pairs_spec(body@),
        decreases n - p,
    {
        let ghost sfx = body@.subrange(p as int, n as int);
        // find the end of this segment
        let mut j: usize = p;
        while j < n && body[j] != 38
            invariant
                p <= j <= n,
                forall|k: int| p <= k < j ==> body@[k] != '&' as u8,
            decreases n - j,
        {
            j = j + 1;
        }
        proof {
            assert(forall|k: int| 0 <= k < j - p ==> sfx[k] != '&' as u8);
            lemma_first_index_of(sfx, '&' as u8, j - p);
            assert(sfx.subrange(0, j - p) =~= body@.subrange(p as int, j as int));
        }
        if j > p {
            // split the segment on its first '='
            let mut e: usize = p;
            while e < j && body[e] != 61
                invariant
                    p <= e <= j,
                    forall|k: int| p <= k < e ==> body@[k] != '=' as u8,
                decreases j - e,
            {
                e = e + 1;
            }
            let ghost seg = body@.subrange(p as int, j as int);
            proof {
                assert(forall|k: int| 0 <= k < e - p ==> seg[k] != '=' as u8);
                lemma_first_index_of(seg, '=' as u8, e - p);
                assert(seg.subrange(0, e - p) =~= body@.subrange(p as int, e as int));
            }
            let name = decode_component(body, p, e);
            let value = if e < j {
                proof {
                    assert(seg.subrange(e - p + 1, seg.len() as int) =~= body@.subrange(
                        e + 1,
                        j as int,
                    ));
                }
                decode_component(body, e + 1, j)
            } else {
                Vec::new()
            };
            let ghost dv0 = out.deep_view();
            let pair = (utf8_lossy(&name), utf8_lossy(&value));
            out.push(pair);
            proof {
                if e >= j {
                    assert(percent_decoded(plus_to_space(Seq::<u8>::empty()))
                        =~= Seq::<u8>::empty());
                }
                assert(out@.last().deep_view() == segment_pair(seg));
                assert(out.deep_view() =~= dv0.push(segment_pair(seg))) by {
                    assert(forall|k: int|
                        0 <= k < dv0.len() ==> out@[k] == #[trigger] out@.drop_last()[k]);
                }
            }
        }
        proof {
            let jrel = j - p;
            assert(sfx.len() > 0);
            let seg2 = sfx.subrange(0, jrel);
            assert(seg2 =~= body@.subrange(p as int, j as int));
            let rest = if jrel < sfx.len() {
                sfx.subrange(jrel + 1, sfx.len() as int)
            } else {
                Seq::<u8>::empty()
            };
            if j < n {
                assert(rest =~= body@.subrange(j + 1, n as int));
            } else {
                assert(rest =~= body@.subrange(n as int, n as int));
            }
            assert(form_pairs_spec(sfx) == (if seg2.len() == 0 {
                Seq::<(Seq<char>, Seq<char>)>::empty()
            } else {
                seq![segment_pair(seg2)]
            }) + form_pairs_spec(rest));
            assert(out.deep_view() + form_pairs_spec(
                body@.subrange((if j < n { j + 1 } else { n as int }), n as int),
            ) =~= form_pairs_spec(body@));
        }
        if j < n {
            p = j + 1;
        } else {
            p = n;
        }
    }
    proof {
        assert(form_pairs_spec(body@.subrange(n as int, n as int)) =~= Seq::<
            (Seq<char>, Seq<char>),
        >::empty());
        assert(out.deep_view() =~= form_pairs_spec(body@));
    }
    out
}

/// The first value under `name`, if any.
pub open spec fn form_lookup(pairs: Seq<(Seq<char>, Seq<char>)>, name: Seq<char>) -> Option<
    Seq<char>,
>
    decreases pairs.len(),
{
    if pairs.len() == 0 {
        None
    } else if pairs[0].0 == name {
        Some(pairs[0].1)
    } else {
        form_lookup(pairs.drop_first(), name)
    }
}

/// Fetch the first value of field `name` from parsed pairs.
#[verifier::loop_isolation(false)]
pub fn form_get(pairs: &Vec<(String, String)>, name: &str) -> (r: Option<String>)
    ensures
        (match r {
            Some(v) => form_lookup(pairs.deep_view(), name@) == Some(v@),
            None => form_lookup(pairs.deep_view(), name@) is None,
        }),
{
    let n = pairs.len();
    proof {
        assert(pairs.deep_view().subrange(0, n as int) =~= pairs.deep_view());
    }
    let mut i: usize = 0;
    while i < n
        invariant
            0 <= i <= n,
            form_lookup(pairs.deep_view(), name@) == form_lookup(
                pairs.deep_view().subrange(i as int, n as int),
                name@,
            ),
        decreases n - i,
    {
        let ghost sfx = pairs.deep_view().subrange(i as int, n as int);
        if crate::strutil::str_eq(pairs[i].0.as_str(), name) {
            proof {
                assert(sfx[0] == pairs.deep_view()[i as int]);
            }
            return Some(pairs[i].1.clone());
        }
        proof {
            assert(sfx[0] == pairs.deep_view()[i as int]);
            assert(sfx.drop_first() =~= pairs.deep_view().subrange(i + 1, n as int));
        }
        i = i + 1;
    }
    proof {
        assert(pairs.deep_view().subrange(n as int, n as int) =~= Seq::<
            (Seq<char>, Seq<char>),
        >::empty());
    }
    None
}

} // verus!
