//! Request-side header handling.
//!
//! The caller hands the forwarder an optional JSON object of string keys
//! and string values. A malformed payload is a hard error; an individual
//! entry whose key or value cannot stand on the wire is silently dropped.
//! Validity follows the wire rules: a header name is one to 65535
//! characters from the HTTP token alphabet, and a header value holds no
//! control character other than horizontal tab.

use vstd::prelude::*;
use vstd::seq_lib::*;
use vstd::string::StrSliceExecFns;

verus! {

/// A character the wire accepts in a header name: the HTTP token
/// alphabet (letters, digits, and a fixed set of punctuation).
pub open spec fn is_token_char(c: char) -> bool {
    ||| 'a' as int <= c as int <= 'z' as int
    ||| 'A' as int <= c as int <= 'Z' as int
    ||| '0' as int <= c as int <= '9' as int
    ||| c == '!'
    ||| c == '#'
    ||| c == '$'
    ||| c == '%'
    ||| c == '&'
    ||| c == '\''
    ||| c == '*'
    ||| c == '+'
    ||| c == '-'
    ||| c == '.'
    ||| c == '^'
    ||| c == '_'
    ||| c == '`'
    ||| c == '|'
    ||| c == '~'
}

/// A character the wire accepts in a header value: anything but a control
/// character, except that horizontal tab is allowed. (A character at or
/// above 128 is carried as bytes at or above 128, all of which the wire
/// accepts.)
pub open spec fn is_value_char(c: char) -> bool {
    c == '\t' || (32 <= c as int && c as int != 127)
}

/// A header name the wire accepts: non-empty, at most 65535 characters,
/// all from the token alphabet.
pub open spec fn valid_header_name(s: Seq<char>) -> bool {
    1 <= s.len() <= 65535 && (forall|i: int| 0 <= i < s.len() ==> is_token_char(s[i]))
}

/// A header value the wire accepts.
pub open spec fn valid_header_value(s: Seq<char>) -> bool {
    forall|i: int| 0 <= i < s.len() ==> is_value_char(s[i])
}

/// A key/value pair that can be attached to the outgoing request.
pub open spec fn valid_header_pair(k: Seq<char>, v: Seq<char>) -> bool {
    valid_header_name(k) && valid_header_value(v)
}

/// The views of a sequence of owned key/value pairs.
pub open spec fn pair_views(ps: Seq<(String, String)>) -> Seq<(Seq<char>, Seq<char>)> {
    ps.map_values(|p: (String, String)| (p.0@, p.1@))
}

/// The mapping a sequence of pairs stands for, later pairs winning.
pub open spec fn pairs_map(ps: Seq<(Seq<char>, Seq<char>)>) -> Map<Seq<char>, Seq<char>>
    decreases ps.len(),
{
    if ps.len() == 0 {
        Map::empty()
    } else {
        pairs_map(ps.drop_last()).insert(ps.last().0, ps.last().1)
    }
}

/// No two pairs share a key.
pub open spec fn distinct_keys(ps: Seq<(Seq<char>, Seq<char>)>) -> bool {
    forall|i: int, j: int| 0 <= i < j < ps.len() ==> ps[i].0 != ps[j].0
}

/// The entries of `m` whose key and value can stand on the wire.
pub open spec fn valid_entries(m: Map<Seq<char>, Seq<char>>) -> Map<Seq<char>, Seq<char>> {
    Map::new(
        |k: Seq<char>| m.dom().contains(k) && valid_header_pair(k, m[k]),
        |k: Seq<char>| m[k],
    )
}

/// The string-to-string mapping a JSON text stands for, or `None` where
/// the text is not a well-formed JSON object of string keys and string
/// values.
pub uninterp spec fn json_string_map(s: Seq<char>) -> Option<Map<Seq<char>, Seq<char>>>;

/// Relies on serde_json::from_str deserializing into a map of owned
/// strings: it succeeds exactly on a JSON object of string keys and
/// string values, hands back each entry once (later duplicates of a key
/// having won), and reports anything else as an error.
#[verifier::external_body]
pub(crate) fn parse_string_map(s: &str) -> (r: Result<Vec<(String, String)>, String>)
    ensures
        r is Ok <==> json_string_map(s@) is Some,
        r is Ok ==> pairs_map(pair_views(r.unwrap()@)) == json_string_map(s@).unwrap(),
        r is Ok ==> distinct_keys(pair_views(r.unwrap()@)),
{
    match serde_json::from_str::<std::collections::HashMap<String, String>>(s) {
        Ok(m) => Ok(m.into_iter().collect()),
        Err(e) => Err(e.to_string()),
    }
}

/// The predicate under which a pair survives filtering.
pub open spec fn wire_pair_pred() -> spec_fn((Seq<char>, Seq<char>)) -> bool {
    |p: (Seq<char>, Seq<char>)| valid_header_pair(p.0, p.1)
}

/// Every key of the mapping a pair sequence stands for is the key of one
/// of its pairs.
pub proof fn lemma_pairs_map_keys(ps: Seq<(Seq<char>, Seq<char>)>)
    ensures
        forall|k: Seq<char>|
            #[trigger] pairs_map(ps).dom().contains(k) ==> exists|i: int|
                0 <= i < ps.len() && ps[i].0 == k,
    decreases ps.len(),
{
    if ps.len() > 0 {
        lemma_pairs_map_keys(ps.drop_last());
        assert forall|k: Seq<char>| #[trigger]
            pairs_map(ps).dom().contains(k) implies exists|i: int|
            0 <= i < ps.len() && ps[i].0 == k by {
            if k == ps.last().0 {
                assert(ps[ps.len() - 1].0 == k);
            } else {
                assert(pairs_map(ps.drop_last()).dom().contains(k));
                let i = choose|i: int| 0 <= i < ps.drop_last().len() && ps.drop_last()[i].0 == k;
                assert(ps[i].0 == k);
            }
        }
    }
}

/// Pairs that survive filtering all stand in the unfiltered sequence.
proof fn lemma_filter_members<A>(s: Seq<A>, pred: spec_fn(A) -> bool)
    ensures
        forall|x: A| #[trigger] s.filter(pred).contains(x) ==> s.contains(x),
    decreases s.len(),
{
    reveal(Seq::filter);
    if s.len() > 0 {
        lemma_filter_members(s.drop_last(), pred);
        assert forall|x: A| #[trigger] s.filter(pred).contains(x) implies s.contains(x) by {
            let f = s.filter(pred);
            let j = choose|j: int| 0 <= j < f.len() && f[j] == x;
            if pred(s.last()) && j == f.len() - 1 {
                assert(s[s.len() - 1] == x);
            } else {
                assert(s.drop_last().filter(pred).contains(x));
                let i = choose|i: int|
                    0 <= i < s.drop_last().len() && s.drop_last()[i] == x;
                assert(s[i] == x);
            }
        }
    }
}

/// Filtering never brings two pairs under one key together.
pub proof fn lemma_filter_keeps_distinct(
    ps: Seq<(Seq<char>, Seq<char>)>,
    pred: spec_fn((Seq<char>, Seq<char>)) -> bool,
)
    requires
        distinct_keys(ps),
    ensures
        distinct_keys(ps.filter(pred)),
    decreases ps.len(),
{
    reveal(Seq::filter);
    if ps.len() > 0 {
        let dl = ps.drop_last();
        assert(distinct_keys(dl)) by {
            assert(forall|i: int, j: int|
                0 <= i < j < dl.len() ==> dl[i] == ps[i] && dl[j] == ps[j]);
        }
        lemma_filter_keeps_distinct(dl, pred);
        lemma_filter_members(dl, pred);
        if pred(ps.last()) {
            let f0 = dl.filter(pred);
            assert forall|i: int, j: int|
                0 <= i < j < ps.filter(pred).len() implies ps.filter(pred)[i].0 != ps.filter(
                pred,
            )[j].0 by {
                if j == ps.filter(pred).len() - 1 {
                    assert(f0.contains(f0[i]));
                    let l = choose|l: int| 0 <= l < dl.len() && dl[l] == f0[i];
                    assert(ps[l] == f0[i]);
                    assert(ps[l].0 != ps[ps.len() - 1].0);
                } else {
                    assert(ps.filter(pred)[i] == f0[i] && ps.filter(pred)[j] == f0[j]);
                }
            }
        }
    }
}

/// Filtering a pair sequence for wire-valid pairs and then reading it as
/// a mapping is reading it as a mapping and keeping the wire-valid
/// entries, provided no key repeats.
pub proof fn lemma_pairs_map_filter(ps: Seq<(Seq<char>, Seq<char>)>)
    requires
        distinct_keys(ps),
    ensures
        pairs_map(ps.filter(wire_pair_pred())) == valid_entries(pairs_map(ps)),
    decreases ps.len(),
{
    reveal(Seq::filter);
    let pred = wire_pair_pred();
    if ps.len() == 0 {
        assert(pairs_map(ps.filter(pred)) =~= valid_entries(pairs_map(ps)));
    } else {
        let dl = ps.drop_last();
        let k = ps.last().0;
        let v = ps.last().1;
        assert(distinct_keys(dl)) by {
            assert(forall|i: int, j: int|
                0 <= i < j < dl.len() ==> dl[i] == ps[i] && dl[j] == ps[j]);
        }
        lemma_pairs_map_filter(dl);
        lemma_pairs_map_keys(dl);
        assert(!pairs_map(dl).dom().contains(k)) by {
            if pairs_map(dl).dom().contains(k) {
                let i = choose|i: int| 0 <= i < dl.len() && dl[i].0 == k;
                assert(ps[i].0 == ps[ps.len() - 1].0);
            }
        }
        if pred(ps.last()) {
            assert(ps.filter(pred) == dl.filter(pred).push(ps.last()));
            assert(pairs_map(ps.filter(pred)) == pairs_map(dl.filter(pred)).insert(k, v)) by {
                assert(ps.filter(pred).drop_last() =~= dl.filter(pred));
            }
            assert(pairs_map(dl.filter(pred)).insert(k, v) =~= valid_entries(
                pairs_map(dl).insert(k, v),
            ));
        } else {
            assert(ps.filter(pred) == dl.filter(pred));
            assert(valid_entries(pairs_map(dl)) =~= valid_entries(pairs_map(dl).insert(k, v)));
        }
    }
}

fn token_char(c: char) -> (r: bool)
    ensures
        r == is_token_char(c),
{
    let u = c as u32;
    (97 <= u && u <= 122) || (65 <= u && u <= 90) || (48 <= u && u <= 57) || u == 33 || u == 35
        || u == 36 || u == 37 || u == 38 || u == 39 || u == 42 || u == 43 || u == 45 || u == 46
        || u == 94 || u == 95 || u == 96 || u == 124 || u == 126
}

fn value_char(c: char) -> (r: bool)
    ensures
        r == is_value_char(c),
{
    let u = c as u32;
    u == 9 || (32 <= u && u != 127)
}

/// Decide whether the wire accepts `s` as a header name.
pub fn check_header_name(s: &str) -> (r: bool)
    ensures
        r == valid_header_name(s@),
{
    let n = s.unicode_len();
    if n < 1 || n > 65535 {
        return false;
    }
    let mut i: usize = 0;
    while i < n
        invariant
            n == s@.len(),
            i <= n,
            forall|j: int| 0 <= j < i ==> is_token_char(s@[j]),
        decreases n - i,
    {
        if !token_char(s.get_char(i)) {
            return false;
        }
        i += 1;
    }
    true
}

/// Decide whether the wire accepts `s` as a header value.
pub fn check_header_value(s: &str) -> (r: bool)
    ensures
        r == valid_header_value(s@),
{
    let n = s.unicode_len();
    let mut i: usize = 0;
    while i < n
        invariant
            n == s@.len(),
            i <= n,
            forall|j: int| 0 <= j < i ==> is_value_char(s@[j]),
        decreases n - i,
    {
        if !value_char(s.get_char(i)) {
            return false;
        }
        i += 1;
    }
    true
}

/// Decide whether the pair can be attached to the outgoing request.
pub fn check_header_pair(k: &String, v: &String) -> (r: bool)
    ensures
        r == valid_header_pair(k@, v@),
{
    check_header_name(k.as_str()) && check_header_value(v.as_str())
}

/// Filtering a sequence one element at a time agrees with filtering it
/// whole.
proof fn lemma_filter_push<A>(s: Seq<A>, x: A, pred: spec_fn(A) -> bool)
    ensures
        s.push(x).filter(pred) == (if pred(x) {
            s.filter(pred).push(x)
        } else {
            s.filter(pred)
        }),
{
    reveal(Seq::filter);
    assert(s.push(x).drop_last() =~= s);
    assert(s.push(x).last() == x);
    assert(s.push(x).filter(pred) == (if pred(s.push(x).last()) {
        s.push(x).drop_last().filter(pred).push(s.push(x).last())
    } else {
        s.push(x).drop_last().filter(pred)
    }));
}

/// Keep exactly the pairs the wire accepts, in their given order; the
/// rest are dropped without complaint.
#[verifier::loop_isolation(false)]
pub fn filter_valid_headers(pairs: Vec<(String, String)>) -> (r: Vec<(String, String)>)
    ensures
        pair_views(r@) == pair_views(pairs@).filter(wire_pair_pred()),
{
    let ghost pred = wire_pair_pred();
    let mut out: Vec<(String, String)> = Vec::new();
    let mut i: usize = 0;
    while i < pairs.len()
        invariant
            i <= pairs.len(),
            pair_views(out@) == pair_views(pairs@.take(i as int)).filter(pred),
        decreases pairs.len() - i,
    {
        let keep = check_header_pair(&pairs[i].0, &pairs[i].1);
        let ghost p = (pairs@[i as int].0@, pairs@[i as int].1@);
        let ghost prev = out@;
        proof {
            assert(pair_views(pairs@.take(i + 1)) =~= pair_views(pairs@.take(i as int)).push(p));
            lemma_filter_push(pair_views(pairs@.take(i as int)), p, pred);
        }
        if keep {
            out.push((pairs[i].0.clone(), pairs[i].1.clone()));
            proof {
                assert(pair_views(out@) =~= pair_views(prev).push(p));
            }
        }
        proof {
            assert(pred(p) == valid_header_pair(p.0, p.1));
            assert(pair_views(pairs@.take(i + 1)).filter(pred) == (if pred(p) {
                pair_views(pairs@.take(i as int)).filter(pred).push(p)
            } else {
                pair_views(pairs@.take(i as int)).filter(pred)
            }));
            assert(pair_views(out@) == pair_views(pairs@.take(i + 1)).filter(pred));
        }
        i += 1;
    }
    proof {
        assert(pairs@.take(pairs@.len() as int) =~= pairs@);
    }
    out
}

} // verus!
