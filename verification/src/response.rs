//! Response-side header collection.
//!
//! The transport hands back each response header as a name together with
//! its value as text, or `None` where the value's bytes do not read as
//! text. Entries without a readable value are dropped without complaint;
//! of several readable entries under one name, the last wins, as an
//! insertion into a map would have it. The result carries each surviving
//! name once.

use vstd::prelude::*;
use crate::headers::pair_views;
use crate::headers::distinct_keys;

verus! {

/// The views of the raw name/value pairs the transport handed back.
pub open spec fn raw_views(rs: Seq<(String, Option<String>)>) -> Seq<
    (Seq<char>, Option<Seq<char>>),
> {
    rs.map_values(
        |p: (String, Option<String>)|
            (
                p.0@,
                match p.1 {
                    Some(v) => Some(v@),
                    None => None,
                },
            ),
    )
}

/// Whether some pair of `ps` carries the key `k`.
pub open spec fn has_key(ps: Seq<(Seq<char>, Seq<char>)>, k: Seq<char>) -> bool {
    exists|j: int| 0 <= j < ps.len() && ps[j].0 == k
}

/// The pairs collected from the suffix of `rs` that starts at `i`: an
/// entry survives when its value is readable and no later entry under the
/// same name has a readable value.
pub open spec fn collect_from(rs: Seq<(Seq<char>, Option<Seq<char>>)>, i: int) -> Seq<
    (Seq<char>, Seq<char>),
>
    decreases rs.len() - i,
{
    if i >= rs.len() {
        Seq::empty()
    } else {
        let rest = collect_from(rs, i + 1);
        match rs[i].1 {
            None => rest,
            Some(v) => if has_key(rest, rs[i].0) {
                rest
            } else {
                rest.push((rs[i].0, v))
            },
        }
    }
}

/// The mapping collected from the whole of `rs`.
pub open spec fn collected(rs: Seq<(Seq<char>, Option<Seq<char>>)>) -> Seq<
    (Seq<char>, Seq<char>),
> {
    collect_from(rs, 0)
}

fn contains_key(ps: &Vec<(String, String)>, k: &String) -> (r: bool)
    ensures
        r == has_key(pair_views(ps@), k@),
{
    let mut j: usize = 0;
    while j < ps.len()
        invariant
            j <= ps.len(),
            forall|l: int| 0 <= l < j ==> pair_views(ps@)[l].0 != k@,
        decreases ps.len() - j,
    {
        let hit = ps[j].0.eq(k);
        proof {
            assert(pair_views(ps@)[j as int] == (ps@[j as int].0@, ps@[j as int].1@));
        }
        if hit {
            proof {
                assert(pair_views(ps@)[j as int].0 == k@);
            }
            return true;
        }
        j += 1;
    }
    false
}

/// Collect the response headers the caller will see: entries whose value
/// is not readable as text are omitted; of the rest, the last entry under
/// each name survives, and each surviving name appears once.
#[verifier::loop_isolation(false)]
pub fn collect_headers(raw: &Vec<(String, Option<String>)>) -> (r: Vec<(String, String)>)
    ensures
        pair_views(r@) == collected(raw_views(raw@)),
        distinct_keys(pair_views(r@)),
{
    let mut out: Vec<(String, String)> = Vec::new();
    let mut i: usize = raw.len();
    while i > 0
        invariant
            i <= raw.len(),
            pair_views(out@) == collect_from(raw_views(raw@), i as int),
            distinct_keys(pair_views(out@)),
        decreases i,
    {
        i -= 1;
        let ghost prev = out@;
        match &raw[i].1 {
            None => {
                assert(raw_views(raw@)[i as int].1 is None);
            },
            Some(v) => {
                assert(raw_views(raw@)[i as int].1 == Some(v@));
                if !contains_key(&out, &raw[i].0) {
                    out.push((raw[i].0.clone(), v.clone()));
                    proof {
                        assert(pair_views(out@) =~= pair_views(prev).push((raw@[i as int].0@, v@)));
                    }
                }
            },
        }
    }
    out
}

/// The names that survive collection are exactly those that arrive with a
/// readable value; every other name is omitted.
pub proof fn lemma_collected_names(rs: Seq<(Seq<char>, Option<Seq<char>>)>, i: int)
    ensures
        forall|k: Seq<char>|
            has_key(collect_from(rs, i), k) <==> exists|l: int|
                i <= l < rs.len() && rs[l].0 == k && rs[l].1 is Some,
    decreases rs.len() - i,
{
    if i >= rs.len() {
        assert(collect_from(rs, i) =~= Seq::<(Seq<char>, Seq<char>)>::empty());
        assert forall|k: Seq<char>| !has_key(collect_from(rs, i), k) by {}
    } else {
        lemma_collected_names(rs, i + 1);
        let rest = collect_from(rs, i + 1);
        assert forall|k: Seq<char>|
            has_key(collect_from(rs, i), k) <==> exists|l: int|
                i <= l < rs.len() && rs[l].0 == k && rs[l].1 is Some by {
            match rs[i].1 {
                None => {
                    if exists|l: int| i <= l < rs.len() && rs[l].0 == k && rs[l].1 is Some {
                        let l = choose|l: int| i <= l < rs.len() && rs[l].0 == k
                            && rs[l].1 is Some;
                        assert(l > i);
                    }
                },
                Some(v) => {
                    if has_key(rest, rs[i].0) {
                        if rs[i].0 == k {
                            assert(has_key(collect_from(rs, i), k));
                        }
                        if exists|l: int| i <= l < rs.len() && rs[l].0 == k && rs[l].1 is Some {
                            assert(has_key(collect_from(rs, i), k));
                        }
                    } else {
                        let c = collect_from(rs, i);
                        assert(c == rest.push((rs[i].0, v)));
                        if rs[i].0 == k {
                            assert(c[c.len() - 1].0 == k);
                            assert(has_key(c, k));
                        } else {
                            if has_key(c, k) {
                                let j = choose|j: int| 0 <= j < c.len() && c[j].0 == k;
                                assert(j < rest.len() && rest[j].0 == k);
                                assert(has_key(rest, k));
                            }
                            if has_key(rest, k) {
                                let j = choose|j: int| 0 <= j < rest.len() && rest[j].0 == k;
                                assert(c[j].0 == k);
                            }
                        }
                    }
                },
            }
        }
    }
}

/// A surviving entry carries the right value: where an entry's value is
/// readable and no later entry under the same name has a readable value,
/// the collected pair under that name holds that entry's value.
pub proof fn lemma_collected_values(rs: Seq<(Seq<char>, Option<Seq<char>>)>, i: int)
    ensures
        forall|l: int, j: int|
            i <= l < rs.len() && rs[l].1 is Some && (forall|l2: int|
                l < l2 < rs.len() ==> !(rs[l2].0 == rs[l].0 && rs[l2].1 is Some)) && 0 <= j
                < collect_from(rs, i).len() && collect_from(rs, i)[j].0 == rs[l].0 ==> collect_from(
                rs,
                i,
            )[j].1 == rs[l].1.unwrap(),
    decreases rs.len() - i,
{
    if i >= rs.len() {
    } else {
        lemma_collected_values(rs, i + 1);
        lemma_collected_names(rs, i + 1);
        let rest = collect_from(rs, i + 1);
        let c = collect_from(rs, i);
        assert forall|l: int, j: int|
            i <= l < rs.len() && rs[l].1 is Some && (forall|l2: int|
                l < l2 < rs.len() ==> !(rs[l2].0 == rs[l].0 && rs[l2].1 is Some)) && 0 <= j
                < c.len() && c[j].0 == rs[l].0 implies c[j].1 == rs[l].1.unwrap() by {
            match rs[i].1 {
                None => {
                    assert(l > i);
                },
                Some(v) => {
                    if has_key(rest, rs[i].0) {
                        assert(c == rest);
                        if l == i {
                            assert(exists|l2: int|
                                i + 1 <= l2 < rs.len() && rs[l2].0 == rs[i].0
                                    && rs[l2].1 is Some);
                        }
                    } else {
                        assert(c == rest.push((rs[i].0, v)));
                        if l == i {
                            if j < rest.len() {
                                assert(rest[j].0 == rs[i].0);
                                assert(has_key(rest, rs[i].0));
                            }
                            assert(j == rest.len());
                            assert(c[j].1 == v);
                        } else {
                            if j == rest.len() {
                                assert(c[j].0 == rs[i].0);
                                assert(!(exists|l2: int|
                                    i + 1 <= l2 < rs.len() && rs[l2].0 == rs[i].0
                                        && rs[l2].1 is Some));
                                assert(rs[l].0 == rs[i].0 && rs[l].1 is Some && i + 1 <= l
                                    < rs.len());
                                assert(false);
                            }
                            assert(c[j] == rest[j]);
                        }
                    }
                },
            }
        }
    }
}

} // verus!
