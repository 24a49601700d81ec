//! Verified text utilities: equality, substring search, splitting and
//! joining, the building blocks of catalog parsing and SQL synthesis.

use vstd::prelude::*;

verus! {

/// The pattern `p` occurs in `h` starting at position `i`.
pub open spec fn matches_at(h: Seq<char>, p: Seq<char>, i: int) -> bool {
    0 <= i && i + p.len() <= h.len() && h.subrange(i, i + p.len()) == p
}

/// The pattern `p` occurs somewhere in `h`.
pub open spec fn contains_seq(h: Seq<char>, p: Seq<char>) -> bool {
    exists|i: int| matches_at(h, p, i)
}

/// String equality on views.
pub fn str_eq(a: &str, b: &str) -> (r: bool)
    ensures
        r == (a@ == b@),
{
    let alen = a.unicode_len();
    let blen = b.unicode_len();
    if alen != blen {
        return false;
    }
    let mut i: usize = 0;
    while i < alen
        invariant
            i <= alen,
            alen == a@.len(),
            alen == b@.len(),
            forall|j: int| 0 <= j < i ==> a@[j] == b@[j],
        decreases alen - i,
    {
        if a.get_char(i) != b.get_char(i) {
            return false;
        }
        i = i + 1;
    }
    proof {
        assert(a@ =~= b@);
    }
    true
}

/// Whether `p` occurs in `h` starting exactly at `at`.
fn matches_here(h: &str, p: &str, at: usize) -> (r: bool)
    requires
        at + p@.len() <= h@.len(),
    ensures
        r == matches_at(h@, p@, at as int),
{
    let hlen = h.unicode_len();
    let plen = p.unicode_len();
    let mut j: usize = 0;
    while j < plen
        invariant
            j <= plen,
            plen == p@.len(),
            hlen == h@.len(),
            at + plen <= hlen,
            forall|k: int| 0 <= k < j ==> h@[at + k] == p@[k],
        decreases plen - j,
    {
        if h.get_char(at + j) != p.get_char(j) {
            proof {
                assert(h@.subrange(at as int, at + p@.len())[j as int] == h@[at + j]);
            }
            return false;
        }
        j = j + 1;
    }
    proof {
        assert(h@.subrange(at as int, at + p@.len()) =~= p@);
    }
    true
}

/// Position of the first occurrence of `p` in `h`, if any.
pub fn find_sub(h: &str, p: &str) -> (r: Option<usize>)
    ensures
        match r {
            Some(i) => matches_at(h@, p@, i as int) && forall|j: int|
                0 <= j < i ==> !matches_at(h@, p@, j),
            None => !contains_seq(h@, p@),
        },
{
    let hlen = h.unicode_len();
    let plen = p.unicode_len();
    if plen > hlen {
        return None;
    }
    if plen == 0 {
        proof {
            assert(matches_at(h@, p@, 0)) by {
                assert(h@.subrange(0, 0) =~= p@);
            }
        }
        return Some(0);
    }
    let last = hlen - plen;
    let mut i: usize = 0;
    loop
        invariant
            i <= last + 1,
            hlen == h@.len(),
            plen == p@.len(),
            1 <= plen <= hlen,
            last == hlen - plen,
            forall|j: int| 0 <= j < i ==> !matches_at(h@, p@, j),
        decreases last + 1 - i,
    {
        if i > last {
            proof {
                assert(forall|j: int| matches_at(h@, p@, j) ==> 0 <= j <= last as int);
            }
            return None;
        }
        if matches_here(h, p, i) {
            return Some(i);
        }
        i = i + 1;
    }
}

/// Whether `p` occurs in `h`.
pub fn contains_sub(h: &str, p: &str) -> (r: bool)
    ensures
        r == contains_seq(h@, p@),
{
    match find_sub(h, p) {
        Some(_) => true,
        None => false,
    }
}

/// Position of the first occurrence of `p` in `h`, or `-1` when `p` does not
/// occur. Written structurally so that the splitting functions have a
/// deterministic specification.
pub open spec fn first_index(h: Seq<char>, p: Seq<char>) -> int
    decreases h.len(),
{
    if matches_at(h, p, 0) {
        0
    } else if h.len() == 0 {
        -1
    } else {
        let r = first_index(h.drop_first(), p);
        if r < 0 {
            -1
        } else {
            r + 1
        }
    }
}

/// A match of `p` in the tail of `h` is a match in `h` shifted by one.
proof fn lemma_match_shift(h: Seq<char>, p: Seq<char>, j: int)
    requires
        h.len() > 0,
    ensures
        matches_at(h.drop_first(), p, j) <==> (j >= 0 && matches_at(h, p, j + 1)),
{
    if 0 <= j && j + p.len() <= h.len() - 1 {
        assert(h.drop_first().subrange(j, j + p.len()) =~= h.subrange(j + 1, j + 1 + p.len()));
    }
}

/// `first_index` finds exactly the least position at which `p` matches.
pub proof fn lemma_first_index(h: Seq<char>, p: Seq<char>)
    ensures
        contains_seq(h, p) <==> first_index(h, p) >= 0,
        first_index(h, p) >= 0 ==> matches_at(h, p, first_index(h, p)),
        forall|j: int| 0 <= j < first_index(h, p) ==> !matches_at(h, p, j),
    decreases h.len(),
{
    if matches_at(h, p, 0) {
    } else if h.len() == 0 {
        assert forall|i: int| !matches_at(h, p, i) by {
            if matches_at(h, p, i) {
                assert(i == 0);
            }
        }
    } else {
        lemma_first_index(h.drop_first(), p);
        assert forall|j: int| lemma_match_shift_trigger(j) implies (matches_at(
            h.drop_first(),
            p,
            j,
        ) <==> (j >= 0 && matches_at(h, p, j + 1))) by {
            lemma_match_shift(h, p, j);
        }
        let r = first_index(h.drop_first(), p);
        if contains_seq(h, p) {
            let w = choose|i: int| matches_at(h, p, i);
            assert(w != 0);
            assert(lemma_match_shift_trigger(w - 1));
            assert(matches_at(h.drop_first(), p, w - 1));
        }
        if r >= 0 {
            assert(lemma_match_shift_trigger(r));
            assert forall|j: int| 0 <= j < r + 1 implies !matches_at(h, p, j) by {
                if j > 0 {
                    assert(lemma_match_shift_trigger(j - 1));
                }
            }
        } else {
            assert forall|j: int| !matches_at(h, p, j) by {
                if matches_at(h, p, j) {
                    assert(j != 0);
                    assert(lemma_match_shift_trigger(j - 1));
                }
            }
        }
    }
}

/// Trigger marker for quantified shifts in `lemma_first_index`.
spec fn lemma_match_shift_trigger(j: int) -> bool {
    true
}

/// The pieces of `h` cut at each leftmost occurrence of `p`, the occurrences
/// themselves removed; `seq![h]` when `p` does not occur.
pub open spec fn split_seq(h: Seq<char>, p: Seq<char>) -> Seq<Seq<char>>
    decreases h.len(),
{
    if p.len() == 0 {
        seq![h]
    } else {
        let i = first_index(h, p);
        if i < 0 || i + p.len() > h.len() {
            seq![h]
        } else {
            seq![h.subrange(0, i)] + split_seq(h.subrange(i + p.len(), h.len() as int), p)
        }
    }
}

/// The views of a sequence of owned strings.
pub open spec fn views_of(v: Seq<String>) -> Seq<Seq<char>> {
    v.map_values(|s: String| s@)
}

/// The substring of `s` between character positions `from` and `to`, owned.
pub fn substr_string(s: &str, from: usize, to: usize) -> (r: String)
    requires
        from <= to <= s@.len(),
    ensures
        r@ == s@.subrange(from as int, to as int),
{
    String::from_str(s.substring_char(from, to))
}

/// Splits `s` at each leftmost occurrence of the separator `p`.
pub fn split_all(s: &str, p: &str) -> (r: Vec<String>)
    requires
        p@.len() >= 1,
    ensures
        views_of(r@) == split_seq(s@, p@),
        r@.len() >= 1,
{
    let mut parts: Vec<String> = Vec::new();
    let mut rem: String = String::from_str(s);
    loop
        invariant
            p@.len() >= 1,
            split_seq(s@, p@) == views_of(parts@) + split_seq(rem@, p@),
        decreases rem@.len(),
    {
        proof {
            lemma_first_index(rem@, p@);
        }
        match find_sub(rem.as_str(), p) {
            None => {
                proof {
                    // no match in the remainder: it is the final piece
                    assert(split_seq(rem@, p@) =~= seq![rem@]);
                }
                let ghost old_parts = parts@;
                let ghost old_rem = rem@;
                parts.push(rem);
                proof {
                    assert(views_of(parts@) =~= views_of(old_parts).push(old_rem));
                    assert(views_of(old_parts) + seq![old_rem] =~= views_of(old_parts).push(
                        old_rem,
                    ));
                    assert(views_of(parts@) == split_seq(s@, p@));
                }
                return parts;
            },
            Some(i) => {
                proof {
                    // the found position is the least match, hence it is
                    // first_index, and split_seq unfolds at it
                    let fi = first_index(rem@, p@);
                    assert(!(i < fi));
                    assert(!(fi < i));
                    assert(fi == i as int);
                }
                let rlen = rem.as_str().unicode_len();
                let piece = substr_string(rem.as_str(), 0, i);
                let rest = substr_string(rem.as_str(), i + p.unicode_len(), rlen);
                let ghost old_parts = parts@;
                let ghost old_rem = rem@;
                parts.push(piece);
                rem = rest;
                proof {
                    assert(views_of(parts@) =~= views_of(old_parts).push(old_rem.subrange(
                        0,
                        i as int,
                    )));
                    assert(views_of(parts@) + split_seq(rem@, p@) =~= views_of(old_parts)
                        + split_seq(old_rem, p@));
                }
            },
        }
    }
}

/// The parts laid end to end with `sep` between each adjacent pair.
pub open spec fn join_seq(parts: Seq<Seq<char>>, sep: Seq<char>) -> Seq<char>
    decreases parts.len(),
{
    if parts.len() == 0 {
        Seq::empty()
    } else if parts.len() == 1 {
        parts[0]
    } else {
        parts[0] + sep + join_seq(parts.drop_first(), sep)
    }
}

/// Appending one more part joins as the old join, the separator, the part.
pub proof fn lemma_join_push(parts: Seq<Seq<char>>, sep: Seq<char>, x: Seq<char>)
    requires
        parts.len() >= 1,
    ensures
        join_seq(parts.push(x), sep) == join_seq(parts, sep) + sep + x,
    decreases parts.len(),
{
    if parts.len() == 1 {
        assert(parts.push(x).drop_first() =~= seq![x]);
        assert(join_seq(seq![x], sep) == x);
        assert(parts.push(x)[0] == parts[0]);
        assert(join_seq(parts.push(x), sep) == parts[0] + sep + x);
    } else {
        lemma_join_push(parts.drop_first(), sep, x);
        assert(parts.push(x).drop_first() =~= parts.drop_first().push(x));
        assert(parts.push(x)[0] == parts[0]);
        assert(join_seq(parts.push(x), sep) == parts[0] + sep + (join_seq(parts.drop_first(), sep)
            + sep + x));
        assert(join_seq(parts.push(x), sep) =~= join_seq(parts, sep) + sep + x);
    }
}

/// Joins the parts with the separator `sep` between each adjacent pair.
pub fn join_with(parts: &Vec<String>, sep: &str) -> (r: String)
    ensures
        r@ == join_seq(views_of(parts@), sep@),
{
    let mut acc = String::new();
    let n = parts.len();
    if n == 0 {
        return acc;
    }
    acc.append(parts[0].as_str());
    let mut i: usize = 1;
    while i < n
        invariant
            1 <= i <= n,
            n == parts@.len(),
            acc@ == join_seq(views_of(parts@.take(i as int)), sep@),
        decreases n - i,
    {
        acc.append(sep);
        acc.append(parts[i].as_str());
        proof {
            assert(views_of(parts@.take(i as int)).len() >= 1);
            lemma_join_push(views_of(parts@.take(i as int)), sep@, parts@[i as int]@);
            assert(views_of(parts@.take(i + 1)) =~= views_of(parts@.take(i as int)).push(
                parts@[i as int]@,
            ));
        }
        i = i + 1;
    }
    proof {
        assert(parts@.take(n as int) =~= parts@);
    }
    acc
}

} // verus!
