//! Substring search on character sequences: first occurrence, containment,
//! prefixes, and left-to-right replacement of every occurrence (what
//! `str::find`, `str::contains`, `str::starts_with` and `str::replace` do with
//! a string pattern).
use vstd::prelude::*;
use crate::text::chars_of;

verus! {

/// `pat` occurs in `s` at position `i`.
pub open spec fn occurs_at(s: Seq<char>, pat: Seq<char>, i: int) -> bool {
    0 <= i && i + pat.len() <= s.len() && s.subrange(i, i + pat.len()) == pat
}

/// The first position at or after `i` where `pat` occurs in `s`.
pub open spec fn find_from(s: Seq<char>, pat: Seq<char>, i: int) -> Option<int>
    decreases s.len() + 1 - i,
{
    if i < 0 || i + pat.len() > s.len() {
        None
    } else if s.subrange(i, i + pat.len()) == pat {
        Some(i)
    } else {
        find_from(s, pat, i + 1)
    }
}

/// The first position where `pat` occurs in `s`.
pub open spec fn find(s: Seq<char>, pat: Seq<char>) -> Option<int> {
    find_from(s, pat, 0)
}

/// Whether `pat` occurs in `s`.
pub open spec fn contains(s: Seq<char>, pat: Seq<char>) -> bool {
    find(s, pat) is Some
}

/// Whether `s` begins with `pat`.
pub open spec fn starts_with(s: Seq<char>, pat: Seq<char>) -> bool {
    pat.len() <= s.len() && s.subrange(0, pat.len() as int) == pat
}

/// Whether `s` ends with `pat`.
pub open spec fn ends_with(s: Seq<char>, pat: Seq<char>) -> bool {
    pat.len() <= s.len() && s.subrange(s.len() - pat.len(), s.len() as int) == pat
}

/// `find_from` gives the first occurrence at or after `i`, or there is none.
pub proof fn lemma_find_from(s: Seq<char>, pat: Seq<char>, i: int)
    requires
        0 <= i,
    ensures
        match find_from(s, pat, i) {
            Some(j) => i <= j && occurs_at(s, pat, j) && forall|k: int|
                i <= k < j ==> !#[trigger] occurs_at(s, pat, k),
            None => forall|k: int| i <= k ==> !#[trigger] occurs_at(s, pat, k),
        },
    decreases s.len() + 1 - i,
{
    if i + pat.len() <= s.len() && s.subrange(i, i + pat.len()) != pat {
        lemma_find_from(s, pat, i + 1);
    }
}

/// `pat` is first found at `j` when it occurs there and nowhere between
/// `i` and `j`.
pub proof fn lemma_find_is(s: Seq<char>, pat: Seq<char>, i: int, j: int)
    requires
        0 <= i <= j,
        occurs_at(s, pat, j),
        forall|k: int| i <= k < j ==> !#[trigger] occurs_at(s, pat, k),
    ensures
        find_from(s, pat, i) == Some(j),
    decreases j - i,
{
    if i < j {
        assert(!occurs_at(s, pat, i));
        lemma_find_is(s, pat, i + 1, j);
    }
}

/// The text from position `i` on, with every occurrence of `pat` (found left
/// to right, not overlapping) replaced by `rep`.
pub open spec fn replace_from(s: Seq<char>, pat: Seq<char>, rep: Seq<char>, i: int) -> Seq<char>
    decreases s.len() - i,
{
    if i < 0 || i > s.len() || pat.len() == 0 {
        s.subrange(if 0 <= i <= s.len() { i } else { s.len() as int }, s.len() as int)
    } else {
        match find_from(s, pat, i) {
            None => s.subrange(i, s.len() as int),
            Some(j) => {
                proof {
                    lemma_find_from(s, pat, i);
                }
                s.subrange(i, j) + rep + replace_from(s, pat, rep, j + pat.len())
            },
        }
    }
}

/// `s` with every occurrence of the nonempty `pat` replaced by `rep`.
pub open spec fn replace_all(s: Seq<char>, pat: Seq<char>, rep: Seq<char>) -> Seq<char> {
    replace_from(s, pat, rep, 0)
}

/// Replacing a pattern that does not occur changes nothing.
pub proof fn law_replace_absent(s: Seq<char>, pat: Seq<char>, rep: Seq<char>)
    requires
        pat.len() > 0,
        !contains(s, pat),
    ensures
        replace_all(s, pat, rep) == s,
{
    assert(s.subrange(0, s.len() as int) =~= s);
}

/// Whether `pat` occurs in `v` at `i`.
pub fn occurs_at_chars(v: &Vec<char>, pat: &Vec<char>, i: usize) -> (r: bool)
    ensures
        r == occurs_at(v@, pat@, i as int),
{
    if pat.len() > v.len() || i > v.len() - pat.len() {
        return false;
    }
    let mut k: usize = 0;
    while k < pat.len()
        invariant
            k <= pat.len(),
            i + pat.len() <= v.len(),
            forall|m: int| 0 <= m < k ==> v@[i + m] == pat@[m],
        decreases pat.len() - k,
    {
        if v[i + k] != pat[k] {
            assert(v@.subrange(i as int, i + pat.len())[k as int] != pat@[k as int]);
            return false;
        }
        k = k + 1;
    }
    assert(v@.subrange(i as int, i + pat.len()) =~= pat@);
    true
}

/// The first position at or after `from` where `pat` occurs in `v`.
pub fn find_from_chars(v: &Vec<char>, pat: &Vec<char>, from: usize) -> (r: Option<usize>)
    ensures
        match r {
            Some(j) => find_from(v@, pat@, from as int) == Some(j as int),
            None => find_from(v@, pat@, from as int) is None,
        },
{
    let mut i = from;
    while i <= v.len() && pat.len() <= v.len() - i
        invariant
            from <= i,
            find_from(v@, pat@, from as int) == find_from(v@, pat@, i as int),
        decreases v.len() + 1 - i,
    {
        if occurs_at_chars(v, pat, i) {
            return Some(i);
        }
        if i == v.len() {
            proof {
                if pat@.len() == 0 {
                    assert(v@.subrange(i as int, i as int) =~= pat@);
                }
            }
            return None;
        }
        i = i + 1;
    }
    None
}

/// Whether `pat` occurs in `s`.
pub fn contains_str(s: &str, pat: &str) -> (r: bool)
    ensures
        r == contains(s@, pat@),
{
    let v = chars_of(s);
    let p = chars_of(pat);
    find_from_chars(&v, &p, 0).is_some()
}

/// Whether `v` begins with `pat`.
pub fn starts_with_chars(v: &Vec<char>, pat: &Vec<char>) -> (r: bool)
    ensures
        r == starts_with(v@, pat@),
{
    occurs_at_chars(v, pat, 0)
}

/// Whether `s` begins with `pat`.
pub fn starts_with_str(s: &str, pat: &str) -> (r: bool)
    ensures
        r == starts_with(s@, pat@),
{
    let v = chars_of(s);
    let p = chars_of(pat);
    starts_with_chars(&v, &p)
}

/// Whether `v` ends with `pat`.
pub fn ends_with_chars(v: &Vec<char>, pat: &Vec<char>) -> (r: bool)
    ensures
        r == ends_with(v@, pat@),
{
    if pat.len() > v.len() {
        return false;
    }
    occurs_at_chars(v, pat, v.len() - pat.len())
}

/// `v` with every occurrence of the nonempty `pat` replaced by `rep`.
pub fn replace_all_chars(v: &Vec<char>, pat: &Vec<char>, rep: &Vec<char>) -> (r: Vec<char>)
    requires
        pat@.len() > 0,
    ensures
        r@ == replace_all(v@, pat@, rep@),
{
    let mut out: Vec<char> = Vec::new();
    let mut i: usize = 0;
    loop
        invariant
            i <= v.len(),
            pat@.len() > 0,
            out@ + replace_from(v@, pat@, rep@, i as int) == replace_all(v@, pat@, rep@),
        decreases v.len() - i,
    {
        let ghost before = out@;
        match find_from_chars(v, pat, i) {
            None => {
                let mut k = i;
                while k < v.len()
                    invariant
                        i <= k <= v.len(),
                        out@ == before + v@.subrange(i as int, k as int),
                    decreases v.len() - k,
                {
                    out.push(v[k]);
                    k = k + 1;
                }
                return out;
            },
            Some(j) => {
                proof {
                    lemma_find_from(v@, pat@, i as int);
                }
                let mut k = i;
                while k < j
                    invariant
                        i <= k <= j,
                        j + pat@.len() <= v.len(),
                        out@ == before + v@.subrange(i as int, k as int),
                    decreases j - k,
                {
                    out.push(v[k]);
                    k = k + 1;
                }
                let mut m: usize = 0;
                while m < rep.len()
                    invariant
                        m <= rep.len(),
                        out@ == before + v@.subrange(i as int, j as int) + rep@.take(m as int),
                    decreases rep.len() - m,
                {
                    out.push(rep[m]);
                    m = m + 1;
                    assert(rep@.take(m as int) == rep@.take(m - 1).push(rep@[m - 1]));
                }
                assert(rep@.take(rep.len() as int) == rep@);
                i = j + pat.len();
            },
        }
    }
}

/// `s` with every occurrence of the nonempty `pat` replaced by `rep`.
pub fn replace_str(s: &str, pat: &str, rep: &str) -> (r: Vec<char>)
    requires
        pat@.len() > 0,
    ensures
        r@ == replace_all(s@, pat@, rep@),
{
    let v = chars_of(s);
    let p = chars_of(pat);
    let w = chars_of(rep);
    replace_all_chars(&v, &p, &w)
}

// ---------------------------------------------------------------------------
// Position of a string in a list
// ---------------------------------------------------------------------------

/// Index of the first entry of `ids` equal to `x`, or `ids.len()`.
pub open spec fn index_of(ids: Seq<Seq<char>>, x: Seq<char>) -> int
    decreases ids.len(),
{
    if ids.len() == 0 {
        0
    } else if ids[0] == x {
        0
    } else {
        1 + index_of(ids.drop_first(), x)
    }
}

/// `index_of` finds the first occurrence, or runs off the end.
pub proof fn lemma_index_of(ids: Seq<Seq<char>>, x: Seq<char>)
    ensures
        0 <= index_of(ids, x) <= ids.len(),
        index_of(ids, x) < ids.len() <==> ids.contains(x),
        index_of(ids, x) < ids.len() ==> ids[index_of(ids, x)] == x,
        forall|k: int| 0 <= k < index_of(ids, x) ==> ids[k] != x,
    decreases ids.len(),
{
    if ids.len() > 0 && ids[0] != x {
        lemma_index_of(ids.drop_first(), x);
        if ids.drop_first().contains(x) {
            let j = choose|j: int| 0 <= j < ids.drop_first().len() && ids.drop_first()[j] == x;
            assert(ids[j + 1] == x);
        }
        if ids.contains(x) {
            let j = choose|j: int| 0 <= j < ids.len() && ids[j] == x;
            assert(ids.drop_first()[j - 1] == x);
        }
        assert forall|k: int| 0 <= k < index_of(ids, x) implies ids[k] != x by {
            if k > 0 {
                assert(ids[k] == ids.drop_first()[k - 1]);
            }
        }
    }
}

/// When `x` is not among the first `i` entries and is at `i` (or `i` is the
/// end), `index_of` is `i`.
pub proof fn lemma_index_first(ids: Seq<Seq<char>>, x: Seq<char>, i: int)
    requires
        0 <= i <= ids.len(),
        forall|k: int| 0 <= k < i ==> ids[k] != x,
        i < ids.len() ==> ids[i] == x,
    ensures
        index_of(ids, x) == i,
    decreases ids.len(),
{
    if ids.len() > 0 && i > 0 {
        assert forall|k: int| 0 <= k < i - 1 implies ids.drop_first()[k] != x by {
            assert(ids.drop_first()[k] == ids[k + 1]);
        }
        lemma_index_first(ids.drop_first(), x, i - 1);
    }
}

} // verus!
