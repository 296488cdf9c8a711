//! Entries keyed by a path, the way a map built by inserting them in order
//! holds them: one entry per key, with the value inserted last.
use vstd::prelude::*;
use crate::domain::photo::chars_eq;
use crate::text::chars_of;

verus! {

/// The keys of `s`, as characters.
pub open spec fn keys_of<T>(s: Seq<(String, T)>) -> Seq<Seq<char>> {
    s.map_values(|e: (String, T)| e.0@)
}

/// The entries of `s` whose key does not come again later, in order: what
/// stays of `s` when each later entry replaces an earlier one with its key.
pub open spec fn keep_last<T>(s: Seq<(String, T)>) -> Seq<(String, T)>
    decreases s.len(),
{
    if s.len() == 0 {
        Seq::empty()
    } else if keys_of(s.drop_first()).contains(s[0].0@) {
        keep_last(s.drop_first())
    } else {
        seq![s[0]] + keep_last(s.drop_first())
    }
}

/// `keep_last` keeps each key once, and exactly the keys of `s`.
pub proof fn lemma_keep_last<T>(s: Seq<(String, T)>)
    ensures
        keys_of(keep_last(s)).no_duplicates(),
        forall|x: Seq<char>| keys_of(keep_last(s)).contains(x) <==> keys_of(s).contains(x),
    decreases s.len(),
{
    if s.len() > 0 {
        let t = s.drop_first();
        lemma_keep_last(t);
        assert(keys_of(t) =~= keys_of(s).drop_first());
        assert forall|x: Seq<char>| keys_of(s).contains(x) <==> (x == s[0].0@ || keys_of(t).contains(x)) by {
            if keys_of(s).contains(x) {
                let j = choose|j: int| 0 <= j < keys_of(s).len() && keys_of(s)[j] == x;
                if j > 0 {
                    assert(keys_of(t)[j - 1] == x);
                }
            }
            if keys_of(t).contains(x) {
                let j = choose|j: int| 0 <= j < keys_of(t).len() && keys_of(t)[j] == x;
                assert(keys_of(s)[j + 1] == x);
            }
            if x == s[0].0@ {
                assert(keys_of(s)[0] == x);
            }
        }
        if !keys_of(t).contains(s[0].0@) {
            let r = keep_last(t);
            assert(keys_of(seq![s[0]] + r) =~= seq![s[0].0@] + keys_of(r));
            assert forall|x: Seq<char>| keys_of(seq![s[0]] + r).contains(x) <==> (x == s[0].0@ || keys_of(r).contains(x)) by {
                if keys_of(seq![s[0]] + r).contains(x) {
                    let j = choose|j: int| 0 <= j < keys_of(seq![s[0]] + r).len() && keys_of(seq![s[0]] + r)[j] == x;
                    if j > 0 {
                        assert(keys_of(r)[j - 1] == x);
                    }
                }
                if keys_of(r).contains(x) {
                    let j = choose|j: int| 0 <= j < keys_of(r).len() && keys_of(r)[j] == x;
                    assert(keys_of(seq![s[0]] + r)[j + 1] == x);
                }
                if x == s[0].0@ {
                    assert(keys_of(seq![s[0]] + r)[0] == x);
                }
            }
            assert(keys_of(seq![s[0]] + r).no_duplicates()) by {
                assert forall|i: int, j: int|
                    0 <= i < j < keys_of(seq![s[0]] + r).len() implies keys_of(seq![s[0]] + r)[i] != keys_of(
                    seq![s[0]] + r,
                )[j] by {
                    if i == 0 {
                        assert(keys_of(r)[j - 1] == keys_of(seq![s[0]] + r)[j]);
                    } else {
                        assert(keys_of(r)[i - 1] == keys_of(seq![s[0]] + r)[i]);
                        assert(keys_of(r)[j - 1] == keys_of(seq![s[0]] + r)[j]);
                    }
                }
            }
        }
    }
}

/// Whether `key` is among the keys of `v`.
fn has_key<T>(v: &Vec<(String, T)>, key: &str) -> (r: bool)
    ensures
        r == keys_of(v@).contains(key@),
{
    let k = chars_of(key);
    let mut i: usize = 0;
    while i < v.len()
        invariant
            i <= v.len(),
            k@ == key@,
            forall|j: int| 0 <= j < i ==> keys_of(v@)[j] != key@,
        decreases v.len() - i,
    {
        if chars_eq(&chars_of(v[i].0.as_str()), &k) {
            assert(keys_of(v@)[i as int] == key@);
            return true;
        }
        i = i + 1;
    }
    false
}

/// The entries of `entries` as a map built by inserting them in order
/// holds them: one per key, the last inserted, in the order of the entries
/// that stay.
pub fn keep_last_entries<T>(entries: Vec<(String, T)>) -> (r: Vec<(String, T)>)
    ensures
        r@ == keep_last(entries@),
        keys_of(r@).no_duplicates(),
        forall|x: Seq<char>| keys_of(r@).contains(x) <==> keys_of(entries@).contains(x),
{
    let ghost all = entries@;
    let mut v = entries;
    let mut rev: Vec<(String, T)> = Vec::new();
    while v.len() > 0
        invariant
            v@ == all.take(v@.len() as int),
            v@.len() <= all.len(),
            rev@.reverse() == keep_last(all.skip(v@.len() as int)),
        decreases v.len(),
    {
        let ghost n = v@.len();
        let x = v.pop().unwrap();
        let ghost suffix = all.skip(n as int);
        let ghost longer = all.skip(n - 1);
        proof {
            assert(x == all[n - 1]);
            assert(longer.drop_first() =~= suffix);
            assert(longer[0] == x);
            lemma_keep_last(suffix);
            assert(keys_of(rev@.reverse()) =~= keys_of(rev@).reverse());
            assert forall|y: Seq<char>| keys_of(rev@).contains(y) <==> keys_of(rev@.reverse()).contains(y) by {
                if keys_of(rev@).contains(y) {
                    let j = choose|j: int| 0 <= j < keys_of(rev@).len() && keys_of(rev@)[j] == y;
                    assert(keys_of(rev@.reverse())[keys_of(rev@).len() - 1 - j] == y);
                }
                if keys_of(rev@.reverse()).contains(y) {
                    let j = choose|j: int| 0 <= j < keys_of(rev@.reverse()).len() && keys_of(rev@.reverse())[j] == y;
                    assert(keys_of(rev@)[keys_of(rev@).len() - 1 - j] == y);
                }
            }
        }
        let seen = has_key(&rev, x.0.as_str());
        if !seen {
            let ghost before = rev@;
            rev.push(x);
            assert(rev@.reverse() =~= seq![x] + before.reverse());
        }
        assert(v@ =~= all.take(v@.len() as int));
    }
    assert(all.skip(0) =~= all);
    let ghost kept = rev@.reverse();
    let mut out: Vec<(String, T)> = Vec::new();
    while rev.len() > 0
        invariant
            out@ + rev@.reverse() == kept,
        decreases rev.len(),
    {
        let ghost before_rev = rev@;
        let x = rev.pop().unwrap();
        let ghost before_out = out@;
        out.push(x);
        assert(before_rev.reverse() =~= seq![x] + rev@.reverse());
        assert(out@ + rev@.reverse() =~= before_out + before_rev.reverse());
    }
    assert(out@ =~= kept);
    proof {
        lemma_keep_last(all);
    }
    out
}

} // verus!
