//! Reading text produced by other programs: splitting it into lines the way
//! `str::lines` does, and decimal integers the way `i32::from_str` reads them.
use vstd::prelude::*;
use crate::text::{split_chars, split_on, lemma_split_nonempty};

verus! {

/// A line without the `\r` of a `\r\n` ending.
pub open spec fn strip_cr(l: Seq<char>) -> Seq<char> {
    if l.len() > 0 && l.last() == '\r' {
        l.drop_last()
    } else {
        l
    }
}

/// The lines of `s`: the pieces between `\n`s, each terminated one without a
/// final `\r`; the piece after the last `\n` only when it is not empty (and
/// then kept as it is).
pub open spec fn lines(s: Seq<char>) -> Seq<Seq<char>> {
    let p = split_on(s, '\n');
    let done = p.take(p.len() - 1).map_values(|l: Seq<char>| strip_cr(l));
    if p.last().len() > 0 {
        done.push(p.last())
    } else {
        done
    }
}

/// The lines of `v`.
pub fn lines_of(v: &Vec<char>) -> (r: Vec<Vec<char>>)
    ensures
        r@.len() == lines(v@).len(),
        forall|k: int| 0 <= k < r@.len() ==> #[trigger] r@[k]@ == lines(v@)[k],
{
    let pieces = split_chars(v, '\n');
    proof {
        lemma_split_nonempty(v@, '\n');
    }
    let ghost p = split_on(v@, '\n');
    let n = pieces.len();
    let mut r: Vec<Vec<char>> = Vec::new();
    let mut i: usize = 0;
    while i + 1 < n
        invariant
            n == pieces@.len() == p.len(),
            n >= 1,
            i + 1 <= n,
            forall|k: int| 0 <= k < n ==> #[trigger] pieces@[k]@ == p[k],
            r@.len() == i,
            forall|k: int| 0 <= k < i ==> #[trigger] r@[k]@ == strip_cr(p[k]),
        decreases n - i,
    {
        let l = &pieces[i];
        let mut w: Vec<char> = Vec::new();
        let mut end = l.len();
        if end > 0 && l[end - 1] == '\r' {
            end = end - 1;
        }
        let mut k: usize = 0;
        while k < end
            invariant
                k <= end <= l.len(),
                w@ == l@.take(k as int),
            decreases end - k,
        {
            w.push(l[k]);
            k = k + 1;
        }
        assert(w@ =~= strip_cr(l@));
        r.push(w);
        i = i + 1;
    }
    let last = &pieces[n - 1];
    if last.len() > 0 {
        let mut w: Vec<char> = Vec::new();
        let mut k: usize = 0;
        while k < last.len()
            invariant
                k <= last.len(),
                w@ == last@.take(k as int),
            decreases last.len() - k,
        {
            w.push(last[k]);
            k = k + 1;
        }
        assert(w@ =~= last@);
        r.push(w);
    }
    r
}

// ---------------------------------------------------------------------------
// Decimal integers
// ---------------------------------------------------------------------------

/// Whether `c` is an ASCII digit.
pub open spec fn is_digit(c: char) -> bool {
    '0' <= c && c <= '9'
}

/// Whether every character of `s` is an ASCII digit.
pub open spec fn all_digits(s: Seq<char>) -> bool {
    forall|k: int| 0 <= k < s.len() ==> is_digit(#[trigger] s[k])
}

/// The value of the ASCII digits `s`.
pub open spec fn digits_value(s: Seq<char>) -> int
    decreases s.len(),
{
    if s.len() == 0 {
        0
    } else {
        digits_value(s.drop_last()) * 10 + (s.last() as int - '0' as int)
    }
}

/// `s` without a leading sign.
pub open spec fn unsigned_part(s: Seq<char>) -> Seq<char> {
    if s.len() > 0 && (s[0] == '-' || s[0] == '+') {
        s.drop_first()
    } else {
        s
    }
}

/// The integer written in `s`: an optional `+` or `-`, then one or more
/// ASCII digits and nothing else.
pub open spec fn parse_int(s: Seq<char>) -> Option<int> {
    let body = unsigned_part(s);
    if body.len() == 0 || !all_digits(body) {
        None
    } else if s[0] == '-' {
        Some(-digits_value(body))
    } else {
        Some(digits_value(body))
    }
}

/// What `i32::from_str` gives for `s`: the integer it writes, when it fits.
pub open spec fn parse_i32_spec(s: Seq<char>) -> Option<i32> {
    match parse_int(s) {
        Some(v) => if i32::MIN <= v <= i32::MAX {
            Some(v as i32)
        } else {
            None
        },
        None => None,
    }
}

/// A value above the magnitude of every `i32`.
pub open spec fn digits_cap() -> int {
    2147483649
}

/// The value of all-digit `s`, or `None` when `s` has another character;
/// values from `digits_cap()` on are reported as `digits_cap()`.
fn digits_capped(b: &Vec<char>) -> (r: Option<i64>)
    ensures
        r is None <==> !all_digits(b@),
        r matches Some(x) ==> 0 <= x <= digits_cap() && (x < digits_cap() ==> x == digits_value(b@))
            && (x == digits_cap() ==> digits_value(b@) >= digits_cap()),
{
    let mut acc: i64 = 0;
    let mut i: usize = 0;
    while i < b.len()
        invariant
            i <= b.len(),
            all_digits(b@.take(i as int)),
            0 <= acc <= digits_cap(),
            acc < digits_cap() ==> acc == digits_value(b@.take(i as int)),
            acc == digits_cap() ==> digits_value(b@.take(i as int)) >= digits_cap(),
        decreases b.len() - i,
    {
        let c = b[i];
        if !('0' <= c && c <= '9') {
            assert(!is_digit(b@[i as int]));
            return None;
        }
        let d = (c as u32 - '0' as u32) as i64;
        let ghost t = b@.take(i + 1);
        proof {
            assert(t.drop_last() =~= b@.take(i as int));
            assert(t.last() == b@[i as int]);
            assert forall|k: int| 0 <= k < t.len() implies is_digit(#[trigger] t[k]) by {
                if k < i {
                    assert(t[k] == b@.take(i as int)[k]);
                }
            }
            lemma_digits_nonneg(b@.take(i as int));
        }
        if acc == 2147483649 {
            acc = 2147483649;
        } else {
            let next = acc * 10 + d;
            if next >= 2147483649 {
                acc = 2147483649;
            } else {
                acc = next;
            }
        }
        i = i + 1;
    }
    assert(b@.take(b.len() as int) =~= b@);
    Some(acc)
}

/// Values of digit strings are not negative.
proof fn lemma_digits_nonneg(s: Seq<char>)
    requires
        all_digits(s),
    ensures
        digits_value(s) >= 0,
    decreases s.len(),
{
    if s.len() > 0 {
        assert forall|k: int| 0 <= k < s.drop_last().len() implies is_digit(
            #[trigger] s.drop_last()[k],
        ) by {
            assert(s.drop_last()[k] == s[k]);
        }
        lemma_digits_nonneg(s.drop_last());
    }
}

/// `s` read as an `i32`, as `str::parse::<i32>` does.
pub fn parse_i32(s: &Vec<char>) -> (r: Option<i32>)
    ensures
        r == parse_i32_spec(s@),
{
    let n = s.len();
    if n == 0 {
        return None;
    }
    let signed = s[0] == '-' || s[0] == '+';
    let mut body: Vec<char> = Vec::new();
    let mut i: usize = if signed {
        1
    } else {
        0
    };
    let start = i;
    while i < n
        invariant
            start <= i <= n == s.len(),
            body@ == s@.subrange(start as int, i as int),
        decreases n - i,
    {
        body.push(s[i]);
        i = i + 1;
    }
    assert(body@ =~= unsigned_part(s@));
    if body.len() == 0 {
        return None;
    }
    match digits_capped(&body) {
        None => None,
        Some(x) => {
            if s[0] == '-' {
                if x <= 2147483648 {
                    Some((0 - x) as i32)
                } else {
                    None
                }
            } else if x <= 2147483647 {
                Some(x as i32)
            } else {
                None
            }
        },
    }
}

} // verus!
