//! Project rules: the slug and the dated folder of a project on disk, and
//! the order of the dashboard. Pure: the clock (today as fallback date) is
//! the caller's business.
use vstd::prelude::*;
use std::cmp::Ordering;
use vstd::string::StringSliceAdditionalSpecFns;
use crate::pathstr::{join, join_path};
use crate::models::ProjectDashboard;
use crate::import::xmp::opt_view;
use crate::text::{
    chars_of, copy_chars, join_chars, join_with, push_str, replace_char,
    replace_char_chars, slice_chars, split_chars, split_on, string_of, trim, trim_chars,
};

verus! {

broadcast use vstd::utf8::encode_utf8_decode_utf8;

/// The slug of a project name: `/` replaced by `-`, surrounding whitespace
/// removed.
pub open spec fn slug_spec(name: Seq<char>) -> Seq<char> {
    trim(replace_char(name, '/', '-'))
}

/// The folder name of a project: `{day}_{slug}`.
pub open spec fn folder_name_spec(day: Seq<char>, name: Seq<char>) -> Seq<char> {
    day + seq!['_'] + slug_spec(name)
}

/// The first three pieces of `s` split on `-`, the third holding the rest
/// (as `splitn(3, '-')`); `None` when there are fewer than three.
pub open spec fn split3(s: Seq<char>) -> Option<(Seq<char>, Seq<char>, Seq<char>)> {
    let p = split_on(s, '-');
    if p.len() < 3 {
        None
    } else {
        Some((p[0], p[1], join_with(p.skip(2), "-"@)))
    }
}

/// `(year, month, day)` of a date written `YYYY-MM-DD...` or
/// `YYYY:MM:DD...`: the first ten characters, `:` read as `-`, split in
/// three non-empty pieces; `None` when the date is shorter than ten
/// characters or does not split so.
pub open spec fn date_parts_spec(date: Seq<char>) -> Option<(Seq<char>, Seq<char>, Seq<char>)> {
    if date.len() < 10 {
        None
    } else {
        match split3(replace_char(date.take(10), ':', '-')) {
            Some(t) => if t.0.len() == 0 || t.1.len() == 0 || t.2.len() == 0 {
                None
            } else {
                Some(t)
            },
            None => None,
        }
    }
}

/// `{mount}/lumik/{year}/{month}/{day}_{slug}`.
pub open spec fn project_path_spec(
    mount: Seq<char>,
    year: Seq<char>,
    month: Seq<char>,
    day: Seq<char>,
    name: Seq<char>,
) -> Seq<char> {
    join_path(
        join_path(join_path(join_path(mount, "lumik"@), year), month),
        folder_name_spec(day, name),
    )
}

/// Folder layout of a project on disk: `{mount}/lumik/{year}/{month}/{day}_{slug}`.
pub struct ProjectFolder;

impl ProjectFolder {
    /// Slug of the project for folder and file names.
    pub fn slug(name: &str) -> (r: String)
        ensures
            r@ == slug_spec(name@),
    {
        let v = chars_of(name);
        let replaced = replace_char_chars(&v, '/', '-');
        let t = trim_chars(&replaced);
        string_of(&t)
    }

    /// Folder name of the project: `{day}_{slug}`.
    pub fn folder_name(day: &str, name: &str) -> (r: String)
        ensures
            r@ == folder_name_spec(day@, name@),
    {
        let mut v = chars_of(day);
        v.push('_');
        let s = ProjectFolder::slug(name);
        push_str(&mut v, s.as_str());
        string_of(&v)
    }

    /// Splits a date into `(year, month, day)`; accepts ISO (`YYYY-MM-DD...`)
    /// and EXIF (`YYYY:MM:DD...`).
    pub fn date_parts(date: &str) -> (r: Option<(String, String, String)>)
        ensures
            r matches Some(t) ==> date_parts_spec(date@) == Some((t.0@, t.1@, t.2@)),
            r is None ==> date_parts_spec(date@) is None,
    {
        let all = chars_of(date);
        if all.len() < 10 {
            return None;
        }
        let hv = slice_chars(&all, 0, 10);
        assert(hv@ == date@.take(10));
        let normalized = replace_char_chars(&hv, ':', '-');
        let pieces = split_chars(&normalized, '-');
        if pieces.len() < 3 {
            return None;
        }
        let mut rest: Vec<Vec<char>> = Vec::new();
        let mut i: usize = 2;
        while i < pieces.len()
            invariant
                2 <= i <= pieces.len(),
                pieces@.len() == split_on(normalized@, '-').len(),
                forall|k: int| 0 <= k < pieces@.len() ==> #[trigger] pieces@[k]@ == split_on(normalized@, '-')[k],
                rest@.map_values(|p: Vec<char>| p@) == split_on(normalized@, '-').subrange(2, i as int),
            decreases pieces.len() - i,
        {
            let ghost prev = rest@.map_values(|p: Vec<char>| p@);
            rest.push(copy_chars(&pieces[i]));
            assert(rest@.map_values(|p: Vec<char>| p@) =~= prev.push(pieces@[i as int]@));
            assert(split_on(normalized@, '-').subrange(2, i + 1) =~= split_on(normalized@, '-').subrange(2, i as int).push(split_on(normalized@, '-')[i as int]));
            i = i + 1;
        }
        assert(split_on(normalized@, '-').subrange(2, pieces.len() as int) =~= split_on(normalized@, '-').skip(2));
        let third = join_chars(&rest, "-");
        if pieces[0].len() == 0 || pieces[1].len() == 0 || third.len() == 0 {
            return None;
        }
        Some((string_of(&pieces[0]), string_of(&pieces[1]), string_of(&third)))
    }

    /// Absolute folder of the project under `mount`.
    pub fn path(mount: &str, year: &str, month: &str, day: &str, name: &str) -> (r: String)
        ensures
            r@ == project_path_spec(mount@, year@, month@, day@, name@),
    {
        let a = join(mount, "lumik");
        let b = join(a.as_str(), year);
        let c = join(b.as_str(), month);
        let f = ProjectFolder::folder_name(day, name);
        join(c.as_str(), f.as_str())
    }
}

// ---------------------------------------------------------------------------
// Dashboard order
// ---------------------------------------------------------------------------

/// Lexicographic order of two strings by code point: negative, zero or
/// positive as `a` sorts before, with or after `b` (the order `str::cmp`
/// gives, since UTF-8 keeps code point order).
pub open spec fn lex_order(a: Seq<char>, b: Seq<char>) -> int
    decreases a.len(),
{
    if a.len() == 0 && b.len() == 0 {
        0
    } else if a.len() == 0 {
        -1
    } else if b.len() == 0 {
        1
    } else if a[0] < b[0] {
        -1
    } else if b[0] < a[0] {
        1
    } else {
        lex_order(a.drop_first(), b.drop_first())
    }
}

/// Dashboard order of two `(session_date, created_at)` rows: session date
/// descending with missing dates last, ties broken by creation descending.
pub open spec fn dashboard_order(
    a: (Option<Seq<char>>, Seq<char>),
    b: (Option<Seq<char>>, Seq<char>),
) -> int {
    match (a.0, b.0) {
        (Some(ad), Some(bd)) => if lex_order(bd, ad) != 0 {
            lex_order(bd, ad)
        } else {
            lex_order(b.1, a.1)
        },
        (Some(_), None) => -1,
        (None, Some(_)) => 1,
        (None, None) => lex_order(b.1, a.1),
    }
}

/// The ordering that a sign stands for.
pub open spec fn ordering_of_sign(c: int) -> Ordering {
    if c < 0 {
        Ordering::Less
    } else if c == 0 {
        Ordering::Equal
    } else {
        Ordering::Greater
    }
}

/// `lex_order` of `a` and `b`.
pub fn lex_order_of(a: &str, b: &str) -> (r: i8)
    ensures
        r == lex_order(a@, b@),
        -1 <= r <= 1,
{
    let av = chars_of(a);
    let bv = chars_of(b);
    let mut i: usize = 0;
    assert(av@.skip(0) == av@ && bv@.skip(0) == bv@);
    while i < av.len() && i < bv.len() && av[i] == bv[i]
        invariant
            i <= av.len(),
            i <= bv.len(),
            lex_order(av@, bv@) == lex_order(av@.skip(i as int), bv@.skip(i as int)),
        decreases av.len() - i,
    {
        assert(av@.skip(i as int).drop_first() == av@.skip(i + 1));
        assert(bv@.skip(i as int).drop_first() == bv@.skip(i + 1));
        i = i + 1;
    }
    if i == av.len() && i == bv.len() {
        0
    } else if i == av.len() {
        -1
    } else if i == bv.len() {
        1
    } else if av[i] < bv[i] {
        -1
    } else {
        1
    }
}

/// Order of the dashboard: `session_date` descending with missing dates
/// last, ties broken by `created_at` descending.
pub fn compare_dashboard(a: (Option<&str>, &str), b: (Option<&str>, &str)) -> (r: Ordering)
    ensures
        r == ordering_of_sign(
            dashboard_order(
                (
                    match a.0 {
                        Some(s) => Some(s@),
                        None => None,
                    },
                    a.1@,
                ),
                (
                    match b.0 {
                        Some(s) => Some(s@),
                        None => None,
                    },
                    b.1@,
                ),
            ),
        ),
{
    let c: i8 = match (a.0, b.0) {
        (Some(ad), Some(bd)) => {
            let d = lex_order_of(bd, ad);
            if d != 0 {
                d
            } else {
                lex_order_of(b.1, a.1)
            }
        },
        (Some(_), None) => -1,
        (None, Some(_)) => 1,
        (None, None) => lex_order_of(b.1, a.1),
    };
    if c < 0 {
        Ordering::Less
    } else if c == 0 {
        Ordering::Equal
    } else {
        Ordering::Greater
    }
}

// ---------------------------------------------------------------------------
// Laws of the dashboard order
// ---------------------------------------------------------------------------

/// Swapping the arguments of `lex_order` flips its sign.
pub proof fn lemma_lex_antisymmetric(a: Seq<char>, b: Seq<char>)
    ensures
        lex_order(a, b) == -lex_order(b, a),
    decreases a.len(),
{
    if a.len() > 0 && b.len() > 0 && a[0] == b[0] {
        lemma_lex_antisymmetric(a.drop_first(), b.drop_first());
    }
}

/// `lex_order` is zero only for equal strings.
pub proof fn lemma_lex_zero(a: Seq<char>, b: Seq<char>)
    ensures
        lex_order(a, b) == 0 ==> a == b,
    decreases a.len(),
{
    if a.len() > 0 && b.len() > 0 && a[0] == b[0] {
        lemma_lex_zero(a.drop_first(), b.drop_first());
        if lex_order(a, b) == 0 {
            assert(a =~= seq![a[0]] + a.drop_first());
            assert(b =~= seq![b[0]] + b.drop_first());
        }
    }
}

/// `lex_order` is transitive.
pub proof fn lemma_lex_transitive(a: Seq<char>, b: Seq<char>, c: Seq<char>)
    ensures
        lex_order(a, b) <= 0 && lex_order(b, c) <= 0 ==> lex_order(a, c) <= 0,
    decreases a.len(),
{
    if a.len() > 0 && b.len() > 0 && c.len() > 0 && a[0] == b[0] && b[0] == c[0] {
        lemma_lex_transitive(a.drop_first(), b.drop_first(), c.drop_first());
    }
}

/// The sort key of a dashboard row: (session date, creation time).
pub open spec fn dashboard_key(p: ProjectDashboard) -> (Option<Seq<char>>, Seq<char>) {
    (opt_view(p.session_date), p.created_at@)
}

/// Swapping two rows flips the sign of their dashboard order.
pub proof fn lemma_dashboard_antisymmetric(
    a: (Option<Seq<char>>, Seq<char>),
    b: (Option<Seq<char>>, Seq<char>),
)
    ensures
        dashboard_order(a, b) == -dashboard_order(b, a),
{
    lemma_lex_antisymmetric(a.1, b.1);
    if a.0 is Some && b.0 is Some {
        lemma_lex_antisymmetric(a.0.unwrap(), b.0.unwrap());
    }
}

/// The dashboard order is transitive.
pub proof fn lemma_dashboard_transitive(
    a: (Option<Seq<char>>, Seq<char>),
    b: (Option<Seq<char>>, Seq<char>),
    c: (Option<Seq<char>>, Seq<char>),
)
    ensures
        dashboard_order(a, b) <= 0 && dashboard_order(b, c) <= 0 ==> dashboard_order(a, c) <= 0,
{
    lemma_lex_transitive(c.1, b.1, a.1);
    lemma_lex_antisymmetric(a.1, c.1);
    lemma_lex_zero(c.1, a.1);
    if a.0 is Some && b.0 is Some && c.0 is Some {
        let (ad, bd, cd) = (a.0.unwrap(), b.0.unwrap(), c.0.unwrap());
        lemma_lex_transitive(cd, bd, ad);
        lemma_lex_antisymmetric(ad, bd);
        lemma_lex_antisymmetric(bd, cd);
        lemma_lex_antisymmetric(ad, cd);
        lemma_lex_zero(bd, ad);
        lemma_lex_zero(cd, bd);
        lemma_lex_zero(cd, ad);
        lemma_lex_zero(ad, cd);
    }
}

/// The dashboard order is a total order on (session date, creation time)
/// keys: swapping the rows flips it, it is transitive, and it calls two
/// rows equal only when their keys are equal. Dates come first, newest
/// first; rows without a date come after every row with one; ties are
/// broken by creation time, newest first.
pub proof fn law_dashboard_total_order(
    a: (Option<Seq<char>>, Seq<char>),
    b: (Option<Seq<char>>, Seq<char>),
    c: (Option<Seq<char>>, Seq<char>),
)
    ensures
        dashboard_order(a, b) == -dashboard_order(b, a),
        dashboard_order(a, b) <= 0 && dashboard_order(b, c) <= 0 ==> dashboard_order(a, c) <= 0,
        dashboard_order(a, b) == 0 ==> a == b,
        a.0 is Some && b.0 is None ==> dashboard_order(a, b) < 0,
{
    lemma_dashboard_antisymmetric(a, b);
    lemma_dashboard_transitive(a, b, c);
    lemma_lex_zero(b.1, a.1);
    if a.0 is Some && b.0 is Some {
        lemma_lex_zero(b.0.unwrap(), a.0.unwrap());
    }
}

/// Whether `s` is in dashboard order.
pub open spec fn dashboard_sorted(s: Seq<ProjectDashboard>) -> bool {
    forall|i: int, j: int|
        0 <= i < j < s.len() ==> dashboard_order(dashboard_key(#[trigger] s[i]), dashboard_key(
            #[trigger] s[j],
        )) <= 0
}

/// Whether row `a` goes strictly before row `b` on the dashboard.
fn goes_before(a: &ProjectDashboard, b: &ProjectDashboard) -> (r: bool)
    ensures
        r == (dashboard_order(dashboard_key(*a), dashboard_key(*b)) < 0),
{
    let ad: Option<&str> = match &a.session_date {
        Some(s) => Some(s.as_str()),
        None => None,
    };
    let bd: Option<&str> = match &b.session_date {
        Some(s) => Some(s.as_str()),
        None => None,
    };
    match compare_dashboard((ad, a.created_at.as_str()), (bd, b.created_at.as_str())) {
        Ordering::Less => true,
        _ => false,
    }
}

/// The dashboard rows in dashboard order (session date descending, rows
/// without a date last, ties by creation descending). Rows that compare
/// equal keep their order.
pub fn sort_dashboard(entries: Vec<ProjectDashboard>) -> (r: Vec<ProjectDashboard>)
    ensures
        dashboard_sorted(r@),
        r@.to_multiset() == entries@.to_multiset(),
{
    broadcast use vstd::seq_lib::group_to_multiset_ensures, vstd::multiset::group_multiset_axioms;

    let ghost all = entries@;
    let mut rest = entries;
    assert(all.len() == rest.len());
    let mut out: Vec<ProjectDashboard> = Vec::new();
    let mut i: usize = 0;
    proof {
        assert(all.take(0).to_multiset() =~= vstd::multiset::Multiset::empty());
        assert(out@.to_multiset() =~= vstd::multiset::Multiset::empty());
    }
    while rest.len() > 0
        invariant
            i <= all.len(),
            all.len() <= usize::MAX,
            rest@ == all.skip(i as int),
            dashboard_sorted(out@),
            out@.to_multiset() == all.take(i as int).to_multiset(),
        decreases rest.len(),
    {
        let x = rest.remove(0);
        assert(x == all[i as int]);
        assert(rest@ =~= all.skip(i + 1));
        let mut p: usize = 0;
        while p < out.len() && !goes_before(&x, &out[p])
            invariant
                p <= out.len(),
                forall|k: int|
                    0 <= k < p ==> dashboard_order(dashboard_key(x), dashboard_key(#[trigger] out@[k]))
                        >= 0,
            decreases out.len() - p,
        {
            p = p + 1;
        }
        let ghost before = out@;
        proof {
            assert forall|k: int| 0 <= k < p implies dashboard_order(
                dashboard_key(#[trigger] before[k]),
                dashboard_key(x),
            ) <= 0 by {
                lemma_dashboard_antisymmetric(dashboard_key(before[k]), dashboard_key(x));
            }
            assert forall|k: int| p <= k < before.len() implies dashboard_order(
                dashboard_key(x),
                dashboard_key(#[trigger] before[k]),
            ) <= 0 by {
                lemma_dashboard_transitive(
                    dashboard_key(x),
                    dashboard_key(before[p as int]),
                    dashboard_key(before[k]),
                );
            }
        }
        out.insert(p, x);
        proof {
            let s = out@;
            assert(s == before.insert(p as int, x));
            assert forall|a: int, b: int| 0 <= a < b < s.len() implies dashboard_order(
                dashboard_key(#[trigger] s[a]),
                dashboard_key(#[trigger] s[b]),
            ) <= 0 by {
                if a < p && b < p {
                } else if a < p && b == p {
                } else if a < p && b > p {
                    assert(s[b] == before[b - 1]);
                } else if a == p {
                    assert(s[b] == before[b - 1]);
                } else {
                    assert(s[a] == before[a - 1]);
                    assert(s[b] == before[b - 1]);
                }
            }
            assert(all.take(i + 1) =~= all.take(i as int).push(x));
            vstd::seq_lib::to_multiset_build(all.take(i as int), x);
            vstd::seq_lib::to_multiset_insert(before, p as int, x);
            assert(out@.to_multiset() == before.to_multiset().insert(x));
            assert(all.take(i + 1).to_multiset() == all.take(i as int).to_multiset().insert(x));
        }
        i = i + 1;
    }
    assert(all.take(i as int) =~= all);
    out
}

} // verus!
