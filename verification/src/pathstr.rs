//! File-system paths as `/`-separated strings. The library reads a path as
//! an optional leading `/` and a list of components: the non-empty segments
//! other than `.`. On such paths joining, file names, parents, extensions
//! and prefixes behave as `std::path::Path` does on Unix.
use vstd::prelude::*;
use crate::domain::photo::chars_eq;
use crate::text::{
    chars_of, copy_chars, join_chars, join_with, push_chars, push_str, slice_chars, split_chars,
    split_on, string_of,
};

verus! {

/// Whether a segment is kept as a component (non-empty and not `.`).
pub open spec fn is_component(s: Seq<char>) -> bool {
    s.len() > 0 && s != seq!['.']
}

/// The segments of `ps` that are components, in order.
pub open spec fn keep_components(ps: Seq<Seq<char>>) -> Seq<Seq<char>>
    decreases ps.len(),
{
    if ps.len() == 0 {
        Seq::<Seq<char>>::empty()
    } else if is_component(ps.last()) {
        keep_components(ps.drop_last()).push(ps.last())
    } else {
        keep_components(ps.drop_last())
    }
}

/// The components of path `p`.
pub open spec fn components(p: Seq<char>) -> Seq<Seq<char>> {
    keep_components(split_on(p, '/'))
}

/// Whether `p` starts at the root.
pub open spec fn is_absolute(p: Seq<char>) -> bool {
    p.len() > 0 && p[0] == '/'
}

/// The path made of `comps`, from the root when `abs`.
pub open spec fn rebuild(abs: bool, comps: Seq<Seq<char>>) -> Seq<char> {
    if abs {
        seq!['/'] + join_with(comps, "/"@)
    } else {
        join_with(comps, "/"@)
    }
}

/// `rel` appended to `base` as `Path::join` does: an absolute `rel`
/// replaces `base`; otherwise a `/` is put between them unless `base` is
/// empty or already ends with one.
pub open spec fn join_path(base: Seq<char>, rel: Seq<char>) -> Seq<char> {
    if is_absolute(rel) || base.len() == 0 {
        rel
    } else if base.last() == '/' {
        base + rel
    } else {
        base + seq!['/'] + rel
    }
}

/// The last component of `p`, unless there is none or it is `..`.
pub open spec fn file_name(p: Seq<char>) -> Option<Seq<char>> {
    let c = components(p);
    if c.len() == 0 || c.last() == ".."@ {
        None
    } else {
        Some(c.last())
    }
}

/// `p` without its last component; `None` when it has no component.
pub open spec fn parent(p: Seq<char>) -> Option<Seq<char>> {
    let c = components(p);
    if c.len() == 0 {
        None
    } else {
        Some(rebuild(is_absolute(p), c.drop_last()))
    }
}

/// Whether the dot at `k` in `f` splits off an extension: the last dot,
/// not in first position.
pub open spec fn ext_dot(f: Seq<char>, k: int) -> bool {
    0 < k < f.len() && f[k] == '.' && forall|j: int| k < j < f.len() ==> f[j] != '.'
}

/// The extension of a file name: what follows its last `.`, unless there
/// is no dot or the only dot starts the name.
pub open spec fn name_extension(f: Seq<char>) -> Option<Seq<char>> {
    if exists|k: int| ext_dot(f, k) {
        let k = choose|k: int| ext_dot(f, k);
        Some(f.skip(k + 1))
    } else {
        None
    }
}

/// The file name without its extension.
pub open spec fn name_stem(f: Seq<char>) -> Seq<char> {
    if exists|k: int| ext_dot(f, k) {
        let k = choose|k: int| ext_dot(f, k);
        f.take(k)
    } else {
        f
    }
}

/// The extension of path `p` (of its file name), as `Path::extension`.
pub open spec fn extension(p: Seq<char>) -> Option<Seq<char>> {
    match file_name(p) {
        Some(f) => name_extension(f),
        None => None,
    }
}

/// `p` with the extension of its file name replaced by `ext` (or added),
/// as `Path::with_extension`; unchanged when `p` has no file name.
pub open spec fn with_extension(p: Seq<char>, ext: Seq<char>) -> Seq<char> {
    match file_name(p) {
        Some(f) => {
            let stem = name_stem(f);
            let name = if ext.len() == 0 {
                stem
            } else {
                stem + seq!['.'] + ext
            };
            rebuild(is_absolute(p), components(p).drop_last().push(name))
        },
        None => p,
    }
}

/// What remains of `p` below `base`, as `Path::strip_prefix`: `None` unless
/// both are absolute or both relative and the components of `base` begin
/// those of `p`.
pub open spec fn strip_prefix(p: Seq<char>, base: Seq<char>) -> Option<Seq<char>> {
    let cp = components(p);
    let cb = components(base);
    if is_absolute(p) == is_absolute(base) && cb.len() <= cp.len() && cp.take(cb.len() as int)
        == cb {
        Some(join_with(cp.skip(cb.len() as int), "/"@))
    } else {
        None
    }
}

// ---------------------------------------------------------------------------
// Executable counterparts
// ---------------------------------------------------------------------------

/// Views of a vector of character vectors.
pub open spec fn views(ps: Seq<Vec<char>>) -> Seq<Seq<char>> {
    ps.map_values(|p: Vec<char>| p@)
}

/// Whether `v` is a component.
fn is_component_exec(v: &Vec<char>) -> (b: bool)
    ensures
        b == is_component(v@),
{
    if v.len() == 0 {
        false
    } else if v.len() == 1 && v[0] == '.' {
        assert(v@ == seq!['.']);
        false
    } else {
        assert(v@.len() == 1 ==> v@ != seq!['.']) by {
            if v@.len() == 1 && v@ == seq!['.'] {
                assert(v@[0] == '.');
            }
        }
        true
    }
}

/// The components of `p`.
pub fn components_of(p: &str) -> (r: Vec<Vec<char>>)
    ensures
        views(r@) == components(p@),
{
    let chars = chars_of(p);
    let ps = split_chars(&chars, '/');
    let ghost vs = views(ps@);
    assert(vs =~= split_on(chars@, '/'));
    let mut r: Vec<Vec<char>> = Vec::new();
    let mut i: usize = 0;
    while i < ps.len()
        invariant
            i <= ps.len(),
            vs == views(ps@),
            views(r@) == keep_components(vs.take(i as int)),
        decreases ps.len() - i,
    {
        proof {
            assert(vs.take(i + 1).drop_last() == vs.take(i as int));
            assert(vs.take(i + 1).last() == ps@[i as int]@);
        }
        if is_component_exec(&ps[i]) {
            let ghost prev = views(r@);
            r.push(copy_chars(&ps[i]));
            assert(views(r@) =~= prev.push(ps@[i as int]@));
        }
        i = i + 1;
    }
    assert(vs.take(ps.len() as int) == vs);
    r
}

/// Whether `p` starts at the root.
pub fn is_absolute_str(p: &str) -> (b: bool)
    ensures
        b == is_absolute(p@),
{
    let v = chars_of(p);
    v.len() > 0 && v[0] == '/'
}

/// The path made of `comps`, from the root when `abs`.
pub fn rebuild_exec(abs: bool, comps: &Vec<Vec<char>>) -> (r: Vec<char>)
    ensures
        r@ == rebuild(abs, views(comps@)),
{
    let j = join_chars(comps, "/");
    if abs {
        let mut r: Vec<char> = Vec::new();
        r.push('/');
        push_chars(&mut r, &j);
        assert(r@ == seq!['/'] + j@);
        r
    } else {
        j
    }
}

/// `rel` joined onto `base`.
pub fn join(base: &str, rel: &str) -> (r: String)
    ensures
        r@ == join_path(base@, rel@),
{
    let b = chars_of(base);
    let r = chars_of(rel);
    if (r.len() > 0 && r[0] == '/') || b.len() == 0 {
        return string_of(&r);
    }
    let mut out = copy_chars(&b);
    if b[b.len() - 1] != '/' {
        out.push('/');
    }
    push_chars(&mut out, &r);
    string_of(&out)
}

/// The file name of `p`.
pub fn file_name_of(p: &str) -> (r: Option<String>)
    ensures
        r matches Some(s) ==> file_name(p@) == Some(s@),
        r is None ==> file_name(p@) is None,
{
    let c = components_of(p);
    if c.len() == 0 {
        return None;
    }
    let last = &c[c.len() - 1];
    let dd = chars_of("..");
    if chars_eq(last, &dd) {
        return None;
    }
    Some(string_of(last))
}

/// The parent of `p`.
pub fn parent_of(p: &str) -> (r: Option<String>)
    ensures
        r matches Some(s) ==> parent(p@) == Some(s@),
        r is None ==> parent(p@) is None,
{
    let c = components_of(p);
    if c.len() == 0 {
        return None;
    }
    let mut front: Vec<Vec<char>> = Vec::new();
    let mut i: usize = 0;
    while i + 1 < c.len()
        invariant
            i + 1 <= c.len(),
            views(front@) == views(c@).take(i as int),
        decreases c.len() - i,
    {
        let ghost prev = views(front@);
        front.push(copy_chars(&c[i]));
        assert(views(front@) =~= prev.push(c@[i as int]@));
        assert(views(c@).take(i + 1) =~= views(c@).take(i as int).push(views(c@)[i as int]));
        i = i + 1;
    }
    assert(views(c@).take(c.len() - 1) =~= views(c@).drop_last());
    let abs = is_absolute_str(p);
    let r = rebuild_exec(abs, &front);
    Some(string_of(&r))
}

/// Position of the dot that splits off the extension of `f`, if any.
fn ext_dot_of(f: &Vec<char>) -> (r: Option<usize>)
    ensures
        r matches Some(k) ==> ext_dot(f@, k as int),
        r is None ==> !exists|k: int| ext_dot(f@, k),
{
    let mut k = f.len();
    while k > 0
        invariant
            k <= f.len(),
            forall|j: int| k <= j < f.len() ==> f@[j] != '.',
        decreases k,
    {
        k = k - 1;
        if f[k] == '.' {
            if k == 0 {
                assert forall|m: int| !ext_dot(f@, m) by {
                    if ext_dot(f@, m) {
                        assert(f@[0] == '.');
                    }
                }
                return None;
            }
            return Some(k);
        }
    }
    assert forall|m: int| !ext_dot(f@, m) by {}
    None
}

/// Only one dot position splits off the extension.
proof fn lemma_ext_dot_unique(f: Seq<char>, a: int, b: int)
    requires
        ext_dot(f, a),
        ext_dot(f, b),
    ensures
        a == b,
{
    if a < b {
        assert(f[b] != '.');
    } else if b < a {
        assert(f[a] != '.');
    }
}

/// The extension of `p`.
pub fn extension_of(p: &str) -> (r: Option<String>)
    ensures
        r matches Some(s) ==> extension(p@) == Some(s@),
        r is None ==> extension(p@) is None,
{
    match file_name_of(p) {
        None => None,
        Some(f) => {
            let fv = chars_of(f.as_str());
            match ext_dot_of(&fv) {
                None => None,
                Some(k) => {
                    proof {
                        let c = choose|m: int| ext_dot(fv@, m);
                        lemma_ext_dot_unique(fv@, c, k as int);
                    }
                    assert(k < fv.len());
                    let e = slice_chars(&fv, k + 1, fv.len());
                    assert(e@ == fv@.skip(k + 1));
                    Some(string_of(&e))
                },
            }
        },
    }
}

/// `p` with the extension of its file name set to `ext`.
pub fn with_extension_of(p: &str, ext: &str) -> (r: String)
    ensures
        r@ == with_extension(p@, ext@),
{
    match file_name_of(p) {
        None => {
            let v = chars_of(p);
            string_of(&v)
        },
        Some(f) => {
            let fv = chars_of(f.as_str());
            let mut name = match ext_dot_of(&fv) {
                None => fv,
                Some(k) => {
                    proof {
                        let c = choose|m: int| ext_dot(fv@, m);
                        lemma_ext_dot_unique(fv@, c, k as int);
                    }
                    slice_chars(&fv, 0, k)
                },
            };
            assert(name@ == name_stem(f@));
            if !ext.is_empty() {
                name.push('.');
                push_str(&mut name, ext);
            }
            let c = components_of(p);
            let mut comps: Vec<Vec<char>> = Vec::new();
            let mut i: usize = 0;
            while i + 1 < c.len()
                invariant
                    c.len() > 0,
                    i + 1 <= c.len(),
                    views(comps@) == views(c@).take(i as int),
                decreases c.len() - i,
            {
                let ghost prev = views(comps@);
                comps.push(copy_chars(&c[i]));
                assert(views(comps@) =~= prev.push(c@[i as int]@));
                assert(views(c@).take(i + 1) =~= views(c@).take(i as int).push(
                    views(c@)[i as int],
                ));
                i = i + 1;
            }
            let ghost front = views(comps@);
            comps.push(name);
            assert(views(comps@) =~= front.push(name@));
            assert(views(c@).take(c.len() - 1) =~= views(c@).drop_last());
            let abs = is_absolute_str(p);
            let r = rebuild_exec(abs, &comps);
            assert(views(comps@) == components(p@).drop_last().push(name@));
            assert(name@ == (if ext@.len() == 0 { name_stem(f@) } else { name_stem(f@) + seq!['.'] + ext@ }));
            string_of(&r)
        },
    }
}

/// What remains of `p` below `base`.
pub fn strip_prefix_of(p: &str, base: &str) -> (r: Option<String>)
    ensures
        r matches Some(s) ==> strip_prefix(p@, base@) == Some(s@),
        r is None ==> strip_prefix(p@, base@) is None,
{
    let cp = components_of(p);
    let cb = components_of(base);
    if is_absolute_str(p) != is_absolute_str(base) || cb.len() > cp.len() {
        return None;
    }
    let mut i: usize = 0;
    while i < cb.len()
        invariant
            i <= cb.len() <= cp.len(),
            views(cp@) == components(p@),
            views(cb@) == components(base@),
            is_absolute(p@) == is_absolute(base@),
            forall|k: int| 0 <= k < i ==> cp@[k]@ == cb@[k]@,
        decreases cb.len() - i,
    {
        if !chars_eq(&cp[i], &cb[i]) {
            assert(views(cp@).take(cb.len() as int)[i as int] != views(cb@)[i as int]);
            assert(views(cp@).take(cb.len() as int) != views(cb@));
            return None;
        }
        i = i + 1;
    }
    assert(views(cp@).take(cb.len() as int) =~= views(cb@));
    let mut rest: Vec<Vec<char>> = Vec::new();
    let mut j: usize = cb.len();
    while j < cp.len()
        invariant
            cb.len() <= j <= cp.len(),
            views(rest@) == views(cp@).subrange(cb.len() as int, j as int),
        decreases cp.len() - j,
    {
        let ghost prev = views(rest@);
        rest.push(copy_chars(&cp[j]));
        assert(views(rest@) =~= prev.push(cp@[j as int]@));
        assert(views(cp@).subrange(cb.len() as int, j + 1) =~= views(cp@).subrange(
            cb.len() as int,
            j as int,
        ).push(views(cp@)[j as int]));
        j = j + 1;
    }
    assert(views(cp@).skip(cb.len() as int) =~= views(cp@).subrange(
        cb.len() as int,
        cp.len() as int,
    ));
    let joined = join_chars(&rest, "/");
    assert(views(rest@) =~= rest@.map_values(|x: Vec<char>| x@));
    Some(string_of(&joined))
}

} // verus!
