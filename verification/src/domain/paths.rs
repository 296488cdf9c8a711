//! Rules for relative paths inside a project. `_media/` and `_culled/` are
//! siblings under the project directory; culling or unculling a photo only
//! swaps that folder and keeps the file. Stored paths always use `/`.
use vstd::prelude::*;
use super::error::DomainError;
use crate::text::{
    chars_of, copy_chars, join_chars, join_with, lemma_split_join, lemma_split_pieces_avoid, replace_char,
    replace_char_chars, split_chars, split_on, string_of,
};

verus! {

/// The non-empty pieces of `ps`, in order.
pub open spec fn non_empty(ps: Seq<Seq<char>>) -> Seq<Seq<char>>
    decreases ps.len(),
{
    if ps.len() == 0 {
        Seq::<Seq<char>>::empty()
    } else if ps.last().len() == 0 {
        non_empty(ps.drop_last())
    } else {
        non_empty(ps.drop_last()).push(ps.last())
    }
}

/// The non-empty segments of a stored path, after turning `\` into `/`.
pub open spec fn path_segments(rel: Seq<char>) -> Seq<Seq<char>> {
    non_empty(split_on(replace_char(rel, '\\', '/'), '/'))
}

/// Message when the path has no file name.
pub open spec fn msg_no_file_name() -> Seq<char> {
    "dng_path sin nombre de archivo"@
}

/// Message when the path has no folder above the file.
pub open spec fn msg_no_project_dir() -> Seq<char> {
    "No se puede determinar el directorio del proyecto"@
}

/// The relative destination of a photo at `rel` when it is culled
/// (`culled`) or unculled: the project directory (all segments but the last
/// two), then `_culled` or `_media`, then the file name; an error when the
/// path has fewer than two segments.
pub open spec fn cull_target(rel: Seq<char>, culled: bool) -> Result<Seq<char>, Seq<char>> {
    let parts = path_segments(rel);
    if parts.len() == 0 {
        Err(msg_no_file_name())
    } else if parts.len() < 2 {
        Err(msg_no_project_dir())
    } else {
        Ok(join_with(parts.take(parts.len() - 2).push(cull_folder(culled)).push(parts.last()), "/"@))
    }
}

/// The folder a photo lives in: `_culled` when culled, `_media` otherwise.
pub open spec fn cull_folder(culled: bool) -> Seq<char> {
    if culled {
        "_culled"@
    } else {
        "_media"@
    }
}

/// A segment that a stored path can hold: not empty, with neither `/` nor `\`.
pub open spec fn clean_segment(p: Seq<char>) -> bool {
    p.len() > 0 && forall|j: int| 0 <= j < p.len() ==> p[j] != '/' && p[j] != '\\'
}

proof fn lemma_non_empty_id(ps: Seq<Seq<char>>)
    requires
        forall|k: int| 0 <= k < ps.len() ==> #[trigger] ps[k].len() > 0,
    ensures
        non_empty(ps) == ps,
    decreases ps.len(),
{
    if ps.len() > 0 {
        lemma_non_empty_id(ps.drop_last());
        assert(ps.drop_last().push(ps.last()) =~= ps);
    }
}

proof fn lemma_non_empty_clean(ps: Seq<Seq<char>>)
    requires
        forall|k: int, j: int|
            0 <= k < ps.len() && 0 <= j < ps[k].len() ==> ps[k][j] != '/' && ps[k][j] != '\\',
    ensures
        forall|k: int| 0 <= k < non_empty(ps).len() ==> clean_segment(#[trigger] non_empty(ps)[k]),
    decreases ps.len(),
{
    if ps.len() > 0 {
        let init = ps.drop_last();
        lemma_non_empty_clean(init);
        if ps.last().len() > 0 {
            let r = non_empty(init).push(ps.last());
            assert forall|k: int| 0 <= k < r.len() implies clean_segment(#[trigger] r[k]) by {
                if k == r.len() - 1 {
                    let last = ps.len() - 1;
                    assert forall|j: int| 0 <= j < ps.last().len() implies ps.last()[j] != '/'
                        && ps.last()[j] != '\\' by {
                        assert(ps[last][j] == ps.last()[j]);
                    }
                } else {
                    assert(r[k] == non_empty(init)[k]);
                }
            }
        }
    }
}

/// Every segment of a stored path is clean.
proof fn lemma_segments_clean(rel: Seq<char>)
    ensures
        forall|k: int| 0 <= k < path_segments(rel).len() ==> clean_segment(#[trigger] path_segments(rel)[k]),
{
    let r = replace_char(rel, '\\', '/');
    lemma_split_pieces_avoid(r, '/', '\\');
    lemma_non_empty_clean(split_on(r, '/'));
}

proof fn lemma_join_avoids(ps: Seq<Seq<char>>, c: char)
    requires
        c != '/',
        forall|k: int, j: int| 0 <= k < ps.len() && 0 <= j < ps[k].len() ==> ps[k][j] != c,
    ensures
        forall|i: int| 0 <= i < join_with(ps, seq!['/']).len() ==> join_with(ps, seq!['/'])[i] != c,
    decreases ps.len(),
{
    if ps.len() > 1 {
        lemma_join_avoids(ps.drop_last(), c);
        let a = join_with(ps.drop_last(), seq!['/']);
        assert forall|i: int| 0 <= i < join_with(ps, seq!['/']).len() implies join_with(ps, seq!['/'])[i]
            != c by {
            if i >= a.len() + 1 {
                assert(join_with(ps, seq!['/'])[i] == ps.last()[i - a.len() - 1]);
            }
        }
    } else if ps.len() == 1 {
        assert(forall|j: int| 0 <= j < ps[0].len() ==> ps[0][j] != c);
    }
}

/// The segments of clean segments joined with `/` are those segments.
proof fn lemma_segments_of_join(segs: Seq<Seq<char>>)
    requires
        segs.len() >= 1,
        forall|k: int| 0 <= k < segs.len() ==> clean_segment(#[trigger] segs[k]),
    ensures
        path_segments(join_with(segs, "/"@)) == segs,
{
    reveal_strlit("/");
    assert("/"@ =~= seq!['/']);
    let j = join_with(segs, seq!['/']);
    assert forall|k: int, i: int| 0 <= k < segs.len() && 0 <= i < segs[k].len() implies segs[k][i] != '/'
        && segs[k][i] != '\\' by {
        assert(clean_segment(segs[k]));
    }
    lemma_join_avoids(segs, '\\');
    assert(replace_char(j, '\\', '/') =~= j);
    lemma_split_join(segs, '/');
    lemma_non_empty_id(segs);
}

/// Where a cull puts a photo: the destination keeps the project folders
/// of its path (all segments but the last two), then the `_culled` folder
/// when culling (`_media` when unculling), then the same file name.
pub proof fn law_cull_target_folder(rel: Seq<char>, culled: bool)
    ensures
        cull_target(rel, culled) matches Ok(p) ==> path_segments(rel).len() >= 2 && path_segments(p)
            == path_segments(rel).take(path_segments(rel).len() - 2).push(cull_folder(culled)).push(
            path_segments(rel).last(),
        ),
{
    let segs = path_segments(rel);
    if segs.len() >= 2 {
        let n = segs.len();
        lemma_segments_clean(rel);
        reveal_strlit("_culled");
        reveal_strlit("_media");
        let q = segs.take(n - 2).push(cull_folder(culled)).push(segs.last());
        assert(clean_segment(cull_folder(culled)));
        assert forall|k: int| 0 <= k < q.len() implies clean_segment(#[trigger] q[k]) by {
            if k < n - 2 {
                assert(q[k] == segs[k]);
            }
        }
        lemma_segments_of_join(q);
    }
}

/// Culling or unculling forgets the folder a photo came from: moving the
/// result again lands where a single move from the start would.
pub proof fn law_cull_composes(rel: Seq<char>, first: bool, second: bool)
    ensures
        cull_target(rel, first) matches Ok(p) ==> cull_target(p, second) == cull_target(rel, second),
{
    let segs = path_segments(rel);
    if segs.len() >= 2 {
        let n = segs.len();
        lemma_segments_clean(rel);
        reveal_strlit("_culled");
        reveal_strlit("_media");
        let q = segs.take(n - 2).push(cull_folder(first)).push(segs.last());
        assert(clean_segment(cull_folder(first)));
        assert forall|k: int| 0 <= k < q.len() implies clean_segment(#[trigger] q[k]) by {
            if k < n - 2 {
                assert(q[k] == segs[k]);
            }
        }
        lemma_segments_of_join(q);
        assert(q.take(n - 2) =~= segs.take(n - 2));
    }
}

/// A photo whose clean path runs through the `from` folder and is moved to
/// the other state and back comes back to the very same path.
pub proof fn law_cull_roundtrip(rel: Seq<char>, from: bool, to: bool)
    requires
        path_segments(rel).len() >= 2,
        path_segments(rel)[path_segments(rel).len() - 2] == cull_folder(from),
        rel == join_with(path_segments(rel), "/"@),
    ensures
        cull_target(rel, to) matches Ok(p) && cull_target(p, from) == Ok::<Seq<char>, Seq<char>>(rel),
{
    let segs = path_segments(rel);
    let n = segs.len();
    law_cull_composes(rel, to, from);
    assert(segs.take(n - 2).push(cull_folder(from)).push(segs.last()) =~= segs);
}

/// The non-empty entries of `ps`.
fn keep_non_empty(ps: &Vec<Vec<char>>) -> (r: Vec<Vec<char>>)
    ensures
        r@.map_values(|p: Vec<char>| p@) == non_empty(ps@.map_values(|p: Vec<char>| p@)),
{
    let ghost views = ps@.map_values(|p: Vec<char>| p@);
    let mut r: Vec<Vec<char>> = Vec::new();
    let mut i: usize = 0;
    while i < ps.len()
        invariant
            i <= ps.len(),
            views == ps@.map_values(|p: Vec<char>| p@),
            r@.map_values(|p: Vec<char>| p@) == non_empty(views.take(i as int)),
        decreases ps.len() - i,
    {
        proof {
            assert(views.take(i + 1).drop_last() == views.take(i as int));
            assert(views.take(i + 1).last() == ps@[i as int]@);
        }
        if ps[i].len() > 0 {
            r.push(copy_chars(&ps[i]));
            assert(r@.map_values(|p: Vec<char>| p@) == non_empty(views.take(i as int)).push(
                ps@[i as int]@,
            ));
        }
        i = i + 1;
    }
    assert(views.take(ps.len() as int) == views);
    r
}

/// The non-empty segments of `rel` after turning `\` into `/`.
pub fn segments_of(rel: &str) -> (r: Vec<Vec<char>>)
    ensures
        r@.map_values(|p: Vec<char>| p@) == path_segments(rel@),
{
    let chars = chars_of(rel);
    let normalized = replace_char_chars(&chars, '\\', '/');
    let pieces = split_chars(&normalized, '/');
    assert(pieces@.map_values(|p: Vec<char>| p@) =~= split_on(normalized@, '/'));
    keep_non_empty(&pieces)
}

/// The relative path a photo at `current_rel` moves to when culled
/// (`culled = true`) or unculled: two levels up from the file (past the
/// `_media`/`_culled` folder and the name) is the project directory, under
/// which the file is placed in `_culled` or `_media`.
pub fn cull_destination(current_rel: &str, culled: bool) -> (r: Result<String, DomainError>)
    ensures
        r matches Ok(s) ==> cull_target(current_rel@, culled) == Ok::<Seq<char>, Seq<char>>(s@),
        r matches Err(e) ==> e matches DomainError::InvalidPhotoPath(m)
            && cull_target(current_rel@, culled) == Err::<Seq<char>, Seq<char>>(m@),
{
    let parts = segments_of(current_rel);
    let ghost views = parts@.map_values(|p: Vec<char>| p@);
    if parts.len() == 0 {
        let v = chars_of("dng_path sin nombre de archivo");
        return Err(DomainError::InvalidPhotoPath(string_of(&v)));
    }
    if parts.len() < 2 {
        let v = chars_of("No se puede determinar el directorio del proyecto");
        return Err(DomainError::InvalidPhotoPath(string_of(&v)));
    }
    let n = parts.len();
    let mut out: Vec<Vec<char>> = Vec::new();
    let mut i: usize = 0;
    while i < n - 2
        invariant
            n == parts.len() >= 2,
            i <= n - 2,
            views == parts@.map_values(|p: Vec<char>| p@),
            out@.map_values(|p: Vec<char>| p@) == views.take(i as int),
        decreases n - 2 - i,
    {
        let ghost prev = out@.map_values(|p: Vec<char>| p@);
        let x = copy_chars(&parts[i]);
        out.push(x);
        assert(out@.map_values(|p: Vec<char>| p@) =~= prev.push(parts@[i as int]@));
        assert(views.take(i + 1) =~= views.take(i as int).push(views[i as int]));
        i = i + 1;
    }
    let sub = if culled {
        chars_of("_culled")
    } else {
        chars_of("_media")
    };
    out.push(sub);
    out.push(copy_chars(&parts[n - 1]));
    assert(out@.map_values(|p: Vec<char>| p@) =~= views.take(n - 2).push(
        if culled {
            "_culled"@
        } else {
            "_media"@
        },
    ).push(views.last()));
    let joined = join_chars(&out, "/");
    Ok(string_of(&joined))
}

} // verus!
