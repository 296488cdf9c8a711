//! Use case: cull or uncull a photo. Moves the file between `_media/` and
//! `_culled/` through the ports and stores the new path; if storing fails
//! the file is moved back.
use vstd::prelude::*;
use crate::application::ports::{
    log_create_dir, log_get, log_move_sidecar, log_path_exists, log_rename, log_update_culled, FileStore,
    FinderTagWriter, PhotoRepository, PortCall,
};
use crate::application::use_cases::rotate_photo::{msg_photo_not_found, photo_not_found};
use crate::domain::paths::{cull_destination, cull_target};
use crate::pathstr::{join, join_path, parent, parent_of, with_extension, with_extension_of};
use crate::text::{chars_of, push_str, string_of};

verus! {

/// The file moves of a cull: the new relative path, the absolute current
/// and target paths, the folder to create, and the XMP sidecars.
pub struct CullMove {
    pub new_rel: String,
    pub current: String,
    pub target: String,
    pub target_dir: Option<String>,
    pub xmp_src: String,
    pub xmp_dst: String,
}

/// Whether `m` holds the moves of a photo at `dng` under `mount` to the
/// relative path `rel`.
pub open spec fn is_cull_move(m: CullMove, mount: Seq<char>, dng: Seq<char>, rel: Seq<char>) -> bool {
    &&& m.new_rel@ == rel
    &&& m.current@ == join_path(mount, dng)
    &&& m.target@ == join_path(mount, rel)
    &&& (match m.target_dir {
        Some(d) => parent(join_path(mount, rel)) == Some(d@),
        None => parent(join_path(mount, rel)) is None,
    })
    &&& m.xmp_src@ == with_extension(join_path(mount, dng), "xmp"@)
    &&& m.xmp_dst@ == with_extension(join_path(mount, rel), "xmp"@)
}

/// What a cull of a photo at `dng_path` (now `photo_culled`) to `culled`
/// does: nothing when the state already matches, the error of the path
/// rule, or the moves to its destination.
pub fn plan_cull(mount_point: &str, dng_path: &str, photo_culled: bool, culled: bool) -> (r: Result<
    Option<CullMove>,
    String,
>)
    ensures
        photo_culled == culled ==> r matches Ok(None),
        photo_culled != culled ==> match cull_target(dng_path@, culled) {
            Ok(rel) => r matches Ok(Some(m)) && is_cull_move(m, mount_point@, dng_path@, rel),
            Err(msg) => r matches Err(e) && e@ == msg,
        },
        r matches Ok(Some(m)) ==> match m.target_dir {
            Some(d) => parent(m.target@) == Some(d@),
            None => parent(m.target@) is None,
        },
{
    if photo_culled == culled {
        return Ok(None);
    }
    let new_rel = match cull_destination(dng_path, culled) {
        Ok(s) => s,
        Err(e) => return Err(e.message()),
    };
    let current = join(mount_point, dng_path);
    let target = join(mount_point, new_rel.as_str());
    let target_dir = parent_of(target.as_str());
    let xmp_src = with_extension_of(current.as_str(), "xmp");
    let xmp_dst = with_extension_of(target.as_str(), "xmp");
    Ok(Some(CullMove { new_rel, current, target, target_dir, xmp_src, xmp_dst }))
}

/// `No se pudo crear {sub}/: {e}` where `sub` is the destination folder.
pub fn msg_create_dir_failed(culled: bool, e: &str) -> (s: String)
    ensures
        s@ == "No se pudo crear "@ + (if culled {
            "_culled"@
        } else {
            "_media"@
        }) + "/: "@ + e@,
{
    let mut v = chars_of("No se pudo crear ");
    if culled {
        push_str(&mut v, "_culled");
    } else {
        push_str(&mut v, "_media");
    }
    push_str(&mut v, "/: ");
    push_str(&mut v, e);
    string_of(&v)
}

/// `Error al mover archivo: {e}`.
pub fn msg_move_failed(e: &str) -> (s: String)
    ensures
        s@ == "Error al mover archivo: "@ + e@,
{
    let mut v = chars_of("Error al mover archivo: ");
    push_str(&mut v, e);
    string_of(&v)
}

/// The message of a failed folder creation for `culled`: `No se pudo crear
/// {_culled|_media}/: {e}`.
pub open spec fn msg_create_dir(culled: bool, e: Seq<char>) -> Seq<char> {
    "No se pudo crear "@ + (if culled {
        "_culled"@
    } else {
        "_media"@
    }) + "/: "@ + e
}

/// The end of a cull once the XMP sidecar is dealt with: `t` starts with
/// moving the Finder-tag sidecar from `current` to `target`, then stores
/// the new path `rel`; when storing fails the file is moved back and the
/// error is returned.
pub open spec fn cull_store(
    id: Seq<char>,
    culled: bool,
    current: Seq<char>,
    target: Seq<char>,
    rel: Seq<char>,
    t: Seq<PortCall>,
    r: Result<(), String>,
) -> bool {
    t.len() >= 2 && (t[0] matches PortCall::MoveSidecar(f, to, _) && f == current && to == target) && match t[1] {
        PortCall::UpdateCulled(i, c, path, u) => i == id && c == culled && path == rel && match u {
            Ok(_) => t.len() == 2 && r == Ok::<(), String>(()),
            Err(e) => t.len() == 3 && (t[2] matches PortCall::Rename(a, b, _) && a == target && b == current) && r
                == Err::<(), String>(e),
        },
        _ => false,
    }
}

/// A cull from the move of the file on: `t` starts with renaming `current`
/// to `target` (a failure ends it with `Error al mover archivo: ...`); then
/// the XMP sidecar moves along when it exists; then `cull_store`.
pub open spec fn cull_move_file(
    id: Seq<char>,
    culled: bool,
    current: Seq<char>,
    target: Seq<char>,
    rel: Seq<char>,
    t: Seq<PortCall>,
    r: Result<(), String>,
) -> bool {
    let xs = with_extension(current, "xmp"@);
    let xd = with_extension(target, "xmp"@);
    t.len() >= 1 && match t[0] {
        PortCall::Rename(a, b, m) => a == current && b == target && match m {
            Err(e) => t.len() == 1 && (r matches Err(x) && x@ == "Error al mover archivo: "@ + e@),
            Ok(_) => t.len() >= 2 && match t[1] {
                PortCall::PathExists(x, ex) => x == xs && if ex {
                    &&& t.len() >= 3
                    &&& (t[2] matches PortCall::Rename(a2, b2, _) && a2 == xs && b2 == xd)
                    &&& cull_store(id, culled, current, target, rel, t.skip(3), r)
                } else {
                    cull_store(id, culled, current, target, rel, t.skip(2), r)
                },
                _ => false,
            },
        },
        _ => false,
    }
}

/// What culling (`culled`) or unculling photo `id`, stored relative to
/// `mount`, does: the port calls `t` it makes (each with its answer) and its
/// result `r`. The photo is read first; a failed read or a missing photo
/// ends it. When the photo is already in that state nothing else happens.
/// Otherwise the destination is `cull_target` of its path (its error is
/// returned); the destination folder is created when the target has one (a
/// failure is reported), and `cull_move_file` follows.
pub open spec fn cull_run(id: Seq<char>, culled: bool, mount: Seq<char>, t: Seq<PortCall>, r: Result<(), String>) -> bool {
    t.len() >= 1 && match t[0] {
        PortCall::Get(i, g) => i == id && match g {
            Err(e) => t.len() == 1 && r == Err::<(), String>(e),
            Ok(None) => t.len() == 1 && (r matches Err(m) && m@ == msg_photo_not_found(id)),
            Ok(Some(p)) => if p.culled == culled {
                t.len() == 1 && r == Ok::<(), String>(())
            } else {
                match cull_target(p.dng_path@, culled) {
                    Err(msg) => t.len() == 1 && (r matches Err(m) && m@ == msg),
                    Ok(rel) => {
                        let current = join_path(mount, p.dng_path@);
                        let target = join_path(mount, rel);
                        match parent(target) {
                            Some(d) => t.len() >= 2 && match t[1] {
                                PortCall::CreateDir(x, c) => x == d && match c {
                                    Err(e) => t.len() == 2 && (r matches Err(m) && m@ == msg_create_dir(culled, e@)),
                                    Ok(_) => cull_move_file(id, culled, current, target, rel, t.skip(2), r),
                                },
                                _ => false,
                            },
                            None => cull_move_file(id, culled, current, target, rel, t.skip(1), r),
                        }
                    },
                }
            },
        },
        _ => false,
    }
}

/// The folder a cull creates is the one the file is then moved into: when
/// the run creates a folder `d` and that succeeds, its next call renames the
/// photo to a path whose parent is `d`.
pub proof fn law_cull_creates_target_folder(
    id: Seq<char>,
    culled: bool,
    mount: Seq<char>,
    t: Seq<PortCall>,
    r: Result<(), String>,
)
    requires
        cull_run(id, culled, mount, t, r),
        t.len() >= 2,
        t[1] matches PortCall::CreateDir(_, c) && c is Ok,
    ensures
        t.len() >= 3,
        t[1] matches PortCall::CreateDir(d, _) && (t[2] matches PortCall::Rename(_, b, _) && parent(b)
            == Some(d)),
{
    assert(t.skip(2)[0] == t[2]);
}

/// Moves a photo between `_media/` and `_culled/` and stores its new path.
pub struct CullPhoto<'a> {
    pub photos: &'a dyn PhotoRepository,
    pub files: &'a dyn FileStore,
    pub finder_tags: &'a dyn FinderTagWriter,
    /// Mount point of the project: stored paths are relative to it.
    pub mount_point: &'a str,
    log: Ghost<Seq<PortCall>>,
}

impl<'a> CullPhoto<'a> {
    /// A cull use case over these ports, with nothing called yet.
    pub fn new(
        photos: &'a dyn PhotoRepository,
        files: &'a dyn FileStore,
        finder_tags: &'a dyn FinderTagWriter,
        mount_point: &'a str,
    ) -> (r: Self)
        ensures
            r.mount() == mount_point@,
            r.calls().len() == 0,
    {
        CullPhoto { photos, files, finder_tags, mount_point, log: Ghost(Seq::empty()) }
    }

    /// The port calls made so far, in order, with their answers.
    pub closed spec fn calls(&self) -> Seq<PortCall> {
        self.log@
    }

    /// The mount point of the project.
    pub closed spec fn mount(&self) -> Seq<char> {
        self.mount_point@
    }

    /// Culls (`culled`) or unculls the photo: nothing when its state
    /// already matches; otherwise the file (its XMP and Finder-tag sidecars
    /// along, best effort) moves to the destination of `plan_cull`, and the
    /// new path is stored, moving the file back if storing fails.
    pub fn execute(&mut self, photo_id: &str, culled: bool) -> (r: Result<(), String>)
        ensures
            final(self).mount() == old(self).mount(),
            final(self).calls().len() >= old(self).calls().len(),
            final(self).calls().take(old(self).calls().len() as int) == old(self).calls(),
            cull_run(photo_id@, culled, old(self).mount(), final(self).calls().skip(old(self).calls().len() as int), r),
    {
        let ghost start = self.log@;
        let photo = match log_get(self.photos, photo_id, &mut self.log) {
            Ok(Some(p)) => p,
            Ok(None) => {
                assert(self.log@.skip(start.len() as int) =~= seq![self.log@.last()]);
                return Err(photo_not_found(photo_id));
            },
            Err(e) => {
                assert(self.log@.skip(start.len() as int) =~= seq![self.log@.last()]);
                return Err(e);
            },
        };
        let ghost c0 = self.log@.last();
        assert(self.log@.skip(start.len() as int) =~= seq![c0]);
        let mv = match plan_cull(self.mount_point, photo.dng_path.as_str(), photo.culled, culled) {
            Ok(Some(m)) => m,
            Ok(None) => return Ok(()),
            Err(e) => return Err(e),
        };
        let ghost rel = mv.new_rel@;
        let ghost pre: Seq<PortCall> = seq![c0];
        match &mv.target_dir {
            Some(dir) => {
                match log_create_dir(self.files, dir.as_str(), &mut self.log) {
                    Ok(()) => {},
                    Err(e) => {
                        assert(self.log@.skip(start.len() as int) =~= seq![c0, self.log@.last()]);
                        return Err(msg_create_dir_failed(culled, e.as_str()));
                    },
                }
                proof {
                    pre = seq![c0, self.log@.last()];
                }
            },
            None => {},
        }
        assert(self.log@.skip(start.len() as int) =~= pre);
        let ghost mid = self.log@;
        match log_rename(self.files, mv.current.as_str(), mv.target.as_str(), &mut self.log) {
            Ok(()) => {},
            Err(e) => {
                assert(self.log@.skip(mid.len() as int) =~= seq![self.log@.last()]);
                assert(self.log@.skip(start.len() as int) =~= pre + seq![self.log@.last()]);
                return Err(msg_move_failed(e.as_str()));
            },
        }
        let ghost c_mv = self.log@.last();
        let exists = log_path_exists(self.files, mv.xmp_src.as_str(), &mut self.log);
        let ghost c_ex = self.log@.last();
        let ghost moved: Seq<PortCall> = seq![c_mv, c_ex];
        if exists {
            let _ = log_rename(self.files, mv.xmp_src.as_str(), mv.xmp_dst.as_str(), &mut self.log);
            proof {
                moved = seq![c_mv, c_ex, self.log@.last()];
            }
        }
        assert(self.log@.skip(mid.len() as int) =~= moved);
        let ghost mid2 = self.log@;
        let _ = log_move_sidecar(self.finder_tags, mv.current.as_str(), mv.target.as_str(), &mut self.log);
        let ghost c_sc = self.log@.last();
        match log_update_culled(self.photos, photo_id, culled, mv.new_rel.as_str(), &mut self.log) {
            Ok(()) => {
                proof {
                    let tail = seq![c_sc, self.log@.last()];
                    assert(self.log@.skip(mid2.len() as int) =~= tail);
                    assert(self.log@.skip(mid.len() as int) =~= moved + tail);
                    assert(self.log@.skip(start.len() as int) =~= pre + (moved + tail));
                    assert((moved + tail).skip(moved.len() as int) =~= tail);
                    assert(self.log@.take(start.len() as int) =~= start);
                }
                Ok(())
            },
            Err(e) => {
                let ghost c_up = self.log@.last();
                let _ = log_rename(self.files, mv.target.as_str(), mv.current.as_str(), &mut self.log);
                proof {
                    let tail = seq![c_sc, c_up, self.log@.last()];
                    assert(self.log@.skip(mid2.len() as int) =~= tail);
                    assert(self.log@.skip(mid.len() as int) =~= moved + tail);
                    assert(self.log@.skip(start.len() as int) =~= pre + (moved + tail));
                    assert((moved + tail).skip(moved.len() as int) =~= tail);
                    assert(self.log@.take(start.len() as int) =~= start);
                }
                Err(e)
            },
        }
    }
}

} // verus!
