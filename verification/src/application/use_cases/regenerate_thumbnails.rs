//! Use case: remake the thumbnails of a project. The rotation stored for
//! each photo is first brought in line with the one its file carries, then
//! a thumbnail is requested for every photo. Removing the old thumbnails
//! and listing the photos are the caller's.
use vstd::prelude::*;
use crate::application::ports::{log_read_rotation, log_update_rotation, ImageProcessor, MetadataTool, PhotoRepository, PortCall};
use crate::application::use_cases::import_photos::{cache_thumbnails_logged, pair_chars, thumbnails_asked};
use crate::models::Photo;
use crate::pathstr::{join, join_path};

verus! {

/// Whether `t` are the calls that bring the stored rotations of `photos`
/// (files under `mount`) in line with their files: for each photo in
/// order, the rotation of its file is read and, when it differs from the
/// stored one, stored (whatever storing answers).
pub open spec fn reconcile_calls(mount: Seq<char>, photos: Seq<Photo>, t: Seq<PortCall>) -> bool
    decreases photos.len(),
{
    if photos.len() == 0 {
        t.len() == 0
    } else {
        let p = photos.last();
        let full = join_path(mount, p.dng_path@);
        ||| (t.len() >= 1 && (t.last() matches PortCall::ReadRotation(f, rot) && f == full && rot == p.rotation)
            && reconcile_calls(mount, photos.drop_last(), t.drop_last()))
        ||| (t.len() >= 2 && (t[t.len() - 2] matches PortCall::ReadRotation(f, rot) && f == full && rot != p.rotation
            && (t.last() matches PortCall::UpdateRotation(i, r2, _) && i == p.id@ && r2 == rot))
            && reconcile_calls(mount, photos.drop_last(), t.take(t.len() - 2)))
    }
}

/// How many stored rotations `t` rewrites.
pub open spec fn updates_in(t: Seq<PortCall>) -> nat
    decreases t.len(),
{
    if t.len() == 0 {
        0
    } else {
        updates_in(t.drop_last()) + if t.last() is UpdateRotation {
            1nat
        } else {
            0nat
        }
    }
}

/// The (file, id) pair of each photo, files under `mount`.
pub open spec fn photo_pairs(mount: Seq<char>, photos: Seq<Photo>) -> Seq<(Seq<char>, Seq<char>)> {
    photos.map_values(|p: Photo| (join_path(mount, p.dng_path@), p.id@))
}

/// Whether the calls `t` split at `m` (the thumbnail requests, one per
/// photo, being the last ones) into the reconciliation of the
/// stored rotations of `photos` (rewriting `count` of them) and one
/// thumbnail request per photo.
pub open spec fn regenerate_split(mount: Seq<char>, photos: Seq<Photo>, t: Seq<PortCall>, m: int, count: usize) -> bool {
    &&& 0 <= m <= t.len()
    &&& reconcile_calls(mount, photos, t.take(m))
    &&& count == updates_in(t.take(m))
    &&& thumbnails_asked(t.skip(m), photo_pairs(mount, photos))
}

/// Remakes the thumbnails of the photos of a project.
pub struct RegenerateThumbnails<'a> {
    pub photos: &'a dyn PhotoRepository,
    pub metadata: &'a dyn MetadataTool,
    pub images: &'a dyn ImageProcessor,
    /// Mount point of the project (photo paths are relative to it).
    pub mount_point: &'a str,
    log: Ghost<Seq<PortCall>>,
}

impl<'a> RegenerateThumbnails<'a> {
    /// A thumbnail use case over these ports, with nothing called yet.
    pub fn new(
        photos: &'a dyn PhotoRepository,
        metadata: &'a dyn MetadataTool,
        images: &'a dyn ImageProcessor,
        mount_point: &'a str,
    ) -> (r: Self)
        ensures
            r.mount() == mount_point@,
            r.calls().len() == 0,
    {
        RegenerateThumbnails { photos, metadata, images, mount_point, log: Ghost(Seq::empty()) }
    }

    /// The port calls made so far, in order, with their answers.
    pub closed spec fn calls(&self) -> Seq<PortCall> {
        self.log@
    }

    /// The mount point of the project.
    pub closed spec fn mount(&self) -> Seq<char> {
        self.mount_point@
    }

    /// Brings the stored rotation of each of `photos` in line with its file,
    /// then requests a thumbnail for every photo; the number of photos and
    /// the number of stored rotations rewritten.
    pub fn execute(&mut self, photos: &Vec<Photo>) -> (r: (usize, usize))
        ensures
            final(self).mount() == old(self).mount(),
            final(self).calls().take(old(self).calls().len() as int) == old(self).calls(),
            r.0 == photos@.len(),
            regenerate_split(
                old(self).mount(),
                photos@,
                final(self).calls().skip(old(self).calls().len() as int),
                final(self).calls().len() - old(self).calls().len() - photos@.len(),
                r.1,
            ),
    {
        let ghost start = self.log@;
        let ghost mount = self.mount_point@;
        let mut reconciled: usize = 0;
        let mut i: usize = 0;
        while i < photos.len()
            invariant
                i <= photos.len(),
                self.mount_point@ == mount,
                self.log@.len() >= start.len(),
                self.log@.take(start.len() as int) == start,
                reconcile_calls(mount, photos@.take(i as int), self.log@.skip(start.len() as int)),
                reconciled == updates_in(self.log@.skip(start.len() as int)),
                reconciled <= i,
            decreases photos.len() - i,
        {
            let ghost before = self.log@;
            let p = &photos[i];
            let full = join(self.mount_point, p.dng_path.as_str());
            let file_rotation = log_read_rotation(self.metadata, full.as_str(), &mut self.log);
            let ghost after_read = self.log@;
            if file_rotation != p.rotation {
                let _ = log_update_rotation(self.photos, p.id.as_str(), file_rotation, &mut self.log);
                reconciled = reconciled + 1;
                proof {
                    let t = self.log@.skip(start.len() as int);
                    assert(t.take(t.len() - 2) =~= before.skip(start.len() as int));
                    assert(t.drop_last() =~= after_read.skip(start.len() as int));
                    assert(after_read.skip(start.len() as int).drop_last() =~= before.skip(start.len() as int));
                    assert(updates_in(after_read.skip(start.len() as int)) == updates_in(before.skip(start.len() as int)));
                    assert(updates_in(t) == updates_in(after_read.skip(start.len() as int)) + 1);
                    assert(photos@.take(i + 1).drop_last() =~= photos@.take(i as int));
                    assert(photos@.take(i + 1).last() == photos@[i as int]);
                }
            } else {
                proof {
                    let t = self.log@.skip(start.len() as int);
                    assert(t.drop_last() =~= before.skip(start.len() as int));
                    assert(updates_in(t) == updates_in(before.skip(start.len() as int)));
                    assert(photos@.take(i + 1).drop_last() =~= photos@.take(i as int));
                    assert(photos@.take(i + 1).last() == photos@[i as int]);
                }
            }
            proof {
                assert(self.log@.take(start.len() as int) =~= start);
            }
            i = i + 1;
        }
        assert(photos@.take(photos.len() as int) =~= photos@);
        let ghost mid = self.log@;
        let mut pairs: Vec<(String, String)> = Vec::new();
        let mut j: usize = 0;
        while j < photos.len()
            invariant
                j <= photos.len(),
                self.mount_point@ == mount,
                pair_chars(pairs@) == photo_pairs(mount, photos@.take(j as int)),
            decreases photos.len() - j,
        {
            let full = join(self.mount_point, photos[j].dng_path.as_str());
            let ghost before = pairs@;
            let id = photos[j].id.clone();
            assert(id@ == photos@[j as int].id@);
            pairs.push((full, id));
            assert(photos@.take(j + 1) =~= photos@.take(j as int).push(photos@[j as int]));
            assert(pair_chars(pairs@) =~= pair_chars(before).push((full@, id@)));
            assert(pair_chars(pairs@) =~= photo_pairs(mount, photos@.take(j + 1)));
            j = j + 1;
        }
        assert(photos@.take(photos.len() as int) =~= photos@);
        cache_thumbnails_logged(self.images, pairs.as_slice(), None, &mut self.log);
        proof {
            let m = mid.len() as int;
            assert(self.log@.subrange(start.len() as int, m) =~= mid.skip(start.len() as int));
            assert(self.log@.take(start.len() as int) =~= mid.take(start.len() as int));
            assert(self.log@.skip(m) =~= self.log@.skip(mid.len() as int));
            assert(pair_chars(pairs@) == photo_pairs(mount, photos@));
            assert(reconcile_calls(mount, photos@, self.log@.subrange(start.len() as int, m)));
            assert(reconciled == updates_in(self.log@.subrange(start.len() as int, m)));
            assert(thumbnails_asked(self.log@.skip(m), photo_pairs(mount, photos@)));
            let t = self.log@.skip(start.len() as int);
            let k = m - start.len();
            assert(t.take(k) =~= self.log@.subrange(start.len() as int, m));
            assert(t.skip(k) =~= self.log@.skip(m));
            assert(regenerate_split(mount, photos@, t, k, reconciled));
        }
        (photos.len(), reconciled)
    }
}

} // verus!
