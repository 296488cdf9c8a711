//! Use case: rotate a photo. Validates the rotation, stores it and rotates
//! the cached thumbnail by the clockwise difference. Writing the orientation
//! into the file is scheduled by the caller (debounced), which gets the
//! photo's relative path back.
use vstd::prelude::*;
use crate::application::ports::{log_get, log_rotate_thumbnail, log_update_rotation, ImageProcessor, PhotoRepository, PortCall};
use crate::domain::error::DomainError;
use crate::domain::photo::{clockwise_delta, is_right_angle, Rotation};
use crate::text::{chars_of, push_str, string_of};

verus! {

/// Message when a photo does not exist.
pub open spec fn msg_photo_not_found(id: Seq<char>) -> Seq<char> {
    "Photo "@ + id + " not found"@
}

/// `Photo {id} not found`.
pub fn photo_not_found(id: &str) -> (s: String)
    ensures
        s@ == msg_photo_not_found(id@),
{
    let mut v = chars_of("Photo ");
    push_str(&mut v, id);
    push_str(&mut v, " not found");
    string_of(&v)
}

/// The stored rotation read as a rotation: itself when a right angle, else 0.
pub open spec fn stored_rotation(stored: int) -> int {
    if is_right_angle(stored) {
        stored
    } else {
        0
    }
}

/// Clockwise rotation the thumbnail needs to go from the stored rotation to
/// `requested`.
pub fn thumbnail_delta(requested: Rotation, stored: i32) -> (d: i32)
    ensures
        d == clockwise_delta(requested@, stored_rotation(stored as int)),
        is_right_angle(d as int),
{
    let old = match Rotation::new(stored) {
        Ok(r) => r,
        Err(_) => Rotation::none(),
    };
    let delta = requested.delta_from(old);
    delta.degrees()
}

/// What rotating photo `id` to `rotation`, with the thumbnails of project
/// directory `dir`, does: the port calls `t` it makes (each with the answer
/// it got) and its result `r`. A rotation other than 0, 90, 180 or 270 is
/// refused before any call. Otherwise the photo is read; a missing photo or
/// a failed read ends it. Then the rotation is stored; if that fails its
/// error is returned. Otherwise the thumbnail is turned by the clockwise
/// difference from the stored rotation when that is not zero, and the
/// photo's relative path is returned.
pub open spec fn rotate_run(
    id: Seq<char>,
    rotation: i32,
    dir: Seq<char>,
    t: Seq<PortCall>,
    r: Result<String, String>,
) -> bool {
    if !is_right_angle(rotation as int) {
        t.len() == 0 && (r matches Err(m) && m@ == DomainError::InvalidRotation(rotation).spec_message())
    } else {
        t.len() >= 1 && match t[0] {
            PortCall::Get(i, g) => i == id && match g {
                Err(e) => t.len() == 1 && r == Err::<String, String>(e),
                Ok(None) => t.len() == 1 && (r matches Err(m) && m@ == msg_photo_not_found(id)),
                Ok(Some(p)) => t.len() >= 2 && match t[1] {
                    PortCall::UpdateRotation(i2, rot, u) => i2 == id && rot == rotation && match u {
                        Err(e) => t.len() == 2 && r == Err::<String, String>(e),
                        Ok(_) => {
                            let d = clockwise_delta(rotation as int, stored_rotation(p.rotation as int));
                            &&& r == Ok::<String, String>(p.dng_path)
                            &&& if d != 0 {
                                t.len() == 3 && t[2] == PortCall::RotateThumbnail(dir, id, d as i32)
                            } else {
                                t.len() == 2
                            }
                        },
                    },
                    _ => false,
                },
            },
            _ => false,
        }
    }
}

/// Rotates a photo: persists the rotation and rotates the thumbnail.
pub struct RotatePhoto<'a> {
    pub photos: &'a dyn PhotoRepository,
    pub images: &'a dyn ImageProcessor,
    /// Project directory (where `.thumbs/` lives).
    pub project_dir: &'a str,
    log: Ghost<Seq<PortCall>>,
}

impl<'a> RotatePhoto<'a> {
    /// A rotation use case over these ports, with nothing called yet.
    pub fn new(photos: &'a dyn PhotoRepository, images: &'a dyn ImageProcessor, project_dir: &'a str) -> (r: Self)
        ensures
            r.dir() == project_dir@,
            r.calls().len() == 0,
    {
        RotatePhoto { photos, images, project_dir, log: Ghost(Seq::empty()) }
    }

    /// The port calls made so far, in order, with their answers.
    pub closed spec fn calls(&self) -> Seq<PortCall> {
        self.log@
    }

    /// The project directory whose thumbnails are turned.
    pub closed spec fn dir(&self) -> Seq<char> {
        self.project_dir@
    }

    /// Stores the rotation and rotates the thumbnail when it changes; the
    /// photo's relative path. A rotation other than 0, 90, 180, 270 is
    /// refused before anything is read or written.
    pub fn execute(&mut self, photo_id: &str, rotation: i32) -> (r: Result<String, String>)
        ensures
            final(self).dir() == old(self).dir(),
            final(self).calls().len() >= old(self).calls().len(),
            final(self).calls().take(old(self).calls().len() as int) == old(self).calls(),
            rotate_run(
                photo_id@,
                rotation,
                old(self).dir(),
                final(self).calls().skip(old(self).calls().len() as int),
                r,
            ),
    {
        let ghost start = self.log@;
        let rotation_vo = match Rotation::new(rotation) {
            Ok(r) => r,
            Err(e) => {
                assert(self.log@.skip(start.len() as int) =~= Seq::<PortCall>::empty());
                return Err(e.message());
            },
        };
        let photo = match log_get(self.photos, photo_id, &mut self.log) {
            Ok(Some(p)) => p,
            Ok(None) => {
                assert(self.log@.skip(start.len() as int) =~= seq![self.log@.last()]);
                return Err(photo_not_found(photo_id));
            },
            Err(e) => {
                assert(self.log@.skip(start.len() as int) =~= seq![self.log@.last()]);
                return Err(e);
            },
        };
        let ghost after_get = self.log@;
        let delta = thumbnail_delta(rotation_vo, photo.rotation);
        match log_update_rotation(self.photos, photo_id, rotation, &mut self.log) {
            Ok(()) => {},
            Err(e) => {
                assert(self.log@.skip(start.len() as int) =~= seq![after_get.last(), self.log@.last()]);
                return Err(e);
            },
        }
        let ghost after_update = self.log@;
        if delta != 0 {
            log_rotate_thumbnail(self.images, self.project_dir, photo_id, delta, &mut self.log);
            assert(self.log@.skip(start.len() as int) =~= seq![after_get.last(), after_update.last(), self.log@.last()]);
        } else {
            assert(self.log@.skip(start.len() as int) =~= seq![after_get.last(), after_update.last()]);
        }
        Ok(photo.dng_path)
    }
}

} // verus!
