//! Use case: rate a photo (stars, color, tags) and mirror the color in the
//! Finder tags of its files. Invalidating the Spotlight index (background
//! work) is left to the caller: `execute` returns the volume to invalidate.
use vstd::prelude::*;
use crate::application::ports::{
    log_get, log_spotlight_present, log_sync_color, log_update_rating, opt_chars, FinderTagWriter, PhotoRepository,
    PortCall,
};
use crate::domain::error::DomainError;
use crate::domain::photo::{normalize_tags, normalized_tags, Stars};
use crate::pathstr::{join, join_path};
use crate::text::{chars_of, string_of};

verus! {

/// The normalized tags to store for the given raw tags.
pub open spec fn stored_tags(raw: Option<Seq<char>>) -> Option<Seq<char>> {
    match raw {
        Some(t) => normalized_tags(t),
        None => None,
    }
}

/// `tags_raw.and_then(normalize_tags)`.
pub fn tags_to_store(tags_raw: Option<&str>) -> (r: Option<String>)
    ensures
        (match r {
            Some(s) => Some(s@),
            None => None,
        }) == stored_tags(
            match tags_raw {
                Some(t) => Some(t@),
                None => None,
            },
        ),
{
    match tags_raw {
        Some(t) => normalize_tags(t),
        None => None,
    }
}

/// The files whose Finder tags follow the photo's color: the main file and,
/// when there is one, its JPEG.
pub open spec fn rating_targets_spec(
    mount: Seq<char>,
    dng: Seq<char>,
    jpg: Option<Seq<char>>,
) -> Seq<Seq<char>> {
    match jpg {
        Some(j) => seq![join_path(mount, dng), join_path(mount, j)],
        None => seq![join_path(mount, dng)],
    }
}

/// Absolute paths of the files of a photo.
pub fn rating_targets(mount: &str, dng_path: &str, jpg_path: &Option<String>) -> (r: Vec<String>)
    ensures
        r@.map_values(|s: String| s@) == rating_targets_spec(
            mount@,
            dng_path@,
            match jpg_path {
                Some(j) => Some(j@),
                None => None,
            },
        ),
{
    let mut r: Vec<String> = Vec::new();
    r.push(join(mount, dng_path));
    match jpg_path {
        Some(j) => r.push(join(mount, j.as_str())),
        None => {},
    }
    assert(r@.map_values(|s: String| s@) =~= rating_targets_spec(
        mount@,
        dng_path@,
        match jpg_path {
            Some(j) => Some(j@),
            None => None,
        },
    ));
    r
}

/// The optional string `o` as characters.
pub open spec fn opt_string_chars(o: Option<String>) -> Option<Seq<char>> {
    match o {
        Some(s) => Some(s@),
        None => None,
    }
}

/// Whether `call` syncs the Finder color of `target` to `color`.
pub open spec fn is_sync(call: PortCall, target: Seq<char>, color: Option<Seq<char>>) -> bool {
    call matches PortCall::SyncColor(x, c, _) && x == target && c == color
}

/// What rating photo `id` does, as the port calls `t` it makes (each with
/// its answer) and its result `r`. Stars outside 0..=5 are refused before
/// any call. Otherwise the rating is stored with the normalized tags; a
/// failure there is returned. With the Finder tags off that is all. Else
/// the photo is read (a failed read is returned, a missing photo ends it),
/// the color of each of its files is synced (failures ignored), and the
/// volume is returned when it has a Spotlight index.
pub open spec fn rate_run(
    id: Seq<char>,
    stars: i32,
    color: Option<Seq<char>>,
    tags: Option<Seq<char>>,
    mount: Seq<char>,
    enabled: bool,
    t: Seq<PortCall>,
    r: Result<Option<String>, String>,
) -> bool {
    if !(0 <= stars <= 5) {
        t.len() == 0 && (r matches Err(m) && m@ == DomainError::InvalidStars(stars).spec_message())
    } else {
        t.len() >= 1 && match t[0] {
            PortCall::UpdateRating(i, s, c, tg, u) => i == id && s == stars && c == color && tg == stored_tags(tags)
                && match u {
                Err(e) => t.len() == 1 && r == Err::<Option<String>, String>(e),
                Ok(_) => if !enabled {
                    t.len() == 1 && r == Ok::<Option<String>, String>(None)
                } else {
                    t.len() >= 2 && match t[1] {
                        PortCall::Get(i2, g) => i2 == id && match g {
                            Err(e) => t.len() == 2 && r == Err::<Option<String>, String>(e),
                            Ok(None) => t.len() == 2 && r == Ok::<Option<String>, String>(None),
                            Ok(Some(p)) => {
                                let targets = rating_targets_spec(mount, p.dng_path@, opt_string_chars(p.jpg_path));
                                let n = targets.len() as int;
                                &&& t.len() == n + 3
                                &&& forall|k: int| 0 <= k < n ==> is_sync(#[trigger] t.skip(2)[k], targets[k], color)
                                &&& (t[n + 2] matches PortCall::SpotlightPresent(root, b) && root == mount && if b {
                                    r matches Ok(Some(v)) && v@ == mount
                                } else {
                                    r == Ok::<Option<String>, String>(None)
                                })
                            },
                        },
                        _ => false,
                    }
                },
            },
            _ => false,
        }
    }
}

/// Rates a photo and keeps its Finder tags in step.
pub struct RatePhoto<'a> {
    pub photos: &'a dyn PhotoRepository,
    pub finder_tags: &'a dyn FinderTagWriter,
    /// Mount point of the project (photo paths are relative to it).
    pub mount_point: &'a str,
    /// Setting `finder_tags_sidecar`: when off, no sidecar is touched.
    pub finder_tags_enabled: bool,
    log: Ghost<Seq<PortCall>>,
}

impl<'a> RatePhoto<'a> {
    /// A rating use case over these ports, with nothing called yet.
    pub fn new(
        photos: &'a dyn PhotoRepository,
        finder_tags: &'a dyn FinderTagWriter,
        mount_point: &'a str,
        finder_tags_enabled: bool,
    ) -> (r: Self)
        ensures
            r.mount() == mount_point@,
            r.enabled() == finder_tags_enabled,
            r.calls().len() == 0,
    {
        RatePhoto { photos, finder_tags, mount_point, finder_tags_enabled, log: Ghost(Seq::empty()) }
    }

    /// The port calls made so far, in order, with their answers.
    pub closed spec fn calls(&self) -> Seq<PortCall> {
        self.log@
    }

    /// The mount point of the project.
    pub closed spec fn mount(&self) -> Seq<char> {
        self.mount_point@
    }

    /// Whether the Finder tags are kept in step.
    pub closed spec fn enabled(&self) -> bool {
        self.finder_tags_enabled
    }

    /// Stores the rating (tags normalized) and syncs the sidecars; returns
    /// the volume whose Spotlight index should be invalidated, if any. Stars
    /// outside 0..=5 are refused before anything is written.
    pub fn execute(
        &mut self,
        photo_id: &str,
        stars_raw: i32,
        color_label: Option<&str>,
        tags_raw: Option<&str>,
    ) -> (r: Result<Option<String>, String>)
        ensures
            final(self).mount() == old(self).mount(),
            final(self).enabled() == old(self).enabled(),
            final(self).calls().len() >= old(self).calls().len(),
            final(self).calls().take(old(self).calls().len() as int) == old(self).calls(),
            rate_run(
                photo_id@,
                stars_raw,
                opt_chars(color_label),
                opt_chars(tags_raw),
                old(self).mount(),
                old(self).enabled(),
                final(self).calls().skip(old(self).calls().len() as int),
                r,
            ),
    {
        let ghost start = self.log@;
        let ghost color = opt_chars(color_label);
        let stars = match Stars::new(stars_raw) {
            Ok(s) => s.value(),
            Err(e) => {
                assert(self.log@.skip(start.len() as int) =~= Seq::<PortCall>::empty());
                return Err(e.message());
            },
        };
        let tags = tags_to_store(tags_raw);
        let tags_ref: Option<&str> = match &tags {
            Some(t) => Some(t.as_str()),
            None => None,
        };
        match log_update_rating(self.photos, photo_id, stars, color_label, tags_ref, &mut self.log) {
            Ok(()) => {},
            Err(e) => {
                assert(self.log@.skip(start.len() as int) =~= seq![self.log@.last()]);
                return Err(e);
            },
        }
        let ghost c0 = self.log@.last();
        if !self.finder_tags_enabled {
            assert(self.log@.skip(start.len() as int) =~= seq![c0]);
            return Ok(None);
        }
        let photo = match log_get(self.photos, photo_id, &mut self.log) {
            Ok(Some(p)) => p,
            Ok(None) => {
                assert(self.log@.skip(start.len() as int) =~= seq![c0, self.log@.last()]);
                return Ok(None);
            },
            Err(e) => {
                assert(self.log@.skip(start.len() as int) =~= seq![c0, self.log@.last()]);
                return Err(e);
            },
        };
        let ghost c1 = self.log@.last();
        let ghost base = self.log@;
        assert(base.skip(start.len() as int) =~= seq![c0, c1]);
        let targets = rating_targets(self.mount_point, photo.dng_path.as_str(), &photo.jpg_path);
        let ghost tv = rating_targets_spec(self.mount_point@, photo.dng_path@, opt_string_chars(photo.jpg_path));
        assert(match &photo.jpg_path { Some(j) => Some(j@), None => None } == opt_string_chars(photo.jpg_path));
        let mut i: usize = 0;
        while i < targets.len()
            invariant
                i <= targets.len(),
                targets@.map_values(|s: String| s@) == tv,
                color == opt_chars(color_label),
                self.mount_point@ == old(self).mount_point@,
                self.finder_tags_enabled == old(self).finder_tags_enabled,
                base.take(start.len() as int) == start,
                start.len() <= base.len(),
                self.log@.len() == base.len() + i,
                self.log@.take(base.len() as int) == base,
                forall|k: int| 0 <= k < i ==> is_sync(#[trigger] self.log@.skip(base.len() as int)[k], tv[k], color),
            decreases targets.len() - i,
        {
            // Best effort: the database is the source of truth.
            let ghost before = self.log@;
            let _ = log_sync_color(self.finder_tags, targets[i].as_str(), color_label, &mut self.log);
            proof {
                assert(self.log@.take(base.len() as int) =~= base);
                assert forall|k: int| 0 <= k < i + 1 implies is_sync(#[trigger] self.log@.skip(base.len() as int)[k], tv[k], color) by {
                    if k < i {
                        assert(self.log@.skip(base.len() as int)[k] == before.skip(base.len() as int)[k]);
                    } else {
                        assert(self.log@.skip(base.len() as int)[k] == self.log@.last());
                        assert(tv[k] == targets@[k]@);
                    }
                }
            }
            i = i + 1;
        }
        let ghost synced = self.log@;
        let volume_root = string_of(&chars_of(self.mount_point));
        let present = log_spotlight_present(self.finder_tags, volume_root.as_str(), &mut self.log);
        proof {
            let t = self.log@.skip(start.len() as int);
            let n = tv.len() as int;
            assert(t.len() == n + 3);
            assert(t[0] == c0);
            assert(t[1] == c1);
            assert(t[n + 2] == self.log@.last());
            assert(self.log@.take(start.len() as int) =~= synced.take(base.len() as int).take(start.len() as int));
            assert forall|k: int| 0 <= k < n implies is_sync(#[trigger] t.skip(2)[k], tv[k], color) by {
                assert(t.skip(2)[k] == synced.skip(base.len() as int)[k]);
            }
        }
        if present {
            Ok(Some(volume_root))
        } else {
            Ok(None)
        }
    }
}

} // verus!
