//! Use case: import the photos (and videos) of a session into a project.
//! Runs the pipeline, reads EXIF in one batch, inserts the photos in one
//! transaction and makes their thumbnails, reporting progress through the
//! `ProgressReporter` port.
use vstd::prelude::*;
use crate::application::ports::{
    log_cache_thumbnail, log_copy_videos, log_create_batch, log_extract_batch, log_file_size, log_process_photos,
    str_views, FileMetadata, PipelineRequest, ImageProcessor, ImportPipeline, MetadataTool, PhotoRepository, PipelinePhotos, PortCall,
    ProgressReporter,
};
use crate::domain::photo::chars_eq;
use crate::import::progress::{FailedFile, ImportPhase, ImportProgress};
use crate::models::{CreatePhoto, Photo, PhotographerMetadata};
use crate::pathstr::{
    extension, extension_of, file_name, file_name_of, join, join_path, strip_prefix,
    strip_prefix_of,
};
use crate::text::{chars_of, decimal, decimal_of, push_chars, push_str, string_of, to_uppercase, uppercase, int_decimal, int_decimal_of};

verus! {

/// Input of an import, already split into photos and videos.
pub struct ImportParams {
    pub session_id: String,
    pub photo_paths: Vec<String>,
    pub video_paths: Vec<String>,
    pub project_id: String,
    pub project_name: String,
    pub device_uuid: String,
    pub mount_point: String,
    /// `{project_dir}/_media`
    pub dest_folder: String,
    /// `{project_dir}/_video`
    pub video_dest_folder: String,
    /// Photographer metadata to embed (`None` when the setting is off).
    pub metadata: Option<PhotographerMetadata>,
    pub image_description: Option<String>,
    pub rename_on_import: bool,
}

/// Outcome of an import.
pub struct ImportOutcome {
    pub successful: usize,
    pub failed_files: Vec<FailedFile>,
    pub videos_copied: usize,
}

/// A copy of an optional string.
pub fn clone_opt(o: &Option<String>) -> (r: Option<String>)
    ensures
        r == *o,
{
    match o {
        Some(s) => Some(s.clone()),
        None => None,
    }
}

/// A copy of a metadata record.
pub fn copy_metadata(m: &FileMetadata) -> (r: FileMetadata)
    ensures
        r == *m,
{
    FileMetadata {
        width: m.width,
        height: m.height,
        capture_date: clone_opt(&m.capture_date),
        camera: clone_opt(&m.camera),
        iso: m.iso,
        aperture: clone_opt(&m.aperture),
        shutter_speed: clone_opt(&m.shutter_speed),
        exposure_compensation: clone_opt(&m.exposure_compensation),
        focal_length: clone_opt(&m.focal_length),
        lens_model: clone_opt(&m.lens_model),
        rotation: m.rotation,
    }
}

/// A copy of an insert record.
pub fn copy_create_photo(c: &CreatePhoto) -> (r: CreatePhoto)
    ensures
        r == *c,
{
    CreatePhoto {
        project_id: c.project_id.clone(),
        dng_path: c.dng_path.clone(),
        device_uuid: c.device_uuid.clone(),
        original_camera: clone_opt(&c.original_camera),
        original_format: clone_opt(&c.original_format),
        capture_date: clone_opt(&c.capture_date),
        width: c.width,
        height: c.height,
        file_size_bytes: c.file_size_bytes,
        iso: c.iso,
        aperture: clone_opt(&c.aperture),
        shutter_speed: clone_opt(&c.shutter_speed),
        exposure_compensation: clone_opt(&c.exposure_compensation),
        focal_length: clone_opt(&c.focal_length),
        lens_model: clone_opt(&c.lens_model),
        rotation: c.rotation,
    }
}

/// The metadata recorded for path `p`: the first entry with that key.
pub open spec fn lookup_meta(map: Seq<(String, FileMetadata)>, p: Seq<char>) -> Option<FileMetadata>
    decreases map.len(),
{
    if map.len() == 0 {
        None
    } else if map[0].0@ == p {
        Some(map[0].1)
    } else {
        lookup_meta(map.drop_first(), p)
    }
}

/// Metadata with every field empty and rotation 0.
pub open spec fn empty_meta() -> FileMetadata {
    FileMetadata {
        width: None,
        height: None,
        capture_date: None,
        camera: None,
        iso: None,
        aperture: None,
        shutter_speed: None,
        exposure_compensation: None,
        focal_length: None,
        lens_model: None,
        rotation: 0,
    }
}

/// The metadata of `p`, or empty metadata when none was read.
pub open spec fn meta_for(map: Seq<(String, FileMetadata)>, p: Seq<char>) -> FileMetadata {
    match lookup_meta(map, p) {
        Some(m) => m,
        None => empty_meta(),
    }
}

/// The metadata recorded for `p`, or empty metadata.
pub fn find_meta(map: &[(String, FileMetadata)], p: &str) -> (r: FileMetadata)
    ensures
        r == meta_for(map@, p@),
{
    let pv = chars_of(p);
    let mut i: usize = 0;
    assert(map@.skip(0) == map@);
    while i < map.len()
        invariant
            i <= map.len(),
            pv@ == p@,
            lookup_meta(map@, p@) == lookup_meta(map@.skip(i as int), p@),
        decreases map.len() - i,
    {
        assert(map@.skip(i as int).drop_first() == map@.skip(i + 1));
        assert(map@.skip(i as int)[0] == map@[i as int]);
        let kv = chars_of(map[i].0.as_str());
        if chars_eq(&kv, &pv) {
            return copy_metadata(&map[i].1);
        }
        i = i + 1;
    }
    FileMetadata {
        width: None,
        height: None,
        capture_date: None,
        camera: None,
        iso: None,
        aperture: None,
        shutter_speed: None,
        exposure_compensation: None,
        focal_length: None,
        lens_model: None,
        rotation: 0,
    }
}

/// Views of an optional string.
pub open spec fn opt_view(o: Option<String>) -> Option<Seq<char>> {
    match o {
        Some(s) => Some(s@),
        None => None,
    }
}

/// The folder the stored paths are relative to: `dest` below `mount`, or
/// `dest` itself when it is not below it.
pub open spec fn relative_dir(dest: Seq<char>, mount: Seq<char>) -> Seq<char> {
    match strip_prefix(dest, mount) {
        Some(r) => r,
        None => dest,
    }
}

/// Whether `cp` is the insert record of the file `dng` (of size `size`,
/// metadata `meta`) moved into `dest`.
pub open spec fn insert_matches(
    cp: CreatePhoto,
    dng: Seq<char>,
    size: Option<i64>,
    meta: FileMetadata,
    dest: Seq<char>,
    mount: Seq<char>,
    project_id: Seq<char>,
    device_uuid: Seq<char>,
) -> bool {
    &&& cp.project_id@ == project_id
    &&& cp.dng_path@ == join_path(relative_dir(dest, mount), file_name(dng)->0)
    &&& cp.device_uuid@ == device_uuid
    &&& cp.original_camera == meta.camera
    &&& opt_view(cp.original_format) == match extension(dng) {
        Some(e) => Some(uppercase(e)),
        None => None,
    }
    &&& cp.capture_date == meta.capture_date
    &&& cp.width == meta.width
    &&& cp.height == meta.height
    &&& cp.file_size_bytes == size
    &&& cp.iso == meta.iso
    &&& cp.aperture == meta.aperture
    &&& cp.shutter_speed == meta.shutter_speed
    &&& cp.exposure_compensation == meta.exposure_compensation
    &&& cp.focal_length == meta.focal_length
    &&& cp.lens_model == meta.lens_model
    &&& cp.rotation == meta.rotation
}

/// The files (with their sizes) that get an insert record: those with a
/// file name, in order.
pub open spec fn kept_files(dngs: Seq<String>, sizes: Seq<Option<i64>>) -> Seq<(Seq<char>, Option<i64>)>
    decreases dngs.len(),
{
    if dngs.len() == 0 {
        Seq::<(Seq<char>, Option<i64>)>::empty()
    } else {
        let rest = kept_files(dngs.drop_last(), sizes.take(dngs.len() - 1));
        if file_name(dngs.last()@) is Some {
            rest.push((dngs.last()@, sizes[dngs.len() - 1]))
        } else {
            rest
        }
    }
}

/// Builds the insert records from the moved files and their EXIF metadata:
/// paths relative to the mount point, format from the extension in upper
/// case, size from `file_sizes` (aligned with `dng_files`); files without a
/// name are skipped.
pub fn build_photo_inserts(
    dng_files: &[String],
    exif_map: &[(String, FileMetadata)],
    file_sizes: &[Option<i64>],
    dest_folder: &str,
    mount_point: &str,
    project_id: &str,
    device_uuid: &str,
) -> (r: Vec<(String, CreatePhoto)>)
    requires
        file_sizes@.len() == dng_files@.len(),
    ensures
        r@.len() == kept_files(dng_files@, file_sizes@).len(),
        forall|k: int|
            0 <= k < r@.len() ==> {
                let (d, s) = #[trigger] kept_files(dng_files@, file_sizes@)[k];
                &&& r@[k].0@ == d
                &&& insert_matches(
                    r@[k].1,
                    d,
                    s,
                    meta_for(exif_map@, d),
                    dest_folder@,
                    mount_point@,
                    project_id@,
                    device_uuid@,
                )
            },
{
    let rel_base = match strip_prefix_of(dest_folder, mount_point) {
        Some(r) => r,
        None => string_of(&chars_of(dest_folder)),
    };
    let mut inserts: Vec<(String, CreatePhoto)> = Vec::new();
    let mut i: usize = 0;
    while i < dng_files.len()
        invariant
            i <= dng_files.len() == file_sizes@.len(),
            rel_base@ == relative_dir(dest_folder@, mount_point@),
            inserts@.len() == kept_files(dng_files@.take(i as int), file_sizes@.take(i as int)).len(),
            forall|k: int|
                0 <= k < inserts@.len() ==> {
                    let (d, s) = #[trigger] kept_files(
                        dng_files@.take(i as int),
                        file_sizes@.take(i as int),
                    )[k];
                    &&& inserts@[k].0@ == d
                    &&& insert_matches(
                        inserts@[k].1,
                        d,
                        s,
                        meta_for(exif_map@, d),
                        dest_folder@,
                        mount_point@,
                        project_id@,
                        device_uuid@,
                    )
                },
        decreases dng_files.len() - i,
    {
        let ghost prev = kept_files(dng_files@.take(i as int), file_sizes@.take(i as int));
        proof {
            assert(dng_files@.take(i + 1).drop_last() == dng_files@.take(i as int));
            assert(file_sizes@.take(i + 1).take(i as int) == file_sizes@.take(i as int));
            assert(dng_files@.take(i + 1).last() == dng_files@[i as int]);
        }
        let dng = &dng_files[i];
        match file_name_of(dng.as_str()) {
            None => {},
            Some(name) => {
                let size = file_sizes[i];
                let meta = find_meta(exif_map, dng.as_str());
                let rel = join(rel_base.as_str(), name.as_str());
                let format = match extension_of(dng.as_str()) {
                    Some(e) => Some(to_uppercase(e.as_str())),
                    None => None,
                };
                let cp = CreatePhoto {
                    project_id: string_of(&chars_of(project_id)),
                    dng_path: rel,
                    device_uuid: string_of(&chars_of(device_uuid)),
                    original_camera: meta.camera,
                    original_format: format,
                    capture_date: meta.capture_date,
                    width: meta.width,
                    height: meta.height,
                    file_size_bytes: size,
                    iso: meta.iso,
                    aperture: meta.aperture,
                    shutter_speed: meta.shutter_speed,
                    exposure_compensation: meta.exposure_compensation,
                    focal_length: meta.focal_length,
                    lens_model: meta.lens_model,
                    rotation: meta.rotation,
                };
                inserts.push((dng.clone(), cp));
                proof {
                    assert(file_sizes@.take(i + 1)[i as int] == file_sizes@[i as int]);
                    assert(kept_files(dng_files@.take(i + 1), file_sizes@.take(i + 1)) == prev.push(
                        (dng@, file_sizes@[i as int]),
                    ));
                }
            },
        }
        i = i + 1;
    }
    assert(dng_files@.take(dng_files.len() as int) == dng_files@);
    assert(file_sizes@.take(dng_files.len() as int) == file_sizes@);
    inserts
}

/// `Database error: {e}`.
pub open spec fn msg_database_error(e: Seq<char>) -> Seq<char> {
    "Database error: "@ + e
}

/// Name shown for a failed file: its file name, or `unknown`.
pub open spec fn failed_name(p: Seq<char>) -> Seq<char> {
    match file_name(p) {
        Some(f) => f,
        None => "unknown"@,
    }
}

/// Every insert marked as failed with the database error `e`.
pub fn failed_files_for(inserts: &Vec<(String, CreatePhoto)>, e: &str) -> (r: Vec<FailedFile>)
    ensures
        r@.len() == inserts@.len(),
        forall|k: int|
            0 <= k < r@.len() ==> {
                &&& (#[trigger] r@[k]).name@ == failed_name(inserts@[k].0@)
                &&& r@[k].path@ == inserts@[k].0@
                &&& r@[k].error@ == msg_database_error(e@)
            },
{
    let mut r: Vec<FailedFile> = Vec::new();
    let mut i: usize = 0;
    while i < inserts.len()
        invariant
            i <= inserts.len(),
            r@.len() == i,
            forall|k: int|
                0 <= k < i ==> {
                    &&& (#[trigger] r@[k]).name@ == failed_name(inserts@[k].0@)
                    &&& r@[k].path@ == inserts@[k].0@
                    &&& r@[k].error@ == msg_database_error(e@)
                },
        decreases inserts.len() - i,
    {
        let p = &inserts[i].0;
        let name = match file_name_of(p.as_str()) {
            Some(f) => f,
            None => string_of(&chars_of("unknown")),
        };
        let mut err = chars_of("Database error: ");
        push_str(&mut err, e);
        r.push(FailedFile { name, path: p.clone(), error: string_of(&err) });
        i = i + 1;
    }
    r
}

/// `Miniatura: {name} (rot {rotation}°)`, `name` being the file name of the
/// source or else the photo id.
pub open spec fn msg_thumbnail(path: Seq<char>, id: Seq<char>, rotation: int) -> Seq<char> {
    "Miniatura: "@ + (match file_name(path) {
        Some(f) => f,
        None => id,
    }) + " (rot "@ + int_decimal(rotation) + "°)"@
}

/// The log line of a thumbnail just made.
pub fn thumbnail_message(path: &str, id: &str, rotation: i32) -> (s: String)
    ensures
        s@ == msg_thumbnail(path@, id@, rotation as int),
{
    let mut v = chars_of("Miniatura: ");
    match file_name_of(path) {
        Some(f) => push_str(&mut v, f.as_str()),
        None => push_str(&mut v, id),
    }
    push_str(&mut v, " (rot ");
    let d = int_decimal_of(rotation as i64);
    push_chars(&mut v, &d);
    push_str(&mut v, "°)");
    string_of(&v)
}

/// The outcome of an import once the batch insert answered: with `n`
/// photos created, `n` successes and no failure; with the database error
/// `e`, no success and every insert failed with `e`.
pub fn batch_outcome(batch: Result<usize, String>, inserts: &Vec<(String, CreatePhoto)>, videos_copied: usize) -> (o:
    ImportOutcome)
    ensures
        o.videos_copied == videos_copied,
        batch matches Ok(n) ==> o.successful == n && o.failed_files@.len() == 0,
        batch matches Err(e) ==> {
            &&& o.successful == 0
            &&& o.failed_files@.len() == inserts@.len()
            &&& forall|k: int|
                0 <= k < o.failed_files@.len() ==> {
                    &&& (#[trigger] o.failed_files@[k]).name@ == failed_name(inserts@[k].0@)
                    &&& o.failed_files@[k].path@ == inserts@[k].0@
                    &&& o.failed_files@[k].error@ == msg_database_error(e@)
                }
        },
{
    match batch {
        Ok(n) => ImportOutcome { successful: n, failed_files: Vec::new(), videos_copied },
        Err(e) => ImportOutcome { successful: 0, failed_files: failed_files_for(inserts, e.as_str()), videos_copied },
    }
}

/// `{n}{text}`.
fn count_message(n: usize, text: &str) -> (s: String)
    ensures
        s@ == decimal(n as nat) + text@,
{
    let mut v = decimal_of(n as u64);
    push_str(&mut v, text);
    string_of(&v)
}

/// Whether `calls` are one thumbnail request per pair of `pairs`, in order:
/// the pair's source and photo id.
pub open spec fn thumbnails_asked(calls: Seq<PortCall>, pairs: Seq<(Seq<char>, Seq<char>)>) -> bool {
    &&& calls.len() == pairs.len()
    &&& forall|k: int|
        0 <= k < pairs.len() ==> ((#[trigger] calls[k]) matches PortCall::CacheThumbnail(x, id, _) && x
            == pairs[k].0 && id == pairs[k].1)
}

/// The (source, id) characters of each pair.
pub open spec fn pair_chars(pairs: Seq<(String, String)>) -> Seq<(Seq<char>, Seq<char>)> {
    pairs.map_values(|q: (String, String)| (q.0@, q.1@))
}

/// Makes the thumbnail of each (source, photo id) pair, recording each
/// request in `log`; logs each one made when a reporter and session are
/// given.
pub(crate) fn cache_thumbnails_logged(
    image_processor: &dyn ImageProcessor,
    pairs: &[(String, String)],
    log_ctx: Option<(&dyn ProgressReporter, &str)>,
    log: &mut Ghost<Seq<PortCall>>,
)
    ensures
        final(log)@.len() >= old(log)@.len(),
        final(log)@.take(old(log)@.len() as int) == old(log)@,
        thumbnails_asked(final(log)@.skip(old(log)@.len() as int), pair_chars(pairs@)),
{
    let ghost base = log@;
    let mut i: usize = 0;
    while i < pairs.len()
        invariant
            i <= pairs.len(),
            log@.len() == base.len() + i,
            log@.take(base.len() as int) == base,
            forall|k: int|
                0 <= k < i ==> ((#[trigger] log@.skip(base.len() as int)[k]) matches PortCall::CacheThumbnail(x, id, _)
                    && x == pairs@[k].0@ && id == pairs@[k].1@),
        decreases pairs.len() - i,
    {
        let path = &pairs[i].0;
        let id = &pairs[i].1;
        let ghost before = log@;
        let made = log_cache_thumbnail(image_processor, path.as_str(), id.as_str(), log);
        proof {
            assert(log@.take(base.len() as int) =~= base);
            assert forall|k: int| 0 <= k < i + 1 implies ((#[trigger] log@.skip(base.len() as int)[k]) matches PortCall::CacheThumbnail(x, id2, _)
                && x == pairs@[k].0@ && id2 == pairs@[k].1@) by {
                if k < i {
                    assert(log@.skip(base.len() as int)[k] == before.skip(base.len() as int)[k]);
                } else {
                    assert(log@.skip(base.len() as int)[k] == log@.last());
                }
            }
        }
        match made {
            Some(rotation) => match log_ctx {
                Some((reporter, session_id)) => {
                    let m = thumbnail_message(path.as_str(), id.as_str(), rotation);
                    reporter.log(session_id, m.as_str());
                },
                None => {},
            },
            None => {},
        }
        i = i + 1;
    }
    proof {
        let t = log@.skip(base.len() as int);
        assert forall|k: int| 0 <= k < pairs@.len() implies ((#[trigger] t[k]) matches PortCall::CacheThumbnail(x, id, _)
            && x == pair_chars(pairs@)[k].0 && id == pair_chars(pairs@)[k].1) by {
        }
    }
}


/// (source, photo id) of each inserted photo, pairing inserts and created
/// photos in order.
pub fn thumbnail_pairs(inserts: &Vec<(String, CreatePhoto)>, photos: &Vec<Photo>) -> (r: Vec<(String, String)>)
    ensures
        r@.len() == if inserts@.len() < photos@.len() {
            inserts@.len()
        } else {
            photos@.len()
        },
        forall|k: int|
            0 <= k < r@.len() ==> (#[trigger] r@[k]).0@ == inserts@[k].0@ && r@[k].1@
                == photos@[k].id@,
{
    let mut r: Vec<(String, String)> = Vec::new();
    let mut i: usize = 0;
    while i < inserts.len() && i < photos.len()
        invariant
            i <= inserts.len(),
            i <= photos.len(),
            r@.len() == i,
            forall|k: int|
                0 <= k < i ==> (#[trigger] r@[k]).0@ == inserts@[k].0@ && r@[k].1@
                    == photos@[k].id@,
        decreases inserts.len() - i,
    {
        r.push((inserts[i].0.clone(), photos[i].id.clone()));
        i = i + 1;
    }
    r
}

/// The characters of an optional string.
pub open spec fn opt_string_view(o: Option<String>) -> Option<Seq<char>> {
    match o {
        Some(s) => Some(s@),
        None => None,
    }
}

/// The sizes answered by `calls` (file-size requests).
pub open spec fn size_replies(calls: Seq<PortCall>) -> Seq<Option<i64>> {
    calls.map_values(|c: PortCall| match c {
        PortCall::FileSize(_, sz) => sz,
        _ => None,
    })
}

/// Whether `calls` ask the size of each file of `dngs`, in order.
pub open spec fn sizes_asked(calls: Seq<PortCall>, dngs: Seq<String>) -> bool {
    &&& calls.len() == dngs.len()
    &&& forall|k: int|
        0 <= k < dngs.len() ==> ((#[trigger] calls[k]) matches PortCall::FileSize(x, _) && x == dngs[k]@)
}

/// Whether `dtos` are the rows of the `kept` files, with the metadata of
/// `exif`, for the import `p`.
pub open spec fn batch_matches(
    dtos: Seq<CreatePhoto>,
    kept: Seq<(Seq<char>, Option<i64>)>,
    exif: Seq<(String, FileMetadata)>,
    p: ImportParams,
) -> bool {
    &&& dtos.len() == kept.len()
    &&& forall|k: int|
        0 <= k < kept.len() ==> insert_matches(
            #[trigger] dtos[k],
            kept[k].0,
            kept[k].1,
            meta_for(exif, kept[k].0),
            p.dest_folder@,
            p.mount_point@,
            p.project_id@,
            p.device_uuid@,
        )
}

/// Whether `o` reports every `kept` file as failed with database error `e`.
pub open spec fn all_failed(o: ImportOutcome, kept: Seq<(Seq<char>, Option<i64>)>, e: Seq<char>) -> bool {
    &&& o.failed_files@.len() == kept.len()
    &&& forall|k: int|
        0 <= k < kept.len() ==> {
            &&& (#[trigger] o.failed_files@[k]).name@ == failed_name(kept[k].0)
            &&& o.failed_files@[k].path@ == kept[k].0
            &&& o.failed_files@[k].error@ == msg_database_error(e)
        }
}

/// The (source, id) pairs whose thumbnails are made: each kept file with
/// the photo created for it, as far as both go.
pub open spec fn created_pairs(kept: Seq<(Seq<char>, Option<i64>)>, photos: Seq<Photo>) -> Seq<(Seq<char>, Seq<char>)> {
    let m = if kept.len() < photos.len() {
        kept.len()
    } else {
        photos.len()
    };
    Seq::new(m, |k: int| (kept[k].0, photos[k].id@))
}

/// The photo part of an import, after `vc` videos were copied: the port
/// calls `t` (each with its answer) and the result `r`. Without photos no
/// port is called. Otherwise the pipeline is asked to process exactly the
/// import's photos, project name, photographer metadata, description,
/// rename setting, destination folder and session (its error is returned);
/// the metadata of the files
/// it produced is read in one batch, then the size of each file; the rows
/// of the files that have a name are inserted in one batch. When the batch
/// fails, every one of those files is reported as failed with the database
/// error; when it succeeds, a thumbnail is requested for each created
/// photo, and the number created is the number of successes.
pub open spec fn import_photos_run(p: ImportParams, vc: usize, t: Seq<PortCall>, r: Result<ImportOutcome, String>) -> bool {
    if p.photo_paths@.len() == 0 {
        t.len() == 0 && (r matches Ok(o) && o.successful == 0 && o.failed_files@.len() == 0 && o.videos_copied == vc)
    } else {
        t.len() >= 1 && match t[0] {
            PortCall::ProcessPhotos(q, pr) => q == (PipelineRequest {
                photos: str_views(p.photo_paths@),
                project_name: p.project_name@,
                metadata: p.metadata,
                description: opt_string_view(p.image_description),
                rename: p.rename_on_import,
                dest: p.dest_folder@,
                session: p.session_id@,
            }) && match pr {
                Err(e) => t.len() == 1 && r == Err::<ImportOutcome, String>(e),
                Ok(dng) => {
                    let n = dng@.len() as int;
                    &&& t.len() >= n + 3
                    &&& (t[1] matches PortCall::ExtractBatch(xs, exif) && xs == str_views(dng@) && {
                        let kept = kept_files(dng@, size_replies(t.subrange(2, n + 2)));
                        &&& sizes_asked(t.subrange(2, n + 2), dng@)
                        &&& (t[n + 2] matches PortCall::CreateBatch(dtos, b) && batch_matches(dtos, kept, exif@, p)
                            && match b {
                            Err(e) => t.len() == n + 3 && (r matches Ok(o) && o.successful == 0 && o.videos_copied == vc
                                && all_failed(o, kept, e@)),
                            Ok(ps) => thumbnails_asked(t.skip(n + 3), created_pairs(kept, ps@)) && (r matches Ok(o)
                                && o.successful == ps@.len() && o.failed_files@.len() == 0 && o.videos_copied == vc),
                        })
                    })
                },
            },
            _ => false,
        }
    }
}

/// What an import `p` does: the port calls `t` (each with its answer) and
/// the result `r`. With videos, they are copied first to the video folder
/// (its error is returned); without, no copy is asked. Then
/// `import_photos_run` with the number copied. Progress and log lines are
/// not among the calls.
pub open spec fn import_run(p: ImportParams, t: Seq<PortCall>, r: Result<ImportOutcome, String>) -> bool {
    if p.video_paths@.len() == 0 {
        import_photos_run(p, 0, t, r)
    } else {
        t.len() >= 1 && match t[0] {
            PortCall::CopyVideos(v, d, c) => v == str_views(p.video_paths@) && d == p.video_dest_folder@ && match c {
                Err(e) => t.len() == 1 && r == Err::<ImportOutcome, String>(e),
                Ok(n) => import_photos_run(p, n, t.skip(1), r),
            },
            _ => false,
        }
    }
}

/// Imports photos and videos.
pub struct ImportPhotos<'a> {
    pub photos: &'a dyn PhotoRepository,
    pub metadata: &'a dyn MetadataTool,
    pub images: &'a dyn ImageProcessor,
    pub pipeline: &'a dyn ImportPipeline,
    pub reporter: &'a dyn ProgressReporter,
    log: Ghost<Seq<PortCall>>,
}

impl<'a> ImportPhotos<'a> {
    /// An import use case over these ports, with nothing called yet.
    pub fn new(
        photos: &'a dyn PhotoRepository,
        metadata: &'a dyn MetadataTool,
        images: &'a dyn ImageProcessor,
        pipeline: &'a dyn ImportPipeline,
        reporter: &'a dyn ProgressReporter,
    ) -> (r: Self)
        ensures
            r.calls().len() == 0,
    {
        ImportPhotos { photos, metadata, images, pipeline, reporter, log: Ghost(Seq::empty()) }
    }

    /// The port calls made so far, in order, with their answers.
    pub closed spec fn calls(&self) -> Seq<PortCall> {
        self.log@
    }

    /// Copies the videos to `_video/`, runs the photo pipeline, registers
    /// the moved photos in one batch with their EXIF data and makes their
    /// thumbnails. Without photos the pipeline is skipped; without videos
    /// nothing is copied; when the batch fails every photo is reported as
    /// failed with the database error.
    pub fn execute(&mut self, p: &ImportParams) -> (r: Result<ImportOutcome, String>)
        ensures
            final(self).calls().len() >= old(self).calls().len(),
            final(self).calls().take(old(self).calls().len() as int) == old(self).calls(),
            import_run(*p, final(self).calls().skip(old(self).calls().len() as int), r),
            r matches Ok(o) ==> (o.successful == 0 || o.failed_files@.len() == 0),
    {
        let ghost start = self.log@;
        let videos_copied = if p.video_paths.len() == 0 {
            0
        } else {
            match log_copy_videos(self.pipeline, p.video_paths.as_slice(), p.video_dest_folder.as_str(), &mut self.log) {
                Ok(n) => n,
                Err(e) => {
                    assert(self.log@.skip(start.len() as int) =~= seq![self.log@.last()]);
                    return Err(e);
                },
            }
        };
        let ghost s1 = self.log@;
        assert(s1.len() == start.len() + if p.video_paths@.len() == 0 { 0int } else { 1int });
        assert(s1.take(start.len() as int) =~= start);
        let r = self.photos_part(p, videos_copied);
        proof {
            let t = self.log@.skip(start.len() as int);
            assert(self.log@.take(start.len() as int) =~= self.log@.take(s1.len() as int).take(start.len() as int));
            if p.video_paths@.len() == 0 {
                assert(t =~= self.log@.skip(s1.len() as int));
            } else {
                assert(t[0] == s1.last());
                assert(t.skip(1) =~= self.log@.skip(s1.len() as int));
            }
        }
        r
    }

    /// The photo part of `execute`, after `videos_copied` videos.
    fn photos_part(&mut self, p: &ImportParams, videos_copied: usize) -> (r: Result<ImportOutcome, String>)
        ensures
            final(self).log@.len() >= old(self).log@.len(),
            final(self).log@.take(old(self).log@.len() as int) == old(self).log@,
            import_photos_run(*p, videos_copied, final(self).log@.skip(old(self).log@.len() as int), r),
            r matches Ok(o) ==> (o.successful == 0 || o.failed_files@.len() == 0),
    {
        let ghost start = self.log@;
        if p.photo_paths.len() == 0 {
            assert(self.log@.skip(start.len() as int) =~= Seq::<PortCall>::empty());
            assert(self.log@.take(start.len() as int) =~= start);
            return Ok(ImportOutcome { successful: 0, failed_files: Vec::new(), videos_copied });
        }
        let description: Option<&str> = match &p.image_description {
            Some(d) => Some(d.as_str()),
            None => None,
        };
        let req = PipelinePhotos {
            photos: p.photo_paths.as_slice(),
            project_name: p.project_name.as_str(),
            metadata: &p.metadata,
            image_description: description,
            rename: p.rename_on_import,
            dest_folder: p.dest_folder.as_str(),
            session_id: p.session_id.as_str(),
        };
        let dng_files = match log_process_photos(self.pipeline, req, self.reporter, &mut self.log) {
            Ok(v) => v,
            Err(e) => {
                assert(self.log@.skip(start.len() as int) =~= seq![self.log@.last()]);
                assert(self.log@.take(start.len() as int) =~= start);
                return Err(e);
            },
        };
        let ghost c0 = self.log@.last();
        self.reporter.progress(
            ImportProgress {
                session_id: p.session_id.clone(),
                current_index: 2,
                total_files: 3,
                current_file: string_of(&chars_of("Registrando")),
                phase: ImportPhase::Saving,
                error: None,
            },
        );
        let exif_map = log_extract_batch(self.metadata, dng_files.as_slice(), &mut self.log);
        let ghost c1 = self.log@.last();
        let ghost s2 = self.log@;
        assert(s2.skip(start.len() as int) =~= seq![c0, c1]);
        assert(s2.take(start.len() as int) =~= start);
        let mut sizes: Vec<Option<i64>> = Vec::new();
        let mut i: usize = 0;
        while i < dng_files.len()
            invariant
                i <= dng_files.len(),
                sizes@.len() == i,
                self.log@.len() == s2.len() + i,
                self.log@.take(s2.len() as int) == s2,
                sizes@ == size_replies(self.log@.skip(s2.len() as int)),
                forall|k: int|
                    0 <= k < i ==> ((#[trigger] self.log@.skip(s2.len() as int)[k]) matches PortCall::FileSize(x, _)
                        && x == dng_files@[k]@),
            decreases dng_files.len() - i,
        {
            let ghost before = self.log@;
            let sz = log_file_size(self.pipeline, dng_files[i].as_str(), &mut self.log);
            sizes.push(sz);
            proof {
                assert(self.log@.take(s2.len() as int) =~= s2);
                assert(self.log@.skip(s2.len() as int) =~= before.skip(s2.len() as int).push(self.log@.last()));
                assert(sizes@ =~= size_replies(self.log@.skip(s2.len() as int)));
            }
            i = i + 1;
        }
        let ghost s3 = self.log@;
        assert(s3.take(start.len() as int) =~= s3.take(s2.len() as int).take(start.len() as int));
        let ghost szc = s3.skip(s2.len() as int);
        let inserts = build_photo_inserts(
            dng_files.as_slice(),
            exif_map.as_slice(),
            sizes.as_slice(),
            p.dest_folder.as_str(),
            p.mount_point.as_str(),
            p.project_id.as_str(),
            p.device_uuid.as_str(),
        );
        let ghost kept = kept_files(dng_files@, sizes@);
        let mut dtos: Vec<CreatePhoto> = Vec::new();
        let mut j: usize = 0;
        while j < inserts.len()
            invariant
                j <= inserts.len(),
                dtos@.len() == j,
                forall|k: int| 0 <= k < j ==> dtos@[k] == inserts@[k].1,
            decreases inserts.len() - j,
        {
            dtos.push(copy_create_photo(&inserts[j].1));
            j = j + 1;
        }
        proof {
            assert(sizes@ == size_replies(szc));
            assert forall|k: int| 0 <= k < dng_files@.len() implies ((#[trigger] szc[k]) matches PortCall::FileSize(x, _)
                && x == dng_files@[k]@) by {
                assert(szc[k] == s3.skip(s2.len() as int)[k]);
            }
            assert(batch_matches(dtos@, kept, exif_map@, *p));
        }
        let batch = log_create_batch(self.photos, dtos.as_slice(), &mut self.log);
        let ghost c2 = self.log@.last();
        let ghost s4 = self.log@;
        assert(s4.take(start.len() as int) =~= s3.take(start.len() as int));
        let n = dng_files.len();
        proof {
            let t = s4.skip(start.len() as int);
            assert(t.len() == n + 3);
            assert(t[0] == c0);
            assert(t[1] == c1);
            assert(t.subrange(2, n + 2) =~= szc);
            assert(t[n + 2] == c2);
        }
        match batch {
            Ok(photos) => {
                let m1 = count_message(photos.len(), " fotos registradas en BD");
                self.reporter.log(p.session_id.as_str(), m1.as_str());
                let pairs = thumbnail_pairs(&inserts, &photos);
                let mut m2 = chars_of("Generando ");
                let nn = decimal_of(pairs.len() as u64);
                push_chars(&mut m2, &nn);
                push_str(&mut m2, " miniaturas...");
                let m2s = string_of(&m2);
                self.reporter.log(p.session_id.as_str(), m2s.as_str());
                cache_thumbnails_logged(
                    self.images,
                    pairs.as_slice(),
                    Some((self.reporter, p.session_id.as_str())),
                    &mut self.log,
                );
                proof {
                    let t = self.log@.skip(start.len() as int);
                    assert(self.log@.take(s4.len() as int) == s4);
                    assert(t.take(n + 3) =~= s4.skip(start.len() as int));
                    assert(t.skip(n + 3) =~= self.log@.skip(s4.len() as int));
                    assert(t[0] == c0);
                    assert(t[1] == c1);
                    assert(t[n + 2] == c2);
                    assert(t.subrange(2, n + 2) =~= szc);
                    assert(sizes_asked(t.subrange(2, n + 2), dng_files@));
                    assert(kept == kept_files(dng_files@, size_replies(t.subrange(2, n + 2))));
                    assert(pair_chars(pairs@) =~= created_pairs(kept, photos@));
                    assert(self.log@.take(start.len() as int) =~= s4.take(start.len() as int));
                }
                Ok(batch_outcome(Ok(photos.len()), &inserts, videos_copied))
            },
            Err(e) => {
                proof {
                    assert(self.log@.take(start.len() as int) =~= start);
                    let t = self.log@.skip(start.len() as int);
                    assert(t.subrange(2, n + 2) =~= szc);
                    assert(sizes_asked(t.subrange(2, n + 2), dng_files@));
                    assert(kept == kept_files(dng_files@, size_replies(t.subrange(2, n + 2))));
                }
                Ok(batch_outcome(Err(e), &inserts, videos_copied))
            },
        }
    }
}

} // verus!
