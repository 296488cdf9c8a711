//! Ports of the application: the traits the use cases call and the
//! infrastructure (or a test double) implements. They carry no contract: a
//! use case states what holds whatever an implementation returns.
use vstd::prelude::*;
use crate::devices::DetectedDevice;
use crate::import::progress::ImportProgress;
use crate::models::{CreatePhoto, Photo, PhotographerMetadata};

verus! {

/// Detection and ejection of removable storage devices.
pub trait DeviceScanner {
    /// The devices mounted now.
    fn scan(&self) -> Vec<DetectedDevice>;

    /// Unmounts / ejects the volume at `mount_point`.
    fn eject(&self, device_uuid: &str, mount_point: &str) -> Result<(), String>;
}

/// Access to the photos of a project.
pub trait PhotoRepository {
    /// The photo with this id, if any.
    fn get(&self, id: &str) -> Result<Option<Photo>, String>;

    /// Stores the rotation of a photo.
    fn update_rotation(&self, id: &str, rotation: i32) -> Result<(), String>;

    /// Stores rating, color label and tags of a photo.
    fn update_rating(
        &self,
        id: &str,
        stars: i32,
        color_label: Option<&str>,
        tags: Option<&str>,
    ) -> Result<(), String>;

    /// Stores the culled flag and the new relative path of a photo.
    fn update_culled(&self, id: &str, culled: bool, new_dng_path: &str) -> Result<(), String>;

    /// Inserts all photos in one transaction; returns them in input order.
    fn create_batch(&self, photos: &[CreatePhoto]) -> Result<Vec<Photo>, String>;
}

/// File-system operations of the use cases (errors as their messages).
pub trait FileStore {
    fn create_dir_all(&self, dir: &str) -> Result<(), String>;

    fn rename(&self, from: &str, to: &str) -> Result<(), String>;

    /// Whether `path` exists.
    fn path_exists(&self, path: &str) -> bool;

    /// The bytes of the file at `path`.
    fn read(&self, path: &str) -> Result<Vec<u8>, String>;
}

/// Finder tags kept in AppleDouble sidecars (no-op where they do not apply).
pub trait FinderTagWriter {
    /// Writes the sidecar of `target` for `color_label`, or removes it when
    /// no color is left.
    fn sync_color(&self, target: &str, color_label: Option<&str>) -> Result<(), String>;

    /// Moves the sidecar of `from` along with the file to `to`.
    fn move_sidecar(&self, from: &str, to: &str) -> Result<(), String>;

    /// Whether the volume has a Spotlight index.
    fn spotlight_index_present(&self, volume_root: &str) -> bool;

    /// Removes the Spotlight index of the volume so it gets rebuilt.
    fn invalidate_spotlight_index(&self, volume_root: &str) -> Result<(), String>;
}

/// Thumbnails and previews.
pub trait ImageProcessor {
    /// Writes the thumbnail of `src`; the rotation applied when one was
    /// written now, `None` when it existed already or could not be made.
    fn cache_thumbnail(&self, src: &str, photo_id: &str) -> Option<i32>;

    /// Re-applies a clockwise rotation `delta` to the cached thumbnail.
    fn rotate_thumbnail(&self, project_dir: &str, photo_id: &str, delta: i32);

    /// The cached full-size preview of `src`, made if missing.
    fn ensure_preview(&self, src: &str, project_dir: &str, photo_id: &str) -> Option<String>;

    /// JPEG bytes of a JPEG source with its orientation neutralized.
    fn jpeg_preview_bytes(&self, src: &str) -> Result<Vec<u8>, String>;
}

/// EXIF metadata read from a photo file. `exposure_compensation` keeps the
/// value as its decimal text.
#[derive(Debug, Clone)]
pub struct FileMetadata {
    pub width: Option<i32>,
    pub height: Option<i32>,
    pub capture_date: Option<String>,
    pub camera: Option<String>,
    pub iso: Option<i32>,
    pub aperture: Option<String>,
    pub shutter_speed: Option<String>,
    pub exposure_compensation: Option<String>,
    pub focal_length: Option<String>,
    pub lens_model: Option<String>,
    pub rotation: i32,
}

impl Default for FileMetadata {
    fn default() -> (m: Self)
        ensures
            m.width is None,
            m.height is None,
            m.capture_date is None,
            m.camera is None,
            m.iso is None,
            m.aperture is None,
            m.shutter_speed is None,
            m.exposure_compensation is None,
            m.focal_length is None,
            m.lens_model is None,
            m.rotation == 0,
    {
        FileMetadata {
            width: None,
            height: None,
            capture_date: None,
            camera: None,
            iso: None,
            aperture: None,
            shutter_speed: None,
            exposure_compensation: None,
            focal_length: None,
            lens_model: None,
            rotation: 0,
        }
    }
}

/// Reading and writing EXIF/XMP metadata.
pub trait MetadataTool {
    /// Rotation stored in the file's EXIF orientation (0 when unreadable).
    fn read_rotation(&self, file: &str) -> i32;

    /// Metadata of many files at once, keyed by path.
    fn extract_batch(&self, paths: &[String]) -> Vec<(String, FileMetadata)>;

    /// Writes the rotation into the file (or its sidecar).
    fn set_orientation(&self, file: &str, rotation: i32) -> Result<(), String>;

    /// Neutralizes the EXIF orientation of a cached preview.
    fn strip_orientation(&self, file: &str);
}

/// Photos handed to the pipeline.
pub struct PipelinePhotos<'a> {
    pub photos: &'a [String],
    pub project_name: &'a str,
    pub metadata: &'a Option<PhotographerMetadata>,
    pub image_description: Option<&'a str>,
    pub rename: bool,
    pub dest_folder: &'a str,
    pub session_id: &'a str,
}

/// Progress and log events of an import.
pub trait ProgressReporter {
    fn log(&self, session_id: &str, message: &str);

    fn progress(&self, progress: ImportProgress);
}

/// The copy / metadata / move phases of the import.
pub trait ImportPipeline {
    /// Copies, renames and moves the photos; the paths they end at.
    fn process_photos(
        &self,
        req: PipelinePhotos,
        reporter: &dyn ProgressReporter,
    ) -> Result<Vec<String>, String>;

    /// Copies the videos to `dest`; how many were copied.
    fn copy_videos(&self, videos: &[String], dest: &str) -> Result<usize, String>;

    /// Size in bytes of a file, `None` when it cannot be read.
    fn file_size(&self, path: &str) -> Option<i64>;
}

/// A call a use case made to one of its ports, with the answer it got.
/// Paths and ids are kept as their characters. The use cases record these
/// calls in a ghost log as they make them, so that their contracts can say
/// which calls are made, with what, in what order, and what follows from
/// each answer. Calls to the progress reporter are not recorded.
pub enum PortCall {
    Get(Seq<char>, Result<Option<Photo>, String>),
    UpdateRotation(Seq<char>, i32, Result<(), String>),
    UpdateRating(Seq<char>, i32, Option<Seq<char>>, Option<Seq<char>>, Result<(), String>),
    UpdateCulled(Seq<char>, bool, Seq<char>, Result<(), String>),
    CreateBatch(Seq<CreatePhoto>, Result<Vec<Photo>, String>),
    CreateDir(Seq<char>, Result<(), String>),
    Rename(Seq<char>, Seq<char>, Result<(), String>),
    PathExists(Seq<char>, bool),
    Read(Seq<char>, Result<Vec<u8>, String>),
    SyncColor(Seq<char>, Option<Seq<char>>, Result<(), String>),
    MoveSidecar(Seq<char>, Seq<char>, Result<(), String>),
    SpotlightPresent(Seq<char>, bool),
    CacheThumbnail(Seq<char>, Seq<char>, Option<i32>),
    RotateThumbnail(Seq<char>, Seq<char>, i32),
    EnsurePreview(Seq<char>, Seq<char>, Seq<char>, Option<String>),
    JpegPreviewBytes(Seq<char>, Result<Vec<u8>, String>),
    ReadRotation(Seq<char>, i32),
    ExtractBatch(Seq<Seq<char>>, Vec<(String, FileMetadata)>),
    StripOrientation(Seq<char>),
    ProcessPhotos(PipelineRequest, Result<Vec<String>, String>),
    CopyVideos(Seq<Seq<char>>, Seq<char>, Result<usize, String>),
    FileSize(Seq<char>, Option<i64>),
}

/// What a pipeline request asks, as characters: the photos, the project
/// name, the photographer metadata, the image description, whether to
/// rename, the destination folder and the session.
pub struct PipelineRequest {
    pub photos: Seq<Seq<char>>,
    pub project_name: Seq<char>,
    pub metadata: Option<PhotographerMetadata>,
    pub description: Option<Seq<char>>,
    pub rename: bool,
    pub dest: Seq<char>,
    pub session: Seq<char>,
}

/// The request `req` as characters.
pub open spec fn request_view(req: PipelinePhotos) -> PipelineRequest {
    PipelineRequest {
        photos: str_views(req.photos@),
        project_name: req.project_name@,
        metadata: *req.metadata,
        description: opt_chars(req.image_description),
        rename: req.rename,
        dest: req.dest_folder@,
        session: req.session_id@,
    }
}

/// The characters of each string of `v`.
pub open spec fn str_views(v: Seq<String>) -> Seq<Seq<char>> {
    v.map_values(|s: String| s@)
}

/// The characters of an optional string.
pub open spec fn opt_chars(o: Option<&str>) -> Option<Seq<char>> {
    match o {
        Some(s) => Some(s@),
        None => None,
    }
}

/// `repo.get(id)`, recorded.
pub(crate) fn log_get(repo: &dyn PhotoRepository, id: &str, log: &mut Ghost<Seq<PortCall>>) -> (r: Result<Option<Photo>, String>)
    ensures
        final(log)@ == old(log)@.push(PortCall::Get(id@, r)),
{
    let r = repo.get(id);
    proof {
        log@ = log@.push(PortCall::Get(id@, r));
    }
    r
}

/// `repo.update_rotation(id, rotation)`, recorded.
pub(crate) fn log_update_rotation(repo: &dyn PhotoRepository, id: &str, rotation: i32, log: &mut Ghost<Seq<PortCall>>) -> (r: Result<(), String>)
    ensures
        final(log)@ == old(log)@.push(PortCall::UpdateRotation(id@, rotation, r)),
{
    let r = repo.update_rotation(id, rotation);
    proof {
        log@ = log@.push(PortCall::UpdateRotation(id@, rotation, r));
    }
    r
}

/// `repo.update_rating(..)`, recorded.
pub(crate) fn log_update_rating(
    repo: &dyn PhotoRepository,
    id: &str,
    stars: i32,
    color_label: Option<&str>,
    tags: Option<&str>,
    log: &mut Ghost<Seq<PortCall>>,
) -> (r: Result<(), String>)
    ensures
        final(log)@ == old(log)@.push(PortCall::UpdateRating(id@, stars, opt_chars(color_label), opt_chars(tags), r)),
{
    let r = repo.update_rating(id, stars, color_label, tags);
    proof {
        log@ = log@.push(PortCall::UpdateRating(id@, stars, opt_chars(color_label), opt_chars(tags), r));
    }
    r
}

/// `repo.update_culled(..)`, recorded.
pub(crate) fn log_update_culled(repo: &dyn PhotoRepository, id: &str, culled: bool, path: &str, log: &mut Ghost<Seq<PortCall>>) -> (r: Result<(), String>)
    ensures
        final(log)@ == old(log)@.push(PortCall::UpdateCulled(id@, culled, path@, r)),
{
    let r = repo.update_culled(id, culled, path);
    proof {
        log@ = log@.push(PortCall::UpdateCulled(id@, culled, path@, r));
    }
    r
}

/// `repo.create_batch(photos)`, recorded.
pub(crate) fn log_create_batch(repo: &dyn PhotoRepository, photos: &[CreatePhoto], log: &mut Ghost<Seq<PortCall>>) -> (r: Result<Vec<Photo>, String>)
    ensures
        final(log)@ == old(log)@.push(PortCall::CreateBatch(photos@, r)),
{
    let r = repo.create_batch(photos);
    proof {
        log@ = log@.push(PortCall::CreateBatch(photos@, r));
    }
    r
}

/// `files.create_dir_all(dir)`, recorded.
pub(crate) fn log_create_dir(files: &dyn FileStore, dir: &str, log: &mut Ghost<Seq<PortCall>>) -> (r: Result<(), String>)
    ensures
        final(log)@ == old(log)@.push(PortCall::CreateDir(dir@, r)),
{
    let r = files.create_dir_all(dir);
    proof {
        log@ = log@.push(PortCall::CreateDir(dir@, r));
    }
    r
}

/// `files.rename(from, to)`, recorded.
pub(crate) fn log_rename(files: &dyn FileStore, from: &str, to: &str, log: &mut Ghost<Seq<PortCall>>) -> (r: Result<(), String>)
    ensures
        final(log)@ == old(log)@.push(PortCall::Rename(from@, to@, r)),
{
    let r = files.rename(from, to);
    proof {
        log@ = log@.push(PortCall::Rename(from@, to@, r));
    }
    r
}

/// `files.path_exists(path)`, recorded.
pub(crate) fn log_path_exists(files: &dyn FileStore, path: &str, log: &mut Ghost<Seq<PortCall>>) -> (r: bool)
    ensures
        final(log)@ == old(log)@.push(PortCall::PathExists(path@, r)),
{
    let r = files.path_exists(path);
    proof {
        log@ = log@.push(PortCall::PathExists(path@, r));
    }
    r
}

/// `files.read(path)`, recorded.
pub(crate) fn log_read(files: &dyn FileStore, path: &str, log: &mut Ghost<Seq<PortCall>>) -> (r: Result<Vec<u8>, String>)
    ensures
        final(log)@ == old(log)@.push(PortCall::Read(path@, r)),
{
    let r = files.read(path);
    proof {
        log@ = log@.push(PortCall::Read(path@, r));
    }
    r
}

/// `tags.sync_color(target, color_label)`, recorded.
pub(crate) fn log_sync_color(tags: &dyn FinderTagWriter, target: &str, color_label: Option<&str>, log: &mut Ghost<Seq<PortCall>>) -> (r: Result<(), String>)
    ensures
        final(log)@ == old(log)@.push(PortCall::SyncColor(target@, opt_chars(color_label), r)),
{
    let r = tags.sync_color(target, color_label);
    proof {
        log@ = log@.push(PortCall::SyncColor(target@, opt_chars(color_label), r));
    }
    r
}

/// `tags.move_sidecar(from, to)`, recorded.
pub(crate) fn log_move_sidecar(tags: &dyn FinderTagWriter, from: &str, to: &str, log: &mut Ghost<Seq<PortCall>>) -> (r: Result<(), String>)
    ensures
        final(log)@ == old(log)@.push(PortCall::MoveSidecar(from@, to@, r)),
{
    let r = tags.move_sidecar(from, to);
    proof {
        log@ = log@.push(PortCall::MoveSidecar(from@, to@, r));
    }
    r
}

/// `tags.spotlight_index_present(root)`, recorded.
pub(crate) fn log_spotlight_present(tags: &dyn FinderTagWriter, root: &str, log: &mut Ghost<Seq<PortCall>>) -> (r: bool)
    ensures
        final(log)@ == old(log)@.push(PortCall::SpotlightPresent(root@, r)),
{
    let r = tags.spotlight_index_present(root);
    proof {
        log@ = log@.push(PortCall::SpotlightPresent(root@, r));
    }
    r
}

/// `images.cache_thumbnail(src, id)`, recorded.
pub(crate) fn log_cache_thumbnail(images: &dyn ImageProcessor, src: &str, id: &str, log: &mut Ghost<Seq<PortCall>>) -> (r: Option<i32>)
    ensures
        final(log)@ == old(log)@.push(PortCall::CacheThumbnail(src@, id@, r)),
{
    let r = images.cache_thumbnail(src, id);
    proof {
        log@ = log@.push(PortCall::CacheThumbnail(src@, id@, r));
    }
    r
}

/// `images.rotate_thumbnail(dir, id, delta)`, recorded.
pub(crate) fn log_rotate_thumbnail(images: &dyn ImageProcessor, dir: &str, id: &str, delta: i32, log: &mut Ghost<Seq<PortCall>>)
    ensures
        final(log)@ == old(log)@.push(PortCall::RotateThumbnail(dir@, id@, delta)),
{
    images.rotate_thumbnail(dir, id, delta);
    proof {
        log@ = log@.push(PortCall::RotateThumbnail(dir@, id@, delta));
    }
}

/// `images.ensure_preview(src, dir, id)`, recorded.
pub(crate) fn log_ensure_preview(images: &dyn ImageProcessor, src: &str, dir: &str, id: &str, log: &mut Ghost<Seq<PortCall>>) -> (r: Option<String>)
    ensures
        final(log)@ == old(log)@.push(PortCall::EnsurePreview(src@, dir@, id@, r)),
{
    let r = images.ensure_preview(src, dir, id);
    proof {
        log@ = log@.push(PortCall::EnsurePreview(src@, dir@, id@, r));
    }
    r
}

/// `images.jpeg_preview_bytes(src)`, recorded.
pub(crate) fn log_jpeg_preview_bytes(images: &dyn ImageProcessor, src: &str, log: &mut Ghost<Seq<PortCall>>) -> (r: Result<Vec<u8>, String>)
    ensures
        final(log)@ == old(log)@.push(PortCall::JpegPreviewBytes(src@, r)),
{
    let r = images.jpeg_preview_bytes(src);
    proof {
        log@ = log@.push(PortCall::JpegPreviewBytes(src@, r));
    }
    r
}

/// `meta.read_rotation(file)`, recorded.
pub(crate) fn log_read_rotation(meta: &dyn MetadataTool, file: &str, log: &mut Ghost<Seq<PortCall>>) -> (r: i32)
    ensures
        final(log)@ == old(log)@.push(PortCall::ReadRotation(file@, r)),
{
    let r = meta.read_rotation(file);
    proof {
        log@ = log@.push(PortCall::ReadRotation(file@, r));
    }
    r
}

/// `meta.extract_batch(paths)`, recorded.
pub(crate) fn log_extract_batch(meta: &dyn MetadataTool, paths: &[String], log: &mut Ghost<Seq<PortCall>>) -> (r: Vec<(String, FileMetadata)>)
    ensures
        final(log)@ == old(log)@.push(PortCall::ExtractBatch(str_views(paths@), r)),
{
    let r = meta.extract_batch(paths);
    proof {
        log@ = log@.push(PortCall::ExtractBatch(str_views(paths@), r));
    }
    r
}

/// `meta.strip_orientation(file)`, recorded.
pub(crate) fn log_strip_orientation(meta: &dyn MetadataTool, file: &str, log: &mut Ghost<Seq<PortCall>>)
    ensures
        final(log)@ == old(log)@.push(PortCall::StripOrientation(file@)),
{
    meta.strip_orientation(file);
    proof {
        log@ = log@.push(PortCall::StripOrientation(file@));
    }
}

/// `pipeline.process_photos(req, reporter)`, recorded with the whole
/// request.
pub(crate) fn log_process_photos(
    pipeline: &dyn ImportPipeline,
    req: PipelinePhotos,
    reporter: &dyn ProgressReporter,
    log: &mut Ghost<Seq<PortCall>>,
) -> (r: Result<Vec<String>, String>)
    ensures
        final(log)@ == old(log)@.push(PortCall::ProcessPhotos(request_view(req), r)),
{
    let ghost asked = request_view(req);
    let r = pipeline.process_photos(req, reporter);
    proof {
        log@ = log@.push(PortCall::ProcessPhotos(asked, r));
    }
    r
}

/// `pipeline.copy_videos(videos, dest)`, recorded.
pub(crate) fn log_copy_videos(pipeline: &dyn ImportPipeline, videos: &[String], dest: &str, log: &mut Ghost<Seq<PortCall>>) -> (r: Result<usize, String>)
    ensures
        final(log)@ == old(log)@.push(PortCall::CopyVideos(str_views(videos@), dest@, r)),
{
    let r = pipeline.copy_videos(videos, dest);
    proof {
        log@ = log@.push(PortCall::CopyVideos(str_views(videos@), dest@, r));
    }
    r
}

/// `pipeline.file_size(path)`, recorded.
pub(crate) fn log_file_size(pipeline: &dyn ImportPipeline, path: &str, log: &mut Ghost<Seq<PortCall>>) -> (r: Option<i64>)
    ensures
        final(log)@ == old(log)@.push(PortCall::FileSize(path@, r)),
{
    let r = pipeline.file_size(path);
    proof {
        log@ = log@.push(PortCall::FileSize(path@, r));
    }
    r
}

} // verus!
