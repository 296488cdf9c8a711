//! Use case: the full-size preview of a photo for the viewer. A JPEG is
//! served as it is; for a RAW file the embedded preview is extracted once
//! into `.previews/`, its EXIF orientation neutralized so the viewer applies
//! the stored rotation itself.
use vstd::prelude::*;
use crate::application::ports::{
    log_ensure_preview, log_get, log_jpeg_preview_bytes, log_read, log_read_rotation, log_strip_orientation, FileStore,
    ImageProcessor, MetadataTool, PhotoRepository, PortCall,
};
use crate::application::use_cases::rotate_photo::{msg_photo_not_found, photo_not_found};
use crate::exif::{is_jpeg, is_jpeg_spec};
use crate::pathstr::join_path;
use crate::imaging::{base64_len_fits, jpeg_data_url, jpeg_data_url_spec, PhotoPreviewResult};
use crate::text::{chars_of, push_str, string_of};

verus! {

/// `Could not extract preview for {id}`.
pub fn no_preview(id: &str) -> (s: String)
    ensures
        s@ == "Could not extract preview for "@ + id@,
{
    let mut v = chars_of("Could not extract preview for ");
    push_str(&mut v, id);
    string_of(&v)
}

/// `Failed to read preview: {e}`.
pub fn preview_unreadable(e: &str) -> (s: String)
    ensures
        s@ == "Failed to read preview: "@ + e@,
{
    let mut v = chars_of("Failed to read preview: ");
    push_str(&mut v, e);
    string_of(&v)
}

/// The largest preview (in bytes) whose `data:` URL is made.
pub open spec fn preview_max_len() -> int {
    usize::MAX / 4 * 3
}

/// The preview as a `data:` URL; `Preview too large` when its base64 text
/// would not fit in memory.
fn preview_url(bytes: &Vec<u8>) -> (r: Result<String, String>)
    ensures
        bytes@.len() <= preview_max_len() ==> (r matches Ok(u) && u@ == jpeg_data_url_spec(bytes@)),
        bytes@.len() > preview_max_len() ==> (r matches Err(e) && e@ == "Preview too large"@),
{
    if bytes.len() > usize::MAX / 4 * 3 {
        return Err(string_of(&chars_of("Preview too large")));
    }
    assert(base64_len_fits(bytes@.len() as int)) by (nonlinear_arith)
        requires
            bytes@.len() <= usize::MAX / 4 * 3,
    ;
    Ok(jpeg_data_url(bytes.as_slice()))
}

/// The preview result for the preview bytes `bytes` and the rotation `rot`
/// read from the photo: the `data:` URL of the bytes with that rotation,
/// or `Preview too large`.
pub open spec fn preview_reply(bytes: Seq<u8>, rot: i32, r: Result<PhotoPreviewResult, String>) -> bool {
    if bytes.len() <= preview_max_len() {
        r matches Ok(p) && p.url@ == jpeg_data_url_spec(bytes) && p.rotation == rot
    } else {
        r matches Err(e) && e@ == "Preview too large"@
    }
}

/// What serving the preview of photo `id` (files under `mount`, previews
/// under `dir`) does: the port calls `t` (each with its answer) and the
/// result `r`. The photo is read first; a failed read or a missing photo
/// ends it. A JPEG file (`full` = mount + its path) is served from the
/// image port's bytes for it; any other file from the preview the image
/// port extracts, whose orientation is neutralized before its bytes are
/// read. Either way the rotation is then read from the photo's own file.
pub open spec fn preview_run(
    id: Seq<char>,
    mount: Seq<char>,
    dir: Seq<char>,
    t: Seq<PortCall>,
    r: Result<PhotoPreviewResult, String>,
) -> bool {
    t.len() >= 1 && match t[0] {
        PortCall::Get(i, g) => i == id && match g {
            Err(e) => t.len() == 1 && r == Err::<PhotoPreviewResult, String>(e),
            Ok(None) => t.len() == 1 && (r matches Err(m) && m@ == msg_photo_not_found(id)),
            Ok(Some(p)) => {
                let full = join_path(mount, p.dng_path@);
                if is_jpeg_spec(full) {
                    t.len() >= 2 && match t[1] {
                        PortCall::JpegPreviewBytes(x, b) => x == full && match b {
                            Err(e) => t.len() == 2 && r == Err::<PhotoPreviewResult, String>(e),
                            Ok(bytes) => t.len() == 3 && match t[2] {
                                PortCall::ReadRotation(y, rot) => y == full && preview_reply(bytes@, rot, r),
                                _ => false,
                            },
                        },
                        _ => false,
                    }
                } else {
                    t.len() >= 2 && match t[1] {
                        PortCall::EnsurePreview(x, d, i2, o) => x == full && d == dir && i2 == id && match o {
                            None => t.len() == 2 && (r matches Err(m) && m@ == "Could not extract preview for "@ + id),
                            Some(pv) => t.len() >= 4 && t[2] == PortCall::StripOrientation(pv@) && match t[3] {
                                PortCall::Read(z, rb) => z == pv@ && match rb {
                                    Err(e) => t.len() == 4 && (r matches Err(m) && m@ == "Failed to read preview: "@ + e@),
                                    Ok(bytes) => t.len() == 5 && match t[4] {
                                        PortCall::ReadRotation(y, rot) => y == full && preview_reply(bytes@, rot, r),
                                        _ => false,
                                    },
                                },
                                _ => false,
                            },
                        },
                        _ => false,
                    }
                }
            },
        },
        _ => false,
    }
}

/// Serves the preview of a photo of a project.
pub struct PhotoPreview<'a> {
    pub photos: &'a dyn PhotoRepository,
    pub images: &'a dyn ImageProcessor,
    pub metadata: &'a dyn MetadataTool,
    pub files: &'a dyn FileStore,
    log: Ghost<Seq<PortCall>>,
}

impl<'a> PhotoPreview<'a> {
    /// A preview use case over these ports, with nothing called yet.
    pub fn new(
        photos: &'a dyn PhotoRepository,
        images: &'a dyn ImageProcessor,
        metadata: &'a dyn MetadataTool,
        files: &'a dyn FileStore,
    ) -> (r: Self)
        ensures
            r.calls().len() == 0,
    {
        PhotoPreview { photos, images, metadata, files, log: Ghost(Seq::empty()) }
    }

    /// The port calls made so far, in order, with their answers.
    pub closed spec fn calls(&self) -> Seq<PortCall> {
        self.log@
    }

    /// The preview of `photo_id`, whose file lives under `mount_point`, and
    /// the rotation read from the file. Errors: the photo does not exist
    /// (`Photo {id} not found`), no preview could be extracted, or it could
    /// not be read.
    pub fn execute(&mut self, photo_id: &str, mount_point: &str, project_dir: &str) -> (r: Result<
        PhotoPreviewResult,
        String,
    >)
        ensures
            final(self).calls().len() >= old(self).calls().len(),
            final(self).calls().take(old(self).calls().len() as int) == old(self).calls(),
            preview_run(
                photo_id@,
                mount_point@,
                project_dir@,
                final(self).calls().skip(old(self).calls().len() as int),
                r,
            ),
    {
        let ghost start = self.log@;
        let photo = match log_get(self.photos, photo_id, &mut self.log) {
            Ok(Some(p)) => p,
            Ok(None) => {
                assert(self.log@.skip(start.len() as int) =~= seq![self.log@.last()]);
                return Err(photo_not_found(photo_id));
            },
            Err(e) => {
                assert(self.log@.skip(start.len() as int) =~= seq![self.log@.last()]);
                return Err(e);
            },
        };
        let ghost c0 = self.log@.last();
        let full = crate::pathstr::join(mount_point, photo.dng_path.as_str());
        if is_jpeg(full.as_str()) {
            let bytes = match log_jpeg_preview_bytes(self.images, full.as_str(), &mut self.log) {
                Ok(b) => b,
                Err(e) => {
                    assert(self.log@.skip(start.len() as int) =~= seq![c0, self.log@.last()]);
                    return Err(e);
                },
            };
            let ghost c1 = self.log@.last();
            let rotation = log_read_rotation(self.metadata, full.as_str(), &mut self.log);
            assert(self.log@.skip(start.len() as int) =~= seq![c0, c1, self.log@.last()]);
            let url = match preview_url(&bytes) {
                Ok(u) => u,
                Err(e) => return Err(e),
            };
            return Ok(PhotoPreviewResult { url, rotation });
        }
        let preview = match log_ensure_preview(self.images, full.as_str(), project_dir, photo_id, &mut self.log) {
            Some(p) => p,
            None => {
                assert(self.log@.skip(start.len() as int) =~= seq![c0, self.log@.last()]);
                return Err(no_preview(photo_id));
            },
        };
        let ghost c1 = self.log@.last();
        log_strip_orientation(self.metadata, preview.as_str(), &mut self.log);
        let ghost c2 = self.log@.last();
        let bytes = match log_read(self.files, preview.as_str(), &mut self.log) {
            Ok(b) => b,
            Err(e) => {
                assert(self.log@.skip(start.len() as int) =~= seq![c0, c1, c2, self.log@.last()]);
                return Err(preview_unreadable(e.as_str()));
            },
        };
        let ghost c3 = self.log@.last();
        let rotation = log_read_rotation(self.metadata, full.as_str(), &mut self.log);
        assert(self.log@.skip(start.len() as int) =~= seq![c0, c1, c2, c3, self.log@.last()]);
        let url = match preview_url(&bytes) {
            Ok(u) => u,
            Err(e) => return Err(e),
        };
        Ok(PhotoPreviewResult { url, rotation })
    }
}

} // verus!
