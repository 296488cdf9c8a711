//! Where cached images live and how they are handed to the web view: the
//! thumbnail path of a photo, and images as `data:` URLs (base64 through the
//! `base64` crate).
use vstd::prelude::*;
use base64::Engine;
use crate::pathstr::{file_name, join_path, parent};
use crate::text::{chars_of, push_str, string_of};

verus! {

// ---------------------------------------------------------------------------
// Paths
// ---------------------------------------------------------------------------

/// The project folder of a photo file: the folder holding it, or the one
/// above when it sits in `_media` or `_culled`.
pub open spec fn photo_project_dir(src: Seq<char>) -> Option<Seq<char>> {
    match parent(src) {
        None => None,
        Some(fp) => if file_name(fp) == Some("_media"@) || file_name(fp) == Some("_culled"@) {
            match parent(fp) {
                Some(pp) => Some(pp),
                None => Some(fp),
            }
        } else {
            Some(fp)
        },
    }
}

/// `{project_dir}/.thumbs/{photo_id}.jpg`.
pub open spec fn thumbnail_path(project_dir: Seq<char>, photo_id: Seq<char>) -> Seq<char> {
    join_path(join_path(project_dir, ".thumbs"@), photo_id + ".jpg"@)
}

/// The cached thumbnail of a photo in a project folder.
pub fn thumbnail_file(project_dir: &str, photo_id: &str) -> (r: String)
    ensures
        r@ == thumbnail_path(project_dir@, photo_id@),
{
    let dir = crate::pathstr::join(project_dir, ".thumbs");
    let mut name: Vec<char> = chars_of(photo_id);
    push_str(&mut name, ".jpg");
    crate::pathstr::join(dir.as_str(), string_of(&name).as_str())
}

/// The thumbnail path for photo `photo_id` stored at `src`; `None` when
/// `src` has no parent folder.
pub fn thumb_dest(src: &str, photo_id: &str) -> (r: Option<String>)
    ensures
        match r {
            Some(p) => photo_project_dir(src@) matches Some(d) && p@ == thumbnail_path(d, photo_id@),
            None => photo_project_dir(src@) is None,
        },
{
    let fp = match crate::pathstr::parent_of(src) {
        Some(p) => p,
        None => return None,
    };
    let is_sub = match crate::pathstr::file_name_of(fp.as_str()) {
        Some(n) => {
            let nv = chars_of(n.as_str());
            crate::domain::photo::chars_eq(&nv, &chars_of("_media"))
                || crate::domain::photo::chars_eq(&nv, &chars_of("_culled"))
        },
        None => false,
    };
    let dir = if is_sub {
        match crate::pathstr::parent_of(fp.as_str()) {
            Some(pp) => pp,
            None => fp,
        }
    } else {
        fp
    };
    Some(thumbnail_file(dir.as_str(), photo_id))
}

/// The cover of a project as stored: `.thumbs/{photo_id}.jpg`, relative to
/// the project folder.
pub fn cover_thumbnail_rel(photo_id: &str) -> (r: String)
    ensures
        r@ == ".thumbs/"@ + photo_id@ + ".jpg"@,
{
    let mut v: Vec<char> = chars_of(".thumbs/");
    push_str(&mut v, photo_id);
    push_str(&mut v, ".jpg");
    string_of(&v)
}

// ---------------------------------------------------------------------------
// Base64 and data URLs
// ---------------------------------------------------------------------------

/// The base64 digit for `n < 64` (standard alphabet).
pub open spec fn b64_digit(n: int) -> char {
    if n < 26 {
        ((65 + n) as u8) as char
    } else if n < 52 {
        ((97 + n - 26) as u8) as char
    } else if n < 62 {
        ((48 + n - 52) as u8) as char
    } else if n == 62 {
        '+'
    } else {
        '/'
    }
}

/// Standard base64 of `s`, padded with `=`: every three bytes become four
/// digits of six bits each, most significant first.
pub open spec fn base64(s: Seq<u8>) -> Seq<char>
    decreases s.len(),
{
    if s.len() == 0 {
        Seq::empty()
    } else {
        let b0 = s[0] as int;
        let b1 = if s.len() > 1 {
            s[1] as int
        } else {
            0
        };
        let b2 = if s.len() > 2 {
            s[2] as int
        } else {
            0
        };
        if s.len() == 1 {
            seq![b64_digit(b0 / 4), b64_digit((b0 % 4) * 16), '=', '=']
        } else if s.len() == 2 {
            seq![b64_digit(b0 / 4), b64_digit((b0 % 4) * 16 + b1 / 16), b64_digit((b1 % 16) * 4), '=']
        } else {
            seq![
                b64_digit(b0 / 4),
                b64_digit((b0 % 4) * 16 + b1 / 16),
                b64_digit((b1 % 16) * 4 + b2 / 64),
                b64_digit(b2 % 64),
            ] + base64(s.skip(3))
        }
    }
}

/// Base64 writes four digits for every three bytes or part of them.
pub proof fn law_base64_length(s: Seq<u8>)
    ensures
        base64(s).len() == 4 * ((s.len() + 2) / 3),
    decreases s.len(),
{
    if s.len() >= 3 {
        law_base64_length(s.skip(3));
    }
}

/// Whether the base64 text of `n` bytes has a length that fits in `usize`
/// (the encoder stops otherwise).
pub open spec fn base64_len_fits(n: int) -> bool {
    4 * ((n + 2) / 3) <= usize::MAX
}

/// Encodes with the `base64` crate's standard engine
/// (`general_purpose::STANDARD`, padded): the contract states the standard
/// base64 of the bytes.
#[verifier::external_body]
fn base64_standard(bytes: &[u8]) -> (r: String)
    requires
        base64_len_fits(bytes@.len() as int),
    ensures
        r@ == base64(bytes@),
{
    base64::engine::general_purpose::STANDARD.encode(bytes)
}

/// The `data:` URL of the JPEG image `bytes`.
pub open spec fn jpeg_data_url_spec(bytes: Seq<u8>) -> Seq<char> {
    "data:image/jpeg;base64,"@ + base64(bytes)
}

/// The JPEG image `bytes` as a `data:` URL for the web view.
pub fn jpeg_data_url(bytes: &[u8]) -> (r: String)
    requires
        base64_len_fits(bytes@.len() as int),
    ensures
        r@ == jpeg_data_url_spec(bytes@),
{
    let mut v: Vec<char> = chars_of("data:image/jpeg;base64,");
    let e = base64_standard(bytes);
    push_str(&mut v, e.as_str());
    string_of(&v)
}

/// A preview handed to the web view: the image as a `data:` URL, and the
/// rotation the view applies to it.
#[derive(Debug, Clone)]
pub struct PhotoPreviewResult {
    pub url: String,
    pub rotation: i32,
}

// ---------------------------------------------------------------------------
// Where thumbnails and previews come from
// ---------------------------------------------------------------------------

/// Whether a lower-case extension is a TIFF one. exiftool returns only the
/// first strip of a strip-compressed TIFF as its embedded image, so TIFFs
/// are always decoded instead.
pub open spec fn is_tiff_ext(ext: Seq<char>) -> bool {
    ext == "tif"@ || ext == "tiff"@
}

/// Whether a lower-case extension is a JPEG one.
pub open spec fn is_jpeg_ext(ext: Seq<char>) -> bool {
    ext == "jpg"@ || ext == "jpeg"@
}

/// The embedded images tried, in order, for a thumbnail of a file with
/// lower-case extension `ext`.
pub open spec fn thumbnail_tag_list(ext: Seq<char>) -> Seq<Seq<char>> {
    if is_tiff_ext(ext) {
        Seq::empty()
    } else {
        seq!["-PreviewImage"@, "-ThumbnailImage"@]
    }
}

/// The embedded images tried, in order, for a full-size preview.
pub open spec fn preview_tag_list(ext: Seq<char>) -> Seq<Seq<char>> {
    if is_tiff_ext(ext) {
        Seq::empty()
    } else {
        seq!["-JpgFromRaw"@, "-LargeImage"@, "-PreviewImage"@, "-OtherImage"@]
    }
}

/// Whether `ext` equals the literal `lit`.
fn ext_is(ext: &str, lit: &str) -> (r: bool)
    ensures
        r == (ext@ == lit@),
{
    crate::domain::photo::chars_eq(&chars_of(ext), &chars_of(lit))
}

/// Whether the lower-case extension is a TIFF one.
pub fn is_tiff_extension(ext: &str) -> (r: bool)
    ensures
        r == is_tiff_ext(ext@),
{
    ext_is(ext, "tif") || ext_is(ext, "tiff")
}

/// Whether the lower-case extension is a JPEG one.
pub fn is_jpeg_extension(ext: &str) -> (r: bool)
    ensures
        r == is_jpeg_ext(ext@),
{
    ext_is(ext, "jpg") || ext_is(ext, "jpeg")
}

/// Whether a file with this lower-case extension can be decoded directly
/// when it has no embedded thumbnail (JPEG and TIFF).
pub fn decodes_directly(ext: &str) -> (r: bool)
    ensures
        r == (is_jpeg_ext(ext@) || is_tiff_ext(ext@)),
{
    is_jpeg_extension(ext) || is_tiff_extension(ext)
}

/// The exiftool options naming the embedded images tried for a thumbnail.
pub fn thumbnail_tags(ext: &str) -> (r: Vec<&'static str>)
    ensures
        r@.map_values(|s: &str| s@) == thumbnail_tag_list(ext@),
{
    if is_tiff_extension(ext) {
        let r: Vec<&'static str> = Vec::new();
        assert(r@.map_values(|s: &str| s@) =~= Seq::<Seq<char>>::empty());
        r
    } else {
        let r: Vec<&'static str> = vec!["-PreviewImage", "-ThumbnailImage"];
        assert(r@.map_values(|s: &str| s@) =~= thumbnail_tag_list(ext@));
        r
    }
}

/// The exiftool options naming the embedded images tried for a preview.
pub fn preview_tags(ext: &str) -> (r: Vec<&'static str>)
    ensures
        r@.map_values(|s: &str| s@) == preview_tag_list(ext@),
{
    if is_tiff_extension(ext) {
        let r: Vec<&'static str> = Vec::new();
        assert(r@.map_values(|s: &str| s@) =~= Seq::<Seq<char>>::empty());
        r
    } else {
        let r: Vec<&'static str> = vec!["-JpgFromRaw", "-LargeImage", "-PreviewImage", "-OtherImage"];
        assert(r@.map_values(|s: &str| s@) =~= preview_tag_list(ext@));
        r
    }
}

/// Whether an extracted embedded image is large enough to serve as the
/// full-size preview (more than 4 KiB; smaller ones are thumbnails).
pub fn is_usable_preview(len: usize) -> (r: bool)
    ensures
        r == (len > 4096),
{
    len > 4096
}

/// `{project_dir}/.previews/{photo_id}.jpg`.
pub open spec fn preview_path(project_dir: Seq<char>, photo_id: Seq<char>) -> Seq<char> {
    join_path(join_path(project_dir, ".previews"@), photo_id + ".jpg"@)
}

/// The cached preview of a photo in a project folder.
pub fn preview_file(project_dir: &str, photo_id: &str) -> (r: String)
    ensures
        r@ == preview_path(project_dir@, photo_id@),
{
    let dir = crate::pathstr::join(project_dir, ".previews");
    let mut name: Vec<char> = chars_of(photo_id);
    push_str(&mut name, ".jpg");
    crate::pathstr::join(dir.as_str(), string_of(&name).as_str())
}

// ---------------------------------------------------------------------------
// Thumbnail and preview images, made with the `image` crate
// ---------------------------------------------------------------------------

/// The 320×320 JPEG thumbnail of the image `raw` (what `thumb_plain` returns).
pub uninterp spec fn thumbnail_jpeg(raw: Seq<u8>) -> Option<Seq<u8>>;

/// Decodes `raw` with the `image` crate (`load_from_memory`), scales it to fit 320×320 (`thumbnail`),
/// and encodes the result as JPEG (`write_to` with `ImageFormat::Jpeg`);
/// `None` when decoding or encoding fails. The result is named `thumbnail_jpeg`.
#[verifier::external_body]
fn thumb_plain(raw: &[u8]) -> (r: Option<Vec<u8>>)
    ensures
        r matches Some(b) ==> thumbnail_jpeg(raw@) == Some(b@),
        r is None ==> thumbnail_jpeg(raw@) is None,
{
    let img = image::load_from_memory(raw).ok()?;
    let mut buf = std::io::Cursor::new(Vec::new());
    img.thumbnail(320, 320).write_to(&mut buf, image::ImageFormat::Jpeg).ok()?;
    Some(buf.into_inner())
}

/// The 320×320 JPEG thumbnail of `raw` turned 90° clockwise.
pub uninterp spec fn thumbnail_jpeg_90(raw: Seq<u8>) -> Option<Seq<u8>>;

/// Decodes `raw` with the `image` crate (`load_from_memory`), scales it to fit 320×320 and turns it a quarter clockwise (`rotate90`),
/// and encodes the result as JPEG (`write_to` with `ImageFormat::Jpeg`);
/// `None` when decoding or encoding fails. The result is named `thumbnail_jpeg_90`.
#[verifier::external_body]
fn thumb_90(raw: &[u8]) -> (r: Option<Vec<u8>>)
    ensures
        r matches Some(b) ==> thumbnail_jpeg_90(raw@) == Some(b@),
        r is None ==> thumbnail_jpeg_90(raw@) is None,
{
    let img = image::load_from_memory(raw).ok()?;
    let mut buf = std::io::Cursor::new(Vec::new());
    img.thumbnail(320, 320).rotate90().write_to(&mut buf, image::ImageFormat::Jpeg).ok()?;
    Some(buf.into_inner())
}

/// The 320×320 JPEG thumbnail of `raw` turned 180°.
pub uninterp spec fn thumbnail_jpeg_180(raw: Seq<u8>) -> Option<Seq<u8>>;

/// Decodes `raw` with the `image` crate (`load_from_memory`), scales it to fit 320×320 and turns it half round (`rotate180`),
/// and encodes the result as JPEG (`write_to` with `ImageFormat::Jpeg`);
/// `None` when decoding or encoding fails. The result is named `thumbnail_jpeg_180`.
#[verifier::external_body]
fn thumb_180(raw: &[u8]) -> (r: Option<Vec<u8>>)
    ensures
        r matches Some(b) ==> thumbnail_jpeg_180(raw@) == Some(b@),
        r is None ==> thumbnail_jpeg_180(raw@) is None,
{
    let img = image::load_from_memory(raw).ok()?;
    let mut buf = std::io::Cursor::new(Vec::new());
    img.thumbnail(320, 320).rotate180().write_to(&mut buf, image::ImageFormat::Jpeg).ok()?;
    Some(buf.into_inner())
}

/// The 320×320 JPEG thumbnail of `raw` turned 270° clockwise.
pub uninterp spec fn thumbnail_jpeg_270(raw: Seq<u8>) -> Option<Seq<u8>>;

/// Decodes `raw` with the `image` crate (`load_from_memory`), scales it to fit 320×320 and turns it three quarters clockwise (`rotate270`),
/// and encodes the result as JPEG (`write_to` with `ImageFormat::Jpeg`);
/// `None` when decoding or encoding fails. The result is named `thumbnail_jpeg_270`.
#[verifier::external_body]
fn thumb_270(raw: &[u8]) -> (r: Option<Vec<u8>>)
    ensures
        r matches Some(b) ==> thumbnail_jpeg_270(raw@) == Some(b@),
        r is None ==> thumbnail_jpeg_270(raw@) is None,
{
    let img = image::load_from_memory(raw).ok()?;
    let mut buf = std::io::Cursor::new(Vec::new());
    img.thumbnail(320, 320).rotate270().write_to(&mut buf, image::ImageFormat::Jpeg).ok()?;
    Some(buf.into_inner())
}

/// The image `raw` turned 90° clockwise, as JPEG.
pub uninterp spec fn turned_jpeg_90(raw: Seq<u8>) -> Option<Seq<u8>>;

/// Decodes `raw` with the `image` crate (`load_from_memory`), turns it a quarter clockwise (`rotate90`),
/// and encodes the result as JPEG (`write_to` with `ImageFormat::Jpeg`);
/// `None` when decoding or encoding fails. The result is named `turned_jpeg_90`.
#[verifier::external_body]
fn turn_90(raw: &[u8]) -> (r: Option<Vec<u8>>)
    ensures
        r matches Some(b) ==> turned_jpeg_90(raw@) == Some(b@),
        r is None ==> turned_jpeg_90(raw@) is None,
{
    let img = image::load_from_memory(raw).ok()?;
    let mut buf = std::io::Cursor::new(Vec::new());
    img.rotate90().write_to(&mut buf, image::ImageFormat::Jpeg).ok()?;
    Some(buf.into_inner())
}

/// The image `raw` turned 180°, as JPEG.
pub uninterp spec fn turned_jpeg_180(raw: Seq<u8>) -> Option<Seq<u8>>;

/// Decodes `raw` with the `image` crate (`load_from_memory`), turns it half round (`rotate180`),
/// and encodes the result as JPEG (`write_to` with `ImageFormat::Jpeg`);
/// `None` when decoding or encoding fails. The result is named `turned_jpeg_180`.
#[verifier::external_body]
fn turn_180(raw: &[u8]) -> (r: Option<Vec<u8>>)
    ensures
        r matches Some(b) ==> turned_jpeg_180(raw@) == Some(b@),
        r is None ==> turned_jpeg_180(raw@) is None,
{
    let img = image::load_from_memory(raw).ok()?;
    let mut buf = std::io::Cursor::new(Vec::new());
    img.rotate180().write_to(&mut buf, image::ImageFormat::Jpeg).ok()?;
    Some(buf.into_inner())
}

/// The image `raw` turned 270° clockwise, as JPEG.
pub uninterp spec fn turned_jpeg_270(raw: Seq<u8>) -> Option<Seq<u8>>;

/// Decodes `raw` with the `image` crate (`load_from_memory`), turns it three quarters clockwise (`rotate270`),
/// and encodes the result as JPEG (`write_to` with `ImageFormat::Jpeg`);
/// `None` when decoding or encoding fails. The result is named `turned_jpeg_270`.
#[verifier::external_body]
fn turn_270(raw: &[u8]) -> (r: Option<Vec<u8>>)
    ensures
        r matches Some(b) ==> turned_jpeg_270(raw@) == Some(b@),
        r is None ==> turned_jpeg_270(raw@) is None,
{
    let img = image::load_from_memory(raw).ok()?;
    let mut buf = std::io::Cursor::new(Vec::new());
    img.rotate270().write_to(&mut buf, image::ImageFormat::Jpeg).ok()?;
    Some(buf.into_inner())
}

/// The image `raw` re-encoded as JPEG.
pub uninterp spec fn reencoded_jpeg(raw: Seq<u8>) -> Option<Seq<u8>>;

/// Decodes `raw` with the `image` crate (`load_from_memory`), leaves it as it is,
/// and encodes the result as JPEG (`write_to` with `ImageFormat::Jpeg`);
/// `None` when decoding or encoding fails. The result is named `reencoded_jpeg`.
#[verifier::external_body]
fn as_jpeg(raw: &[u8]) -> (r: Option<Vec<u8>>)
    ensures
        r matches Some(b) ==> reencoded_jpeg(raw@) == Some(b@),
        r is None ==> reencoded_jpeg(raw@) is None,
{
    let img = image::load_from_memory(raw).ok()?;
    let mut buf = std::io::Cursor::new(Vec::new());
    img.write_to(&mut buf, image::ImageFormat::Jpeg).ok()?;
    Some(buf.into_inner())
}

/// The thumbnail of `raw` for a photo stored with `rotation`: scaled to fit
/// 320×320 and turned by the rotation when it is 90, 180 or 270.
pub open spec fn thumbnail_for(raw: Seq<u8>, rotation: i32) -> Option<Seq<u8>> {
    if rotation == 90 {
        thumbnail_jpeg_90(raw)
    } else if rotation == 180 {
        thumbnail_jpeg_180(raw)
    } else if rotation == 270 {
        thumbnail_jpeg_270(raw)
    } else {
        thumbnail_jpeg(raw)
    }
}

/// The bytes written as the thumbnail of an image `raw` (an embedded
/// preview, or a decoded file) of a photo stored with `rotation`: its
/// thumbnail turned by the rotation, or `raw` itself when that cannot be
/// made.
pub fn thumbnail_bytes(raw: Vec<u8>, rotation: i32) -> (r: Vec<u8>)
    ensures
        r@ == match thumbnail_for(raw@, rotation) {
            Some(b) => b,
            None => raw@,
        },
{
    let made = if rotation == 90 {
        thumb_90(raw.as_slice())
    } else if rotation == 180 {
        thumb_180(raw.as_slice())
    } else if rotation == 270 {
        thumb_270(raw.as_slice())
    } else {
        thumb_plain(raw.as_slice())
    };
    match made {
        Some(b) => b,
        None => raw,
    }
}

/// The thumbnail of a file decoded directly (no rotation applied yet):
/// `None` when it does not decode.
pub fn decoded_thumbnail(file: &[u8]) -> (r: Option<Vec<u8>>)
    ensures
        r matches Some(b) ==> thumbnail_jpeg(file@) == Some(b@),
        r is None ==> thumbnail_jpeg(file@) is None,
{
    thumb_plain(file)
}

/// A cached thumbnail `raw` turned clockwise by `delta`: `None` when
/// `delta` is not 90, 180 or 270 (nothing to do) or the image does not
/// decode or encode.
pub fn turned_thumbnail(raw: &[u8], delta: i32) -> (r: Option<Vec<u8>>)
    ensures
        (match r {
            Some(b) => Some(b@),
            None => None,
        }) == if delta == 90 {
            turned_jpeg_90(raw@)
        } else if delta == 180 {
            turned_jpeg_180(raw@)
        } else if delta == 270 {
            turned_jpeg_270(raw@)
        } else {
            None
        },
{
    if delta == 90 {
        turn_90(raw)
    } else if delta == 180 {
        turn_180(raw)
    } else if delta == 270 {
        turn_270(raw)
    } else {
        None
    }
}

/// The preview of a TIFF file `file`: the image re-encoded as JPEG, `None`
/// when it does not decode.
pub fn tiff_preview(file: &[u8]) -> (r: Option<Vec<u8>>)
    ensures
        r matches Some(b) ==> reencoded_jpeg(file@) == Some(b@),
        r is None ==> reencoded_jpeg(file@) is None,
{
    as_jpeg(file)
}

// ---------------------------------------------------------------------------
// The order in which thumbnails and previews are sought
// ---------------------------------------------------------------------------

/// The next thing to try when making a thumbnail or a preview.
#[derive(Debug, Clone, Copy, PartialEq, Eq)]
pub enum ImageStep {
    /// Ask exiftool for the embedded image named by this option.
    Extract(&'static str),
    /// Decode the file itself.
    DecodeFile,
    /// Decode a TIFF with JPEG strips (`open_jpeg_tiff`).
    DecodeTiffStrips,
    /// Copy the JPEG file as it is.
    CopyJpeg,
    /// Nothing more can be tried.
    GiveUp,
}

/// The step a thumbnail takes after `tried` failed steps, for a file with
/// lower-case extension `ext`: the embedded images in order; then, for a
/// JPEG or TIFF, decoding the file; then, for a TIFF, decoding its JPEG
/// strips; then giving up.
pub open spec fn thumbnail_step(ext: Seq<char>, tried: int) -> ImageStep {
    let n = thumbnail_tag_list(ext).len() as int;
    if tried < n {
        ImageStep::Extract(arbitrary())
    } else if tried == n && (is_jpeg_ext(ext) || is_tiff_ext(ext)) {
        ImageStep::DecodeFile
    } else if tried == n + 1 && is_tiff_ext(ext) {
        ImageStep::DecodeTiffStrips
    } else {
        ImageStep::GiveUp
    }
}

/// The step a preview takes after `tried` failed steps: the embedded
/// images in order; then a JPEG is copied as it is, a TIFF decoded, and
/// then its JPEG strips decoded; then giving up.
pub open spec fn preview_step(ext: Seq<char>, tried: int) -> ImageStep {
    let n = preview_tag_list(ext).len() as int;
    if tried < n {
        ImageStep::Extract(arbitrary())
    } else if tried == n && is_jpeg_ext(ext) {
        ImageStep::CopyJpeg
    } else if tried == n && is_tiff_ext(ext) {
        ImageStep::DecodeFile
    } else if tried == n + 1 && is_tiff_ext(ext) {
        ImageStep::DecodeTiffStrips
    } else {
        ImageStep::GiveUp
    }
}

/// Whether `step` is the step `spec` names, with `Extract` naming the
/// option `tags[tried]`.
pub open spec fn step_is(step: ImageStep, spec: ImageStep, tags: Seq<Seq<char>>, tried: int) -> bool {
    match spec {
        ImageStep::Extract(_) => step matches ImageStep::Extract(t) && t@ == tags[tried],
        _ => step == spec,
    }
}

/// The next step of a thumbnail of a file with extension `ext` after
/// `tried` failed steps.
pub fn thumbnail_next(ext: &str, tried: usize) -> (r: ImageStep)
    ensures
        step_is(r, thumbnail_step(ext@, tried as int), thumbnail_tag_list(ext@), tried as int),
{
    let tags = thumbnail_tags(ext);
    if tried < tags.len() {
        let t = tags[tried];
        assert(t@ == thumbnail_tag_list(ext@)[tried as int]);
        ImageStep::Extract(t)
    } else if tried == tags.len() && decodes_directly(ext) {
        ImageStep::DecodeFile
    } else if tried == tags.len() + 1 && is_tiff_extension(ext) {
        ImageStep::DecodeTiffStrips
    } else {
        ImageStep::GiveUp
    }
}

/// The next step of a preview of a file with extension `ext` after
/// `tried` failed steps.
pub fn preview_next(ext: &str, tried: usize) -> (r: ImageStep)
    ensures
        step_is(r, preview_step(ext@, tried as int), preview_tag_list(ext@), tried as int),
{
    let tags = preview_tags(ext);
    if tried < tags.len() {
        let t = tags[tried];
        assert(t@ == preview_tag_list(ext@)[tried as int]);
        ImageStep::Extract(t)
    } else if tried == tags.len() && is_jpeg_extension(ext) {
        ImageStep::CopyJpeg
    } else if tried == tags.len() && is_tiff_extension(ext) {
        ImageStep::DecodeFile
    } else if tried == tags.len() + 1 && is_tiff_extension(ext) {
        ImageStep::DecodeTiffStrips
    } else {
        ImageStep::GiveUp
    }
}

} // verus!
