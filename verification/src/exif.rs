//! What is read from EXIF tags where exiftool is not available (Android):
//! the rotation an orientation value stands for, the camera name from the
//! make and model tags, and the text of an ASCII tag. Decoding the files is
//! the caller's.
use vstd::prelude::*;
use crate::application::ports::FileMetadata;
use crate::keyed::{keep_last, keep_last_entries, keys_of};
use crate::domain::photo::orientation_degrees;
use crate::import::pipeline::{lower_extension, lower_extension_of};
use crate::text::{chars_of, push_str, string_of, trim, trim_chars};

verus! {

/// The rotation that EXIF orientation `o` stands for (6 is 90, 3 is 180,
/// 8 is 270, anything else 0).
pub fn orientation_to_degrees(o: u16) -> (r: i32)
    ensures
        r as int == orientation_degrees(o as int),
{
    if o == 6 {
        90
    } else if o == 3 {
        180
    } else if o == 8 {
        270
    } else {
        0
    }
}

/// The rotation of a photo from its orientation tag; 0 without one.
pub fn rotation_from_orientation(o: Option<u16>) -> (r: i32)
    ensures
        r as int == match o {
            Some(v) => orientation_degrees(v as int),
            None => 0,
        },
{
    match o {
        Some(v) => orientation_to_degrees(v),
        None => 0,
    }
}

/// The camera name from optional make and model tags: both joined by a
/// space, or whichever is present.
pub open spec fn camera_name(make: Option<Seq<char>>, model: Option<Seq<char>>) -> Option<Seq<char>> {
    match (make, model) {
        (Some(a), Some(b)) => Some(a + seq![' '] + b),
        (Some(a), None) => Some(a),
        (None, Some(b)) => Some(b),
        (None, None) => None,
    }
}

/// The camera name from the make and model tags of a JPEG.
pub fn camera_from_tags(make: Option<&str>, model: Option<&str>) -> (r: Option<String>)
    ensures
        match r {
            Some(c) => camera_name(
                match make {
                    Some(a) => Some(a@),
                    None => None,
                },
                match model {
                    Some(b) => Some(b@),
                    None => None,
                },
            ) == Some(c@),
            None => make is None && model is None,
        },
{
    match (make, model) {
        (Some(a), Some(b)) => {
            let mut v = chars_of(a);
            v.push(' ');
            push_str(&mut v, b);
            Some(string_of(&v))
        },
        (Some(a), None) => Some(string_of(&chars_of(a))),
        (None, Some(b)) => Some(string_of(&chars_of(b))),
        (None, None) => None,
    }
}

/// The camera name from the make and model a RAW decoder reports (empty
/// when unknown).
pub fn camera_from_raw(make: &str, model: &str) -> (r: Option<String>)
    ensures
        match r {
            Some(c) => camera_name(
                if make@.len() > 0 {
                    Some(make@)
                } else {
                    None
                },
                if model@.len() > 0 {
                    Some(model@)
                } else {
                    None
                },
            ) == Some(c@),
            None => make@.len() == 0 && model@.len() == 0,
        },
{
    let mk = if make.is_empty() {
        None
    } else {
        Some(make)
    };
    let md = if model.is_empty() {
        None
    } else {
        Some(model)
    };
    camera_from_tags(mk, md)
}

/// `s` without its trailing NUL characters.
pub open spec fn strip_nuls(s: Seq<char>) -> Seq<char>
    decreases s.len(),
{
    if s.len() > 0 && s.last() == '\0' {
        strip_nuls(s.drop_last())
    } else {
        s
    }
}

/// The text of an ASCII tag: trailing NULs removed, then trimmed; `None`
/// when nothing is left.
pub fn ascii_tag_text(raw: &str) -> (r: Option<String>)
    ensures
        match r {
            Some(t) => t@ == trim(strip_nuls(raw@)) && t@.len() > 0,
            None => trim(strip_nuls(raw@)).len() == 0,
        },
{
    let v = chars_of(raw);
    let mut j = v.len();
    assert(v@.take(j as int) =~= v@);
    while j > 0 && v[j - 1] == '\0'
        invariant
            j <= v.len(),
            strip_nuls(v@) == strip_nuls(v@.take(j as int)),
        decreases j,
    {
        assert(v@.take(j as int).drop_last() =~= v@.take(j - 1));
        j = j - 1;
    }
    let w = crate::text::slice_chars(&v, 0, j);
    assert(w@ =~= v@.take(j as int));
    let t = trim_chars(&w);
    if t.len() == 0 {
        None
    } else {
        Some(string_of(&t))
    }
}

/// Whether `p` is a JPEG file by its extension (`jpg` or `jpeg`, any case).
pub open spec fn is_jpeg_spec(p: Seq<char>) -> bool {
    lower_extension(p) == "jpg"@ || lower_extension(p) == "jpeg"@
}

/// Whether `p` is a JPEG file, judged by its extension.
pub fn is_jpeg(p: &str) -> (r: bool)
    ensures
        r == is_jpeg_spec(p@),
{
    let e = chars_of(lower_extension_of(p).as_str());
    crate::domain::photo::chars_eq(&e, &chars_of("jpg"))
        || crate::domain::photo::chars_eq(&e, &chars_of("jpeg"))
}

// ---------------------------------------------------------------------------
// EXIF tags of a JPEG, read with kamadak-exif
// ---------------------------------------------------------------------------

/// The first value of short tag `number` of the TIFF context in the
/// primary image of the EXIF found in `bytes` (what `tiff_short` returns).
pub uninterp spec fn tiff_short_tag(bytes: Seq<u8>, number: u16) -> Option<u16>;

/// The first value of short tag `number` of the Exif context in the
/// primary image of the EXIF found in `bytes` (what `exif_short` returns).
pub uninterp spec fn exif_short_tag(bytes: Seq<u8>, number: u16) -> Option<u16>;

/// The first value, as UTF-8 text, of ASCII tag `number` of the TIFF
/// context in the primary image of the EXIF found in `bytes`.
pub uninterp spec fn tiff_ascii_tag(bytes: Seq<u8>, number: u16) -> Option<Seq<char>>;

/// The first value, as UTF-8 text, of ASCII tag `number` of the Exif
/// context in the primary image of the EXIF found in `bytes`.
pub uninterp spec fn exif_ascii_tag(bytes: Seq<u8>, number: u16) -> Option<Seq<char>>;

/// Reads the EXIF in the image container `bytes` with kamadak-exif
/// (`Reader::read_from_container`, then `Exif::get_field` on the primary
/// image) and gives the first value of short tag `number` of the TIFF
/// context; `None` when there is no EXIF, no such field or it is not a
/// short. The result is named `tiff_short_tag`; the parse is not stated.
#[verifier::external_body]
fn tiff_short(bytes: &[u8], number: u16) -> (r: Option<u16>)
    ensures
        r == tiff_short_tag(bytes@, number),
{
    let ex = exif::Reader::new().read_from_container(&mut std::io::Cursor::new(bytes)).ok()?;
    match ex.get_field(exif::Tag(exif::Context::Tiff, number), exif::In::PRIMARY)?.value {
        exif::Value::Short(ref v) => v.first().copied(),
        _ => None,
    }
}

/// As `tiff_short`, for a tag of the Exif context (named `exif_short_tag`).
#[verifier::external_body]
fn exif_short(bytes: &[u8], number: u16) -> (r: Option<u16>)
    ensures
        r == exif_short_tag(bytes@, number),
{
    let ex = exif::Reader::new().read_from_container(&mut std::io::Cursor::new(bytes)).ok()?;
    match ex.get_field(exif::Tag(exif::Context::Exif, number), exif::In::PRIMARY)?.value {
        exif::Value::Short(ref v) => v.first().copied(),
        _ => None,
    }
}

/// As `tiff_short`, for the first value of an ASCII tag of the TIFF
/// context, as text (`None` as well when it is not UTF-8); named
/// `tiff_ascii_tag`.
#[verifier::external_body]
fn tiff_ascii(bytes: &[u8], number: u16) -> (r: Option<String>)
    ensures
        r matches Some(t) ==> tiff_ascii_tag(bytes@, number) == Some(t@),
        r is None ==> tiff_ascii_tag(bytes@, number) is None,
{
    let ex = exif::Reader::new().read_from_container(&mut std::io::Cursor::new(bytes)).ok()?;
    match ex.get_field(exif::Tag(exif::Context::Tiff, number), exif::In::PRIMARY)?.value {
        exif::Value::Ascii(ref v) => v.first().and_then(|b| std::str::from_utf8(b).ok()).map(String::from),
        _ => None,
    }
}

/// As `tiff_ascii`, for a tag of the Exif context (named `exif_ascii_tag`).
#[verifier::external_body]
fn exif_ascii(bytes: &[u8], number: u16) -> (r: Option<String>)
    ensures
        r matches Some(t) ==> exif_ascii_tag(bytes@, number) == Some(t@),
        r is None ==> exif_ascii_tag(bytes@, number) is None,
{
    let ex = exif::Reader::new().read_from_container(&mut std::io::Cursor::new(bytes)).ok()?;
    match ex.get_field(exif::Tag(exif::Context::Exif, number), exif::In::PRIMARY)?.value {
        exif::Value::Ascii(ref v) => v.first().and_then(|b| std::str::from_utf8(b).ok()).map(String::from),
        _ => None,
    }
}

/// The TIFF `Orientation` tag number.
pub const TAG_ORIENTATION: u16 = 0x112;
/// The TIFF `Make` tag number.
pub const TAG_MAKE: u16 = 0x10f;
/// The TIFF `Model` tag number.
pub const TAG_MODEL: u16 = 0x110;
/// The TIFF `DateTime` tag number.
pub const TAG_DATE_TIME: u16 = 0x132;
/// The Exif `DateTimeOriginal` tag number.
pub const TAG_DATE_TIME_ORIGINAL: u16 = 0x9003;
/// The Exif `PhotographicSensitivity` (ISO) tag number.
pub const TAG_ISO: u16 = 0x8827;
/// The Exif `LensModel` tag number.
pub const TAG_LENS_MODEL: u16 = 0xa434;

/// The rotation of a JPEG from its bytes: the degrees of its orientation
/// tag, 0 without one.
pub fn jpeg_exif_rotation(bytes: &[u8]) -> (r: i32)
    ensures
        r as int == match tiff_short_tag(bytes@, TAG_ORIENTATION) {
            Some(o) => orientation_degrees(o as int),
            None => 0,
        },
{
    rotation_from_orientation(tiff_short(bytes, TAG_ORIENTATION))
}

/// The text of an ASCII tag as kept: trailing NULs removed, trimmed,
/// `None` when empty or absent.
pub open spec fn tag_text(raw: Option<Seq<char>>) -> Option<Seq<char>> {
    match raw {
        Some(s) => if trim(strip_nuls(s)).len() > 0 {
            Some(trim(strip_nuls(s)))
        } else {
            None
        },
        None => None,
    }
}

/// The characters of an optional string.
pub open spec fn opt_text(o: Option<String>) -> Option<Seq<char>> {
    match o {
        Some(s) => Some(s@),
        None => None,
    }
}

/// `ascii_tag_text` of an optional raw text.
fn tag_text_of(raw: Option<String>) -> (r: Option<String>)
    ensures
        opt_text(r) == tag_text(opt_text(raw)),
{
    match raw {
        Some(s) => ascii_tag_text(s.as_str()),
        None => None,
    }
}

/// Whether kamadak-exif finds EXIF in the image container `bytes` (what
/// `exif_readable` returns).
pub uninterp spec fn exif_found(bytes: Seq<u8>) -> bool;

/// Whether `Reader::read_from_container` of kamadak-exif reads EXIF from
/// `bytes`; named `exif_found`.
#[verifier::external_body]
fn exif_readable(bytes: &[u8]) -> (r: bool)
    ensures
        r == exif_found(bytes@),
{
    exif::Reader::new().read_from_container(&mut std::io::Cursor::new(bytes)).is_ok()
}

/// The metadata read from the EXIF of a JPEG, from its bytes; `None` when
/// it holds no EXIF. Camera from make and model, ISO, capture date
/// (`DateTimeOriginal`, else `DateTime`), lens and rotation. Width and
/// height are not read. Aperture, shutter speed, exposure compensation and
/// focal length are rationals formatted through floating point, and are
/// left to the caller.
pub fn jpeg_exif_metadata(bytes: &[u8]) -> (r: Option<FileMetadata>)
    ensures
        r is Some <==> exif_found(bytes@),
        r matches Some(m) ==> jpeg_meta_matches(m, bytes@),
{
    if !exif_readable(bytes) {
        return None;
    }
    Some(jpeg_exif_record(bytes))
}

/// The record `jpeg_exif_metadata` gives for `bytes`.
pub open spec fn jpeg_meta_matches(m: FileMetadata, bytes: Seq<u8>) -> bool {
    &&& m.width is None
    &&& m.height is None
    &&& opt_text(m.camera) == camera_name(
        tag_text(tiff_ascii_tag(bytes, TAG_MAKE)),
        tag_text(tiff_ascii_tag(bytes, TAG_MODEL)),
    )
    &&& m.iso == match exif_short_tag(bytes, TAG_ISO) {
        Some(v) => Some(v as i32),
        None => None,
    }
    &&& opt_text(m.capture_date) == match tag_text(exif_ascii_tag(bytes, TAG_DATE_TIME_ORIGINAL)) {
        Some(d) => Some(d),
        None => tag_text(tiff_ascii_tag(bytes, TAG_DATE_TIME)),
    }
    &&& opt_text(m.lens_model) == tag_text(exif_ascii_tag(bytes, TAG_LENS_MODEL))
    &&& m.rotation as int == match tiff_short_tag(bytes, TAG_ORIENTATION) {
        Some(o) => orientation_degrees(o as int),
        None => 0,
    }
    &&& m.aperture is None && m.shutter_speed is None && m.exposure_compensation is None && m.focal_length is None
}

/// The metadata record of the EXIF tags in `bytes`.
fn jpeg_exif_record(bytes: &[u8]) -> (m: FileMetadata)
    ensures
        jpeg_meta_matches(m, bytes@),
{
    let make = tag_text_of(tiff_ascii(bytes, TAG_MAKE));
    let model = tag_text_of(tiff_ascii(bytes, TAG_MODEL));
    let make_ref: Option<&str> = match &make {
        Some(s) => Some(s.as_str()),
        None => None,
    };
    let model_ref: Option<&str> = match &model {
        Some(s) => Some(s.as_str()),
        None => None,
    };
    let camera = camera_from_tags(make_ref, model_ref);
    let iso = match exif_short(bytes, TAG_ISO) {
        Some(v) => Some(v as i32),
        None => None,
    };
    let capture_date = match tag_text_of(exif_ascii(bytes, TAG_DATE_TIME_ORIGINAL)) {
        Some(d) => Some(d),
        None => tag_text_of(tiff_ascii(bytes, TAG_DATE_TIME)),
    };
    let lens_model = tag_text_of(exif_ascii(bytes, TAG_LENS_MODEL));
    let rotation = jpeg_exif_rotation(bytes);
    FileMetadata {
        width: None,
        height: None,
        capture_date,
        camera,
        iso,
        aperture: None,
        shutter_speed: None,
        exposure_compensation: None,
        focal_length: None,
        lens_model,
        rotation,
    }
}

/// The JPEG files of `files` (path and contents) whose EXIF can be read,
/// in order.
pub open spec fn readable_jpegs(files: Seq<(String, Vec<u8>)>) -> Seq<(Seq<char>, Seq<u8>)>
    decreases files.len(),
{
    if files.len() == 0 {
        Seq::empty()
    } else {
        let rest = readable_jpegs(files.drop_last());
        let f = files.last();
        if is_jpeg_spec(f.0@) && exif_found(f.1@) {
            rest.push((f.0@, f.1@))
        } else {
            rest
        }
    }
}

/// Whether `raw` holds, entry by entry, the path of each file of `found`
/// with the metadata read from its contents.
pub open spec fn entries_match(raw: Seq<(String, FileMetadata)>, found: Seq<(Seq<char>, Seq<u8>)>) -> bool {
    &&& raw.len() == found.len()
    &&& forall|k: int|
        0 <= k < found.len() ==> (#[trigger] raw[k]).0@ == found[k].0 && jpeg_meta_matches(raw[k].1, found[k].1)
}

/// The metadata of the JPEGs of `files` (path and contents) whose EXIF can
/// be read, keyed by path: one entry per path, from the last file given
/// with that path. Other files get no entry here: RAW files are decoded
/// elsewhere.
pub fn extract_exif_metadata_batch(files: &Vec<(String, Vec<u8>)>) -> (r: Vec<(String, FileMetadata)>)
    ensures
        exists|raw: Seq<(String, FileMetadata)>| entries_match(raw, readable_jpegs(files@)) && r@ == keep_last(raw),
        keys_of(r@).no_duplicates(),
        forall|x: Seq<char>|
            keys_of(r@).contains(x) <==> readable_jpegs(files@).map_values(|f: (Seq<char>, Seq<u8>)| f.0).contains(x),
{
    let mut raw: Vec<(String, FileMetadata)> = Vec::new();
    let mut i: usize = 0;
    while i < files.len()
        invariant
            i <= files.len(),
            entries_match(raw@, readable_jpegs(files@.take(i as int))),
        decreases files.len() - i,
    {
        proof {
            assert(files@.take(i + 1).drop_last() =~= files@.take(i as int));
            assert(files@.take(i + 1).last() == files@[i as int]);
        }
        let path = &files[i].0;
        let bytes = &files[i].1;
        if is_jpeg(path.as_str()) {
            match jpeg_exif_metadata(bytes.as_slice()) {
                Some(m) => {
                    raw.push((path.clone(), m));
                },
                None => {},
            }
        }
        i = i + 1;
    }
    assert(files@.take(files.len() as int) =~= files@);
    let ghost rawv = raw@;
    let ghost found = readable_jpegs(files@);
    proof {
        assert forall|x: Seq<char>| keys_of(rawv).contains(x) <==> found.map_values(|f: (Seq<char>, Seq<u8>)| f.0).contains(x) by {
            assert(keys_of(rawv) =~= found.map_values(|f: (Seq<char>, Seq<u8>)| f.0));
        }
    }
    keep_last_entries(raw)
}

} // verus!
