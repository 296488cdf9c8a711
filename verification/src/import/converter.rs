//! Supported photo and video formats, and the errors of the pipeline.
use vstd::prelude::*;
use crate::domain::photo::chars_eq;
use crate::text::{chars_of, push_str, string_of};

verus! {

/// Photo extensions (lower case) the import accepts.
pub open spec fn supported_extensions() -> Seq<Seq<char>> {
    seq![
        "cr2"@,
        "cr3"@,
        "nef"@,
        "arw"@,
        "raf"@,
        "orf"@,
        "rw2"@,
        "dng"@,
        "jpg"@,
        "jpeg"@,
        "tif"@,
        "tiff"@,
    ]
}

/// Video extensions (lower case), copied as they are.
pub open spec fn video_extensions() -> Seq<Seq<char>> {
    seq!["mp4"@, "mov"@, "avi"@, "mts"@, "m2ts"@, "mkv"@, "mxf"@]
}

/// Whether `e` is one of `list`, compared by characters.
fn in_list(e: &Vec<char>, list: &[&str]) -> (r: bool)
    ensures
        r == list@.map_values(|s: &str| s@).contains(e@),
{
    let ghost vs = list@.map_values(|s: &str| s@);
    let mut i: usize = 0;
    while i < list.len()
        invariant
            i <= list.len(),
            vs == list@.map_values(|s: &str| s@),
            forall|k: int| 0 <= k < i ==> vs[k] != e@,
        decreases list.len() - i,
    {
        let w = chars_of(list[i]);
        if chars_eq(&w, e) {
            assert(vs[i as int] == e@);
            return true;
        }
        i = i + 1;
    }
    false
}

/// Whether `ext` (already lower case) is a supported photo extension.
pub fn is_supported_extension(ext: &str) -> (r: bool)
    ensures
        r == supported_extensions().contains(ext@),
{
    let list: [&str; 12] = [
        "cr2",
        "cr3",
        "nef",
        "arw",
        "raf",
        "orf",
        "rw2",
        "dng",
        "jpg",
        "jpeg",
        "tif",
        "tiff",
    ];
    let e = chars_of(ext);
    let r = in_list(&e, &list);
    assert(list@.map_values(|s: &str| s@) =~= supported_extensions());
    r
}

/// Whether `ext` (already lower case) is a video extension.
pub fn is_video_extension(ext: &str) -> (r: bool)
    ensures
        r == video_extensions().contains(ext@),
{
    let list: [&str; 7] = ["mp4", "mov", "avi", "mts", "m2ts", "mkv", "mxf"];
    let e = chars_of(ext);
    let r = in_list(&e, &list);
    assert(list@.map_values(|s: &str| s@) =~= video_extensions());
    r
}

/// Errors of the import pipeline.
#[derive(Debug, PartialEq, Eq)]
pub enum ConvertError {
    /// Failure of an import step.
    DngError(String),
    /// File-system failure, with its message.
    IoError(String),
}

impl ConvertError {
    /// The message shown for this error.
    pub open spec fn spec_message(&self) -> Seq<char> {
        match self {
            ConvertError::DngError(m) => "Import error: "@ + m@,
            ConvertError::IoError(m) => "IO error: "@ + m@,
        }
    }

    /// The message shown for this error.
    pub fn message(&self) -> (s: String)
        ensures
            s@ == self.spec_message(),
    {
        match self {
            ConvertError::DngError(m) => {
                let mut v = chars_of("Import error: ");
                push_str(&mut v, m.as_str());
                string_of(&v)
            },
            ConvertError::IoError(m) => {
                let mut v = chars_of("IO error: ");
                push_str(&mut v, m.as_str());
                string_of(&v)
            },
        }
    }
}

} // verus!
