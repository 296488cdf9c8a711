//! Planning of the import phases: which files are copied to the workspace,
//! the exiftool arguments that rename them and embed the photographer's
//! metadata, the names given on Android, and which moved files are photos.
use vstd::prelude::*;
use super::converter::{is_supported_extension, is_video_extension, supported_extensions,
    video_extensions, ConvertError};
use super::progress::{ImportPhase, ImportProgress};
use crate::models::PhotographerMetadata;
use crate::pathstr::{extension, extension_of, file_name, file_name_of, join, join_path};
use crate::text::{
    alphanumeric, chars_of, is_alphanumeric, lowercase, padded_decimal, padded_decimal_of,
    push_chars, push_str, replace_char_str, replace_char_str_chars, replace_first_n,
    replace_first_n_chars, string_of, to_lowercase,
};

verus! {

/// Temporary workspace of an import: a folder and its `files` subfolder.
#[derive(Debug, Clone)]
pub struct PipelineWorkspace {
    pub temp_dir: String,
    pub dng_dir: String,
}

/// The lower-cased extension of `p`, or empty when it has none.
pub open spec fn lower_extension(p: Seq<char>) -> Seq<char> {
    match extension(p) {
        Some(e) => lowercase(e),
        None => Seq::<char>::empty(),
    }
}

/// The lower-cased extension of `p`, or empty when it has none.
pub fn lower_extension_of(p: &str) -> (r: String)
    ensures
        r@ == lower_extension(p@),
{
    match extension_of(p) {
        Some(e) => to_lowercase(e.as_str()),
        None => String::new(),
    }
}

/// Whether `p` names a video file: its extension, lower-cased, is a video
/// extension.
pub open spec fn is_video_path(p: Seq<char>) -> bool {
    match extension(p) {
        Some(e) => video_extensions().contains(lowercase(e)),
        None => false,
    }
}

/// Whether a path is a supported video file.
pub fn is_video_file(path: &str) -> (r: bool)
    ensures
        r == is_video_path(path@),
{
    match extension_of(path) {
        Some(e) => {
            let l = to_lowercase(e.as_str());
            is_video_extension(l.as_str())
        },
        None => false,
    }
}

/// A character kept in file names: a letter or digit (Unicode, as
/// `char::is_alphanumeric` says), `-` or `_`; anything else becomes `_`.
pub open spec fn sanitize_char(c: char) -> char {
    if alphanumeric(c) || c == '-' || c == '_' {
        c
    } else {
        '_'
    }
}

/// A project name made safe for file names.
pub open spec fn sanitized(name: Seq<char>) -> Seq<char> {
    name.map_values(|c: char| sanitize_char(c))
}

/// A sanitized name has as many characters as the name; each is the
/// name's own character where that is a letter, a digit, `-` or `_`, and
/// `_` elsewhere.
pub proof fn law_sanitized_is_file_safe(name: Seq<char>)
    ensures
        sanitized(name).len() == name.len(),
        forall|k: int|
            0 <= k < name.len() ==> {
                let c = #[trigger] sanitized(name)[k];
                &&& (c == name[k] || c == '_')
                &&& (alphanumeric(c) || c == '-' || c == '_')
            },
{
}

/// Makes a project name safe for file names: every character that is not a
/// letter or digit, `-` or `_` becomes `_`.
pub fn sanitize_name(name: &str) -> (r: String)
    ensures
        r@ == sanitized(name@),
{
    let v = chars_of(name);
    let mut out: Vec<char> = Vec::new();
    let mut i: usize = 0;
    while i < v.len()
        invariant
            i <= v.len(),
            out@ == sanitized(v@.take(i as int)),
        decreases v.len() - i,
    {
        let c = v[i];
        let keep = is_alphanumeric(c) || c == '-' || c == '_';
        out.push(if keep { c } else { '_' });
        i = i + 1;
        assert(out@ =~= sanitized(v@.take(i as int)));
    }
    assert(v@.take(v.len() as int) == v@);
    string_of(&out)
}

/// The workspace of an import of project `project_name` started at
/// `timestamp`, under the temporary folder `base`:
/// `{base}/{sanitized name}_{timestamp}`, files in its `files` subfolder.
pub fn workspace_for(base: &str, project_name: &str, timestamp: &str) -> (w: PipelineWorkspace)
    ensures
        w.temp_dir@ == join_path(base@, sanitized(project_name@) + seq!['_'] + timestamp@),
        w.dng_dir@ == join_path(w.temp_dir@, "files"@),
{
    let mut name: Vec<char> = chars_of(sanitize_name(project_name).as_str());
    name.push('_');
    push_str(&mut name, timestamp);
    let temp_dir = join(base, string_of(&name).as_str());
    let dng_dir = join(temp_dir.as_str(), "files");
    PipelineWorkspace { temp_dir, dng_dir }
}

/// Whether a source file is copied into the workspace: it is a regular file
/// (`is_file`) with a supported extension and a file name.
pub open spec fn is_copied(path: Seq<char>, is_file: bool) -> bool {
    is_file && supported_extensions().contains(lower_extension(path)) && file_name(path) is Some
}

/// The copies into `dest` of the selected source files, in order: each as
/// (source, `dest/<file name>`).
pub open spec fn copy_plan(files: Seq<(Seq<char>, bool)>, dest: Seq<char>) -> Seq<(Seq<char>, Seq<char>)>
    decreases files.len(),
{
    if files.len() == 0 {
        Seq::<(Seq<char>, Seq<char>)>::empty()
    } else {
        let rest = copy_plan(files.drop_last(), dest);
        let (p, f) = files.last();
        if is_copied(p, f) {
            rest.push((p, join_path(dest, file_name(p)->0)))
        } else {
            rest
        }
    }
}

/// Whether `x` is one of the photo extensions an import accepts: the raw
/// formats of Canon, Nikon, Sony, Fujifilm, Olympus, Panasonic and Adobe,
/// JPEG and TIFF, in lower case.
pub open spec fn photo_extension(x: Seq<char>) -> bool {
    x == "cr2"@ || x == "cr3"@ || x == "nef"@ || x == "arw"@ || x == "raf"@ || x == "orf"@ || x == "rw2"@ || x == "dng"@ || x == "jpg"@ || x == "jpeg"@ || x == "tif"@ || x == "tiff"@
}

/// Whether `path` (a regular file when `is_file`) is a photo an import
/// copies: it has a file name whose extension, whatever its letter case,
/// lower-cases to a photo extension.
pub open spec fn copyable_photo(path: Seq<char>, is_file: bool) -> bool {
    &&& is_file
    &&& file_name(path) is Some
    &&& (extension(path) matches Some(e) && photo_extension(lowercase(e)))
}

proof fn lemma_supported_is_photo_extension(x: Seq<char>)
    ensures
        supported_extensions().contains(x) <==> photo_extension(x),
{
    if photo_extension(x) {
        if x == "cr2"@ {
            assert(supported_extensions()[0] == x);
        }
        if x == "cr3"@ {
            assert(supported_extensions()[1] == x);
        }
        if x == "nef"@ {
            assert(supported_extensions()[2] == x);
        }
        if x == "arw"@ {
            assert(supported_extensions()[3] == x);
        }
        if x == "raf"@ {
            assert(supported_extensions()[4] == x);
        }
        if x == "orf"@ {
            assert(supported_extensions()[5] == x);
        }
        if x == "rw2"@ {
            assert(supported_extensions()[6] == x);
        }
        if x == "dng"@ {
            assert(supported_extensions()[7] == x);
        }
        if x == "jpg"@ {
            assert(supported_extensions()[8] == x);
        }
        if x == "jpeg"@ {
            assert(supported_extensions()[9] == x);
        }
        if x == "tif"@ {
            assert(supported_extensions()[10] == x);
        }
        if x == "tiff"@ {
            assert(supported_extensions()[11] == x);
        }
    }
    if supported_extensions().contains(x) {
        let j = choose|j: int| 0 <= j < supported_extensions().len() && supported_extensions()[j] == x;
        assert(photo_extension(supported_extensions()[j]));
    }
}

/// What the copy into the workspace takes: every regular file with a file
/// name whose extension, lower-cased, is a photo extension (so `IMG.CR2`
/// as well as `IMG.cr2`) is copied into `dest` under its own file name, in
/// the order given; nothing else is copied.
pub proof fn law_copy_plan(files: Seq<(Seq<char>, bool)>, dest: Seq<char>)
    ensures
        forall|k: int|
            0 <= k < files.len() && copyable_photo(#[trigger] files[k].0, files[k].1) ==> copy_plan(
                files,
                dest,
            ).contains((files[k].0, join_path(dest, file_name(files[k].0)->0))),
        forall|j: int|
            #![trigger copy_plan(files, dest)[j]]
            0 <= j < copy_plan(files, dest).len() ==> exists|k: int|
                #![trigger files[k]]
                0 <= k < files.len() && copyable_photo(files[k].0, files[k].1) && copy_plan(files, dest)[j]
                    == (files[k].0, join_path(dest, file_name(files[k].0)->0)),
    decreases files.len(),
{
    if files.len() > 0 {
        let init = files.drop_last();
        law_copy_plan(init, dest);
        let (p, f) = files.last();
        let rest = copy_plan(init, dest);
        reveal_strlit("cr2");
        reveal_strlit("cr3");
        reveal_strlit("nef");
        reveal_strlit("arw");
        reveal_strlit("raf");
        reveal_strlit("orf");
        reveal_strlit("rw2");
        reveal_strlit("dng");
        reveal_strlit("jpg");
        reveal_strlit("jpeg");
        reveal_strlit("tif");
        reveal_strlit("tiff");
        lemma_supported_is_photo_extension(lower_extension(p));
        assert(is_copied(p, f) <==> copyable_photo(p, f)) by {
            if extension(p) is None {
                assert(!photo_extension(Seq::<char>::empty()));
            }
        }
        assert forall|k: int| 0 <= k < files.len() && copyable_photo(#[trigger] files[k].0, files[k].1) implies copy_plan(
            files,
            dest,
        ).contains((files[k].0, join_path(dest, file_name(files[k].0)->0))) by {
            if k < files.len() - 1 {
                assert(files[k] == init[k]);
                let j = choose|j: int| 0 <= j < rest.len() && rest[j] == (init[k].0, join_path(dest, file_name(init[k].0)->0));
                if is_copied(p, f) {
                    assert(copy_plan(files, dest)[j] == rest[j]);
                }
            } else {
                assert(copy_plan(files, dest).last() == (p, join_path(dest, file_name(p)->0)));
            }
        }
        assert forall|j: int| #![trigger copy_plan(files, dest)[j]] 0 <= j < copy_plan(files, dest).len() implies exists|k: int|
            #![trigger files[k]]
            0 <= k < files.len() && copyable_photo(files[k].0, files[k].1) && copy_plan(files, dest)[j]
                == (files[k].0, join_path(dest, file_name(files[k].0)->0)) by {
            if j < rest.len() {
                let k = choose|k: int|
                    #![trigger init[k]]
                    0 <= k < init.len() && copyable_photo(init[k].0, init[k].1) && rest[j] == (
                        init[k].0,
                        join_path(dest, file_name(init[k].0)->0),
                    );
                assert(files[k] == init[k]);
                assert(copy_plan(files, dest)[j] == rest[j]);
            } else {
                assert(files[files.len() - 1] == (p, f));
            }
        }
    }
}

/// Views of a list of (path, is-file) pairs.
pub open spec fn file_views(v: Seq<(String, bool)>) -> Seq<(Seq<char>, bool)> {
    v.map_values(|t: (String, bool)| (t.0@, t.1))
}

/// Views of a list of (source, destination) pairs.
pub open spec fn pair_views(v: Seq<(String, String)>) -> Seq<(Seq<char>, Seq<char>)> {
    v.map_values(|t: (String, String)| (t.0@, t.1@))
}

/// Message when no file is left to import.
pub open spec fn msg_no_files() -> Seq<char> {
    "No files to process"@
}

/// Step 1 of the pipeline (no conversion): the copies of the selected
/// source files into the workspace folder `dest_dir`, skipping what is not a
/// regular file (`.1` false) or has an unsupported extension; an error when
/// nothing is left to copy.
pub fn pipeline_passthrough(source_files: &Vec<(String, bool)>, dest_dir: &str) -> (r: Result<
    Vec<(String, String)>,
    ConvertError,
>)
    ensures
        r matches Ok(v) ==> pair_views(v@) == copy_plan(file_views(source_files@), dest_dir@)
            && v@.len() > 0,
        r matches Err(e) ==> e matches ConvertError::DngError(m) && m@ == msg_no_files()
            && copy_plan(file_views(source_files@), dest_dir@).len() == 0,
        forall|k: int|
            0 <= k < source_files.len() && copyable_photo(
                #[trigger] source_files@[k].0@,
                source_files@[k].1,
            ) ==> (r matches Ok(v) && pair_views(v@).contains(
                (source_files@[k].0@, join_path(dest_dir@, file_name(source_files@[k].0@)->0)),
            )),
{
    let ghost fv = file_views(source_files@);
    let mut plan: Vec<(String, String)> = Vec::new();
    let mut i: usize = 0;
    while i < source_files.len()
        invariant
            i <= source_files.len(),
            fv == file_views(source_files@),
            pair_views(plan@) == copy_plan(fv.take(i as int), dest_dir@),
        decreases source_files.len() - i,
    {
        proof {
            assert(fv.take(i + 1).drop_last() == fv.take(i as int));
            assert(fv.take(i + 1).last() == fv[i as int]);
        }
        let path = &source_files[i].0;
        let is_file = source_files[i].1;
        if is_file {
            let ext = lower_extension_of(path.as_str());
            if is_supported_extension(ext.as_str()) {
                match file_name_of(path.as_str()) {
                    Some(f) => {
                        let target = join(dest_dir, f.as_str());
                        let ghost prev = pair_views(plan@);
                        plan.push((path.clone(), target));
                        assert(pair_views(plan@) =~= prev.push((path@, target@)));
                    },
                    None => {},
                }
            }
        }
        i = i + 1;
    }
    assert(fv.take(source_files.len() as int) == fv);
    proof {
        law_copy_plan(fv, dest_dir@);
        assert forall|k: int|
            0 <= k < source_files.len() && copyable_photo(
                #[trigger] source_files@[k].0@,
                source_files@[k].1,
            ) implies pair_views(plan@).contains(
                (source_files@[k].0@, join_path(dest_dir@, file_name(source_files@[k].0@)->0)),
            ) by {
            assert(fv[k] == (source_files@[k].0@, source_files@[k].1));
            assert(copyable_photo(fv[k].0, fv[k].1));
        }
    }
    if plan.len() == 0 {
        let m = chars_of("No files to process");
        return Err(ConvertError::DngError(string_of(&m)));
    }
    Ok(plan)
}

/// `[prefix + v]` when `v` is present and not empty, else nothing.
pub open spec fn opt_arg(prefix: Seq<char>, v: Option<String>) -> Seq<Seq<char>> {
    match v {
        Some(s) => if s@.len() > 0 {
            seq![prefix + s@]
        } else {
            Seq::<Seq<char>>::empty()
        },
        None => Seq::<Seq<char>>::empty(),
    }
}

/// `[p1 + v, p2 + v]` when `v` is present and not empty, else nothing.
pub open spec fn opt_arg2(p1: Seq<char>, p2: Seq<char>, v: Option<String>) -> Seq<Seq<char>> {
    match v {
        Some(s) => if s@.len() > 0 {
            seq![p1 + s@, p2 + s@]
        } else {
            Seq::<Seq<char>>::empty()
        },
        None => Seq::<Seq<char>>::empty(),
    }
}

/// The exiftool arguments for the photographer's metadata.
pub open spec fn metadata_args(m: Option<PhotographerMetadata>) -> Seq<Seq<char>> {
    match m {
        Some(meta) => opt_arg2("-Artist="@, "-XMP-dc:Creator="@, meta.artist) + opt_arg2(
            "-Copyright="@,
            "-XMP-dc:Rights="@,
            meta.copyright,
        ) + opt_arg("-XMP-iptcCore:CreatorWorkURL="@, meta.contact_url) + opt_arg(
            "-XMP-iptcCore:CreatorWorkEmail="@,
            meta.contact_email,
        ) + opt_arg("-XMP-xmpRights:UsageTerms="@, meta.usage_terms),
        None => Seq::<Seq<char>>::empty(),
    }
}

/// The exiftool arguments for the image description.
pub open spec fn description_args(d: Option<Seq<char>>) -> Seq<Seq<char>> {
    match d {
        Some(s) => if s.len() > 0 {
            seq!["-ImageDescription="@ + s, "-XMP-dc:Description="@ + s]
        } else {
            Seq::<Seq<char>>::empty()
        },
        None => Seq::<Seq<char>>::empty(),
    }
}

/// The exiftool invocation that renames every file of `dir` to
/// `YYYY-MM-DD__HH-MM-SS__<project>__NNN.<ext>` after its DateTimeOriginal
/// and writes the photographer's metadata into it.
pub open spec fn exiftool_args_spec(
    dir: Seq<char>,
    project_name: Seq<char>,
    metadata: Option<PhotographerMetadata>,
    description: Option<Seq<char>>,
) -> Seq<Seq<char>> {
    seq![
        "-d"@,
        "%Y-%m-%d__%H-%M-%S"@,
        "-FileName<${DateTimeOriginal}__"@ + sanitized(project_name) + "__%03c.%le"@,
        "-overwrite_original"@,
    ] + metadata_args(metadata) + description_args(description) + seq![dir]
}

/// Appends `prefix + v` when `v` is present and not empty.
fn push_opt_arg(args: &mut Vec<String>, prefix: &str, v: &Option<String>)
    ensures
        final(args)@.map_values(|s: String| s@) == old(args)@.map_values(|s: String| s@) + opt_arg(
            prefix@,
            *v,
        ),
{
    match v {
        Some(s) => {
            if !s.as_str().is_empty() {
                let mut a = chars_of(prefix);
                push_str(&mut a, s.as_str());
                let ghost prev = args@.map_values(|s: String| s@);
                args.push(string_of(&a));
                assert(args@.map_values(|s: String| s@) =~= prev + opt_arg(prefix@, *v));
            } else {
                assert(opt_arg(prefix@, *v) =~= Seq::<Seq<char>>::empty());
                assert(old(args)@.map_values(|s: String| s@) + opt_arg(prefix@, *v) =~= old(args)@.map_values(|s: String| s@));
            }
        },
        None => {
            assert(old(args)@.map_values(|s: String| s@) + opt_arg(prefix@, *v) =~= old(args)@.map_values(|s: String| s@));
        },
    }
}

/// Appends `p1 + v` and `p2 + v` when `v` is present and not empty.
fn push_opt_arg2(args: &mut Vec<String>, p1: &str, p2: &str, v: &Option<String>)
    ensures
        final(args)@.map_values(|s: String| s@) == old(args)@.map_values(|s: String| s@)
            + opt_arg2(p1@, p2@, *v),
{
    match v {
        Some(s) => {
            if !s.as_str().is_empty() {
                let mut a = chars_of(p1);
                push_str(&mut a, s.as_str());
                let mut b = chars_of(p2);
                push_str(&mut b, s.as_str());
                let ghost prev = args@.map_values(|s: String| s@);
                args.push(string_of(&a));
                args.push(string_of(&b));
                assert(args@.map_values(|s: String| s@) =~= prev + opt_arg2(p1@, p2@, *v));
            } else {
                assert(old(args)@.map_values(|s: String| s@) + opt_arg2(p1@, p2@, *v) =~= old(args)@.map_values(|s: String| s@));
            }
        },
        None => {
            assert(old(args)@.map_values(|s: String| s@) + opt_arg2(p1@, p2@, *v) =~= old(args)@.map_values(|s: String| s@));
        },
    }
}

/// The exiftool arguments of the desktop metadata step: rename each file
/// of `dir` after its DateTimeOriginal and the sanitized project name, and
/// embed the photographer's metadata and the image description.
pub fn exiftool_metadata_args(
    dir: &str,
    project_name: &str,
    metadata: &Option<PhotographerMetadata>,
    image_description: Option<&str>,
) -> (args: Vec<String>)
    ensures
        args@.map_values(|s: String| s@) == exiftool_args_spec(
            dir@,
            project_name@,
            *metadata,
            match image_description {
                Some(d) => Some(d@),
                None => None,
            },
        ),
{
    let mut args: Vec<String> = Vec::new();
    args.push(string_of(&chars_of("-d")));
    args.push(string_of(&chars_of("%Y-%m-%d__%H-%M-%S")));
    let mut tag = chars_of("-FileName<${DateTimeOriginal}__");
    let s = sanitize_name(project_name);
    push_str(&mut tag, s.as_str());
    push_str(&mut tag, "__%03c.%le");
    args.push(string_of(&tag));
    args.push(string_of(&chars_of("-overwrite_original")));
    let ghost head = args@.map_values(|s: String| s@);
    assert(head =~= seq![
        "-d"@,
        "%Y-%m-%d__%H-%M-%S"@,
        "-FileName<${DateTimeOriginal}__"@ + sanitized(project_name@) + "__%03c.%le"@,
        "-overwrite_original"@,
    ]);
    match metadata {
        Some(meta) => {
            push_opt_arg2(&mut args, "-Artist=", "-XMP-dc:Creator=", &meta.artist);
            push_opt_arg2(&mut args, "-Copyright=", "-XMP-dc:Rights=", &meta.copyright);
            push_opt_arg(&mut args, "-XMP-iptcCore:CreatorWorkURL=", &meta.contact_url);
            push_opt_arg(&mut args, "-XMP-iptcCore:CreatorWorkEmail=", &meta.contact_email);
            push_opt_arg(&mut args, "-XMP-xmpRights:UsageTerms=", &meta.usage_terms);
        },
        None => {},
    }
    assert(args@.map_values(|s: String| s@) =~= head + metadata_args(*metadata));
    let ghost mid = args@.map_values(|s: String| s@);
    match image_description {
        Some(desc) => {
            if !desc.is_empty() {
                let mut a = chars_of("-ImageDescription=");
                push_str(&mut a, desc);
                let mut b = chars_of("-XMP-dc:Description=");
                push_str(&mut b, desc);
                args.push(string_of(&a));
                args.push(string_of(&b));
            }
        },
        None => {},
    }
    let ghost dview = match image_description {
        Some(d) => Some(d@),
        None => None,
    };
    assert(args@.map_values(|s: String| s@) =~= mid + description_args(dview));
    args.push(string_of(&chars_of(dir)));
    assert(args@.map_values(|s: String| s@) =~= exiftool_args_spec(dir@, project_name@, *metadata, dview));
    args
}

/// An EXIF date (`2025:01:15 14:30:00`) as used in renamed files
/// (`2025-01-15__14-30-00`): the first two `:` become `-`, spaces become
/// `__`, then the next two `:` become `-`.
pub open spec fn rename_datetime(dt: Seq<char>) -> Seq<char> {
    replace_first_n(replace_char_str(replace_first_n(dt, ':', '-', 2), ' ', "__"@), ':', '-', 2)
}

/// Turns an EXIF date into the date part of a renamed file.
pub fn datetime_for_rename(dt: &str) -> (r: String)
    ensures
        r@ == rename_datetime(dt@),
{
    let v = chars_of(dt);
    let a = replace_first_n_chars(&v, ':', '-', 2);
    let b = replace_char_str_chars(&a, ' ', "__");
    let c = replace_first_n_chars(&b, ':', '-', 2);
    string_of(&c)
}

/// The name given to the `index`-th file (from 1) on Android:
/// `{datetime}__{project}__{index:03}.{ext}`.
pub open spec fn android_file_name_spec(
    datetime: Seq<char>,
    project: Seq<char>,
    index: nat,
    ext: Seq<char>,
) -> Seq<char> {
    datetime + "__"@ + project + "__"@ + padded_decimal(index, 3) + "."@ + ext
}

/// The name given to the `index`-th file (from 1) on Android.
pub fn android_file_name(datetime: &str, sanitized_project: &str, index: u64, ext: &str) -> (r:
    String)
    ensures
        r@ == android_file_name_spec(datetime@, sanitized_project@, index as nat, ext@),
{
    let mut v = chars_of(datetime);
    push_str(&mut v, "__");
    push_str(&mut v, sanitized_project);
    push_str(&mut v, "__");
    let n = padded_decimal_of(index, 3);
    push_chars(&mut v, &n);
    push_str(&mut v, ".");
    push_str(&mut v, ext);
    string_of(&v)
}

/// Whether the extension of `p` is `xmp` in any ASCII case.
pub open spec fn is_xmp_path(p: Seq<char>) -> bool {
    match extension(p) {
        Some(e) => e.len() == 3 && (e[0] == 'x' || e[0] == 'X') && (e[1] == 'm' || e[1] == 'M')
            && (e[2] == 'p' || e[2] == 'P'),
        None => false,
    }
}

/// Whether a moved file is an XMP sidecar (left out of EXIF reading and
/// thumbnails).
pub fn is_xmp_sidecar(path: &str) -> (r: bool)
    ensures
        r == is_xmp_path(path@),
{
    match extension_of(path) {
        Some(e) => {
            let v = chars_of(e.as_str());
            v.len() == 3 && (v[0] == 'x' || v[0] == 'X') && (v[1] == 'm' || v[1] == 'M') && (v[2]
                == 'p' || v[2] == 'P')
        },
        None => false,
    }
}

/// Progress record of a pipeline phase (`index` of 3).
pub fn phase(session_id: &str, index: usize, label: &str, step: ImportPhase) -> (r: ImportProgress)
    ensures
        r.session_id@ == session_id@,
        r.current_index == index,
        r.total_files == 3,
        r.current_file@ == label@,
        r.phase == step,
        r.error is None,
{
    ImportProgress {
        session_id: string_of(&chars_of(session_id)),
        current_index: index,
        total_files: 3,
        current_file: string_of(&chars_of(label)),
        phase: step,
        error: None,
    }
}

} // verus!
