//! What the app's commands decide, apart from the database, the file system
//! and the window they talk to: the import request and its result, the
//! description written into imported photos, the folder a project gets or
//! moves to, and the messages shown to the user.
use vstd::prelude::*;
use vstd::string::StringSliceAdditionalSpecFns;
use crate::application::use_cases::import_photos::ImportOutcome;
use crate::domain::project::{date_parts_spec, folder_name_spec, project_path_spec, slug_spec, ProjectFolder};
use crate::import::pipeline::{is_video_file, is_video_path};
use crate::application::ports::ProgressReporter;
use crate::import::progress::{ImportPhase, ImportProgress, ImportResult};
use crate::metadata::strs;
use crate::pathstr::{components, file_name, is_absolute, join_path, parent, rebuild};
use crate::search::find;
use crate::text::{chars_of, decimal, decimal_of, push_chars, push_str, string_of, trim, trim_chars};

verus! {

broadcast use vstd::utf8::encode_utf8_decode_utf8;

/// An import started from the UI.
#[derive(Debug, Clone)]
pub struct ImportRequest {
    pub session_id: String,
    pub source_files: Vec<String>,
    pub project_id: String,
    pub device_uuid: String,
    pub mount_point: String,
    pub project_name: String,
}

// ---------------------------------------------------------------------------
// Messages
// ---------------------------------------------------------------------------

/// The error for a project whose device is not mounted.
pub fn project_unavailable(project_id: &str) -> (r: String)
    ensures
        r@ == "Project '"@ + project_id@ + "' not available — device may not be mounted"@,
{
    let mut v = chars_of("Project '");
    push_str(&mut v, project_id);
    push_str(&mut v, "' not available — device may not be mounted");
    string_of(&v)
}

/// The error for a device that is not mounted.
pub fn device_not_mounted(device_uuid: &str) -> (r: String)
    ensures
        r@ == "Device '"@ + device_uuid@ + "' is not mounted"@,
{
    let mut v = chars_of("Device '");
    push_str(&mut v, device_uuid);
    push_str(&mut v, "' is not mounted");
    string_of(&v)
}

/// The log line after the project folder moved.
pub fn folder_moved_message(dir: &str) -> (r: String)
    ensures
        r@ == "Carpeta movida a "@ + dir@,
{
    let mut v = chars_of("Carpeta movida a ");
    push_str(&mut v, dir);
    string_of(&v)
}

/// The summary logged at the end of an import.
pub open spec fn completion_text(successful: nat, videos: nat, failed: nat) -> Seq<char> {
    "Importación completada: "@ + decimal(successful) + " fotos"@ + (if videos > 0 {
        " · "@ + decimal(videos) + " videos"@
    } else {
        Seq::empty()
    }) + (if failed > 0 {
        " · "@ + decimal(failed) + " errores"@
    } else {
        Seq::empty()
    })
}

/// The summary of an import: photos, then videos and errors when there
/// were any.
pub fn completion_message(successful: usize, videos: usize, failed: usize) -> (r: String)
    ensures
        r@ == completion_text(successful as nat, videos as nat, failed as nat),
{
    let mut v = chars_of("Importación completada: ");
    push_chars(&mut v, &decimal_of(successful as u64));
    push_str(&mut v, " fotos");
    let ghost head = v@;
    if videos > 0 {
        push_str(&mut v, " · ");
        push_chars(&mut v, &decimal_of(videos as u64));
        push_str(&mut v, " videos");
    } else {
        assert(v@ =~= head + Seq::<char>::empty());
    }
    let ghost mid = v@;
    if failed > 0 {
        push_str(&mut v, " · ");
        push_chars(&mut v, &decimal_of(failed as u64));
        push_str(&mut v, " errores");
    } else {
        assert(v@ =~= mid + Seq::<char>::empty());
    }
    string_of(&v)
}

/// The result of an import session of `total_files` files.
pub fn import_result(session_id: &str, total_files: usize, outcome: ImportOutcome) -> (r: ImportResult)
    ensures
        r.session_id@ == session_id@,
        r.total_files == total_files,
        r.successful == outcome.successful,
        r.failed == outcome.failed_files@.len(),
        r.failed_files == outcome.failed_files,
        r.videos_copied == outcome.videos_copied,
{
    let failed = outcome.failed_files.len();
    ImportResult {
        session_id: string_of(&chars_of(session_id)),
        total_files,
        successful: outcome.successful,
        failed,
        failed_files: outcome.failed_files,
        videos_copied: outcome.videos_copied,
    }
}

// ---------------------------------------------------------------------------
// Import
// ---------------------------------------------------------------------------

/// The year of a date: its first four bytes when they end on a character
/// boundary, else empty.
pub open spec fn year_of(bytes: Seq<u8>) -> Seq<char> {
    if vstd::utf8::is_char_boundary(bytes, 4) {
        vstd::utf8::decode_utf8(bytes.subrange(0, 4))
    } else {
        Seq::empty()
    }
}

/// The description written into imported photos: `{description}@{year}`,
/// the year from the session date or else the creation date; none without
/// a description.
pub open spec fn image_description_spec(
    description: Option<Seq<char>>,
    session_date: Option<Seq<u8>>,
    created_at: Seq<u8>,
) -> Option<Seq<char>> {
    match description {
        Some(d) => if d.len() > 0 {
            Some(
                d + seq!['@'] + year_of(
                    match session_date {
                        Some(s) => s,
                        None => created_at,
                    },
                ),
            )
        } else {
            None
        },
        None => None,
    }
}

/// The description for the photos of a project.
pub fn image_description(
    description: Option<&str>,
    session_date: Option<&str>,
    created_at: &str,
) -> (r: Option<String>)
    ensures
        match r {
            Some(t) => image_description_spec(
                match description {
                    Some(d) => Some(d@),
                    None => None,
                },
                match session_date {
                    Some(s) => Some(s.spec_bytes()),
                    None => None,
                },
                created_at.spec_bytes(),
            ) == Some(t@),
            None => image_description_spec(
                match description {
                    Some(d) => Some(d@),
                    None => None,
                },
                match session_date {
                    Some(s) => Some(s.spec_bytes()),
                    None => None,
                },
                created_at.spec_bytes(),
            ) is None,
        },
{
    let d = match description {
        Some(d) => d,
        None => return None,
    };
    if d.is_empty() {
        return None;
    }
    let date: &str = match session_date {
        Some(s) => s,
        None => created_at,
    };
    let mut v = chars_of(d);
    v.push('@');
    if date.is_char_boundary(4) {
        let (y, _rest) = date.split_at(4);
        let yv = chars_of(y);
        push_chars(&mut v, &yv);
    } else {
        assert(v@ =~= v@ + Seq::<char>::empty());
    }
    Some(string_of(&v))
}

/// The first `n` paths that are (`videos`) or are not video files, in order.
pub open spec fn media_of_kind(paths: Seq<Seq<char>>, videos: bool, n: int) -> Seq<Seq<char>>
    decreases n,
{
    if n <= 0 {
        Seq::empty()
    } else if is_video_path(paths[n - 1]) == videos {
        media_of_kind(paths, videos, n - 1).push(paths[n - 1])
    } else {
        media_of_kind(paths, videos, n - 1)
    }
}

/// The source files split into (videos, photos), each in order.
pub fn partition_media(paths: &Vec<String>) -> (r: (Vec<String>, Vec<String>))
    ensures
        strs(r.0@) == media_of_kind(strs(paths@), true, paths@.len() as int),
        strs(r.1@) == media_of_kind(strs(paths@), false, paths@.len() as int),
{
    let ghost ps = strs(paths@);
    let mut videos: Vec<String> = Vec::new();
    let mut photos: Vec<String> = Vec::new();
    let mut i: usize = 0;
    while i < paths.len()
        invariant
            i <= paths.len(),
            ps == strs(paths@),
            strs(videos@) == media_of_kind(ps, true, i as int),
            strs(photos@) == media_of_kind(ps, false, i as int),
        decreases paths.len() - i,
    {
        let p = paths[i].as_str();
        let c = string_of(&chars_of(p));
        if is_video_file(p) {
            let ghost before = strs(videos@);
            videos.push(c);
            assert(strs(videos@) =~= before.push(ps[i as int]));
        } else {
            let ghost before = strs(photos@);
            photos.push(c);
            assert(strs(photos@) =~= before.push(ps[i as int]));
        }
        i = i + 1;
    }
    (videos, photos)
}

/// The folder and session date a project gets from the oldest capture
/// date of its photos, when it has no session date yet.
pub open spec fn inferred_session_spec(
    session_date: bool,
    oldest: Option<Seq<char>>,
    mount: Seq<char>,
    name: Seq<char>,
) -> Option<(Seq<char>, Seq<char>)> {
    if session_date {
        None
    } else {
        match oldest {
            None => None,
            Some(o) => match date_parts_spec(o) {
                None => None,
                Some(t) => Some(
                    (
                        project_path_spec(mount, t.0, t.1, t.2, name),
                        t.0 + seq!['-'] + t.1 + seq!['-'] + t.2,
                    ),
                ),
            },
        }
    }
}

/// After an import: the dated folder and `YYYY-MM-DD` session date of a
/// project without a session date, from the oldest capture date.
pub fn inferred_session(
    has_session_date: bool,
    oldest_capture: Option<&str>,
    mount_point: &str,
    project_name: &str,
) -> (r: Option<(String, String)>)
    ensures
        match r {
            Some(t) => inferred_session_spec(
                has_session_date,
                match oldest_capture {
                    Some(o) => Some(o@),
                    None => None,
                },
                mount_point@,
                project_name@,
            ) == Some((t.0@, t.1@)),
            None => inferred_session_spec(
                has_session_date,
                match oldest_capture {
                    Some(o) => Some(o@),
                    None => None,
                },
                mount_point@,
                project_name@,
            ) is None,
        },
{
    if has_session_date {
        return None;
    }
    let o = match oldest_capture {
        Some(o) => o,
        None => return None,
    };
    let (y, m, d) = match ProjectFolder::date_parts(o) {
        Some(t) => t,
        None => return None,
    };
    let dir = ProjectFolder::path(mount_point, y.as_str(), m.as_str(), d.as_str(), project_name);
    let mut date = chars_of(y.as_str());
    date.push('-');
    push_str(&mut date, m.as_str());
    date.push('-');
    push_str(&mut date, d.as_str());
    Some((dir, string_of(&date)))
}

// ---------------------------------------------------------------------------
// Project folders
// ---------------------------------------------------------------------------

/// The folder of a new project: dated by its session date, or by `today`
/// when it has none that reads as a date.
pub open spec fn new_project_dir_spec(
    mount: Seq<char>,
    session_date: Option<Seq<char>>,
    today: Seq<char>,
    name: Seq<char>,
) -> Seq<char> {
    let t = match session_date {
        Some(s) => match date_parts_spec(s) {
            Some(t) => t,
            None => date_parts_spec(today).unwrap(),
        },
        None => date_parts_spec(today).unwrap(),
    };
    project_path_spec(mount, t.0, t.1, t.2, name)
}

/// The folder of a new project on the volume mounted at `mount_point`.
/// `today` (`YYYY-MM-DD`) must read as a date.
pub fn new_project_dir(
    mount_point: &str,
    session_date: Option<&str>,
    today: &str,
    name: &str,
) -> (r: String)
    requires
        date_parts_spec(today@) is Some,
    ensures
        r@ == new_project_dir_spec(
            mount_point@,
            match session_date {
                Some(s) => Some(s@),
                None => None,
            },
            today@,
            name@,
        ),
{
    let parts = match session_date {
        Some(s) => match ProjectFolder::date_parts(s) {
            Some(t) => Some(t),
            None => None,
        },
        None => None,
    };
    let (y, m, d) = match parts {
        Some(t) => t,
        None => match ProjectFolder::date_parts(today) {
            Some(t) => t,
            None => {
                assert(false);
                (String::new(), String::new(), String::new())
            },
        },
    };
    ProjectFolder::path(mount_point, y.as_str(), m.as_str(), d.as_str(), name)
}

/// A new project name: trimmed, and not empty.
pub fn checked_project_name(new_name: &str) -> (r: Result<String, String>)
    ensures
        r matches Ok(n) ==> n@ == trim(new_name@) && n@.len() > 0,
        r is Err <==> trim(new_name@).len() == 0,
        r matches Err(m) ==> m@ == "Project name cannot be empty"@,
{
    let t = trim_chars(&chars_of(new_name));
    if t.len() == 0 {
        Err(string_of(&chars_of("Project name cannot be empty")))
    } else {
        Ok(string_of(&t))
    }
}

/// `p` with its last component replaced by `f` (as `Path::with_file_name`:
/// `f` is appended when `p` has no file name).
pub open spec fn with_file_name(p: Seq<char>, f: Seq<char>) -> Seq<char> {
    match file_name(p) {
        Some(_) => join_path(parent(p).unwrap(), f),
        None => join_path(p, f),
    }
}

/// The folder name a project takes when renamed to `name`: its day prefix
/// (what comes before the first `_`) kept, the slug replaced; only the
/// slug when there is no `_`.
pub open spec fn renamed_folder(old_folder: Seq<char>, name: Seq<char>) -> Seq<char> {
    match find(old_folder, seq!['_']) {
        Some(k) => folder_name_spec(old_folder.take(k), name),
        None => slug_spec(name),
    }
}

/// The folder of project folder `old_dir` after renaming it to `new_name`.
pub open spec fn renamed_dir_spec(old_dir: Seq<char>, new_name: Seq<char>) -> Seq<char> {
    let old_folder = match file_name(old_dir) {
        Some(f) => f,
        None => Seq::empty(),
    };
    with_file_name(old_dir, renamed_folder(old_folder, new_name))
}

/// The folder a project moves to when renamed.
pub fn renamed_project_dir(old_dir: &str, new_name: &str) -> (r: String)
    ensures
        r@ == renamed_dir_spec(old_dir@, new_name@),
{
    let folder: Vec<char> = match crate::pathstr::file_name_of(old_dir) {
        Some(f) => chars_of(f.as_str()),
        None => Vec::new(),
    };
    let us: Vec<char> = vec!['_'];
    assert(us@ =~= seq!['_']);
    let new_folder = match crate::search::find_from_chars(&folder, &us, 0) {
        Some(k) => {
            proof {
                crate::search::lemma_find_from(folder@, us@, 0);
            }
            let day = crate::text::slice_chars(&folder, 0, k);
            assert(day@ =~= folder@.take(k as int));
            ProjectFolder::folder_name(string_of(&day).as_str(), new_name)
        },
        None => ProjectFolder::slug(new_name),
    };
    match crate::pathstr::file_name_of(old_dir) {
        Some(_) => {
            let p = crate::pathstr::parent_of(old_dir);
            proof {
                assert(crate::pathstr::components(old_dir@).len() > 0);
            }
            match p {
                Some(pp) => crate::pathstr::join(pp.as_str(), new_folder.as_str()),
                None => {
                    assert(false);
                    String::new()
                },
            }
        },
        None => crate::pathstr::join(old_dir, new_folder.as_str()),
    }
}

/// A path written with `/` between its components (as the relative paths
/// of photos are stored).
pub open spec fn slash_path(p: Seq<char>) -> Seq<char> {
    rebuild(is_absolute(p), components(p))
}

/// The path of `dir` relative to `mount`, written with `/`; `dir` itself
/// (written with `/`) when it is not under `mount`.
pub open spec fn slash_relative_spec(dir: Seq<char>, mount: Seq<char>) -> Seq<char> {
    match crate::pathstr::strip_prefix(dir, mount) {
        Some(r) => slash_path(r),
        None => slash_path(dir),
    }
}

/// `p` written with `/` between its components.
pub fn path_to_slash(p: &str) -> (r: String)
    ensures
        r@ == slash_path(p@),
{
    let c = crate::pathstr::components_of(p);
    let abs = crate::pathstr::is_absolute_str(p);
    string_of(&crate::pathstr::rebuild_exec(abs, &c))
}

/// The path of `dir` relative to `mount`, written with `/`.
pub fn slash_relative(dir: &str, mount: &str) -> (r: String)
    ensures
        r@ == slash_relative_spec(dir@, mount@),
{
    match crate::pathstr::strip_prefix_of(dir, mount) {
        Some(rel) => path_to_slash(rel.as_str()),
        None => path_to_slash(dir),
    }
}

/// Sends a log line of import session `session_id` to `reporter`.
pub fn emit_log(reporter: &dyn ProgressReporter, session_id: &str, message: &str) {
    reporter.log(session_id, message);
}

/// Sends `reporter` the progress of import session `session_id`: file
/// `file_name`, number `index` of `total`, in `phase`, with `error` if any.
pub fn emit_progress(
    reporter: &dyn ProgressReporter,
    session_id: &str,
    index: usize,
    total: usize,
    file_name: &str,
    phase: ImportPhase,
    error: Option<String>,
) {
    reporter.progress(
        ImportProgress {
            session_id: string_of(&chars_of(session_id)),
            current_index: index,
            total_files: total,
            current_file: string_of(&chars_of(file_name)),
            phase,
            error,
        },
    );
}

/// The default photographer of a system user: e-mail `{user}@local`, alias
/// the first ten characters of the user name.
pub fn default_photographer(username: &str) -> (r: (String, String))
    ensures
        r.0@ == username@ + "@local"@,
        r.1@ == username@.take(if username@.len() < 10 {
            username@.len() as int
        } else {
            10
        }),
{
    let mut email = chars_of(username);
    push_str(&mut email, "@local");
    let v = chars_of(username);
    let n = if v.len() < 10 {
        v.len()
    } else {
        10
    };
    let alias = crate::text::slice_chars(&v, 0, n);
    assert(alias@ =~= username@.take(n as int));
    (string_of(&email), string_of(&alias))
}

} // verus!
