//! The metadata tool's logic around exiftool: the argument lists of its
//! calls, the text sent to a long-running session and the line that ends a
//! reply, the CSV it prints for a batch of files and what is read from each
//! row, and the orientation it prints for one file. Running exiftool is the
//! caller's.
use vstd::prelude::*;
use crate::domain::photo::{chars_eq, degrees_orientation, orientation_degrees};
use crate::keyed::{keep_last, keep_last_entries, keys_of};
use crate::import::xmp::opt_view;
use crate::pathstr::views;
use crate::scan::{lines, lines_of, parse_i32, parse_i32_spec};
use crate::search::{index_of, lemma_index_first, lemma_index_of};
use crate::text::{
    chars_of, decimal, decimal_of, lowercase, push_chars, push_str,
    split_chars, split_on, string_of, to_lowercase, trim, trim_chars,
};

verus! {

// ---------------------------------------------------------------------------
// CSV
// ---------------------------------------------------------------------------

/// The fields of `s` read from position `i`, given the fields already
/// complete, the field being read and whether a quoted section is open.
/// Outside quotes a comma ends a field; a double quote opens or closes
/// quotes, and inside quotes two double quotes stand for one.
pub open spec fn csv_from(
    s: Seq<char>,
    i: int,
    fields: Seq<Seq<char>>,
    cur: Seq<char>,
    in_quotes: bool,
) -> Seq<Seq<char>>
    decreases s.len() - i,
{
    if i < 0 || i >= s.len() {
        fields.push(cur)
    } else if s[i] == '"' {
        if in_quotes && i + 1 < s.len() && s[i + 1] == '"' {
            csv_from(s, i + 2, fields, cur.push('"'), in_quotes)
        } else {
            csv_from(s, i + 1, fields, cur, !in_quotes)
        }
    } else if s[i] == ',' && !in_quotes {
        csv_from(s, i + 1, fields.push(cur), Seq::empty(), in_quotes)
    } else {
        csv_from(s, i + 1, fields, cur.push(s[i]), in_quotes)
    }
}

/// The fields of the CSV line `s`.
pub open spec fn csv_fields(s: Seq<char>) -> Seq<Seq<char>> {
    csv_from(s, 0, Seq::empty(), Seq::empty(), false)
}

/// Reading on adds fields: a line always has at least one.
pub proof fn lemma_csv_from_len(
    s: Seq<char>,
    i: int,
    fields: Seq<Seq<char>>,
    cur: Seq<char>,
    in_quotes: bool,
)
    ensures
        csv_from(s, i, fields, cur, in_quotes).len() > fields.len(),
    decreases s.len() - i,
{
    if i >= 0 && i < s.len() {
        if s[i] == '"' {
            if in_quotes && i + 1 < s.len() && s[i + 1] == '"' {
                lemma_csv_from_len(s, i + 2, fields, cur.push('"'), in_quotes);
            } else {
                lemma_csv_from_len(s, i + 1, fields, cur, !in_quotes);
            }
        } else if s[i] == ',' && !in_quotes {
            lemma_csv_from_len(s, i + 1, fields.push(cur), Seq::empty(), in_quotes);
        } else {
            lemma_csv_from_len(s, i + 1, fields, cur.push(s[i]), in_quotes);
        }
    }
}

/// The fields of the CSV line held in `v`.
pub fn csv_fields_of(v: &Vec<char>) -> (r: Vec<Vec<char>>)
    ensures
        views(r@) == csv_fields(v@),
{
    let mut fields: Vec<Vec<char>> = Vec::new();
    let mut cur: Vec<char> = Vec::new();
    let mut in_quotes = false;
    let mut i: usize = 0;
    assert(views(fields@) =~= Seq::<Seq<char>>::empty());
    while i < v.len()
        invariant
            i <= v.len(),
            csv_fields(v@) == csv_from(v@, i as int, views(fields@), cur@, in_quotes),
        decreases v.len() - i,
    {
        let c = v[i];
        if c == '"' {
            if in_quotes && i + 1 < v.len() && v[i + 1] == '"' {
                cur.push('"');
                i = i + 2;
            } else {
                in_quotes = !in_quotes;
                i = i + 1;
            }
        } else if c == ',' && !in_quotes {
            let ghost before = views(fields@);
            let done = cur;
            fields.push(done);
            assert(views(fields@) =~= before.push(done@));
            cur = Vec::new();
            assert(cur@ =~= Seq::<char>::empty());
            i = i + 1;
        } else {
            cur.push(c);
            i = i + 1;
        }
    }
    let ghost before = views(fields@);
    let last = cur;
    fields.push(last);
    assert(views(fields@) =~= before.push(last@));
    fields
}

/// Splits one CSV line into its fields (double-quoted fields may hold
/// commas; `""` inside quotes is one `"`).
pub fn parse_csv_line(line: &str) -> (r: Vec<String>)
    ensures
        r@.map_values(|s: String| s@) == csv_fields(line@),
{
    let v = chars_of(line);
    let fs = csv_fields_of(&v);
    let mut r: Vec<String> = Vec::new();
    let mut i: usize = 0;
    while i < fs.len()
        invariant
            i <= fs.len(),
            views(fs@) == csv_fields(line@),
            r@.map_values(|s: String| s@) == views(fs@).take(i as int),
        decreases fs.len() - i,
    {
        let ghost before = r@.map_values(|s: String| s@);
        r.push(string_of(&fs[i]));
        assert(r@.map_values(|s: String| s@) =~= before.push(fs@[i as int]@));
        assert(views(fs@).take(i + 1) =~= views(fs@).take(i as int).push(fs@[i as int]@));
        i = i + 1;
    }
    assert(views(fs@).take(fs.len() as int) =~= views(fs@));
    r
}

// ---------------------------------------------------------------------------
// Batch metadata CSV
// ---------------------------------------------------------------------------

/// The column names of the header line: each field trimmed and lowercased.
pub open spec fn header_names(header: Seq<char>) -> Seq<Seq<char>> {
    csv_fields(header).map_values(|h: Seq<char>| lowercase(trim(h)))
}

/// The trimmed value of column `name` in `fields`, when the column exists
/// and the value is not empty.
pub open spec fn csv_value(names: Seq<Seq<char>>, fields: Seq<Seq<char>>, name: Seq<char>) -> Option<
    Seq<char>,
> {
    let i = index_of(names, name);
    if i < names.len() && i < fields.len() {
        let t = trim(fields[i]);
        if t.len() > 0 {
            Some(t)
        } else {
            None
        }
    } else {
        None
    }
}

/// An optional text read as an `i32`.
pub open spec fn int_value(o: Option<Seq<char>>) -> Option<i32> {
    match o {
        Some(t) => parse_i32_spec(t),
        None => None,
    }
}

/// The first of three optional values that is present.
pub open spec fn first_present(
    a: Option<Seq<char>>,
    b: Option<Seq<char>>,
    c: Option<Seq<char>>,
) -> Option<Seq<char>> {
    if a is Some {
        a
    } else if b is Some {
        b
    } else {
        c
    }
}

/// The camera name: make and model joined by a space, or the make alone; no
/// name without a make.
pub open spec fn camera_of(make: Option<Seq<char>>, model: Option<Seq<char>>) -> Option<Seq<char>> {
    match make {
        Some(a) => match model {
            Some(b) => Some(a + " "@ + b),
            None => Some(a),
        },
        None => None,
    }
}

/// The rotation for an optional EXIF orientation (0 when absent).
pub open spec fn rotation_of(o: Option<i32>) -> int {
    match o {
        Some(v) => orientation_degrees(v as int),
        None => 0,
    }
}

/// What one row of the batch CSV says of one file. `fnumber`,
/// `exposure_time` and `exposure_compensation` are the texts exiftool
/// printed; formatting the aperture and shutter speed from them, and reading
/// the compensation as a number, is left to the caller.
#[derive(Debug, Clone)]
pub struct ExiftoolRow {
    pub path: String,
    pub width: Option<i32>,
    pub height: Option<i32>,
    pub capture_date: Option<String>,
    pub camera: Option<String>,
    pub iso: Option<i32>,
    pub fnumber: Option<String>,
    pub exposure_time: Option<String>,
    pub exposure_compensation: Option<String>,
    pub focal_length: Option<String>,
    pub lens_model: Option<String>,
    pub rotation: i32,
}

/// `r` is what the row `fields` says under the column names `names`.
pub open spec fn row_matches(r: ExiftoolRow, names: Seq<Seq<char>>, fields: Seq<Seq<char>>) -> bool {
    &&& r.path@ == trim(fields[0])
    &&& r.width == int_value(csv_value(names, fields, "imagewidth"@))
    &&& r.height == int_value(csv_value(names, fields, "imageheight"@))
    &&& opt_view(r.capture_date) == first_present(
        csv_value(names, fields, "datetimeoriginal"@),
        csv_value(names, fields, "createdate"@),
        csv_value(names, fields, "modifydate"@),
    )
    &&& opt_view(r.camera) == camera_of(
        csv_value(names, fields, "make"@),
        csv_value(names, fields, "model"@),
    )
    &&& r.iso == int_value(csv_value(names, fields, "iso"@))
    &&& opt_view(r.fnumber) == csv_value(names, fields, "fnumber"@)
    &&& opt_view(r.exposure_time) == csv_value(names, fields, "exposuretime"@)
    &&& opt_view(r.exposure_compensation) == csv_value(names, fields, "exposurecompensation"@)
    &&& opt_view(r.focal_length) == csv_value(names, fields, "focallength"@)
    &&& opt_view(r.lens_model) == csv_value(names, fields, "lensmodel"@)
    &&& r.rotation == rotation_of(int_value(csv_value(names, fields, "orientation"@)))
}

/// The cell of column `i` in the row `fields`: its text trimmed; absent
/// when the row has no such column or the text is blank.
pub open spec fn cell(fields: Seq<Seq<char>>, i: int) -> Option<Seq<char>> {
    if 0 <= i < fields.len() && trim(fields[i]).len() > 0 {
        Some(trim(fields[i]))
    } else {
        None
    }
}

/// Whether `i` is the first column whose name is `key`.
pub open spec fn first_column(names: Seq<Seq<char>>, key: Seq<char>, i: int) -> bool {
    &&& 0 <= i < names.len()
    &&& names[i] == key
    &&& forall|j: int| 0 <= j < i ==> names[j] != key
}

/// The value read under a column name is the cell of the first column of
/// that name, and nothing when no column has it.
proof fn lemma_value_of_column(names: Seq<Seq<char>>, fields: Seq<Seq<char>>, key: Seq<char>)
    ensures
        forall|i: int| #[trigger] first_column(names, key, i) ==> csv_value(names, fields, key) == cell(fields, i),
        !names.contains(key) ==> csv_value(names, fields, key) is None,
{
    lemma_index_of(names, key);
    assert forall|i: int| #[trigger] first_column(names, key, i) implies csv_value(names, fields, key) == cell(
        fields,
        i,
    ) by {
        lemma_index_first(names, key, i);
    }
}

/// Each field of a row is read from its own column, found by name: the
/// first column called `focallength`, `lensmodel`, `fnumber`,
/// `exposuretime`, `exposurecompensation`, `imagewidth`, `imageheight`,
/// `iso` or `orientation` gives the focal length, the lens, the aperture,
/// the shutter speed, the compensation, the size, the ISO and the rotation
/// (the numbers parsed, the rotation that of the EXIF orientation, 0
/// without one); a field whose column is missing is absent; the path is the
/// first cell. No other column changes a field.
pub proof fn law_row_reads_own_columns(r: ExiftoolRow, names: Seq<Seq<char>>, fields: Seq<Seq<char>>)
    requires
        row_matches(r, names, fields),
    ensures
        r.path@ == trim(fields[0]),
        forall|i: int| #[trigger] first_column(names, "focallength"@, i) ==> opt_view(r.focal_length) == cell(fields, i),
        !names.contains("focallength"@) ==> r.focal_length is None,
        forall|i: int| #[trigger] first_column(names, "lensmodel"@, i) ==> opt_view(r.lens_model) == cell(fields, i),
        !names.contains("lensmodel"@) ==> r.lens_model is None,
        forall|i: int| #[trigger] first_column(names, "fnumber"@, i) ==> opt_view(r.fnumber) == cell(fields, i),
        !names.contains("fnumber"@) ==> r.fnumber is None,
        forall|i: int| #[trigger] first_column(names, "exposuretime"@, i) ==> opt_view(r.exposure_time) == cell(fields, i),
        !names.contains("exposuretime"@) ==> r.exposure_time is None,
        forall|i: int|
            #[trigger] first_column(names, "exposurecompensation"@, i) ==> opt_view(r.exposure_compensation) == cell(
                fields,
                i,
            ),
        !names.contains("exposurecompensation"@) ==> r.exposure_compensation is None,
        forall|i: int| #[trigger] first_column(names, "imagewidth"@, i) ==> r.width == int_value(cell(fields, i)),
        !names.contains("imagewidth"@) ==> r.width is None,
        forall|i: int| #[trigger] first_column(names, "imageheight"@, i) ==> r.height == int_value(cell(fields, i)),
        !names.contains("imageheight"@) ==> r.height is None,
        forall|i: int| #[trigger] first_column(names, "iso"@, i) ==> r.iso == int_value(cell(fields, i)),
        !names.contains("iso"@) ==> r.iso is None,
        forall|i: int|
            #[trigger] first_column(names, "orientation"@, i) ==> r.rotation == rotation_of(int_value(cell(fields, i))),
        !names.contains("orientation"@) ==> r.rotation == 0,
{
    lemma_value_of_column(names, fields, "focallength"@);
    lemma_value_of_column(names, fields, "lensmodel"@);
    lemma_value_of_column(names, fields, "fnumber"@);
    lemma_value_of_column(names, fields, "exposuretime"@);
    lemma_value_of_column(names, fields, "exposurecompensation"@);
    lemma_value_of_column(names, fields, "imagewidth"@);
    lemma_value_of_column(names, fields, "imageheight"@);
    lemma_value_of_column(names, fields, "iso"@);
    lemma_value_of_column(names, fields, "orientation"@);
}

/// The capture date is the first of `datetimeoriginal`, `createdate` and
/// `modifydate` whose column has a value; the camera is the `make` value,
/// followed by a space and the `model` value when there is one, and absent
/// without a make.
pub proof fn law_row_date_and_camera(
    r: ExiftoolRow,
    names: Seq<Seq<char>>,
    fields: Seq<Seq<char>>,
    i: int,
    j: int,
    k: int,
)
    requires
        row_matches(r, names, fields),
    ensures
        first_column(names, "datetimeoriginal"@, i) && cell(fields, i) is Some ==> opt_view(r.capture_date) == cell(
            fields,
            i,
        ),
        !names.contains("datetimeoriginal"@) && !names.contains("createdate"@) && !names.contains(
            "modifydate"@,
        ) ==> r.capture_date is None,
        !names.contains("make"@) ==> r.camera is None,
        first_column(names, "make"@, j) && first_column(names, "model"@, k) ==> opt_view(r.camera) == match cell(
            fields,
            j,
        ) {
            Some(a) => match cell(fields, k) {
                Some(b) => Some(a + seq![' '] + b),
                None => Some(a),
            },
            None => None,
        },
{
    reveal_strlit(" ");
    lemma_value_of_column(names, fields, "datetimeoriginal"@);
    lemma_value_of_column(names, fields, "createdate"@);
    lemma_value_of_column(names, fields, "modifydate"@);
    lemma_value_of_column(names, fields, "make"@);
    lemma_value_of_column(names, fields, "model"@);
    if first_column(names, "make"@, j) && first_column(names, "model"@, k) {
        assert(csv_value(names, fields, "make"@) == cell(fields, j));
        assert(csv_value(names, fields, "model"@) == cell(fields, k));
    }
    if first_column(names, "datetimeoriginal"@, i) {
        assert(csv_value(names, fields, "datetimeoriginal"@) == cell(fields, i));
    }
}

/// An optional character vector as an optional text.
pub open spec fn opt_chars(o: Option<Vec<char>>) -> Option<Seq<char>> {
    match o {
        Some(v) => Some(v@),
        None => None,
    }
}

/// Position of `x` among `names` (their count when absent).
fn position(names: &Vec<Vec<char>>, x: &Vec<char>) -> (i: usize)
    ensures
        i == index_of(views(names@), x@),
{
    proof {
        lemma_index_of(views(names@), x@);
    }
    let mut i: usize = 0;
    while i < names.len()
        invariant
            i <= names.len(),
            forall|k: int| 0 <= k < i ==> views(names@)[k] != x@,
        decreases names.len() - i,
    {
        if chars_eq(&names[i], x) {
            proof {
                lemma_index_first(views(names@), x@, i as int);
            }
            return i;
        }
        i = i + 1;
    }
    proof {
        lemma_index_first(views(names@), x@, i as int);
    }
    i
}

/// The value of column `name` in `fields`.
fn column_value(names: &Vec<Vec<char>>, fields: &Vec<Vec<char>>, name: &str) -> (r: Option<Vec<char>>)
    ensures
        opt_chars(r) == csv_value(views(names@), views(fields@), name@),
{
    let nv = chars_of(name);
    let i = position(names, &nv);
    proof {
        lemma_index_of(views(names@), name@);
    }
    if i < names.len() && i < fields.len() {
        let t = trim_chars(&fields[i]);
        if t.len() > 0 {
            Some(t)
        } else {
            None
        }
    } else {
        None
    }
}

/// An optional value read as an `i32`.
fn int_of(o: &Option<Vec<char>>) -> (r: Option<i32>)
    ensures
        r == int_value(opt_chars(*o)),
{
    match o {
        Some(t) => parse_i32(t),
        None => None,
    }
}

/// An optional character vector as an optional `String`.
fn opt_string(o: Option<Vec<char>>) -> (r: Option<String>)
    ensures
        opt_view(r) == opt_chars(o),
{
    match o {
        Some(v) => Some(string_of(&v)),
        None => None,
    }
}

/// What the row `fields` says under the column names `names`.
fn row_of(names: &Vec<Vec<char>>, fields: &Vec<Vec<char>>) -> (r: ExiftoolRow)
    requires
        fields@.len() > 0,
    ensures
        row_matches(r, views(names@), views(fields@)),
{
    proof {
        reveal_strlit(" ");
    }
    let date = match column_value(names, fields, "datetimeoriginal") {
        Some(v) => Some(v),
        None => match column_value(names, fields, "createdate") {
            Some(v) => Some(v),
            None => column_value(names, fields, "modifydate"),
        },
    };
    let make = column_value(names, fields, "make");
    let model = column_value(names, fields, "model");
    let camera = match make {
        Some(a) => match model {
            Some(b) => {
                let mut c = a;
                c.push(' ');
                push_chars(&mut c, &b);
                Some(c)
            },
            None => Some(a),
        },
        None => None,
    };
    let orientation = int_of(&column_value(names, fields, "orientation"));
    let rotation = match orientation {
        Some(o) => crate::domain::photo::Rotation::from_exif_orientation(o).degrees(),
        None => 0,
    };
    let path = trim_chars(&fields[0]);
    let r = ExiftoolRow {
        path: string_of(&path),
        width: int_of(&column_value(names, fields, "imagewidth")),
        height: int_of(&column_value(names, fields, "imageheight")),
        capture_date: opt_string(date),
        camera: opt_string(camera),
        iso: int_of(&column_value(names, fields, "iso")),
        fnumber: opt_string(column_value(names, fields, "fnumber")),
        exposure_time: opt_string(column_value(names, fields, "exposuretime")),
        exposure_compensation: opt_string(column_value(names, fields, "exposurecompensation")),
        focal_length: opt_string(column_value(names, fields, "focallength")),
        lens_model: opt_string(column_value(names, fields, "lensmodel")),
        rotation,
    };
    let ghost ns = views(names@);
    let ghost fs = views(fields@);
    assert(r.path@ == trim(fs[0]));
    assert(opt_view(r.capture_date) == first_present(
        csv_value(ns, fs, "datetimeoriginal"@),
        csv_value(ns, fs, "createdate"@),
        csv_value(ns, fs, "modifydate"@),
    ));
    assert(opt_view(r.camera) == camera_of(csv_value(ns, fs, "make"@), csv_value(ns, fs, "model"@)));
    assert(r.rotation == rotation_of(int_value(csv_value(ns, fs, "orientation"@))));
    r
}

/// The rows of an exiftool CSV keyed by their file's path, as a map built
/// by inserting them in order holds them: one row per path, the last one
/// printed for it.
pub fn rows_by_path(rows: Vec<ExiftoolRow>) -> (r: Vec<(String, ExiftoolRow)>)
    ensures
        exists|raw: Seq<(String, ExiftoolRow)>|
            raw.len() == rows@.len() && (forall|k: int|
                0 <= k < rows@.len() ==> (#[trigger] raw[k]).0@ == rows@[k].path@ && raw[k].1 == rows@[k])
                && r@ == keep_last(raw),
        keys_of(r@).no_duplicates(),
        forall|x: Seq<char>| keys_of(r@).contains(x) <==> rows@.map_values(|w: ExiftoolRow| w.path@).contains(x),
{
    let ghost orig = rows@;
    let mut rest = rows;
    let mut rev: Vec<(String, ExiftoolRow)> = Vec::new();
    while rest.len() > 0
        invariant
            rest@ == orig.take(rest@.len() as int),
            rest@.len() <= orig.len(),
            rev@.len() == orig.len() - rest@.len(),
            forall|k: int|
                0 <= k < rev@.len() ==> (#[trigger] rev@[k]).0@ == orig[orig.len() - 1 - k].path@ && rev@[k].1
                    == orig[orig.len() - 1 - k],
        decreases rest.len(),
    {
        let w = rest.pop().unwrap();
        let key = string_of(&chars_of(w.path.as_str()));
        rev.push((key, w));
        assert(rest@ =~= orig.take(rest@.len() as int));
    }
    let mut pairs: Vec<(String, ExiftoolRow)> = Vec::new();
    while rev.len() > 0
        invariant
            pairs@.len() + rev@.len() == orig.len(),
            forall|k: int|
                0 <= k < rev@.len() ==> (#[trigger] rev@[k]).0@ == orig[orig.len() - 1 - k].path@ && rev@[k].1
                    == orig[orig.len() - 1 - k],
            forall|k: int|
                0 <= k < pairs@.len() ==> (#[trigger] pairs@[k]).0@ == orig[k].path@ && pairs@[k].1 == orig[k],
        decreases rev.len(),
    {
        let e = rev.pop().unwrap();
        pairs.push(e);
    }
    let ghost raw = pairs@;
    proof {
        assert(keys_of(raw) =~= orig.map_values(|w: ExiftoolRow| w.path@));
    }
    keep_last_entries(pairs)
}

/// The rows of the CSV that `exiftool -csv` printed: the first line names
/// the columns (exiftool leaves out columns no file has, so they are found by
/// name), each further line describes one file.
pub fn parse_exiftool_csv(stdout: &str) -> (r: Vec<ExiftoolRow>)
    ensures
        lines(stdout@).len() == 0 ==> r@.len() == 0,
        lines(stdout@).len() > 0 ==> r@.len() == lines(stdout@).len() - 1 && forall|k: int|
            0 <= k < r@.len() ==> row_matches(
                #[trigger] r@[k],
                header_names(lines(stdout@)[0]),
                csv_fields(lines(stdout@)[k + 1]),
            ),
{
    let v = chars_of(stdout);
    let ls = lines_of(&v);
    let mut rows: Vec<ExiftoolRow> = Vec::new();
    if ls.len() == 0 {
        return rows;
    }
    let header = csv_fields_of(&ls[0]);
    let mut names: Vec<Vec<char>> = Vec::new();
    let mut h: usize = 0;
    while h < header.len()
        invariant
            h <= header.len(),
            views(header@) == csv_fields(ls@[0]@),
            views(names@) == csv_fields(ls@[0]@).take(h as int).map_values(
                |x: Seq<char>| lowercase(trim(x)),
            ),
        decreases header.len() - h,
    {
        let t = trim_chars(&header[h]);
        let low = to_lowercase(string_of(&t).as_str());
        let ghost before = views(names@);
        names.push(chars_of(low.as_str()));
        assert(views(names@) =~= before.push(lowercase(trim(header@[h as int]@))));
        assert(csv_fields(ls@[0]@).take(h + 1).map_values(|x: Seq<char>| lowercase(trim(x)))
            =~= csv_fields(ls@[0]@).take(h as int).map_values(|x: Seq<char>| lowercase(trim(x))).push(
            lowercase(trim(header@[h as int]@)),
        ));
        h = h + 1;
    }
    assert(csv_fields(ls@[0]@).take(header.len() as int) =~= csv_fields(ls@[0]@));
    assert(views(names@) =~= header_names(lines(stdout@)[0]));
    let mut i: usize = 1;
    while i < ls.len()
        invariant
            1 <= i <= ls.len(),
            ls@.len() == lines(stdout@).len(),
            forall|k: int| 0 <= k < ls@.len() ==> #[trigger] ls@[k]@ == lines(stdout@)[k],
            views(names@) == header_names(lines(stdout@)[0]),
            rows@.len() == i - 1,
            forall|k: int|
                0 <= k < rows@.len() ==> row_matches(
                    #[trigger] rows@[k],
                    header_names(lines(stdout@)[0]),
                    csv_fields(lines(stdout@)[k + 1]),
                ),
        decreases ls.len() - i,
    {
        let fields = csv_fields_of(&ls[i]);
        proof {
            lemma_csv_from_len(ls@[i as int]@, 0, Seq::empty(), Seq::empty(), false);
        }
        let row = row_of(&names, &fields);
        rows.push(row);
        i = i + 1;
    }
    rows
}

/// The rotation that `exiftool -IFD0:Orientation -n` reports in `text`
/// (`Orientation : 6`): the number after the first colon, or orientation 1
/// when there is none.
pub open spec fn reported_rotation(text: Seq<char>) -> int {
    let p = split_on(text, ':');
    let o = if p.len() > 1 {
        match parse_i32_spec(trim(p[1])) {
            Some(v) => v as int,
            None => 1,
        }
    } else {
        1
    };
    orientation_degrees(o)
}

/// The rotation in exiftool's orientation output.
pub fn rotation_from_exiftool_output(text: &str) -> (r: i32)
    ensures
        r as int == reported_rotation(text@),
{
    let v = chars_of(text);
    let parts = split_chars(&v, ':');
    let o: i32 = if parts.len() > 1 {
        let t = trim_chars(&parts[1]);
        match parse_i32(&t) {
            Some(x) => x,
            None => 1,
        }
    } else {
        1
    };
    crate::domain::photo::Rotation::from_exif_orientation(o).degrees()
}

// ---------------------------------------------------------------------------
// Argument lists
// ---------------------------------------------------------------------------

/// The texts of a list of strings.
pub open spec fn strs(v: Seq<String>) -> Seq<Seq<char>> {
    v.map_values(|s: String| s@)
}

/// Appends the string `s` to the list `v`.
fn push_arg(v: &mut Vec<String>, s: &str)
    ensures
        strs(final(v)@) == strs(old(v)@).push(s@),
{
    let ghost before = strs(v@);
    v.push(string_of(&chars_of(s)));
    assert(strs(v@) =~= before.push(s@));
}

/// The options of a batch metadata read, before the file paths.
pub open spec fn batch_flags() -> Seq<Seq<char>> {
    seq![
        "-csv"@,
        "-ImageWidth"@,
        "-ImageHeight"@,
        "-DateTimeOriginal"@,
        "-CreateDate"@,
        "-ModifyDate"@,
        "-Make"@,
        "-Model"@,
        "-ISO"@,
        "-FNumber"@,
        "-ExposureTime"@,
        "-ExposureCompensation"@,
        "-FocalLength"@,
        "-LensModel"@,
        "-IFD0:Orientation"@,
        "-n"@,
    ]
}

/// The arguments that read the metadata of all `paths` as CSV; `None` when
/// there are no paths (nothing to run).
pub fn metadata_batch_args(paths: &Vec<String>) -> (r: Option<Vec<String>>)
    ensures
        paths@.len() == 0 <==> r is None,
        r matches Some(a) ==> strs(a@) == batch_flags() + strs(paths@),
{
    if paths.len() == 0 {
        return None;
    }
    let mut a: Vec<String> = Vec::new();
    assert(strs(a@) =~= Seq::<Seq<char>>::empty());
    push_arg(&mut a, "-csv");
    push_arg(&mut a, "-ImageWidth");
    push_arg(&mut a, "-ImageHeight");
    push_arg(&mut a, "-DateTimeOriginal");
    push_arg(&mut a, "-CreateDate");
    push_arg(&mut a, "-ModifyDate");
    push_arg(&mut a, "-Make");
    push_arg(&mut a, "-Model");
    push_arg(&mut a, "-ISO");
    push_arg(&mut a, "-FNumber");
    push_arg(&mut a, "-ExposureTime");
    push_arg(&mut a, "-ExposureCompensation");
    push_arg(&mut a, "-FocalLength");
    push_arg(&mut a, "-LensModel");
    push_arg(&mut a, "-IFD0:Orientation");
    push_arg(&mut a, "-n");
    assert(strs(a@) =~= batch_flags());
    let mut i: usize = 0;
    while i < paths.len()
        invariant
            i <= paths.len(),
            strs(a@) == batch_flags() + strs(paths@).take(i as int),
        decreases paths.len() - i,
    {
        push_arg(&mut a, paths[i].as_str());
        assert(strs(paths@).take(i + 1) =~= strs(paths@).take(i as int).push(paths@[i as int]@));
        assert(batch_flags() + strs(paths@).take(i + 1) =~= (batch_flags() + strs(paths@).take(
            i as int,
        )).push(paths@[i as int]@));
        i = i + 1;
    }
    assert(strs(paths@).take(paths.len() as int) =~= strs(paths@));
    Some(a)
}

/// The arguments that read the orientation of `file`.
pub fn read_rotation_args(file: &str) -> (r: Vec<String>)
    ensures
        strs(r@) == seq!["-IFD0:Orientation"@, "-n"@, file@],
{
    let mut a: Vec<String> = Vec::new();
    assert(strs(a@) =~= Seq::<Seq<char>>::empty());
    push_arg(&mut a, "-IFD0:Orientation");
    push_arg(&mut a, "-n");
    push_arg(&mut a, file);
    assert(strs(a@) =~= seq!["-IFD0:Orientation"@, "-n"@, file@]);
    a
}

/// The arguments that write the orientation of `rotation` degrees (1 when
/// it is not a right angle) into both image directories of `file`.
pub fn set_orientation_args(file: &str, rotation: i32) -> (r: Vec<String>)
    ensures
        strs(r@) == seq![
            "-IFD0:Orientation="@ + decimal(degrees_orientation(rotation as int) as nat),
            "-IFD1:Orientation="@ + decimal(degrees_orientation(rotation as int) as nat),
            "-n"@,
            "-overwrite_original"@,
            file@,
        ],
{
    let o: u64 = if rotation == 90 {
        6
    } else if rotation == 180 {
        3
    } else if rotation == 270 {
        8
    } else {
        1
    };
    let d = decimal_of(o);
    let mut a0: Vec<char> = Vec::new();
    push_str(&mut a0, "-IFD0:Orientation=");
    push_chars(&mut a0, &d);
    let mut a1: Vec<char> = Vec::new();
    push_str(&mut a1, "-IFD1:Orientation=");
    push_chars(&mut a1, &d);
    let mut a: Vec<String> = Vec::new();
    assert(strs(a@) =~= Seq::<Seq<char>>::empty());
    let ghost e = strs(a@);
    a.push(string_of(&a0));
    a.push(string_of(&a1));
    assert(strs(a@) =~= e.push(a0@).push(a1@));
    push_arg(&mut a, "-n");
    push_arg(&mut a, "-overwrite_original");
    push_arg(&mut a, file);
    assert(strs(a@) =~= seq![
        "-IFD0:Orientation="@ + decimal(degrees_orientation(rotation as int) as nat),
        "-IFD1:Orientation="@ + decimal(degrees_orientation(rotation as int) as nat),
        "-n"@,
        "-overwrite_original"@,
        file@,
    ]);
    a
}

/// The arguments that reset the orientation of `file` to normal.
pub fn strip_orientation_args(file: &str) -> (r: Vec<String>)
    ensures
        strs(r@) == seq!["-Orientation=1"@, "-n"@, "-overwrite_original"@, file@],
{
    let mut a: Vec<String> = Vec::new();
    assert(strs(a@) =~= Seq::<Seq<char>>::empty());
    push_arg(&mut a, "-Orientation=1");
    push_arg(&mut a, "-n");
    push_arg(&mut a, "-overwrite_original");
    push_arg(&mut a, file);
    assert(strs(a@) =~= seq!["-Orientation=1"@, "-n"@, "-overwrite_original"@, file@]);
    a
}

// ---------------------------------------------------------------------------
// Long-running session
// ---------------------------------------------------------------------------

/// Each argument on a line of its own.
pub open spec fn arg_lines(args: Seq<Seq<char>>) -> Seq<char>
    decreases args.len(),
{
    if args.len() == 0 {
        Seq::empty()
    } else {
        arg_lines(args.drop_last()) + args.last() + "\n"@
    }
}

/// What is written to a session (`-stay_open True -@ -`) to run one command:
/// the arguments, one per line, then `-execute`.
pub fn session_input(args: &Vec<String>) -> (r: String)
    ensures
        r@ == arg_lines(strs(args@)) + "-execute\n"@,
{
    let mut out: Vec<char> = Vec::new();
    let mut i: usize = 0;
    while i < args.len()
        invariant
            i <= args.len(),
            out@ == arg_lines(strs(args@).take(i as int)),
        decreases args.len() - i,
    {
        push_str(&mut out, args[i].as_str());
        push_str(&mut out, "\n");
        assert(strs(args@).take(i + 1).drop_last() =~= strs(args@).take(i as int));
        i = i + 1;
    }
    assert(strs(args@).take(args.len() as int) =~= strs(args@));
    push_str(&mut out, "-execute\n");
    string_of(&out)
}

/// `l` without its trailing `\r` and `\n` characters.
pub open spec fn strip_line_end(l: Seq<char>) -> Seq<char>
    decreases l.len(),
{
    if l.len() > 0 && (l.last() == '\r' || l.last() == '\n') {
        strip_line_end(l.drop_last())
    } else {
        l
    }
}

/// Whether `line` is the `{ready}` line that ends a session's reply.
pub fn is_ready_line(line: &str) -> (r: bool)
    ensures
        r == (strip_line_end(line@) == "{ready}"@),
{
    let v = chars_of(line);
    let mut j = v.len();
    assert(v@.take(j as int) =~= v@);
    while j > 0 && (v[j - 1] == '\r' || v[j - 1] == '\n')
        invariant
            j <= v.len(),
            strip_line_end(v@) == strip_line_end(v@.take(j as int)),
        decreases j,
    {
        assert(v@.take(j as int).drop_last() =~= v@.take(j - 1));
        j = j - 1;
    }
    let w = crate::text::slice_chars(&v, 0, j);
    assert(w@ =~= v@.take(j as int));
    let ready = chars_of("{ready}");
    chars_eq(&w, &ready)
}

} // verus!
