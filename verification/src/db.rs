//! Rules of the databases that do not need the database: the file-safe slug
//! of a project name, how application settings are stored as text, and the
//! default keyboard shortcuts seeded for actions that have none.
use vstd::prelude::*;
use crate::metadata::strs;
use crate::models::{AppSettings, Keybinding};
use crate::text::{alphanumeric, chars_of, is_alphanumeric, lowercase, string_of, to_lowercase};

verus! {

// ---------------------------------------------------------------------------
// Slug
// ---------------------------------------------------------------------------

/// `c` kept when alphanumeric, `-` otherwise.
pub open spec fn slug_char(c: char) -> char {
    if alphanumeric(c) {
        c
    } else {
        '-'
    }
}

/// `s` with every run of `-` shortened to one `-`.
pub open spec fn collapse_dashes(s: Seq<char>) -> Seq<char>
    decreases s.len(),
{
    if s.len() == 0 {
        Seq::empty()
    } else {
        let p = collapse_dashes(s.drop_last());
        if s.last() == '-' && p.len() > 0 && p.last() == '-' {
            p
        } else {
            p.push(s.last())
        }
    }
}

/// `s` without leading `-`.
pub open spec fn trim_start_dashes(s: Seq<char>) -> Seq<char>
    decreases s.len(),
{
    if s.len() > 0 && s[0] == '-' {
        trim_start_dashes(s.drop_first())
    } else {
        s
    }
}

/// `s` without trailing `-`.
pub open spec fn trim_end_dashes(s: Seq<char>) -> Seq<char>
    decreases s.len(),
{
    if s.len() > 0 && s.last() == '-' {
        trim_end_dashes(s.drop_last())
    } else {
        s
    }
}

/// The slug of `name`: every character that is not alphanumeric becomes
/// `-`, the result is lowercased, runs of `-` are shortened to one and
/// `-` is trimmed from both ends; `project` when nothing is left.
pub open spec fn slug_of_name(name: Seq<char>) -> Seq<char> {
    let t = trim_end_dashes(
        trim_start_dashes(collapse_dashes(lowercase(name.map_values(|c: char| slug_char(c))))),
    );
    if t.len() == 0 {
        "project"@
    } else {
        t
    }
}

/// A file-system-safe slug of a project name.
pub fn slug_from_name(name: &str) -> (r: String)
    ensures
        r@ == slug_of_name(name@),
{
    let v = chars_of(name);
    let mut mapped: Vec<char> = Vec::new();
    let mut i: usize = 0;
    while i < v.len()
        invariant
            i <= v.len(),
            v@ == name@,
            mapped@ == v@.take(i as int).map_values(|c: char| slug_char(c)),
        decreases v.len() - i,
    {
        let c = v[i];
        if is_alphanumeric(c) {
            mapped.push(c);
        } else {
            mapped.push('-');
        }
        assert(v@.take(i + 1).map_values(|c: char| slug_char(c)) =~= v@.take(i as int).map_values(
            |c: char| slug_char(c),
        ).push(slug_char(v@[i as int])));
        i = i + 1;
    }
    assert(v@.take(v.len() as int) =~= v@);
    let low = to_lowercase(string_of(&mapped).as_str());
    let raw = chars_of(low.as_str());
    let mut col: Vec<char> = Vec::new();
    let mut k: usize = 0;
    while k < raw.len()
        invariant
            k <= raw.len(),
            col@ == collapse_dashes(raw@.take(k as int)),
        decreases raw.len() - k,
    {
        let c = raw[k];
        assert(raw@.take(k + 1).drop_last() =~= raw@.take(k as int));
        if c == '-' && col.len() > 0 && col[col.len() - 1] == '-' {
        } else {
            col.push(c);
        }
        k = k + 1;
    }
    assert(raw@.take(raw.len() as int) =~= raw@);
    let mut lo: usize = 0;
    assert(col@.skip(0) =~= col@);
    while lo < col.len() && col[lo] == '-'
        invariant
            lo <= col.len(),
            trim_start_dashes(col@) == trim_start_dashes(col@.skip(lo as int)),
        decreases col.len() - lo,
    {
        assert(col@.skip(lo as int).drop_first() =~= col@.skip(lo + 1));
        lo = lo + 1;
    }
    assert(col@.skip(0) =~= col@);
    let mut hi: usize = col.len();
    assert(col@.skip(lo as int) =~= col@.subrange(lo as int, hi as int));
    while hi > lo && col[hi - 1] == '-'
        invariant
            lo <= hi <= col.len(),
            trim_end_dashes(col@.skip(lo as int)) == trim_end_dashes(
                col@.subrange(lo as int, hi as int),
            ),
        decreases hi,
    {
        assert(col@.subrange(lo as int, hi as int).drop_last() =~= col@.subrange(
            lo as int,
            hi - 1,
        ));
        hi = hi - 1;
    }
    let t = crate::text::slice_chars(&col, lo, hi);
    assert(trim_end_dashes(t@) == t@);
    if t.len() == 0 {
        string_of(&chars_of("project"))
    } else {
        string_of(&t)
    }
}

// ---------------------------------------------------------------------------
// Application settings
// ---------------------------------------------------------------------------

/// The settings read from the stored value of `embed_metadata_on_import`:
/// on when it is `true`, and when nothing is stored.
pub fn app_settings_from(embed_metadata: Option<&str>) -> (s: AppSettings)
    ensures
        s.embed_metadata_on_import == match embed_metadata {
            Some(v) => v@ == "true"@,
            None => true,
        },
{
    match embed_metadata {
        Some(v) => {
            let w = chars_of(v);
            let t = chars_of("true");
            AppSettings { embed_metadata_on_import: crate::domain::photo::chars_eq(&w, &t) }
        },
        None => AppSettings { embed_metadata_on_import: true },
    }
}

/// The text a boolean setting is stored as: `true` or `false`.
pub open spec fn setting_value(on: bool) -> Seq<char> {
    if on {
        "true"@
    } else {
        "false"@
    }
}

/// Storing a setting and reading it back gives the same value.
pub proof fn law_setting_text_roundtrip(on: bool)
    ensures
        (setting_value(on) == "true"@) == on,
{
    reveal_strlit("true");
    reveal_strlit("false");
    if !on {
        assert("false"@.len() != "true"@.len());
    }
}

/// A slug is never empty.
pub proof fn law_slug_never_empty(name: Seq<char>)
    ensures
        slug_of_name(name).len() > 0,
{
    reveal_strlit("project");
}

/// The text a boolean setting is stored as.
pub fn setting_text(on: bool) -> (r: &'static str)
    ensures
        r@ == setting_value(on),
{
    if on {
        "true"
    } else {
        "false"
    }
}

// ---------------------------------------------------------------------------
// Keyboard shortcuts
// ---------------------------------------------------------------------------

/// The default shortcuts: (action, key, description).
pub open spec fn default_bindings() -> Seq<(Seq<char>, Seq<char>, Seq<char>)> {
    seq![
        ("photo_detail.close"@, "Escape"@, "Cerrar vista de detalle"@),
        ("photo_detail.prev"@, "ArrowLeft"@, "Foto anterior"@),
        ("photo_detail.next"@, "ArrowRight"@, "Siguiente foto"@),
        ("photo_detail.zoom_in"@, "+"@, "Acercar"@),
        ("photo_detail.zoom_out"@, "-"@, "Alejar"@),
        ("photo_detail.fit"@, "f"@, "Ajustar a pantalla"@),
        ("photo_detail.rotate_left"@, "["@, "Rotar izquierda"@),
        ("photo_detail.rotate_right"@, "]"@, "Rotar derecha"@),
        ("photo_detail.cull"@, " "@, "Seleccionar para culling"@),
        ("photo_detail.stars_0"@, "0"@, "Sin estrellas"@),
        ("photo_detail.stars_1"@, "1"@, "1 estrella"@),
        ("photo_detail.stars_2"@, "2"@, "2 estrellas"@),
        ("photo_detail.stars_3"@, "3"@, "3 estrellas"@),
        ("photo_detail.stars_4"@, "4"@, "4 estrellas"@),
        ("photo_detail.stars_5"@, "5"@, "5 estrellas"@),
        ("project.show_culled"@, "Ctrl+c"@, "Mostrar solo fotos culled"@),
        ("projects.new_project"@, "n"@, "Crear nuevo proyecto"@),
        ("projects.focus_search"@, "s"@, "Enfocar barra de búsqueda"@),
        ("project.back"@, "Escape"@, "Volver a la lista de proyectos"@),
        ("project.import"@, "i"@, "Ir a importación"@),
    ]
}

/// The texts of a shortcut.
pub open spec fn binding_view(k: Keybinding) -> (Seq<char>, Seq<char>, Seq<char>) {
    (k.action@, k.key@, k.description@)
}

/// Appends a shortcut.
fn push_binding(v: &mut Vec<Keybinding>, action: &str, key: &str, description: &str)
    ensures
        final(v)@.map_values(|k: Keybinding| binding_view(k)) == old(v)@.map_values(
            |k: Keybinding| binding_view(k),
        ).push((action@, key@, description@)),
{
    let ghost before = v@.map_values(|k: Keybinding| binding_view(k));
    v.push(
        Keybinding {
            action: string_of(&chars_of(action)),
            key: string_of(&chars_of(key)),
            description: string_of(&chars_of(description)),
        },
    );
    assert(v@.map_values(|k: Keybinding| binding_view(k)) =~= before.push(
        (action@, key@, description@),
    ));
}

/// The default shortcuts, in order.
pub fn default_keybindings() -> (r: Vec<Keybinding>)
    ensures
        r@.map_values(|k: Keybinding| binding_view(k)) == default_bindings(),
{
    let mut v: Vec<Keybinding> = Vec::new();
    assert(v@.map_values(|k: Keybinding| binding_view(k)) =~= Seq::<
        (Seq<char>, Seq<char>, Seq<char>),
    >::empty());
    push_binding(&mut v, "photo_detail.close", "Escape", "Cerrar vista de detalle");
    push_binding(&mut v, "photo_detail.prev", "ArrowLeft", "Foto anterior");
    push_binding(&mut v, "photo_detail.next", "ArrowRight", "Siguiente foto");
    push_binding(&mut v, "photo_detail.zoom_in", "+", "Acercar");
    push_binding(&mut v, "photo_detail.zoom_out", "-", "Alejar");
    push_binding(&mut v, "photo_detail.fit", "f", "Ajustar a pantalla");
    push_binding(&mut v, "photo_detail.rotate_left", "[", "Rotar izquierda");
    push_binding(&mut v, "photo_detail.rotate_right", "]", "Rotar derecha");
    push_binding(&mut v, "photo_detail.cull", " ", "Seleccionar para culling");
    push_binding(&mut v, "photo_detail.stars_0", "0", "Sin estrellas");
    push_binding(&mut v, "photo_detail.stars_1", "1", "1 estrella");
    push_binding(&mut v, "photo_detail.stars_2", "2", "2 estrellas");
    push_binding(&mut v, "photo_detail.stars_3", "3", "3 estrellas");
    push_binding(&mut v, "photo_detail.stars_4", "4", "4 estrellas");
    push_binding(&mut v, "photo_detail.stars_5", "5", "5 estrellas");
    push_binding(&mut v, "project.show_culled", "Ctrl+c", "Mostrar solo fotos culled");
    push_binding(&mut v, "projects.new_project", "n", "Crear nuevo proyecto");
    push_binding(&mut v, "projects.focus_search", "s", "Enfocar barra de búsqueda");
    push_binding(&mut v, "project.back", "Escape", "Volver a la lista de proyectos");
    push_binding(&mut v, "project.import", "i", "Ir a importación");
    assert(v@.map_values(|k: Keybinding| binding_view(k)) =~= default_bindings());
    v
}

/// The first `n` of `defaults` whose action is not among `existing`, in order.
pub open spec fn unseeded(
    defaults: Seq<(Seq<char>, Seq<char>, Seq<char>)>,
    existing: Seq<Seq<char>>,
    n: int,
) -> Seq<(Seq<char>, Seq<char>, Seq<char>)>
    decreases n,
{
    if n <= 0 {
        Seq::empty()
    } else if existing.contains(defaults[n - 1].0) {
        unseeded(defaults, existing, n - 1)
    } else {
        unseeded(defaults, existing, n - 1).push(defaults[n - 1])
    }
}

/// The default shortcuts to add to a table that already has the actions
/// `existing`: those of the actions it lacks (an existing row is kept).
pub fn keybindings_to_seed(existing: &Vec<String>) -> (r: Vec<Keybinding>)
    ensures
        r@.map_values(|k: Keybinding| binding_view(k)) == unseeded(
            default_bindings(),
            strs(existing@),
            default_bindings().len() as int,
        ),
{
    let defaults = default_keybindings();
    let mut r: Vec<Keybinding> = Vec::new();
    let ghost ds = default_bindings();
    let ghost ex = strs(existing@);
    assert(r@.map_values(|k: Keybinding| binding_view(k)) =~= unseeded(ds, ex, 0));
    let mut i: usize = 0;
    while i < defaults.len()
        invariant
            i <= defaults.len(),
            defaults@.map_values(|k: Keybinding| binding_view(k)) == ds,
            ex == strs(existing@),
            r@.map_values(|k: Keybinding| binding_view(k)) == unseeded(ds, ex, i as int),
        decreases defaults.len() - i,
    {
        let d = &defaults[i];
        let a = chars_of(d.action.as_str());
        let mut found = false;
        let mut j: usize = 0;
        while j < existing.len()
            invariant
                j <= existing.len(),
                a@ == ds[i as int].0,
                ex == strs(existing@),
                found == (exists|m: int| 0 <= m < j && ex[m] == a@),
            decreases existing.len() - j,
        {
            let e = chars_of(existing[j].as_str());
            if crate::domain::photo::chars_eq(&e, &a) {
                found = true;
            }
            proof {
                if exists|m: int| 0 <= m < j + 1 && ex[m] == a@ {
                    let m = choose|m: int| 0 <= m < j + 1 && ex[m] == a@;
                    if m < j {
                        assert(exists|m: int| 0 <= m < j && ex[m] == a@);
                    }
                }
                if e@ == a@ {
                    assert(ex[j as int] == a@);
                }
            }
            j = j + 1;
        }
        assert(found == ex.contains(ds[i as int].0));
        if !found {
            let ghost before = r@.map_values(|k: Keybinding| binding_view(k));
            r.push(
                Keybinding {
                    action: d.action.clone(),
                    key: d.key.clone(),
                    description: d.description.clone(),
                },
            );
            assert(r@.map_values(|k: Keybinding| binding_view(k)) =~= before.push(ds[i as int]));
        }
        i = i + 1;
    }
    r
}

/// A shortcut's key must not be empty.
pub fn check_keybinding_key(key: &str) -> (r: Result<(), String>)
    ensures
        r is Ok <==> key@.len() > 0,
        r matches Err(m) ==> m@ == "La tecla no puede estar vacía"@,
{
    if key.is_empty() {
        Err(string_of(&chars_of("La tecla no puede estar vacía")))
    } else {
        Ok(())
    }
}

// ---------------------------------------------------------------------------
// Project discovery
// ---------------------------------------------------------------------------

/// How deep under `{mount}/lumik` project folders are looked for.
pub const DISCOVERY_MAX_DEPTH: usize = 4;

/// Whether discovery looks into a folder at `depth` below `{mount}/lumik`.
pub fn discovery_descends(depth: usize) -> (r: bool)
    ensures
        r == (depth <= DISCOVERY_MAX_DEPTH),
{
    depth <= DISCOVERY_MAX_DEPTH
}

/// Whether discovery skips a folder: hidden (`.thumbs`, `.previews`, ...)
/// and internal (`_media`, `_culled`, ...) folders are not searched.
pub fn discovery_skips(name: &str) -> (r: bool)
    ensures
        r == (name@.len() > 0 && (name@[0] == '.' || name@[0] == '_')),
{
    let v = chars_of(name);
    v.len() > 0 && (v[0] == '.' || v[0] == '_')
}

} // verus!
