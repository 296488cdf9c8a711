//! Finder tags of macOS/iPadOS on disks without extended attributes
//! (exFAT/FAT), stored in AppleDouble `._<name>` sidecars.
//!
//! The tags live in the `com.apple.metadata:_kMDItemUserTags` attribute, a
//! binary plist holding an array of `"Name\n<color index>"` strings. On a
//! file system without attributes that attribute is kept in a sibling
//! `._<name>` AppleDouble file; this module builds that file byte by byte.
//!
//! Color indices: 0 none, 1 gray, 2 green, 3 purple, 4 blue, 5 yellow,
//! 6 red, 7 orange.
use vstd::prelude::*;
use crate::bytes::{
    align4, align4_spec, be16, be32, be64, push_be16, push_be32, push_be64, push_bytes,
    push_zeros, zeros,
};
use crate::pathstr::{file_name, file_name_of, join, join_path, parent, parent_of};
use crate::text::{chars_of, decimal, digit_char, split_chars, split_on, trim, trim_chars, string_of};
use vstd::utf8::encode_utf8;
use vstd::string::StringSliceAdditionalSpecFns;

verus! {

broadcast use vstd::utf8::is_ascii_chars_encode_utf8;

/// Name of the extended attribute that holds the Finder tags.
pub const TAGS_XATTR: &'static str = "com.apple.metadata:_kMDItemUserTags";

// ---------------------------------------------------------------------------
// Color labels
// ---------------------------------------------------------------------------

/// The Finder tag (name, macOS color index) of a Lumik color label 1..=5.
pub open spec fn color_tag(id: u8) -> Option<(Seq<char>, u8)> {
    if id == 1 {
        Some(("Rojo"@, 6u8))
    } else if id == 2 {
        Some(("Amarillo"@, 5u8))
    } else if id == 3 {
        Some(("Verde"@, 2u8))
    } else if id == 4 {
        Some(("Azul"@, 4u8))
    } else if id == 5 {
        Some(("Morado"@, 3u8))
    } else {
        None
    }
}

/// Maps a Lumik color label (1..=5) to its (name, macOS color index); the
/// names are the Spanish presets so they merge with the iPad's own tags.
pub fn lumik_color_to_macos(id: u8) -> (r: Option<(&'static str, u8)>)
    ensures
        r matches Some(t) ==> color_tag(id) == Some((t.0@, t.1)),
        r is None ==> color_tag(id) is None,
{
    match id {
        1 => Some(("Rojo", 6)),
        2 => Some(("Amarillo", 5)),
        3 => Some(("Verde", 2)),
        4 => Some(("Azul", 4)),
        5 => Some(("Morado", 3)),
        _ => None,
    }
}

/// Whether every character of `d` is an ASCII digit.
pub open spec fn all_digits(d: Seq<char>) -> bool {
    forall|i: int| 0 <= i < d.len() ==> '0' <= #[trigger] d[i] <= '9'
}

/// The value of a string of ASCII digits.
pub open spec fn digits_value(d: Seq<char>) -> nat
    decreases d.len(),
{
    if d.len() == 0 {
        0
    } else {
        digits_value(d.drop_last()) * 10 + ((d.last() as u32) - 48) as nat
    }
}

/// What `str::parse::<u8>` returns: an optional `+`, then at least one
/// ASCII digit, the value at most 255.
pub open spec fn parse_u8(s: Seq<char>) -> Option<u8> {
    let d = if s.len() > 0 && s[0] == '+' {
        s.drop_first()
    } else {
        s
    };
    if d.len() == 0 || !all_digits(d) || digits_value(d) > 255 {
        None
    } else {
        Some(digits_value(d) as u8)
    }
}

/// Parses a `u8` as `str::parse::<u8>` does.
pub fn parse_u8_chars(s: &Vec<char>) -> (r: Option<u8>)
    ensures
        r == parse_u8(s@),
{
    let start: usize = if s.len() > 0 && s[0] == '+' {
        1
    } else {
        0
    };
    let ghost d = if s@.len() > 0 && s@[0] == '+' {
        s@.drop_first()
    } else {
        s@
    };
    assert(d == s@.skip(start as int));
    if start == s.len() {
        return None;
    }
    let mut acc: u32 = 0;
    let mut i = start;
    while i < s.len()
        invariant
            start <= i <= s.len(),
            start < s.len(),
            d == s@.skip(start as int),
            d == (if s@.len() > 0 && s@[0] == '+' {
                s@.drop_first()
            } else {
                s@
            }),
            all_digits(d.take(i - start)),
            acc as int == if digits_value(d.take(i - start)) < 256 {
                digits_value(d.take(i - start)) as int
            } else {
                256
            },
        decreases s.len() - i,
    {
        let c = s[i];
        if c < '0' || c > '9' {
            assert(!all_digits(d)) by {
                assert(d[i - start] == c);
            }
            return None;
        }
        let dv: u32 = (c as u32) - 48;
        proof {
            assert(d.take(i - start + 1).drop_last() == d.take(i - start));
            assert(d.take(i - start + 1).last() == c);
        }
        let next: u32 = acc * 10 + dv;
        acc = if next > 256 {
            256
        } else {
            next
        };
        i = i + 1;
    }
    assert(d.take(s.len() - start) == d);
    if acc > 255 {
        None
    } else {
        Some(acc as u8)
    }
}

/// The Finder tags of a stored color label (`"1,3,5"`): each
/// comma-separated piece trimmed and read as a `u8`; pieces that do not
/// read or are not labels 1..=5 are skipped.
pub open spec fn label_colors(pieces: Seq<Seq<char>>) -> Seq<(Seq<char>, u8)>
    decreases pieces.len(),
{
    if pieces.len() == 0 {
        Seq::<(Seq<char>, u8)>::empty()
    } else {
        let rest = label_colors(pieces.drop_last());
        match parse_u8(trim(pieces.last())) {
            Some(v) => match color_tag(v) {
                Some(t) => rest.push(t),
                None => rest,
            },
            None => rest,
        }
    }
}

/// Views of a list of `(name, index)` tags.
pub open spec fn tag_views(v: Seq<(&'static str, u8)>) -> Seq<(Seq<char>, u8)> {
    v.map_values(|t: (&'static str, u8)| (t.0@, t.1))
}

/// Converts a stored `color_label` (`"1,3,5"`) into the list of macOS tags.
pub fn colors_from_label(label: &str) -> (r: Vec<(&'static str, u8)>)
    ensures
        tag_views(r@) == label_colors(split_on(label@, ',')),
{
    let chars = chars_of(label);
    let pieces = split_chars(&chars, ',');
    let ghost ps = split_on(label@, ',');
    let mut r: Vec<(&'static str, u8)> = Vec::new();
    let mut i: usize = 0;
    while i < pieces.len()
        invariant
            i <= pieces.len(),
            ps == split_on(label@, ','),
            pieces@.len() == ps.len(),
            forall|k: int| 0 <= k < pieces@.len() ==> #[trigger] pieces@[k]@ == ps[k],
            tag_views(r@) == label_colors(ps.take(i as int)),
        decreases pieces.len() - i,
    {
        proof {
            assert(ps.take(i + 1).drop_last() == ps.take(i as int));
            assert(ps.take(i + 1).last() == pieces@[i as int]@);
        }
        let t = trim_chars(&pieces[i]);
        match parse_u8_chars(&t) {
            Some(v) => match lumik_color_to_macos(v) {
                Some(tag) => {
                    let ghost prev = tag_views(r@);
                    r.push(tag);
                    assert(tag_views(r@) =~= prev.push((tag.0@, tag.1)));
                },
                None => {},
            },
            None => {},
        }
        i = i + 1;
    }
    assert(ps.take(pieces.len() as int) == ps);
    r
}

// ---------------------------------------------------------------------------
// Sidecar paths
// ---------------------------------------------------------------------------

/// The `._<name>` sidecar of `target`: `None` when `target` has no file name.
pub open spec fn sidecar_path_spec(target: Seq<char>) -> Option<Seq<char>> {
    match (file_name(target), parent(target)) {
        (Some(f), Some(p)) => Some(join_path(p, "._"@ + f)),
        _ => None,
    }
}

/// Path of the `._<name>` sidecar of a file.
pub fn sidecar_path(target: &str) -> (r: Option<String>)
    ensures
        r matches Some(s) ==> sidecar_path_spec(target@) == Some(s@),
        r is None ==> sidecar_path_spec(target@) is None,
{
    match (file_name_of(target), parent_of(target)) {
        (Some(f), Some(p)) => {
            let mut v = chars_of("._");
            let fv = chars_of(f.as_str());
            crate::text::push_chars(&mut v, &fv);
            let name = string_of(&v);
            Some(join(p.as_str(), name.as_str()))
        },
        _ => None,
    }
}

/// Directory whose presence tells that the volume has a Spotlight index.
pub fn spotlight_index_dir(volume_root: &str) -> (r: String)
    ensures
        r@ == join_path(volume_root@, ".Spotlight-V100"@),
{
    join(volume_root, ".Spotlight-V100")
}

/// The tag string of a Finder color: `{name}\n{index}`.
pub open spec fn finder_tag_spec(name: Seq<char>, index: u8) -> Seq<char> {
    name + seq!['\n'] + crate::text::decimal(index as nat)
}

proof fn lemma_digit_value(d: nat)
    requires
        d < 10,
    ensures
        (digit_char(d) as u32) == 48 + d,
{
    let b: u8 = (48 + d) as u8;
    assert(b == 48 + d);
    assert((b as char) as u32 == b as u32);
}

proof fn lemma_decimal_reads_back(n: nat)
    ensures
        decimal(n).len() > 0,
        all_digits(decimal(n)),
        digits_value(decimal(n)) == n,
    decreases n,
{
    lemma_digit_value(n % 10);
    if n < 10 {
        assert(decimal(n) == seq![digit_char(n)]);
        assert(decimal(n).drop_last() == Seq::<char>::empty());
        assert(decimal(n).last() == digit_char(n));
        assert(digits_value(decimal(n)) == digits_value(Seq::<char>::empty()) * 10 + ((digit_char(n) as u32)
            - 48) as nat);
    } else {
        lemma_decimal_reads_back(n / 10);
        let d = decimal(n / 10);
        assert(decimal(n) == d.push(digit_char(n % 10)));
        assert(decimal(n).drop_last() == d);
        assert(decimal(n).last() == digit_char(n % 10));
        assert(digits_value(decimal(n)) == digits_value(d) * 10 + ((digit_char(n % 10) as u32) - 48) as nat);
        assert((n / 10) * 10 + n % 10 == n);
        assert forall|i: int| 0 <= i < decimal(n).len() implies '0' <= #[trigger] decimal(n)[i] <= '9' by {
            if i < d.len() {
                assert(decimal(n)[i] == d[i]);
            }
        }
    }
}

/// A Finder color tag reads back as its parts: the name, then one newline,
/// then the color index in decimal digits (no newline after the one that
/// ends the name), which parse back to the index.
pub proof fn law_finder_tag_splits(name: Seq<char>, index: u8)
    ensures
        finder_tag_spec(name, index).take(name.len() as int) == name,
        finder_tag_spec(name, index)[name.len() as int] == '\n',
        finder_tag_spec(name, index).skip(name.len() + 1int) == decimal(index as nat),
        all_digits(finder_tag_spec(name, index).skip(name.len() + 1int)),
        forall|j: int|
            name.len() < j < finder_tag_spec(name, index).len() ==> #[trigger] finder_tag_spec(name, index)[j]
                != '\n',
        parse_u8(finder_tag_spec(name, index).skip(name.len() + 1int)) == Some(index),
{
    let t = finder_tag_spec(name, index);
    let d = decimal(index as nat);
    lemma_decimal_reads_back(index as nat);
    assert(t.take(name.len() as int) == name);
    assert(t.skip(name.len() + 1int) == d);
    assert forall|j: int| name.len() < j < t.len() implies #[trigger] t[j] != '\n' by {
        assert(t[j] == d[j - name.len() - 1]);
    }
    assert(d[0] != '+');
}

/// The tag string stored for a Finder color: the name, one newline, then
/// the color index in decimal, which reads back as that index.
pub fn finder_tag_text(name: &str, index: u8) -> (r: String)
    ensures
        r@ == finder_tag_spec(name@, index),
        r@.take(name@.len() as int) == name@,
        r@[name@.len() as int] == '\n',
        forall|j: int| name@.len() < j < r@.len() ==> #[trigger] r@[j] != '\n',
        parse_u8(r@.skip(name@.len() + 1int)) == Some(index),
{
    proof {
        law_finder_tag_splits(name@, index);
    }
    let mut v = chars_of(name);
    v.push('\n');
    let d = crate::text::decimal_of(index as u64);
    crate::text::push_chars(&mut v, &d);
    string_of(&v)
}

// ---------------------------------------------------------------------------
// Binary plist of the tag strings
// ---------------------------------------------------------------------------

/// UTF-8 bytes of each tag.
pub open spec fn tag_bytes(tags: Seq<String>) -> Seq<Seq<u8>> {
    tags.map_values(|t: String| encode_utf8(t@))
}

/// The string objects of the plist: a marker `0x50 + length` then the
/// bytes of each tag.
pub open spec fn plist_strings(ts: Seq<Seq<u8>>) -> Seq<u8>
    decreases ts.len(),
{
    if ts.len() == 0 {
        Seq::<u8>::empty()
    } else {
        plist_strings(ts.drop_last()) + seq![(0x50 + ts.last().len()) as u8] + ts.last()
    }
}

/// The offset table: the root array at 8, then the start of each string.
pub open spec fn plist_offsets(ts: Seq<Seq<u8>>) -> Seq<u8> {
    seq![8u8] + Seq::new(ts.len(), |i: int| (9 + ts.len() + plist_strings(ts.take(i)).len()) as u8)
}

/// The binary plist (`bplist00`) holding the array of strings `ts`, as
/// macOS/iPadOS writes `_kMDItemUserTags`: header, root array (marker
/// `0xA0 + n`, references 1..=n), the strings, 1-byte offsets and the
/// 32-byte trailer.
pub open spec fn tags_plist_spec(ts: Seq<Seq<u8>>) -> Seq<u8> {
    let n = ts.len();
    let table_offset = 9 + n + plist_strings(ts).len();
    seq![98u8, 112u8, 108u8, 105u8, 115u8, 116u8, 48u8, 48u8] + seq![(0xA0 + n) as u8]
        + Seq::new(n, |i: int| (i + 1) as u8) + plist_strings(ts) + plist_offsets(ts) + zeros(5)
        + seq![0u8, 1u8, 1u8] + be64((n + 1) as u64) + be64(0u64) + be64(table_offset as u64)
}

/// Whether the tags fit the compact format: at most 14 tags, each ASCII
/// and shorter than 15 bytes.
pub open spec fn compact_tags(tags: Seq<String>) -> bool {
    &&& tags.len() < 15
    &&& forall|i: int|
        0 <= i < tags.len() ==> vstd::utf8::is_ascii_chars(#[trigger] tags[i]@) && tags[i]@.len()
            < 15
}

/// The strings of `ts` take at most 15 bytes each.
proof fn lemma_plist_strings_len(ts: Seq<Seq<u8>>)
    requires
        forall|i: int| 0 <= i < ts.len() ==> #[trigger] ts[i].len() < 15,
    ensures
        plist_strings(ts).len() <= 15 * ts.len(),
    decreases ts.len(),
{
    if ts.len() > 0 {
        lemma_plist_strings_len(ts.drop_last());
    }
}

/// Serializes an array of short ASCII strings as a binary plist, byte for
/// byte what macOS/iPadOS writes for `_kMDItemUserTags` (compact markers and
/// 1-byte offsets: at most 14 tags, each ASCII and under 15 bytes).
pub fn build_tags_plist(tags: &[String]) -> (out: Vec<u8>)
    requires
        compact_tags(tags@),
    ensures
        out@ == tags_plist_spec(tag_bytes(tags@)),
{
    let ghost tb = tag_bytes(tags@);
    let n = tags.len();
    proof {
        assert forall|i: int| 0 <= i < tb.len() implies #[trigger] tb[i].len() < 15 by {
            assert(tb[i] == encode_utf8(tags@[i]@));
        }
        lemma_plist_strings_len(tb);
    }
    let mut out: Vec<u8> = Vec::new();
    let header: [u8; 8] = [98, 112, 108, 105, 115, 116, 48, 48];
    push_bytes(&mut out, &header);
    let mut offsets: Vec<usize> = Vec::new();
    offsets.push(out.len());
    let marker: u8 = 0xA0u8 | (n as u8);
    assert(marker == 0xA0 + n) by {
        let nn = n as u8;
        assert(nn < 16);
        assert(0xA0u8 | nn == 0xA0u8 + nn) by (bit_vector)
            requires
                nn < 16u8,
        ;
    }
    out.push(marker);
    let ghost head = out@;
    let mut i: usize = 0;
    while i < n
        invariant
            i <= n == tags@.len() < 15,
            out@ == head + Seq::new(i as nat, |k: int| (k + 1) as u8),
        decreases n - i,
    {
        out.push((i + 1) as u8);
        i = i + 1;
        assert(out@ =~= head + Seq::new(i as nat, |k: int| (k + 1) as u8));
    }
    let ghost before_strings = out@;
    assert(out@.len() == 9 + n);
    let mut j: usize = 0;
    while j < n
        invariant
            j <= n == tags@.len() < 15,
            compact_tags(tags@),
            tb == tag_bytes(tags@),
            before_strings.len() == 9 + n,
            out@ == before_strings + plist_strings(tb.take(j as int)),
            plist_strings(tb).len() <= 15 * n,
            offsets@.len() == j + 1,
            offsets@[0] == 8,
            forall|k: int|
                0 <= k < j ==> #[trigger] offsets@[k + 1] == 9 + n + plist_strings(
                    tb.take(k),
                ).len(),
            forall|k: int| 0 <= k <= j ==> plist_strings(tb.take(k)).len() <= 15 * k,
        decreases n - j,
    {
        let b = tags[j].as_str().as_bytes();
        proof {
            assert(tb[j as int] == encode_utf8(tags@[j as int]@));
            assert(b@ == tb[j as int]);
            assert(tb.take(j + 1).drop_last() == tb.take(j as int));
            assert(tb.take(j + 1).last() == tb[j as int]);
        }
        offsets.push(out.len());
        let len = b.len();
        assert(len < 15);
        let m: u8 = 0x50u8 | (len as u8);
        assert(m == 0x50 + len) by {
            let l = len as u8;
            assert(0x50u8 | l == 0x50u8 + l) by (bit_vector)
                requires
                    l < 16u8,
            ;
        }
        out.push(m);
        push_bytes(&mut out, b);
        j = j + 1;
        assert(out@ =~= before_strings + plist_strings(tb.take(j as int)));
        assert(plist_strings(tb.take(j as int)).len() <= 15 * j);
    }
    assert(tb.take(n as int) == tb);
    let table_offset = out.len();
    let ghost before_table = out@;
    let mut k: usize = 0;
    while k < offsets.len()
        invariant
            k <= offsets@.len() == n + 1,
            n == tb.len() < 15,
            offsets@[0] == 8,
            forall|m: int|
                0 <= m < n ==> #[trigger] offsets@[m + 1] == 9 + n + plist_strings(
                    tb.take(m),
                ).len(),
            out@ == before_table + plist_offsets(tb).take(k as int),
        decreases offsets.len() - k,
    {
        let off = offsets[k];
        out.push(off as u8);
        proof {
            if k > 0 {
                assert(offsets@[(k - 1) + 1] == offsets@[k as int]);
            }
            assert(plist_offsets(tb)[k as int] == off as u8);
        }
        k = k + 1;
        assert(out@ =~= before_table + plist_offsets(tb).take(k as int));
    }
    assert(plist_offsets(tb).take(n + 1) =~= plist_offsets(tb));
    push_zeros(&mut out, 5);
    let tail: [u8; 3] = [0, 1, 1];
    push_bytes(&mut out, &tail);
    push_be64(&mut out, (n + 1) as u64);
    push_be64(&mut out, 0);
    push_be64(&mut out, table_offset as u64);
    assert(out@ =~= tags_plist_spec(tb));
    out
}

// ---------------------------------------------------------------------------
// AppleDouble container
// ---------------------------------------------------------------------------

/// The text of the blank resource fork.
pub open spec fn blank_fork_text() -> Seq<u8> {
    seq![84u8, 104u8, 105u8, 115u8, 32u8, 114u8, 101u8, 115u8, 111u8, 117u8, 114u8, 99u8, 101u8, 32u8, 102u8, 111u8, 114u8, 107u8, 32u8, 105u8, 110u8, 116u8, 101u8, 110u8, 116u8, 105u8, 111u8, 110u8, 97u8, 108u8, 108u8, 121u8, 32u8, 108u8, 101u8, 102u8, 116u8, 32u8, 98u8, 108u8, 97u8, 110u8, 107u8, 32u8, 32u8, 32u8]
}

/// The blank resource fork that macOS/iPadOS puts as entry 2 of every
/// AppleDouble file (286 bytes).
pub open spec fn resfork_blank() -> Seq<u8> {
    zeros(2) + seq![1u8, 0u8, 0u8, 0u8, 1u8] + zeros(8) + seq![30u8] + blank_fork_text() + zeros(196)
        + seq![1u8, 0u8, 0u8, 0u8, 1u8] + zeros(8) + seq![30u8] + zeros(9) + seq![
        28u8,
        0u8,
        30u8,
        255u8,
        255u8,
    ]
}

/// Appends the blank resource fork.
fn push_resfork_blank(out: &mut Vec<u8>)
    ensures
        final(out)@ == old(out)@ + resfork_blank(),
{
    let one: [u8; 5] = [1, 0, 0, 0, 1];
    let text: [u8; 46] = [84, 104, 105, 115, 32, 114, 101, 115, 111, 117, 114, 99, 101, 32, 102, 111, 114, 107, 32, 105, 110, 116, 101, 110, 116, 105, 111, 110, 97, 108, 108, 121, 32, 108, 101, 102, 116, 32, 98, 108, 97, 110, 107, 32, 32, 32];
    let tail: [u8; 5] = [28, 0, 30, 255, 255];
    push_zeros(out, 2);
    push_bytes(out, &one);
    push_zeros(out, 8);
    out.push(30u8);
    push_bytes(out, &text);
    push_zeros(out, 196);
    push_bytes(out, &one);
    push_zeros(out, 8);
    out.push(30u8);
    push_zeros(out, 9);
    push_bytes(out, &tail);
    assert(out@ =~= old(out)@ + resfork_blank());
}

/// The `ATTR` header (36 bytes) and the fixed fields of the attribute
/// entry: value offset, length, flags.
pub open spec fn attr_header(rf_offset: int, data_start: int, data_length: int) -> Seq<u8> {
    seq![65u8, 84u8, 84u8, 82u8] + be32(0u32) + be32(rf_offset as u32) + be32(data_start as u32)
        + be32(data_length as u32) + zeros(12) + be16(0u16) + be16(1u16) + be32(data_start as u32)
        + be32(data_length as u32) + be16(0u16)
}

/// Appends `attr_header`.
fn push_attr_header(out: &mut Vec<u8>, rf_offset: usize, data_start: usize, data_length: usize)
    ensures
        final(out)@ == old(out)@ + attr_header(rf_offset as int, data_start as int, data_length as int),
{
    let attr: [u8; 4] = [65, 84, 84, 82];
    push_bytes(out, &attr);
    push_be32(out, 0);
    push_be32(out, rf_offset as u32);
    push_be32(out, data_start as u32);
    push_be32(out, data_length as u32);
    push_zeros(out, 12);
    push_be16(out, 0);
    push_be16(out, 1);
    push_be32(out, data_start as u32);
    push_be32(out, data_length as u32);
    push_be16(out, 0);
    assert(out@ =~= old(out)@ + attr_header(rf_offset as int, data_start as int, data_length as int));
}

/// The attribute region of the FinderInfo entry, from offset 50: the unused
/// FinderInfo, the `ATTR` header, the single attribute entry (value offset,
/// length, flags, name length, name, NUL), padding, the value, padding up to
/// the resource fork.
pub open spec fn attr_region(name: Seq<u8>, value: Seq<u8>) -> Seq<u8> {
    let namelen: int = name.len() as int + 1;
    let entry_size = align4_spec(11 + namelen);
    let data_start = align4_spec(84 + 36 + entry_size);
    let data_length: int = value.len() as int;
    let rf_offset = align4_spec(data_start + data_length);
    zeros(34) + attr_header(rf_offset, data_start, data_length) + seq![namelen as u8] + name
        + seq![0u8] + zeros(data_start - (132 + name.len())) + value + zeros(
        rf_offset - (data_start + data_length),
    )
}

/// The AppleDouble header and entry table for a resource fork at `rf_offset`.
pub open spec fn appledouble_header(rf_offset: int) -> Seq<u8> {
    seq![0u8, 5u8, 0x16u8, 7u8, 0u8, 2u8, 0u8, 0u8] + seq![77u8, 97u8, 99u8, 32u8, 79u8, 83u8, 32u8, 88u8]
        + Seq::new(8, |i: int| 32u8) + be16(2u16) + be32(9u32) + be32(50u32) + be32(
        (rf_offset - 50) as u32,
    ) + be32(2u32) + be32(rf_offset as u32) + be32(286u32)
}

/// Appends `appledouble_header`.
fn push_appledouble_header(out: &mut Vec<u8>, rf_offset: usize)
    requires
        rf_offset >= 50,
    ensures
        final(out)@ == old(out)@ + appledouble_header(rf_offset as int),
{
    let magic: [u8; 8] = [0x00, 0x05, 0x16, 0x07, 0x00, 0x02, 0x00, 0x00];
    push_bytes(out, &magic);
    let mac: [u8; 8] = [77, 97, 99, 32, 79, 83, 32, 88];
    push_bytes(out, &mac);
    let filler: [u8; 8] = [32, 32, 32, 32, 32, 32, 32, 32];
    push_bytes(out, &filler);
    push_be16(out, 2);
    push_be32(out, 9);
    push_be32(out, 50);
    push_be32(out, (rf_offset - 50) as u32);
    push_be32(out, 2);
    push_be32(out, rf_offset as u32);
    push_be32(out, 286);
    assert(out@ =~= old(out)@ + appledouble_header(rf_offset as int));
}

/// An AppleDouble file holding one extended attribute `name` = `value`,
/// with the layout iPadOS writes: header, FinderInfo entry (id 9) carrying
/// the `ATTR` block, blank ResourceFork entry (id 2).
pub open spec fn appledouble_spec(name: Seq<u8>, value: Seq<u8>) -> Seq<u8> {
    let namelen: int = name.len() as int + 1;
    let entry_size = align4_spec(11 + namelen);
    let data_start = align4_spec(84 + 36 + entry_size);
    let rf_offset = align4_spec(data_start + value.len());
    appledouble_header(rf_offset) + attr_region(name, value) + resfork_blank()
}

/// Builds an AppleDouble file with a single extended attribute, with the
/// structure iPadOS writes: header + FinderInfo entry (id 9, with the `ATTR`
/// block) + ResourceFork entry (id 2, blank).
pub fn build_appledouble(xattr_name: &str, xattr_value: &[u8]) -> (out: Vec<u8>)
    requires
        xattr_name.spec_bytes().len() + xattr_value@.len() + 1000 <= usize::MAX,
    ensures
        out@ == appledouble_spec(xattr_name.spec_bytes(), xattr_value@),
{
    let name_bytes = xattr_name.as_bytes();
    let fi_offset: usize = 50;
    let attr_off = align4(fi_offset + 32);
    let namelen = name_bytes.len() + 1;
    let entry_size = align4(10 + 1 + namelen);
    let data_start = align4(attr_off + 36 + entry_size);
    let data_length = xattr_value.len();
    let end_data = data_start + data_length;
    let rf_offset = align4(end_data);
    let fi_len = rf_offset - fi_offset;
    let total_size = rf_offset;

    let mut region: Vec<u8> = Vec::new();
    push_zeros(&mut region, 34);
    push_attr_header(&mut region, total_size, data_start, data_length);
    region.push(namelen as u8);
    push_bytes(&mut region, name_bytes);
    region.push(0u8);
    let used = fi_offset + region.len();
    assert(used == 132 + name_bytes@.len());
    push_zeros(&mut region, data_start - used);
    push_bytes(&mut region, xattr_value);
    let used2 = fi_offset + region.len();
    assert(used2 == data_start + data_length);
    push_zeros(&mut region, rf_offset - used2);
    assert(region@ =~= attr_region(name_bytes@, xattr_value@));

    let mut out: Vec<u8> = Vec::new();
    push_appledouble_header(&mut out, rf_offset);
    assert(fi_len == rf_offset - 50);
    let region_slice = region.as_slice();
    push_bytes(&mut out, region_slice);
    push_resfork_blank(&mut out);
    assert(out@ =~= appledouble_spec(name_bytes@, xattr_value@));
    out
}

} // verus!
