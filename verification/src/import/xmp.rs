//! XMP sidecars: the packet written next to a photo with the photographer's
//! metadata and the project description, and the update of its
//! `tiff:Orientation` element. These functions compute the text; reading and
//! writing the `.xmp` file is the caller's.
use vstd::prelude::*;
use crate::domain::photo::degrees_orientation;
use crate::models::PhotographerMetadata;
use crate::search::{
    contains, find, find_from, find_from_chars, lemma_find_from, lemma_find_is, occurs_at, replace_all,
    replace_all_chars,
};
use crate::text::{chars_of, decimal, decimal_of, digit_char, push_chars, push_str, string_of, trim, trim_chars, trim_end, trim_end_chars};

verus! {

/// The XML escape of one character.
pub open spec fn escape_char(c: char) -> Seq<char> {
    if c == '&' {
        "&amp;"@
    } else if c == '<' {
        "&lt;"@
    } else if c == '>' {
        "&gt;"@
    } else if c == '"' {
        "&quot;"@
    } else if c == '\'' {
        "&apos;"@
    } else {
        seq![c]
    }
}

/// `s` with `& < > " '` written as XML entities.
pub open spec fn escaped(s: Seq<char>) -> Seq<char>
    decreases s.len(),
{
    if s.len() == 0 {
        Seq::empty()
    } else {
        escaped(s.drop_last()) + escape_char(s.last())
    }
}

/// `s` escaped for XML text and attribute values.
pub fn xml_escape(s: &str) -> (r: String)
    ensures
        r@ == escaped(s@),
{
    let v = chars_of(s);
    let mut out: Vec<char> = Vec::new();
    let mut i: usize = 0;
    while i < v.len()
        invariant
            i <= v.len(),
            v@ == s@,
            out@ == escaped(v@.take(i as int)),
        decreases v.len() - i,
    {
        let c = v[i];
        if c == '&' {
            push_str(&mut out, "&amp;");
        } else if c == '<' {
            push_str(&mut out, "&lt;");
        } else if c == '>' {
            push_str(&mut out, "&gt;");
        } else if c == '"' {
            push_str(&mut out, "&quot;");
        } else if c == '\'' {
            push_str(&mut out, "&apos;");
        } else {
            out.push(c);
        }
        assert(v@.take(i + 1).drop_last() == v@.take(i as int));
        i = i + 1;
    }
    assert(v@.take(v.len() as int) == v@);
    string_of(&out)
}

/// The text of an optional string.
pub open spec fn opt_view(o: Option<String>) -> Option<Seq<char>> {
    match o {
        Some(s) => Some(s@),
        None => None,
    }
}

/// `open`, the escaped `v` and `close`, when `v` is present and not empty.
pub open spec fn element(open: Seq<char>, v: Option<Seq<char>>, close: Seq<char>) -> Seq<char> {
    match v {
        Some(t) => if t.len() > 0 {
            open + escaped(t) + close
        } else {
            Seq::empty()
        },
        None => Seq::empty(),
    }
}

/// Appends `element(open, v, close)`.
fn push_element(out: &mut Vec<char>, open: &str, v: &Option<String>, close: &str)
    ensures
        final(out)@ == old(out)@ + element(open@, opt_view(*v), close@),
{
    match v {
        Some(t) => {
            if !t.as_str().is_empty() {
                proof {
                    assert(t@.len() > 0);
                }
                push_str(out, open);
                let e = xml_escape(t.as_str());
                push_str(out, e.as_str());
                push_str(out, close);
            } else {
                assert(t@.len() == 0);
                assert(element(open@, opt_view(*v), close@) =~= Seq::<char>::empty());
                assert(out@ =~= out@ + Seq::<char>::empty());
            }
        },
        None => {
            assert(out@ =~= out@ + Seq::<char>::empty());
        },
    }
}

/// The trimmed text of an optional field (empty when absent).
pub open spec fn trimmed_or_empty(o: Option<String>) -> Seq<char> {
    match o {
        Some(s) => trim(s@),
        None => Seq::empty(),
    }
}

/// The contact block of the sidecar for contact URL `url` and e-mail `email`
/// (both already trimmed): empty when both are empty.
pub open spec fn contact_block(url: Seq<char>, email: Seq<char>) -> Seq<char> {
    if url.len() == 0 && email.len() == 0 {
        Seq::empty()
    } else {
        "      <Iptc4xmpCore:CreatorContactInfo rdf:parseType=\"Resource\">\n"@ + trim_end(
            element(
                "          <Iptc4xmpCore:CiUrlWork>"@,
                Some(url),
                "</Iptc4xmpCore:CiUrlWork>\n"@,
            ) + element(
                "          <Iptc4xmpCore:CiEmailWork>"@,
                Some(email),
                "</Iptc4xmpCore:CiEmailWork>\n"@,
            ),
        ) + "\n      </Iptc4xmpCore:CreatorContactInfo>\n"@
    }
}

/// The namespace attribute the contact block needs, when there is one.
pub open spec fn contact_attr(url: Seq<char>, email: Seq<char>) -> Seq<char> {
    if url.len() == 0 && email.len() == 0 {
        Seq::empty()
    } else {
        " xmlns:Iptc4xmpCore=\"http://iptc.org/std/Iptc4xmpCore/1.0/xmlns/\""@
    }
}

/// The elements the photographer's metadata contributes: creator, rights,
/// usage terms and contact, in this order.
pub open spec fn metadata_children(m: PhotographerMetadata) -> Seq<char> {
    element(
        "      <dc:creator><rdf:Seq><rdf:li>"@,
        opt_view(m.artist),
        "</rdf:li></rdf:Seq></dc:creator>\n"@,
    ) + element(
        "      <dc:rights><rdf:Alt><rdf:li xml:lang=\"x-default\">"@,
        opt_view(m.copyright),
        "</rdf:li></rdf:Alt></dc:rights>\n"@,
    ) + element(
        "      <xmpRights:UsageTerms><rdf:Alt><rdf:li xml:lang=\"x-default\">"@,
        opt_view(m.usage_terms),
        "</rdf:li></rdf:Alt></xmpRights:UsageTerms>\n"@,
    ) + contact_block(trimmed_or_empty(m.contact_url), trimmed_or_empty(m.contact_email))
}

/// All child elements of the description: the project description first.
pub open spec fn sidecar_children(m: Option<PhotographerMetadata>, desc: Option<Seq<char>>) -> Seq<
    char,
> {
    element(
        "      <dc:description><rdf:Alt><rdf:li xml:lang=\"x-default\">"@,
        desc,
        "</rdf:li></rdf:Alt></dc:description>\n"@,
    ) + match m {
        Some(meta) => metadata_children(meta),
        None => Seq::empty(),
    }
}

/// The extra attributes of the description element.
pub open spec fn sidecar_attrs(m: Option<PhotographerMetadata>) -> Seq<char> {
    match m {
        Some(meta) => contact_attr(
            trimmed_or_empty(meta.contact_url),
            trimmed_or_empty(meta.contact_email),
        ),
        None => Seq::empty(),
    }
}

/// Opening of the sidecar packet, up to the namespace declarations.
pub open spec fn sidecar_head() -> Seq<char> {
    "<?xpacket begin=\"\" id=\"W5M0MpCehiHzreSzNTczkc9d\"?>\n<x:xmpmeta xmlns:x=\"adobe:ns:meta/\" x:xmptk=\"Lumik\">\n  <rdf:RDF xmlns:rdf=\"http://www.w3.org/1999/02/22-rdf-syntax-ns#\">\n    <rdf:Description rdf:about=\"\"\n      xmlns:dc=\"http://purl.org/dc/elements/1.1/\"\n      xmlns:xmpRights=\"http://ns.adobe.com/xap/1.0/rights/\""@
}

/// Closing of every packet written here.
pub open spec fn packet_tail() -> Seq<char> {
    "\n    </rdf:Description>\n  </rdf:RDF>\n</x:xmpmeta>\n<?xpacket end=\"w\"?>"@
}

/// The sidecar for `m` and `desc`; `None` when no field has a value.
pub open spec fn sidecar_content(m: Option<PhotographerMetadata>, desc: Option<Seq<char>>) -> Option<
    Seq<char>,
> {
    let children = sidecar_children(m, desc);
    if children.len() == 0 {
        None
    } else {
        Some(sidecar_head() + sidecar_attrs(m) + ">\n"@ + children + packet_tail())
    }
}

/// The text of an optional `&str`.
pub open spec fn opt_str_view(o: Option<&str>) -> Option<Seq<char>> {
    match o {
        Some(s) => Some(s@),
        None => None,
    }
}

/// The contact block and its attribute for trimmed `url` and `email`.
fn contact_parts(url: &Vec<char>, email: &Vec<char>) -> (r: (Vec<char>, Vec<char>))
    ensures
        r.0@ == contact_attr(url@, email@),
        r.1@ == contact_block(url@, email@),
{
    let mut attr: Vec<char> = Vec::new();
    let mut block: Vec<char> = Vec::new();
    if url.len() == 0 && email.len() == 0 {
        return (attr, block);
    }
    push_str(&mut attr, " xmlns:Iptc4xmpCore=\"http://iptc.org/std/Iptc4xmpCore/1.0/xmlns/\"");
    let mut contact: Vec<char> = Vec::new();
    let u = Some(string_of(url));
    let e = Some(string_of(email));
    push_element(&mut contact, "          <Iptc4xmpCore:CiUrlWork>", &u, "</Iptc4xmpCore:CiUrlWork>\n");
    push_element(
        &mut contact,
        "          <Iptc4xmpCore:CiEmailWork>",
        &e,
        "</Iptc4xmpCore:CiEmailWork>\n",
    );
    let j = trim_end_chars(&contact, 0, contact.len());
    assert(contact@.subrange(0, contact@.len() as int) == contact@);
    push_str(&mut block, "      <Iptc4xmpCore:CreatorContactInfo rdf:parseType=\"Resource\">\n");
    let mut k: usize = 0;
    while k < j
        invariant
            k <= j <= contact.len(),
            block@ == "      <Iptc4xmpCore:CreatorContactInfo rdf:parseType=\"Resource\">\n"@
                + contact@.subrange(0, k as int),
        decreases j - k,
    {
        block.push(contact[k]);
        k = k + 1;
    }
    push_str(&mut block, "\n      </Iptc4xmpCore:CreatorContactInfo>\n");
    (attr, block)
}

/// The trimmed text of an optional field.
fn trimmed_field(o: &Option<String>) -> (r: Vec<char>)
    ensures
        r@ == trimmed_or_empty(*o),
{
    match o {
        Some(s) => {
            let v = chars_of(s.as_str());
            trim_chars(&v)
        },
        None => Vec::new(),
    }
}

/// The XMP sidecar for a photo: the project description (`dc:description`)
/// and the photographer's artist, copyright, usage terms and contact.
/// `None` when none of them has a value, in which case no sidecar is written.
pub fn xmp_sidecar_content(
    metadata: Option<&PhotographerMetadata>,
    image_description: Option<&str>,
) -> (r: Option<String>)
    ensures
        match r {
            Some(t) => sidecar_content(
                match metadata {
                    Some(m) => Some(*m),
                    None => None,
                },
                opt_str_view(image_description),
            ) == Some(t@),
            None => sidecar_content(
                match metadata {
                    Some(m) => Some(*m),
                    None => None,
                },
                opt_str_view(image_description),
            ) is None,
        },
{
    let ghost m = match metadata {
        Some(m) => Some(*m),
        None => None,
    };
    let mut children: Vec<char> = Vec::new();
    let desc: Option<String> = match image_description {
        Some(d) => Some(string_of(&chars_of(d))),
        None => None,
    };
    assert(opt_view(desc) == opt_str_view(image_description));
    push_element(
        &mut children,
        "      <dc:description><rdf:Alt><rdf:li xml:lang=\"x-default\">",
        &desc,
        "</rdf:li></rdf:Alt></dc:description>\n",
    );
    let mut attrs: Vec<char> = Vec::new();
    match metadata {
        Some(meta) => {
            let ghost before = children@;
            push_element(
                &mut children,
                "      <dc:creator><rdf:Seq><rdf:li>",
                &meta.artist,
                "</rdf:li></rdf:Seq></dc:creator>\n",
            );
            push_element(
                &mut children,
                "      <dc:rights><rdf:Alt><rdf:li xml:lang=\"x-default\">",
                &meta.copyright,
                "</rdf:li></rdf:Alt></dc:rights>\n",
            );
            push_element(
                &mut children,
                "      <xmpRights:UsageTerms><rdf:Alt><rdf:li xml:lang=\"x-default\">",
                &meta.usage_terms,
                "</rdf:li></rdf:Alt></xmpRights:UsageTerms>\n",
            );
            let url = trimmed_field(&meta.contact_url);
            let email = trimmed_field(&meta.contact_email);
            let (attr, block) = contact_parts(&url, &email);
            push_chars(&mut children, &block);
            push_chars(&mut attrs, &attr);
            assert(children@ =~= before + metadata_children(*meta));
        },
        None => {
            assert(children@ =~= children@ + Seq::<char>::empty());
        },
    }
    assert(children@ == sidecar_children(m, opt_str_view(image_description)));
    assert(attrs@ == sidecar_attrs(m));
    if children.len() == 0 {
        return None;
    }
    let mut out: Vec<char> = Vec::new();
    push_str(
        &mut out,
        "<?xpacket begin=\"\" id=\"W5M0MpCehiHzreSzNTczkc9d\"?>\n<x:xmpmeta xmlns:x=\"adobe:ns:meta/\" x:xmptk=\"Lumik\">\n  <rdf:RDF xmlns:rdf=\"http://www.w3.org/1999/02/22-rdf-syntax-ns#\">\n    <rdf:Description rdf:about=\"\"\n      xmlns:dc=\"http://purl.org/dc/elements/1.1/\"\n      xmlns:xmpRights=\"http://ns.adobe.com/xap/1.0/rights/\"",
    );
    push_chars(&mut out, &attrs);
    push_str(&mut out, ">\n");
    push_chars(&mut out, &children);
    push_str(&mut out, "\n    </rdf:Description>\n  </rdf:RDF>\n</x:xmpmeta>\n<?xpacket end=\"w\"?>");
    Some(string_of(&out))
}

// ---------------------------------------------------------------------------
// Orientation
// ---------------------------------------------------------------------------

/// The orientation element for EXIF orientation value `o`.
pub open spec fn orientation_tag(o: nat) -> Seq<char> {
    "<tiff:Orientation>"@ + decimal(o) + "</tiff:Orientation>"@
}

/// A fresh sidecar holding only the orientation element `tag`.
pub open spec fn orientation_only_packet(tag: Seq<char>) -> Seq<char> {
    orientation_packet_head() + tag + "\n"@ + packet_tail()
}

/// The text of a fresh orientation-only sidecar before its element.
pub open spec fn orientation_packet_head() -> Seq<char> {
    "<?xpacket begin=\"\" id=\"W5M0MpCehiHzreSzNTczkc9d\"?>\n<x:xmpmeta xmlns:x=\"adobe:ns:meta/\" x:xmptk=\"Lumik\">\n  <rdf:RDF xmlns:rdf=\"http://www.w3.org/1999/02/22-rdf-syntax-ns#\">\n    <rdf:Description rdf:about=\"\"\n      xmlns:tiff=\"http://ns.adobe.com/tiff/1.0/\">\n\n      "@
}

/// No `<` in `s` at or after `i` is followed by `t` or `/`.
pub open spec fn no_tag_start(s: Seq<char>, i: int) -> bool
    decreases s.len() - i,
{
    if i < 0 || i + 1 >= s.len() {
        true
    } else {
        !(s[i] == '<' && (s[i + 1] == 't' || s[i + 1] == '/')) && no_tag_start(s, i + 1)
    }
}

proof fn lemma_no_tag_start(s: Seq<char>, i: int, k: int)
    requires
        no_tag_start(s, i),
        0 <= i <= k,
        k + 1 < s.len(),
        s[k] == '<',
    ensures
        s[k + 1] != 't' && s[k + 1] != '/',
    decreases k - i,
{
    if i < k {
        lemma_no_tag_start(s, i + 1, k);
    }
}

/// The head of a fresh sidecar holds neither orientation tag (its text is
/// scanned sixteen characters per step, from the end).
proof fn lemma_packet_head_untagged()
    ensures
        forall|k: int| !#[trigger] occurs_at(orientation_packet_head(), "<tiff:Orientation>"@, k),
        forall|k: int| !#[trigger] occurs_at(orientation_packet_head(), "</tiff:Orientation>"@, k),
{
    let h = orientation_packet_head();
    reveal_strlit(
        "<?xpacket begin=\"\" id=\"W5M0MpCehiHzreSzNTczkc9d\"?>\n<x:xmpmeta xmlns:x=\"adobe:ns:meta/\" x:xmptk=\"Lumik\">\n  <rdf:RDF xmlns:rdf=\"http://www.w3.org/1999/02/22-rdf-syntax-ns#\">\n    <rdf:Description rdf:about=\"\"\n      xmlns:tiff=\"http://ns.adobe.com/tiff/1.0/\">\n\n      ",
    );
    assert(h.len() == 263);
    assert(no_tag_start(h, 256)) by {
        reveal_with_fuel(no_tag_start, 17);
    }
    assert(no_tag_start(h, 240)) by {
        reveal_with_fuel(no_tag_start, 17);
    }
    assert(no_tag_start(h, 224)) by {
        reveal_with_fuel(no_tag_start, 17);
    }
    assert(no_tag_start(h, 208)) by {
        reveal_with_fuel(no_tag_start, 17);
    }
    assert(no_tag_start(h, 192)) by {
        reveal_with_fuel(no_tag_start, 17);
    }
    assert(no_tag_start(h, 176)) by {
        reveal_with_fuel(no_tag_start, 17);
    }
    assert(no_tag_start(h, 160)) by {
        reveal_with_fuel(no_tag_start, 17);
    }
    assert(no_tag_start(h, 144)) by {
        reveal_with_fuel(no_tag_start, 17);
    }
    assert(no_tag_start(h, 128)) by {
        reveal_with_fuel(no_tag_start, 17);
    }
    assert(no_tag_start(h, 112)) by {
        reveal_with_fuel(no_tag_start, 17);
    }
    assert(no_tag_start(h, 96)) by {
        reveal_with_fuel(no_tag_start, 17);
    }
    assert(no_tag_start(h, 80)) by {
        reveal_with_fuel(no_tag_start, 17);
    }
    assert(no_tag_start(h, 64)) by {
        reveal_with_fuel(no_tag_start, 17);
    }
    assert(no_tag_start(h, 48)) by {
        reveal_with_fuel(no_tag_start, 17);
    }
    assert(no_tag_start(h, 32)) by {
        reveal_with_fuel(no_tag_start, 17);
    }
    assert(no_tag_start(h, 16)) by {
        reveal_with_fuel(no_tag_start, 17);
    }
    assert(no_tag_start(h, 0)) by {
        reveal_with_fuel(no_tag_start, 17);
    }
    reveal_strlit("<tiff:Orientation>");
    reveal_strlit("</tiff:Orientation>");
    assert forall|k: int| !#[trigger] occurs_at(h, "<tiff:Orientation>"@, k) by {
        if occurs_at(h, "<tiff:Orientation>"@, k) {
            assert(h.subrange(k, k + 18)[0] == h[k]);
            assert(h.subrange(k, k + 18)[1] == h[k + 1]);
            lemma_no_tag_start(h, 0, k);
        }
    }
    assert forall|k: int| !#[trigger] occurs_at(h, "</tiff:Orientation>"@, k) by {
        if occurs_at(h, "</tiff:Orientation>"@, k) {
            assert(h.subrange(k, k + 19)[0] == h[k]);
            assert(h.subrange(k, k + 19)[1] == h[k + 1]);
            lemma_no_tag_start(h, 0, k);
        }
    }
}

/// The sidecar text after setting the orientation for `rotation` degrees:
/// an existing `tiff:Orientation` element is replaced in place; otherwise the
/// element is added before the end of the description (declaring the `tiff`
/// namespace on it if missing); with no sidecar a minimal one is made.
pub open spec fn oriented_sidecar(existing: Option<Seq<char>>, rotation: int) -> Seq<char> {
    let tag = orientation_tag(degrees_orientation(rotation) as nat);
    match existing {
        None => orientation_only_packet(tag),
        Some(c) => if contains(c, "<tiff:Orientation>"@) {
            let start = find(c, "<tiff:Orientation>"@).unwrap();
            let end = find(c, "</tiff:Orientation>"@).unwrap() + "</tiff:Orientation>"@.len();
            c.take(start) + tag + c.skip(end)
        } else {
            let c1 = if !contains(c, "xmlns:tiff"@) {
                replace_all(
                    c,
                    "rdf:about=\"\""@,
                    "rdf:about=\"\"\n      xmlns:tiff=\"http://ns.adobe.com/tiff/1.0/\""@,
                )
            } else {
                c
            };
            replace_all(
                c1,
                "\n    </rdf:Description>"@,
                "\n      "@ + tag + "\n    </rdf:Description>"@,
            )
        },
    }
}

/// The orientation element written for `rotation` degrees.
pub open spec fn rotation_tag(rotation: int) -> Seq<char> {
    orientation_tag(degrees_orientation(rotation) as nat)
}

/// In `a + element + b`, where `a` holds neither orientation tag, the
/// element is what an orientation update finds and replaces.
proof fn lemma_retag(a: Seq<char>, b: Seq<char>, r1: int, r2: int)
    requires
        forall|k: int| !#[trigger] occurs_at(a, "<tiff:Orientation>"@, k),
        forall|k: int| !#[trigger] occurs_at(a, "</tiff:Orientation>"@, k),
    ensures
        oriented_sidecar(Some(a + rotation_tag(r1) + b), r2) == a + rotation_tag(r2) + b,
{
    let open = "<tiff:Orientation>"@;
    let close = "</tiff:Orientation>"@;
    reveal_strlit("<tiff:Orientation>");
    reveal_strlit("</tiff:Orientation>");
    let o = degrees_orientation(r1) as nat;
    let d = decimal(o);
    assert(d == seq![digit_char(o)]);
    assert(d[0] != '<');
    let t = rotation_tag(r1);
    assert(t.len() == 38);
    let s = a + t + b;
    let n = a.len() as int;
    assert(s.subrange(n, n + 18) =~= open);
    assert forall|k: int| 0 <= k < n implies !#[trigger] occurs_at(s, open, k) by {
        if k + 18 <= n {
            assert(s.subrange(k, k + 18) =~= a.subrange(k, k + 18));
            assert(!occurs_at(a, open, k));
        } else if occurs_at(s, open, k) {
            assert(s.subrange(k, k + 18)[n - k] == s[n]);
            assert(s[n] == '<');
        }
    }
    lemma_find_is(s, open, 0, n);
    let q = n + 19;
    assert(s.subrange(q, q + 19) =~= close);
    assert forall|k: int| 0 <= k < q implies !#[trigger] occurs_at(s, close, k) by {
        if k + 19 <= n {
            assert(s.subrange(k, k + 19) =~= a.subrange(k, k + 19));
            assert(!occurs_at(a, close, k));
        } else if k < n {
            if occurs_at(s, close, k) {
                assert(s.subrange(k, k + 19)[n - k] == s[n]);
                assert(s[n] == '<');
            }
        } else if k == n {
            if occurs_at(s, close, k) {
                assert(s.subrange(k, k + 19)[1] == s[n + 1]);
                assert(s[n + 1] == 't');
            }
        } else {
            if occurs_at(s, close, k) {
                assert(s.subrange(k, k + 19)[0] == s[k]);
                assert(s[k] == t[k - n]);
            }
        }
    }
    lemma_find_is(s, close, 0, q);
    assert(s.take(n) =~= a);
    assert(s.skip(q + 19) =~= b);
}

/// Setting the orientation twice in a row gives what the second setting
/// alone gives, for a new sidecar and for a sidecar that already holds the
/// orientation element (its first closing tag after its first opening one).
pub proof fn law_orientation_last_wins(existing: Option<Seq<char>>, r1: int, r2: int)
    requires
        existing matches Some(c) ==> contains(c, "<tiff:Orientation>"@) && (find(
            c,
            "</tiff:Orientation>"@,
        ) matches Some(x) && find(c, "<tiff:Orientation>"@).unwrap() <= x),
    ensures
        oriented_sidecar(Some(oriented_sidecar(existing, r1)), r2) == oriented_sidecar(existing, r2),
{
    let open = "<tiff:Orientation>"@;
    let close = "</tiff:Orientation>"@;
    match existing {
        None => {
            lemma_packet_head_untagged();
            lemma_retag(orientation_packet_head(), "\n"@ + packet_tail(), r1, r2);
            assert(orientation_packet_head() + rotation_tag(r1) + "\n"@ + packet_tail()
                =~= orientation_packet_head() + rotation_tag(r1) + ("\n"@ + packet_tail()));
            assert(orientation_packet_head() + rotation_tag(r2) + "\n"@ + packet_tail()
                =~= orientation_packet_head() + rotation_tag(r2) + ("\n"@ + packet_tail()));
        },
        Some(c) => {
            let start = find(c, open).unwrap();
            let x = find(c, close).unwrap();
            lemma_find_from(c, open, 0);
            lemma_find_from(c, close, 0);
            reveal_strlit("<tiff:Orientation>");
            reveal_strlit("</tiff:Orientation>");
            let a = c.take(start);
            let b = c.skip(x + close.len());
            assert forall|k: int| !#[trigger] occurs_at(a, open, k) by {
                if occurs_at(a, open, k) {
                    assert(a.subrange(k, k + open.len()) =~= c.subrange(k, k + open.len()));
                    assert(occurs_at(c, open, k));
                }
            }
            assert forall|k: int| !#[trigger] occurs_at(a, close, k) by {
                if occurs_at(a, close, k) {
                    assert(a.subrange(k, k + close.len()) =~= c.subrange(k, k + close.len()));
                    assert(occurs_at(c, close, k));
                }
            }
            lemma_retag(a, b, r1, r2);
        },
    }
}

/// The sidecar text with the orientation of `rotation` degrees set, from
/// the existing sidecar text (`None` when there is no sidecar yet). An
/// existing opening `tiff:Orientation` tag must have a closing one too.
pub fn orientation_xmp(existing: Option<&str>, rotation: i32) -> (r: String)
    requires
        existing matches Some(c) ==> (contains(c@, "<tiff:Orientation>"@) ==> contains(
            c@,
            "</tiff:Orientation>"@,
        )),
    ensures
        r@ == oriented_sidecar(opt_str_view(existing), rotation as int),
{
    proof {
        reveal_strlit("<tiff:Orientation>");
        reveal_strlit("</tiff:Orientation>");
        reveal_strlit("rdf:about=\"\"");
        reveal_strlit("\n    </rdf:Description>");
    }
    let o: u64 = if rotation == 90 {
        6
    } else if rotation == 180 {
        3
    } else if rotation == 270 {
        8
    } else {
        1
    };
    let mut tag: Vec<char> = Vec::new();
    push_str(&mut tag, "<tiff:Orientation>");
    let d = decimal_of(o);
    push_chars(&mut tag, &d);
    push_str(&mut tag, "</tiff:Orientation>");
    assert(tag@ == orientation_tag(degrees_orientation(rotation as int) as nat));
    match existing {
        None => {
            let mut out: Vec<char> = Vec::new();
            push_str(
                &mut out,
                "<?xpacket begin=\"\" id=\"W5M0MpCehiHzreSzNTczkc9d\"?>\n<x:xmpmeta xmlns:x=\"adobe:ns:meta/\" x:xmptk=\"Lumik\">\n  <rdf:RDF xmlns:rdf=\"http://www.w3.org/1999/02/22-rdf-syntax-ns#\">\n    <rdf:Description rdf:about=\"\"\n      xmlns:tiff=\"http://ns.adobe.com/tiff/1.0/\">\n\n      ",
            );
            push_chars(&mut out, &tag);
            push_str(&mut out, "\n");
            push_str(&mut out, "\n    </rdf:Description>\n  </rdf:RDF>\n</x:xmpmeta>\n<?xpacket end=\"w\"?>");
            string_of(&out)
        },
        Some(content) => {
            let c = chars_of(content);
            let open = chars_of("<tiff:Orientation>");
            let close = chars_of("</tiff:Orientation>");
            match find_from_chars(&c, &open, 0) {
                Some(start) => {
                    let e = find_from_chars(&c, &close, 0);
                    proof {
                        crate::search::lemma_find_from(c@, open@, 0);
                        crate::search::lemma_find_from(c@, close@, 0);
                    }
                    let end = match e {
                        Some(x) => {
                            assert(find_from(c@, close@, 0) == Some(x as int));
                            assert(occurs_at(c@, close@, x as int));
                            assert(x + close@.len() <= c@.len());
                            assert(c@.len() == c.len());
                            x + close.len()
                        },
                        None => 0,
                    };
                    let mut out: Vec<char> = Vec::new();
                    let mut k: usize = 0;
                    while k < start
                        invariant
                            k <= start <= c.len(),
                            out@ == c@.take(k as int),
                        decreases start - k,
                    {
                        out.push(c[k]);
                        k = k + 1;
                    }
                    push_chars(&mut out, &tag);
                    let ghost mid = out@;
                    let mut k2: usize = end;
                    while k2 < c.len()
                        invariant
                            end <= k2 <= c.len(),
                            out@ == mid + c@.subrange(end as int, k2 as int),
                        decreases c.len() - k2,
                    {
                        out.push(c[k2]);
                        k2 = k2 + 1;
                    }
                    assert(c@.subrange(end as int, c.len() as int) == c@.skip(end as int));
                    string_of(&out)
                },
                None => {
                    let ns = chars_of("xmlns:tiff");
                    let c1 = if find_from_chars(&c, &ns, 0).is_none() {
                        let pat = chars_of("rdf:about=\"\"");
                        let rep = chars_of("rdf:about=\"\"\n      xmlns:tiff=\"http://ns.adobe.com/tiff/1.0/\"");
                        replace_all_chars(&c, &pat, &rep)
                    } else {
                        c
                    };
                    let pat2 = chars_of("\n    </rdf:Description>");
                    let mut rep2: Vec<char> = Vec::new();
                    push_str(&mut rep2, "\n      ");
                    push_chars(&mut rep2, &tag);
                    push_str(&mut rep2, "\n    </rdf:Description>");
                    string_of(&replace_all_chars(&c1, &pat2, &rep2))
                },
            }
        },
    }
}

} // verus!
