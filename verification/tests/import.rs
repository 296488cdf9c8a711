use lumik::import::converter::is_supported_extension;
use lumik::import::pipeline::sanitize_name;
use lumik::import::xmp::{orientation_xmp, xml_escape, xmp_sidecar_content};
use lumik::models::PhotographerMetadata;

#[test]
fn test_supported_extensions() {
    assert!(is_supported_extension("cr2"));
    assert!(is_supported_extension("cr3"));
    assert!(is_supported_extension("nef"));
    assert!(is_supported_extension("arw"));
    assert!(is_supported_extension("raf"));
    assert!(is_supported_extension("jpg"));
    assert!(is_supported_extension("jpeg"));
    assert!(!is_supported_extension("png"));
    assert!(!is_supported_extension("heic"));
}

#[test]
fn test_sanitize_name() {
    assert_eq!(sanitize_name("PlatziConf 2025"), "PlatziConf_2025");
    assert_eq!(sanitize_name("Boda María&José"), "Boda_María_José");
    assert_eq!(sanitize_name("test-project_01"), "test-project_01");
}

#[test]
fn xml_escape_all_special_characters() {
    assert_eq!(xml_escape(r#"a&b<c>d"e'f"#), "a&amp;b&lt;c&gt;d&quot;e&apos;f");
    assert_eq!(xml_escape("&amp;"), "&amp;amp;");
    assert_eq!(xml_escape(""), "");
}

fn meta() -> PhotographerMetadata {
    PhotographerMetadata {
        id: "m".into(),
        photographer_id: "ph".into(),
        artist: Some("Ana & Co".into()),
        copyright: Some("".into()),
        contact_email: Some("  ana@x.com ".into()),
        contact_url: None,
        contact_phone: None,
        usage_terms: None,
        custom_tags: None,
    }
}

const HEAD: &str = "<?xpacket begin=\"\" id=\"W5M0MpCehiHzreSzNTczkc9d\"?>\n<x:xmpmeta xmlns:x=\"adobe:ns:meta/\" x:xmptk=\"Lumik\">\n  <rdf:RDF xmlns:rdf=\"http://www.w3.org/1999/02/22-rdf-syntax-ns#\">\n    <rdf:Description rdf:about=\"\"\n      xmlns:dc=\"http://purl.org/dc/elements/1.1/\"\n      xmlns:xmpRights=\"http://ns.adobe.com/xap/1.0/rights/\"";
const TAIL: &str = "\n    </rdf:Description>\n  </rdf:RDF>\n</x:xmpmeta>\n<?xpacket end=\"w\"?>";

#[test]
fn sidecar_none_without_fields() {
    assert_eq!(xmp_sidecar_content(None, None), None);
    assert_eq!(xmp_sidecar_content(None, Some("")), None);
    let mut m = meta();
    m.artist = None;
    m.contact_email = Some("   ".into());
    assert_eq!(xmp_sidecar_content(Some(&m), None), None);
}

#[test]
fn sidecar_with_description_only() {
    let got = xmp_sidecar_content(None, Some("Boda@2024")).unwrap();
    let want = format!(
        "{HEAD}>\n      <dc:description><rdf:Alt><rdf:li xml:lang=\"x-default\">Boda@2024</rdf:li></rdf:Alt></dc:description>\n{TAIL}"
    );
    assert_eq!(got, want);
}

#[test]
fn sidecar_with_metadata_and_contact() {
    let got = xmp_sidecar_content(Some(&meta()), Some("D")).unwrap();
    let want = format!(
        "{HEAD} xmlns:Iptc4xmpCore=\"http://iptc.org/std/Iptc4xmpCore/1.0/xmlns/\">\n\
         \x20     <dc:description><rdf:Alt><rdf:li xml:lang=\"x-default\">D</rdf:li></rdf:Alt></dc:description>\n\
         \x20     <dc:creator><rdf:Seq><rdf:li>Ana &amp; Co</rdf:li></rdf:Seq></dc:creator>\n\
         \x20     <Iptc4xmpCore:CreatorContactInfo rdf:parseType=\"Resource\">\n\
         \x20         <Iptc4xmpCore:CiEmailWork>ana@x.com</Iptc4xmpCore:CiEmailWork>\n\
         \x20     </Iptc4xmpCore:CreatorContactInfo>\n{TAIL}"
    );
    assert_eq!(got, want);
}

#[test]
fn orientation_sidecar_fresh() {
    let got = orientation_xmp(None, 90);
    assert!(got.contains("xmlns:tiff=\"http://ns.adobe.com/tiff/1.0/\">\n\n      <tiff:Orientation>6</tiff:Orientation>\n\n    </rdf:Description>"));
    assert!(got.starts_with("<?xpacket begin="));
    assert!(got.ends_with("<?xpacket end=\"w\"?>"));
}

#[test]
fn orientation_sidecar_replaces_existing_element() {
    let old = "<a><tiff:Orientation>6</tiff:Orientation></a>";
    assert_eq!(orientation_xmp(Some(old), 180), "<a><tiff:Orientation>3</tiff:Orientation></a>");
    assert_eq!(orientation_xmp(Some(old), 0), "<a><tiff:Orientation>1</tiff:Orientation></a>");
}

#[test]
fn orientation_sidecar_adds_element_and_namespace() {
    let old = "<rdf:Description rdf:about=\"\">\n      <dc:x/>\n    </rdf:Description>";
    let got = orientation_xmp(Some(old), 270);
    assert_eq!(
        got,
        "<rdf:Description rdf:about=\"\"\n      xmlns:tiff=\"http://ns.adobe.com/tiff/1.0/\">\n      <dc:x/>\n      <tiff:Orientation>8</tiff:Orientation>\n    </rdf:Description>"
    );
    let with_ns = "<d xmlns:tiff=\"t\">\n    </rdf:Description>";
    assert_eq!(
        orientation_xmp(Some(with_ns), 90),
        "<d xmlns:tiff=\"t\">\n      <tiff:Orientation>6</tiff:Orientation>\n    </rdf:Description>"
    );
}

#[test]
fn orientation_set_twice_keeps_only_the_last() {
    let first = orientation_xmp(None, 90);
    assert_eq!(orientation_xmp(Some(&first), 270), orientation_xmp(None, 270));
    let old = "<x><tiff:Orientation>6</tiff:Orientation>tail</x>";
    let once = orientation_xmp(Some(old), 180);
    assert_eq!(orientation_xmp(Some(&once), 0), orientation_xmp(Some(old), 0));
}
