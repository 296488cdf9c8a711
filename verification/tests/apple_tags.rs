use lumik::apple_tags::{
    build_appledouble, build_tags_plist, colors_from_label, lumik_color_to_macos, sidecar_path,
    spotlight_index_dir, TAGS_XATTR,
};

// Bytes of a real `_kMDItemUserTags` attribute written by an iPad.
const IPAD_RED: &[u8] = &[
    98, 112, 108, 105, 115, 116, 48, 48, 161, 1, 85, 82, 101, 100, 10, 54, 8, 10, 0, 0, 0, 0, 0,
    0, 1, 1, 0, 0, 0, 0, 0, 0, 0, 2, 0, 0, 0, 0, 0, 0, 0, 0, 0, 0, 0, 0, 0, 0, 0, 16,
];
const IPAD_MULTI: &[u8] = &[
    98, 112, 108, 105, 115, 116, 48, 48, 162, 1, 2, 85, 82, 101, 100, 10, 54, 88, 80, 104, 111,
    116, 111, 115, 10, 52, 8, 11, 17, 0, 0, 0, 0, 0, 0, 1, 1, 0, 0, 0, 0, 0, 0, 0, 3, 0, 0, 0, 0,
    0, 0, 0, 0, 0, 0, 0, 0, 0, 0, 0, 26,
];

#[test]
fn bplist_single_matches_ipad() {
    assert_eq!(build_tags_plist(&["Red\n6".to_string()]), IPAD_RED);
}

#[test]
fn bplist_multi_matches_ipad() {
    assert_eq!(
        build_tags_plist(&["Red\n6".to_string(), "Photos\n4".to_string()]),
        IPAD_MULTI
    );
}

#[test]
fn color_map_matches_lumik_ids() {
    assert_eq!(lumik_color_to_macos(1), Some(("Rojo", 6)));
    assert_eq!(lumik_color_to_macos(5), Some(("Morado", 3)));
    assert_eq!(lumik_color_to_macos(9), None);
    assert_eq!(
        colors_from_label("1,3,5"),
        vec![("Rojo", 6), ("Verde", 2), ("Morado", 3)]
    );
}

#[test]
fn colors_from_label_parses_like_str_parse() {
    assert_eq!(colors_from_label(" 2 , +4,04, 0,6,x,256,,"), vec![("Amarillo", 5), ("Azul", 4), ("Azul", 4)]);
    assert_eq!(colors_from_label(""), vec![]);
    assert_eq!(colors_from_label("-1,+,1 1"), vec![]);
}

/// Minimal AppleDouble reader: the value of the first extended attribute.
fn parse_first_xattr(data: &[u8]) -> (String, Vec<u8>) {
    let be32 = |o: usize| u32::from_be_bytes(data[o..o + 4].try_into().unwrap()) as usize;
    let be16 = |o: usize| u16::from_be_bytes(data[o..o + 2].try_into().unwrap()) as usize;
    assert_eq!(&data[0..4], &[0x00, 0x05, 0x16, 0x07]);
    let num_entries = be16(24);
    let mut fi_off = 0;
    for i in 0..num_entries {
        let base = 26 + i * 12;
        if be32(base) == 9 {
            fi_off = be32(base + 4);
        }
    }
    let attr = data[fi_off..]
        .windows(4)
        .position(|w| w == b"ATTR")
        .map(|p| fi_off + p)
        .unwrap();
    let num_attrs = be16(attr + 34);
    assert!(num_attrs >= 1);
    let e = attr + 36;
    let voff = be32(e);
    let vlen = be32(e + 4);
    let nl = data[e + 10] as usize;
    let name = String::from_utf8(data[e + 11..e + 11 + nl - 1].to_vec()).unwrap();
    (name, data[voff..voff + vlen].to_vec())
}

#[test]
fn appledouble_roundtrips() {
    let colors = [("Rojo", 6u8), ("Azul", 4u8)];
    let tags: Vec<String> = colors.iter().map(|(n, i)| format!("{}\n{}", n, i)).collect();
    let plist = build_tags_plist(&tags);
    let ad = build_appledouble(TAGS_XATTR, &plist);
    let (name, value) = parse_first_xattr(&ad);
    assert_eq!(name, TAGS_XATTR);
    assert_eq!(value, plist);
}

#[test]
fn appledouble_layout_is_aligned_and_sized() {
    let ad = build_appledouble(TAGS_XATTR, &[1, 2, 3]);
    // name: 35 bytes + NUL → entry 48, data at 168, fork at 172.
    assert_eq!(&ad[24..26], &[0, 2]);
    assert_eq!(u32::from_be_bytes(ad[34..38].try_into().unwrap()), 122);
    assert_eq!(u32::from_be_bytes(ad[42..46].try_into().unwrap()), 172);
    assert_eq!(u32::from_be_bytes(ad[46..50].try_into().unwrap()), 286);
    assert_eq!(ad.len(), 172 + 286);
    assert_eq!(&ad[168..171], &[1, 2, 3]);
    assert_eq!(&ad[ad.len() - 2..], &[0xff, 0xff]);
}

#[test]
fn sidecar_paths() {
    assert_eq!(sidecar_path("/mnt/x/IMG.dng"), Some("/mnt/x/._IMG.dng".to_string()));
    assert_eq!(sidecar_path("IMG.dng"), Some("._IMG.dng".to_string()));
    assert_eq!(sidecar_path("/"), None);
    assert_eq!(spotlight_index_dir("/media/disk"), "/media/disk/.Spotlight-V100");
}
