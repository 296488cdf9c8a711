use std::cmp::Ordering;
use lumik::domain::error::DomainError;
use lumik::domain::paths::cull_destination;
use lumik::domain::photo::{normalize_tags, Rotation, Stars};
use lumik::domain::project::{compare_dashboard, ProjectFolder};

#[test]
fn cull_moves_media_to_culled() {
    assert_eq!(
        cull_destination("lumik/2024/06/15_boda/_media/IMG_0001.dng", true).unwrap(),
        "lumik/2024/06/15_boda/_culled/IMG_0001.dng"
    );
}

#[test]
fn uncull_moves_culled_to_media() {
    assert_eq!(
        cull_destination("lumik/2024/06/15_boda/_culled/IMG_0001.dng", false).unwrap(),
        "lumik/2024/06/15_boda/_media/IMG_0001.dng"
    );
}

#[test]
fn preserves_filename_and_project_dir() {
    assert_eq!(
        cull_destination("lumik/PlatziConf/_media/foto final.dng", true).unwrap(),
        "lumik/PlatziConf/_culled/foto final.dng"
    );
}

#[test]
fn minimal_path_without_project_dir() {
    assert_eq!(cull_destination("_media/IMG.dng", true).unwrap(), "_culled/IMG.dng");
}

#[test]
fn bare_filename_errors() {
    assert!(cull_destination("IMG.dng", true).is_err());
    assert!(cull_destination("", true).is_err());
}

#[test]
fn cull_destination_error_messages_and_backslashes() {
    assert_eq!(
        cull_destination("", true),
        Err(DomainError::InvalidPhotoPath("dng_path sin nombre de archivo".to_string()))
    );
    assert_eq!(
        cull_destination("IMG.dng", false),
        Err(DomainError::InvalidPhotoPath(
            "No se puede determinar el directorio del proyecto".to_string()
        ))
    );
    assert_eq!(
        cull_destination("lumik\\x\\_media\\IMG.dng", true).unwrap(),
        "lumik/x/_culled/IMG.dng"
    );
    assert_eq!(cull_destination("//a//_culled/B.dng", false).unwrap(), "a/_media/B.dng");
}

#[test]
fn cull_then_uncull_restores_the_path() {
    let start = "lumik/2024/06/15_boda/_media/IMG_0001.dng";
    let culled = cull_destination(start, true).unwrap();
    assert_eq!(cull_destination(&culled, false).unwrap(), start);
    // a second move from a messy path lands where one move from the start does
    let messy = "lumik\\x//_media/IMG.dng";
    let once = cull_destination(messy, true).unwrap();
    assert_eq!(cull_destination(&once, false).unwrap(), cull_destination(messy, false).unwrap());
}

#[test]
fn rotation_accepts_right_angles() {
    for d in [0, 90, 180, 270] {
        assert_eq!(Rotation::new(d).unwrap().degrees(), d);
    }
}

#[test]
fn rotation_rejects_invalid_angles() {
    assert_eq!(Rotation::new(45), Err(DomainError::InvalidRotation(45)));
    assert_eq!(Rotation::new(360), Err(DomainError::InvalidRotation(360)));
    assert_eq!(Rotation::new(-90), Err(DomainError::InvalidRotation(-90)));
}

#[test]
fn rotation_delta_is_clockwise_and_valid() {
    let r0 = Rotation::new(0).unwrap();
    let r90 = Rotation::new(90).unwrap();
    let r270 = Rotation::new(270).unwrap();
    assert_eq!(r90.delta_from(r0).degrees(), 90);
    assert_eq!(r0.delta_from(r270).degrees(), 90);
    assert_eq!(r270.delta_from(r90).degrees(), 180);
    assert_eq!(r90.delta_from(r90).degrees(), 0);
}

#[test]
fn rotation_exif_orientation_roundtrip() {
    assert_eq!(Rotation::from_exif_orientation(6).degrees(), 90);
    assert_eq!(Rotation::from_exif_orientation(3).degrees(), 180);
    assert_eq!(Rotation::from_exif_orientation(8).degrees(), 270);
    assert_eq!(Rotation::from_exif_orientation(1).degrees(), 0);
    assert_eq!(Rotation::from_exif_orientation(0).degrees(), 0);

    assert_eq!(Rotation::new(90).unwrap().to_exif_orientation(), 6);
    assert_eq!(Rotation::new(180).unwrap().to_exif_orientation(), 3);
    assert_eq!(Rotation::new(270).unwrap().to_exif_orientation(), 8);
    assert_eq!(Rotation::new(0).unwrap().to_exif_orientation(), 1);
}

#[test]
fn rotation_exif_roundtrip_every_angle_and_none() {
    for d in [0, 90, 180, 270] {
        let r = Rotation::new(d).unwrap();
        assert_eq!(Rotation::from_exif_orientation(r.to_exif_orientation()), r);
    }
    assert_eq!(Rotation::none().degrees(), 0);
    for a in [0, 90, 180, 270] {
        for b in [0, 90, 180, 270] {
            let (ra, rb) = (Rotation::new(a).unwrap(), Rotation::new(b).unwrap());
            assert_eq!((a + rb.delta_from(ra).degrees()) % 360, b);
        }
    }
}

#[test]
fn domain_error_messages() {
    assert_eq!(DomainError::InvalidRotation(45).message(), "Rotación inválida: 45");
    assert_eq!(DomainError::InvalidStars(-1).message(), "Stars inválidas: -1");
    assert_eq!(
        DomainError::InvalidRotation(i32::MIN).message(),
        "Rotación inválida: -2147483648"
    );
    assert_eq!(DomainError::InvalidPhotoPath("x y".to_string()).message(), "x y");
}

#[test]
fn stars_accepts_range_and_rejects_outside() {
    for v in 0..=5 {
        assert_eq!(Stars::new(v).unwrap().value(), v);
    }
    assert_eq!(Stars::new(-1), Err(DomainError::InvalidStars(-1)));
    assert_eq!(Stars::new(6), Err(DomainError::InvalidStars(6)));
}

#[test]
fn normalize_tags_lowercases_trims_dedupes_keeps_order() {
    assert_eq!(normalize_tags("A, a ,  b"), Some("a,b".to_string()));
    assert_eq!(
        normalize_tags("Perfil, GRUPAL, detalle, perfil"),
        Some("perfil,grupal,detalle".to_string())
    );
}

#[test]
fn normalize_tags_empty_returns_none() {
    assert_eq!(normalize_tags(""), None);
    assert_eq!(normalize_tags("   "), None);
    assert_eq!(normalize_tags(", , ,"), None);
}

#[test]
fn normalize_tags_unicode_whitespace_and_case() {
    assert_eq!(normalize_tags("\u{3000}Ñandú\t,ÑANDÚ,x"), Some("ñandú,x".to_string()));
    assert_eq!(normalize_tags("b,a,b,a"), Some("b,a".to_string()));
}

#[test]
fn slug_replaces_slash_and_trims() {
    assert_eq!(ProjectFolder::slug("  Boda García  "), "Boda García");
    assert_eq!(ProjectFolder::slug("a/b/c"), "a-b-c");
}

#[test]
fn folder_name_prefixes_day() {
    assert_eq!(ProjectFolder::folder_name("15", "Boda"), "15_Boda");
}

#[test]
fn date_parts_iso_and_exif() {
    assert_eq!(
        ProjectFolder::date_parts("2024-06-15T10:00:00Z"),
        Some(("2024".into(), "06".into(), "15".into()))
    );
    assert_eq!(
        ProjectFolder::date_parts("2024:06:15 10:00:00"),
        Some(("2024".into(), "06".into(), "15".into()))
    );
}

#[test]
fn date_parts_rejects_short_or_malformed() {
    assert_eq!(ProjectFolder::date_parts("2024-06"), None);
    assert_eq!(ProjectFolder::date_parts(""), None);
    assert_eq!(ProjectFolder::date_parts("2024/06/15"), None);
}

#[test]
fn date_parts_keeps_extra_dashes_in_day_and_rejects_empty_piece() {
    assert_eq!(
        ProjectFolder::date_parts("2024-6-1-5xyz"),
        Some(("2024".into(), "6".into(), "1-5".into()))
    );
    assert_eq!(ProjectFolder::date_parts("2024--0615"), None);
}

#[test]
fn path_builds_date_based_layout() {
    let p = ProjectFolder::path("/mnt/disk", "2024", "06", "15", "Boda");
    assert_eq!(p, "/mnt/disk/lumik/2024/06/15_Boda");
    assert_eq!(ProjectFolder::path("/mnt/disk/", "2024", "06", "15", "a/b"), "/mnt/disk/lumik/2024/06/15_a-b");
}

#[test]
fn dashboard_orders_newest_first_nulls_last() {
    let mut rows = vec![
        (Some("2024-01-01"), "c1"),
        (None, "c2"),
        (Some("2024-06-01"), "c3"),
        (None, "c4"),
    ];
    rows.sort_by(|a, b| compare_dashboard((a.0, a.1), (b.0, b.1)));
    assert_eq!(rows[0].0, Some("2024-06-01"));
    assert_eq!(rows[1].0, Some("2024-01-01"));
    assert!(rows[2].0.is_none() && rows[3].0.is_none());
}

#[test]
fn dashboard_desempata_por_created_desc() {
    let mut rows = vec![
        (Some("2024-06-01"), "2024-06-01T08:00:00"),
        (Some("2024-06-01"), "2024-06-01T20:00:00"),
    ];
    rows.sort_by(|a, b| compare_dashboard((a.0, a.1), (b.0, b.1)));
    assert_eq!(rows[0].1, "2024-06-01T20:00:00");
}

#[test]
fn dashboard_order_matches_str_cmp_descending() {
    assert_eq!(compare_dashboard((None, "a"), (None, "b")), Ordering::Greater);
    assert_eq!(compare_dashboard((None, "b"), (None, "b")), Ordering::Equal);
    assert_eq!(compare_dashboard((Some("2024"), "x"), (None, "y")), Ordering::Less);
    assert_eq!(compare_dashboard((Some("é"), "x"), (Some("z"), "x")), Ordering::Less);
}

fn dash(id: &str, session: Option<&str>, created: &str) -> lumik::models::ProjectDashboard {
    lumik::models::ProjectDashboard {
        id: id.into(),
        name: id.into(),
        created_at: created.into(),
        session_date: session.map(String::from),
        photo_count: 0,
        workflow_status: "imported".into(),
        cover_photo_path: None,
        device_uuid: "d".into(),
    }
}

#[test]
fn dashboard_sort_newest_first_undated_last_stable() {
    let rows = vec![
        dash("old", Some("2024-01-01"), "2024-01-01T00:00:00"),
        dash("none1", None, "2024-02-01T00:00:00"),
        dash("new", Some("2024-06-01"), "2024-06-01T08:00:00"),
        dash("none2", None, "2024-03-01T00:00:00"),
        dash("tie_a", Some("2024-03-01"), "2024-03-01T00:00:00"),
        dash("tie_b", Some("2024-03-01"), "2024-03-01T00:00:00"),
    ];
    let sorted = lumik::domain::project::sort_dashboard(rows);
    let ids: Vec<&str> = sorted.iter().map(|d| d.id.as_str()).collect();
    assert_eq!(ids, vec!["new", "tie_a", "tie_b", "old", "none2", "none1"]);
}

#[test]
fn date_parts_counts_characters() {
    assert_eq!(ProjectFolder::date_parts("2024-06-\u{e9}"), None);
    assert_eq!(
        ProjectFolder::date_parts("2024-06-1\u{e9}xyz"),
        Some(("2024".to_string(), "06".to_string(), "1\u{e9}".to_string()))
    );
}
