use lumik::db::{app_settings_from, check_keybinding_key, default_keybindings, keybindings_to_seed, setting_text, slug_from_name};

#[test]
fn slugs() {
    assert_eq!(slug_from_name("Boda García 2024"), "boda-garcía-2024");
    assert_eq!(slug_from_name("  --Hello,,World!!  "), "hello-world");
    assert_eq!(slug_from_name("???"), "project");
    assert_eq!(slug_from_name(""), "project");
}

#[test]
fn settings_text() {
    assert!(app_settings_from(None).embed_metadata_on_import);
    assert!(app_settings_from(Some("true")).embed_metadata_on_import);
    assert!(!app_settings_from(Some("false")).embed_metadata_on_import);
    assert!(!app_settings_from(Some("TRUE")).embed_metadata_on_import);
    assert_eq!(setting_text(true), "true");
    assert_eq!(setting_text(false), "false");
}

#[test]
fn keybinding_defaults_and_seeding() {
    let d = default_keybindings();
    assert_eq!(d.len(), 20);
    assert_eq!(d[0].action, "photo_detail.close");
    assert_eq!(d[8].key, " ");
    let seeded = keybindings_to_seed(&vec!["photo_detail.close".to_string(), "project.import".to_string()]);
    assert_eq!(seeded.len(), 18);
    assert!(seeded.iter().all(|k| k.action != "photo_detail.close" && k.action != "project.import"));
    assert_eq!(seeded[0].action, "photo_detail.prev");
    assert_eq!(keybindings_to_seed(&vec![]).len(), 20);
}

#[test]
fn keybinding_key_must_not_be_empty() {
    assert_eq!(check_keybinding_key(""), Err("La tecla no puede estar vacía".to_string()));
    assert_eq!(check_keybinding_key("x"), Ok(()));
}
