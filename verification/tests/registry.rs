use lumik::application::registry::ProjectRegistry;

#[test]
fn ejecting_flag_roundtrip() {
    let mut reg: ProjectRegistry<u32> = ProjectRegistry::new();
    assert!(!reg.ejecting_snapshot().contains(&"dev1".to_string()));
    reg.mark_ejecting("dev1");
    assert!(reg.ejecting_snapshot().contains(&"dev1".to_string()));
    reg.clear_ejecting("dev1");
    assert!(!reg.ejecting_snapshot().contains(&"dev1".to_string()));
}

#[test]
fn rotation_gen_increments_per_photo() {
    let mut reg: ProjectRegistry<u32> = ProjectRegistry::new();
    assert_eq!(reg.rotation_gen("p1"), None);
    assert_eq!(reg.bump_rotation_gen("p1"), 1);
    assert_eq!(reg.bump_rotation_gen("p1"), 2);
    assert_eq!(reg.bump_rotation_gen("p2"), 1);
    assert_eq!(reg.rotation_gen("p1"), Some(2));
    assert_eq!(reg.rotation_gen("p2"), Some(1));
}

#[test]
fn insert_get_replace_and_remove() {
    let mut reg: ProjectRegistry<u32> = ProjectRegistry::new();
    reg.insert("a".into(), "dev1".into(), 1);
    reg.insert("b".into(), "dev2".into(), 2);
    assert_eq!(reg.open_count(), 2);
    assert_eq!(reg.get("a"), Some(&1));
    assert!(reg.contains("b"));
    reg.insert("a".into(), "dev1".into(), 10);
    assert_eq!(reg.open_count(), 2);
    assert_eq!(reg.get("a"), Some(&10));
    assert_eq!(reg.remove("a"), Some(10));
    assert_eq!(reg.remove("a"), None);
    assert!(!reg.contains("a"));
    assert_eq!(reg.get("zzz"), None);
    assert_eq!(reg.all_open(), vec![2]);
}

#[test]
fn ids_on_device_and_close_projects() {
    let mut reg: ProjectRegistry<u32> = ProjectRegistry::new();
    reg.insert("a".into(), "dev1".into(), 1);
    reg.insert("b".into(), "dev2".into(), 2);
    reg.insert("c".into(), "dev1".into(), 3);
    assert_eq!(reg.ids_on_device("dev1"), vec!["a".to_string(), "c".to_string()]);
    let closed = reg.close_projects_on_device("dev1");
    assert_eq!(closed, vec!["a".to_string(), "c".to_string()]);
    assert!(!reg.contains("a") && !reg.contains("c"));
    assert_eq!(reg.get("b"), Some(&2));
    assert!(reg.ids_on_device("dev1").is_empty());
}

#[test]
fn retain_mounted_drops_unmounted_and_ejecting() {
    let mut reg: ProjectRegistry<u32> = ProjectRegistry::new();
    reg.insert("a".into(), "dev1".into(), 1);
    reg.insert("b".into(), "dev2".into(), 2);
    reg.insert("c".into(), "dev3".into(), 3);
    reg.retain_mounted(&vec!["dev1".to_string(), "dev3".to_string()], &vec!["dev3".to_string()]);
    assert!(reg.contains("a"));
    assert!(!reg.contains("b"));
    assert!(!reg.contains("c"));
    assert_eq!(reg.open_count(), 1);
}
