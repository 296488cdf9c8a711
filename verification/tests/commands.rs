use lumik::application::ports::FinderTagWriter;
use lumik::commands::{emit_log, emit_progress};
use lumik::finder_tags::NoopFinderTags;
use lumik::import::progress::ImportPhase;
use lumik::application::use_cases::import_photos::ImportOutcome;
use lumik::exif::is_jpeg;
use lumik::commands::{
    checked_project_name, completion_message, device_not_mounted, folder_moved_message,
    image_description, import_result, inferred_session, new_project_dir,
    partition_media, path_to_slash, project_unavailable, renamed_project_dir, slash_relative,
};

#[test]
fn messages() {
    assert_eq!(project_unavailable("p1"), "Project 'p1' not available — device may not be mounted");
    assert_eq!(device_not_mounted("d"), "Device 'd' is not mounted");
    assert_eq!(folder_moved_message("/m/x"), "Carpeta movida a /m/x");
    assert_eq!(completion_message(3, 0, 0), "Importación completada: 3 fotos");
    assert_eq!(completion_message(3, 2, 1), "Importación completada: 3 fotos · 2 videos · 1 errores");
    assert_eq!(completion_message(0, 0, 4), "Importación completada: 0 fotos · 4 errores");
}

#[test]
fn import_result_counts_failures() {
    let r = import_result("s1", 5, ImportOutcome { successful: 4, failed_files: vec![], videos_copied: 1 });
    assert_eq!(r.session_id, "s1");
    assert_eq!(r.total_files, 5);
    assert_eq!(r.successful, 4);
    assert_eq!(r.failed, 0);
    assert_eq!(r.videos_copied, 1);
}

#[test]
fn description_with_year() {
    assert_eq!(image_description(Some("Boda"), Some("2024-06-15"), "2023-01-01T00:00:00Z"), Some("Boda@2024".to_string()));
    assert_eq!(image_description(Some("Boda"), None, "2023-01-01T00:00:00Z"), Some("Boda@2023".to_string()));
    assert_eq!(image_description(Some("Boda"), Some("20"), "2023"), Some("Boda@".to_string()));
    assert_eq!(image_description(Some(""), Some("2024"), "2023"), None);
    assert_eq!(image_description(None, Some("2024"), "2023"), None);
}

#[test]
fn media_partition_keeps_order() {
    let paths = vec!["/a/1.CR2".to_string(), "/a/c.MP4".to_string(), "/a/2.jpg".to_string(), "/a/d.mov".to_string()];
    let (videos, photos) = partition_media(&paths);
    assert_eq!(videos, vec!["/a/c.MP4".to_string(), "/a/d.mov".to_string()]);
    assert_eq!(photos, vec!["/a/1.CR2".to_string(), "/a/2.jpg".to_string()]);
}

#[test]
fn session_inferred_from_oldest_capture() {
    assert_eq!(
        inferred_session(false, Some("2024:06:15 10:00:00"), "/mnt/disk", "Boda"),
        Some(("/mnt/disk/lumik/2024/06/15_Boda".to_string(), "2024-06-15".to_string()))
    );
    assert_eq!(inferred_session(true, Some("2024:06:15 10:00:00"), "/mnt", "B"), None);
    assert_eq!(inferred_session(false, None, "/mnt", "B"), None);
    assert_eq!(inferred_session(false, Some("2024"), "/mnt", "B"), None);
}

#[test]
fn new_project_folders() {
    assert_eq!(new_project_dir("/mnt/disk", Some("2024-06-15"), "2025-01-02", "Boda"), "/mnt/disk/lumik/2024/06/15_Boda");
    assert_eq!(new_project_dir("/mnt/disk", None, "2025-01-02", "a/b"), "/mnt/disk/lumik/2025/01/02_a-b");
    assert_eq!(new_project_dir("/mnt/disk", Some("nope"), "2025-01-02", "X"), "/mnt/disk/lumik/2025/01/02_X");
}

#[test]
fn rename_folders() {
    assert_eq!(checked_project_name("  Nuevo  "), Ok("Nuevo".to_string()));
    assert_eq!(checked_project_name("   "), Err("Project name cannot be empty".to_string()));
    assert_eq!(renamed_project_dir("/mnt/lumik/2024/06/15_Boda", "Fiesta"), "/mnt/lumik/2024/06/15_Fiesta");
    assert_eq!(renamed_project_dir("/mnt/lumik/PlatziConf", "Otra"), "/mnt/lumik/Otra");
}

#[test]
fn slash_paths() {
    assert_eq!(path_to_slash("lumik/x//y/"), "lumik/x/y");
    assert_eq!(slash_relative("/mnt/disk/lumik/2024", "/mnt/disk"), "lumik/2024");
    assert_eq!(slash_relative("/other/place", "/mnt/disk"), "/other/place");
}

#[test]
fn jpeg_paths() {
    assert!(is_jpeg("/a/IMG.JPG"));
    assert!(is_jpeg("/a/x.jpeg"));
    assert!(!is_jpeg("/a/x.dng"));
    assert!(!is_jpeg("/a/jpg"));
}

struct Recorder {
    logs: std::sync::Mutex<Vec<(String, String)>>,
    events: std::sync::Mutex<Vec<lumik::import::progress::ImportProgress>>,
}

impl lumik::application::ports::ProgressReporter for Recorder {
    fn log(&self, session_id: &str, message: &str) {
        self.logs.lock().unwrap().push((session_id.to_string(), message.to_string()));
    }
    fn progress(&self, progress: lumik::import::progress::ImportProgress) {
        self.events.lock().unwrap().push(progress);
    }
}

#[test]
fn emit_helpers_forward_to_the_reporter() {
    let r = Recorder { logs: Default::default(), events: Default::default() };
    emit_log(&r, "s1", "hola");
    emit_progress(&r, "s1", 3, 3, "Completado", ImportPhase::Complete, None);
    emit_progress(&r, "s2", 1, 4, "a.dng", ImportPhase::Failed, Some("x".to_string()));
    assert_eq!(r.logs.lock().unwrap().clone(), vec![("s1".to_string(), "hola".to_string())]);
    let ev = r.events.lock().unwrap();
    assert_eq!(ev.len(), 2);
    assert_eq!(ev[0].session_id, "s1");
    assert_eq!((ev[0].current_index, ev[0].total_files), (3, 3));
    assert_eq!(ev[0].current_file, "Completado");
    assert_eq!(ev[0].phase, ImportPhase::Complete);
    assert_eq!(ev[0].error, None);
    assert_eq!((ev[1].current_index, ev[1].total_files), (1, 4));
    assert_eq!(ev[1].phase, ImportPhase::Failed);
    assert_eq!(ev[1].error.as_deref(), Some("x"));
}

#[test]
fn noop_finder_tags_do_nothing() {
    let n = NoopFinderTags;
    assert_eq!(n.sync_color("/x/a.dng", Some("red")), Ok(()));
    assert_eq!(n.move_sidecar("/x/a.dng", "/y/a.dng"), Ok(()));
    assert!(!n.spotlight_index_present("/x"));
    assert_eq!(n.invalidate_spotlight_index("/x"), Ok(()));
}
