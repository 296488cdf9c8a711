use std::cell::RefCell;
use std::sync::Mutex;

use lumik::application::ports::{
    FileMetadata, FileStore, FinderTagWriter, ImageProcessor, ImportPipeline, MetadataTool,
    PhotoRepository, PipelinePhotos, ProgressReporter,
};
use lumik::application::use_cases::cull_photo::CullPhoto;
use lumik::application::use_cases::import_photos::{batch_outcome, build_photo_inserts, ImportParams, ImportPhotos};
use lumik::application::use_cases::photo_preview::PhotoPreview;
use lumik::application::use_cases::rate_photo::RatePhoto;
use lumik::application::use_cases::rotate_photo::RotatePhoto;
use lumik::application::use_cases::regenerate_thumbnails::RegenerateThumbnails;
use lumik::import::progress::ImportProgress;
use lumik::models::{CreatePhoto, Photo};

fn photo(dng_path: &str, jpg: Option<&str>, culled: bool, rotation: i32) -> Photo {
    Photo {
        id: "p1".into(),
        project_id: "proj".into(),
        dng_path: dng_path.into(),
        jpg_path: jpg.map(|s| s.into()),
        device_uuid: "dev".into(),
        original_camera: None,
        original_format: None,
        import_date: "2024-01-01T00:00:00Z".into(),
        file_hash: None,
        culled,
        workflow_status: "imported".into(),
        backup_status: "pending".into(),
        backup_url: None,
        backup_date: None,
        backup_retries: 0,
        deleted: false,
        stars: 0,
        color_label: None,
        tags: None,
        capture_date: None,
        width: None,
        height: None,
        file_size_bytes: None,
        iso: None,
        aperture: None,
        shutter_speed: None,
        exposure_compensation: None,
        focal_length: None,
        lens_model: None,
        rotation,
    }
}

// ---- Test doubles -----------------------------------------------------------

struct FakeRepo {
    photo: Option<Photo>,
    fail_update: bool,
    culled_calls: RefCell<Vec<(bool, String)>>,
    rating_calls: RefCell<Vec<(i32, Option<String>, Option<String>)>>,
    rotation_calls: RefCell<Vec<i32>>,
    created: RefCell<usize>,
}

impl FakeRepo {
    fn with(photo: Photo) -> Self {
        FakeRepo {
            photo: Some(photo),
            fail_update: false,
            culled_calls: RefCell::new(vec![]),
            rating_calls: RefCell::new(vec![]),
            rotation_calls: RefCell::new(vec![]),
            created: RefCell::new(0),
        }
    }
}

impl PhotoRepository for FakeRepo {
    fn get(&self, _id: &str) -> Result<Option<Photo>, String> {
        Ok(self.photo.clone())
    }
    fn update_rotation(&self, _id: &str, rotation: i32) -> Result<(), String> {
        self.rotation_calls.borrow_mut().push(rotation);
        Ok(())
    }
    fn update_rating(
        &self,
        _id: &str,
        stars: i32,
        color_label: Option<&str>,
        tags: Option<&str>,
    ) -> Result<(), String> {
        self.rating_calls
            .borrow_mut()
            .push((stars, color_label.map(String::from), tags.map(String::from)));
        Ok(())
    }
    fn update_culled(&self, _id: &str, culled: bool, new_dng_path: &str) -> Result<(), String> {
        self.culled_calls.borrow_mut().push((culled, new_dng_path.to_string()));
        if self.fail_update {
            Err("db boom".into())
        } else {
            Ok(())
        }
    }
    fn create_batch(&self, photos: &[CreatePhoto]) -> Result<Vec<Photo>, String> {
        *self.created.borrow_mut() = photos.len();
        Ok(photos
            .iter()
            .enumerate()
            .map(|(i, cp)| {
                let mut p = photo(&cp.dng_path, None, false, 0);
                p.id = format!("id{i}");
                p
            })
            .collect())
    }
}

#[derive(Default)]
struct FakeFiles {
    renames: Mutex<Vec<(String, String)>>,
    existing: Vec<String>,
    content: Vec<u8>,
}

impl FileStore for FakeFiles {
    fn create_dir_all(&self, _dir: &str) -> Result<(), String> {
        Ok(())
    }
    fn rename(&self, from: &str, to: &str) -> Result<(), String> {
        self.renames.lock().unwrap().push((from.into(), to.into()));
        Ok(())
    }
    fn path_exists(&self, path: &str) -> bool {
        self.existing.iter().any(|p| p == path)
    }
    fn read(&self, _path: &str) -> Result<Vec<u8>, String> {
        Ok(self.content.clone())
    }
}

#[derive(Default)]
struct FakeFinder {
    sync_calls: Mutex<Vec<(String, Option<String>)>>,
    spotlight_present: bool,
}

impl FinderTagWriter for FakeFinder {
    fn sync_color(&self, target: &str, color: Option<&str>) -> Result<(), String> {
        self.sync_calls.lock().unwrap().push((target.into(), color.map(String::from)));
        Ok(())
    }
    fn move_sidecar(&self, _from: &str, _to: &str) -> Result<(), String> {
        Ok(())
    }
    fn spotlight_index_present(&self, _volume: &str) -> bool {
        self.spotlight_present
    }
    fn invalidate_spotlight_index(&self, _volume: &str) -> Result<(), String> {
        Ok(())
    }
}

#[derive(Default)]
struct FakeImages {
    rotate_calls: Mutex<Vec<(String, i32)>>,
    thumbs: Mutex<Vec<String>>,
    preview: Option<String>,
}

impl ImageProcessor for FakeImages {
    fn cache_thumbnail(&self, _src: &str, photo_id: &str) -> Option<i32> {
        self.thumbs.lock().unwrap().push(photo_id.to_string());
        Some(0)
    }
    fn rotate_thumbnail(&self, project_dir: &str, _photo_id: &str, delta: i32) {
        self.rotate_calls.lock().unwrap().push((project_dir.into(), delta));
    }
    fn ensure_preview(&self, _src: &str, _dir: &str, _id: &str) -> Option<String> {
        self.preview.clone()
    }
    fn jpeg_preview_bytes(&self, _src: &str) -> Result<Vec<u8>, String> {
        Ok(b"Man".to_vec())
    }
}

struct FakeMetadata {
    rotation: i32,
}

impl MetadataTool for FakeMetadata {
    fn read_rotation(&self, _file: &str) -> i32 {
        self.rotation
    }
    fn extract_batch(&self, _paths: &[String]) -> Vec<(String, FileMetadata)> {
        vec![]
    }
    fn set_orientation(&self, _file: &str, _rotation: i32) -> Result<(), String> {
        Ok(())
    }
    fn strip_orientation(&self, _file: &str) {}
}

struct FakePipeline {
    dng: Vec<String>,
    videos: Mutex<usize>,
}

impl ImportPipeline for FakePipeline {
    fn process_photos(
        &self,
        _req: PipelinePhotos,
        _reporter: &dyn ProgressReporter,
    ) -> Result<Vec<String>, String> {
        Ok(self.dng.clone())
    }
    fn copy_videos(&self, videos: &[String], _dest: &str) -> Result<usize, String> {
        *self.videos.lock().unwrap() = videos.len();
        Ok(videos.len())
    }
    fn file_size(&self, _path: &str) -> Option<i64> {
        None
    }
}

struct NoopReporter;

impl ProgressReporter for NoopReporter {
    fn log(&self, _session_id: &str, _message: &str) {}
    fn progress(&self, _progress: ImportProgress) {}
}

// ---- Cull --------------------------------------------------------------------

#[test]
fn cull_moves_file_and_updates_db() {
    let repo = FakeRepo::with(photo("lumik/2024/06/15_boda/_media/IMG.dng", None, false, 0));
    let files = FakeFiles::default();
    let finder = FakeFinder::default();
    let mut uc = CullPhoto::new(&repo, &files, &finder, "/mnt/disk");

    uc.execute("p1", true).unwrap();

    let renames = files.renames.lock().unwrap();
    assert_eq!(renames.len(), 1);
    assert_eq!(renames[0].0, "/mnt/disk/lumik/2024/06/15_boda/_media/IMG.dng");
    assert_eq!(renames[0].1, "/mnt/disk/lumik/2024/06/15_boda/_culled/IMG.dng");

    let calls = repo.culled_calls.borrow();
    assert_eq!(calls.len(), 1);
    assert_eq!(calls[0], (true, "lumik/2024/06/15_boda/_culled/IMG.dng".to_string()));
}

#[test]
fn no_change_when_state_matches() {
    let repo = FakeRepo::with(photo("lumik/x/_media/IMG.dng", None, true, 0));
    let files = FakeFiles::default();
    let finder = FakeFinder::default();
    let mut uc = CullPhoto::new(&repo, &files, &finder, "/mnt");
    uc.execute("p1", true).unwrap();
    assert!(files.renames.lock().unwrap().is_empty());
    assert!(repo.culled_calls.borrow().is_empty());
}

#[test]
fn rollback_moves_file_back_when_db_fails() {
    let mut repo = FakeRepo::with(photo("lumik/x/_media/IMG.dng", None, false, 0));
    repo.fail_update = true;
    let files = FakeFiles::default();
    let finder = FakeFinder::default();
    let mut uc = CullPhoto::new(&repo, &files, &finder, "/mnt");

    let err = uc.execute("p1", true).unwrap_err();
    assert_eq!(err, "db boom");

    let renames = files.renames.lock().unwrap();
    assert_eq!(renames.len(), 2, "se esperaba mover y luego revertir");
    let media = "/mnt/lumik/x/_media/IMG.dng".to_string();
    let culled = "/mnt/lumik/x/_culled/IMG.dng".to_string();
    assert_eq!(renames[0], (media.clone(), culled.clone()));
    assert_eq!(renames[1], (culled, media));
}

#[test]
fn cull_of_missing_photo_is_an_error() {
    let mut repo = FakeRepo::with(photo("lumik/x/_media/IMG.dng", None, false, 0));
    repo.photo = None;
    let files = FakeFiles::default();
    let finder = FakeFinder::default();
    let mut uc = CullPhoto::new(&repo, &files, &finder, "/mnt");
    assert_eq!(uc.execute("p9", true).unwrap_err(), "Photo p9 not found");
    assert!(files.renames.lock().unwrap().is_empty());
}

// ---- Rate --------------------------------------------------------------------

#[test]
fn saves_rating_normalizes_tags_and_syncs_sidecars() {
    let repo = FakeRepo::with(photo("lumik/x/_media/IMG.dng", Some("lumik/x/_media/IMG.jpg"), false, 0));
    let finder = FakeFinder { sync_calls: Mutex::new(vec![]), spotlight_present: true };
    let mut uc = RatePhoto::new(&repo, &finder, "/mnt", true);

    let spotlight = uc.execute("p1", 3, Some("1"), Some("Perfil, PERFIL, grupal")).unwrap();

    let calls = repo.rating_calls.borrow();
    assert_eq!(calls.len(), 1);
    assert_eq!(calls[0], (3, Some("1".to_string()), Some("perfil,grupal".to_string())));

    let syncs = finder.sync_calls.lock().unwrap();
    assert_eq!(syncs.len(), 2);
    assert_eq!(syncs[0].0, "/mnt/lumik/x/_media/IMG.dng");
    assert_eq!(syncs[1].0, "/mnt/lumik/x/_media/IMG.jpg");

    assert_eq!(spotlight, Some("/mnt".to_string()));
}

#[test]
fn skips_sidecars_when_disabled_but_still_saves_rating() {
    let repo = FakeRepo::with(photo("lumik/x/_media/IMG.dng", None, false, 0));
    let finder = FakeFinder { sync_calls: Mutex::new(vec![]), spotlight_present: true };
    let mut uc = RatePhoto::new(&repo, &finder, "/mnt", false);

    let spotlight = uc.execute("p1", 5, None, None).unwrap();

    assert_eq!(repo.rating_calls.borrow().len(), 1, "rating se guarda igual");
    assert!(finder.sync_calls.lock().unwrap().is_empty(), "sin sidecars si está desactivado");
    assert_eq!(spotlight, None);
}

#[test]
fn rejects_invalid_stars() {
    let repo = FakeRepo::with(photo("x", None, false, 0));
    let finder = FakeFinder::default();
    let mut uc = RatePhoto::new(&repo, &finder, "/mnt", true);
    assert!(uc.execute("p1", 6, None, None).is_err());
    assert!(repo.rating_calls.borrow().is_empty(), "no guarda si stars inválidas");
}

// ---- Rotate ------------------------------------------------------------------

#[test]
fn persists_rotation_and_rotates_thumbnail() {
    let repo = FakeRepo::with(photo("lumik/x/_media/IMG.dng", None, false, 0));
    let images = FakeImages::default();
    let mut uc = RotatePhoto::new(&repo, &images, "/mnt/lumik/x");

    let dng = uc.execute("p1", 90).unwrap();
    assert_eq!(dng, "lumik/x/_media/IMG.dng");
    assert_eq!(*repo.rotation_calls.borrow(), vec![90]);
    assert_eq!(*images.rotate_calls.lock().unwrap(), vec![("/mnt/lumik/x".to_string(), 90)]);
}

#[test]
fn delta_wraps_clockwise() {
    let repo = FakeRepo::with(photo("lumik/x/_media/IMG.dng", None, false, 90));
    let images = FakeImages::default();
    let mut uc = RotatePhoto::new(&repo, &images, "/d");
    uc.execute("p1", 0).unwrap();
    assert_eq!(images.rotate_calls.lock().unwrap()[0].1, 270);
}

#[test]
fn no_thumbnail_rotation_when_delta_zero() {
    let repo = FakeRepo::with(photo("lumik/x/_media/IMG.dng", None, false, 180));
    let images = FakeImages::default();
    let mut uc = RotatePhoto::new(&repo, &images, "/d");
    uc.execute("p1", 180).unwrap();
    assert_eq!(*repo.rotation_calls.borrow(), vec![180]);
    assert!(images.rotate_calls.lock().unwrap().is_empty());
}

#[test]
fn rejects_invalid_rotation() {
    let repo = FakeRepo::with(photo("lumik/x/_media/IMG.dng", None, false, 0));
    let images = FakeImages::default();
    let mut uc = RotatePhoto::new(&repo, &images, "/d");
    assert!(uc.execute("p1", 45).is_err());
    assert!(repo.rotation_calls.borrow().is_empty());
}

// ---- Import ------------------------------------------------------------------

#[test]
fn build_inserts_maps_metadata_and_relative_path() {
    let mount = "/mnt/disk";
    let dest = "/mnt/disk/lumik/2024/06/15_boda/_media";
    let dng = "/mnt/disk/lumik/2024/06/15_boda/_media/IMG_0001.cr2".to_string();
    let mut meta = FileMetadata::default();
    meta.camera = Some("Canon EOS R5".into());
    meta.iso = Some(400);
    meta.rotation = 90;
    let exif = vec![(dng.clone(), meta)];

    let inserts = build_photo_inserts(&[dng.clone()], &exif, &[None], dest, mount, "proj1", "devA");
    assert_eq!(inserts.len(), 1);
    let cp = &inserts[0].1;
    assert_eq!(cp.dng_path, "lumik/2024/06/15_boda/_media/IMG_0001.cr2");
    assert_eq!(cp.project_id, "proj1");
    assert_eq!(cp.device_uuid, "devA");
    assert_eq!(cp.original_format.as_deref(), Some("CR2"));
    assert_eq!(cp.original_camera.as_deref(), Some("Canon EOS R5"));
    assert_eq!(cp.iso, Some(400));
    assert_eq!(cp.rotation, 90);
    assert_eq!(cp.file_size_bytes, None);
}

fn params(photos: Vec<String>, videos: Vec<String>) -> ImportParams {
    ImportParams {
        session_id: "s1".into(),
        photo_paths: photos,
        video_paths: videos,
        project_id: "proj".into(),
        project_name: "Boda".into(),
        device_uuid: "dev".into(),
        mount_point: "/mnt".into(),
        dest_folder: "/mnt/lumik/x/_media".into(),
        video_dest_folder: "/mnt/lumik/x/_video".into(),
        metadata: None,
        image_description: None,
        rename_on_import: true,
    }
}

#[test]
fn execute_registers_photos_and_generates_thumbnails() {
    let dng = vec!["/mnt/lumik/x/_media/A.dng".to_string(), "/mnt/lumik/x/_media/B.dng".to_string()];
    let pipeline = FakePipeline { dng: dng.clone(), videos: Mutex::new(0) };
    let repo = FakeRepo::with(photo("x", None, false, 0));
    let images = FakeImages::default();
    let metadata = FakeMetadata { rotation: 0 };
    let mut uc = ImportPhotos::new(&repo, &metadata, &images, &pipeline, &NoopReporter);

    let out = uc.execute(&params(dng.clone(), vec![])).unwrap();
    assert_eq!(out.successful, 2);
    assert_eq!(out.videos_copied, 0);
    assert!(out.failed_files.is_empty());
    assert_eq!(*repo.created.borrow(), 2, "batch con 2 fotos");
    assert_eq!(images.thumbs.lock().unwrap().len(), 2, "2 miniaturas");
}

#[test]
fn execute_copies_videos_and_skips_empty_photo_pipeline() {
    let pipeline = FakePipeline { dng: vec![], videos: Mutex::new(0) };
    let repo = FakeRepo::with(photo("x", None, false, 0));
    let images = FakeImages::default();
    let metadata = FakeMetadata { rotation: 0 };
    let mut uc = ImportPhotos::new(&repo, &metadata, &images, &pipeline, &NoopReporter);

    let out = uc.execute(&params(vec![], vec!["/src/CLIP.mp4".to_string()])).unwrap();
    assert_eq!(out.videos_copied, 1);
    assert_eq!(out.successful, 0);
    assert_eq!(*repo.created.borrow(), 0, "sin fotos, no hay batch");
}

// ---- Preview -----------------------------------------------------------------

#[test]
fn jpeg_preview_is_served_as_data_url_with_rotation() {
    let repo = FakeRepo::with(photo("lumik/x/_media/IMG.JPG", None, false, 0));
    let images = FakeImages::default();
    let metadata = FakeMetadata { rotation: 90 };
    let files = FakeFiles::default();
    let mut uc = PhotoPreview::new(&repo, &images, &metadata, &files);
    let r = uc.execute("p1", "/mnt", "/mnt/lumik/x").unwrap();
    assert_eq!(r.url, "data:image/jpeg;base64,TWFu");
    assert_eq!(r.rotation, 90);
}

#[test]
fn raw_preview_reads_cached_preview() {
    let repo = FakeRepo::with(photo("lumik/x/_media/IMG.dng", None, false, 0));
    let images = FakeImages { preview: Some("/mnt/lumik/x/.previews/p1.jpg".into()), ..Default::default() };
    let metadata = FakeMetadata { rotation: 0 };
    let files = FakeFiles { content: vec![0xff, 0xd8], ..Default::default() };
    let mut uc = PhotoPreview::new(&repo, &images, &metadata, &files);
    let r = uc.execute("p1", "/mnt", "/mnt/lumik/x").unwrap();
    assert_eq!(r.url, "data:image/jpeg;base64,/9g=");
}

#[test]
fn preview_errors() {
    let mut repo = FakeRepo::with(photo("lumik/x/_media/IMG.dng", None, false, 0));
    let images = FakeImages::default();
    let metadata = FakeMetadata { rotation: 0 };
    let files = FakeFiles::default();
    {
        let mut uc = PhotoPreview::new(&repo, &images, &metadata, &files);
        assert_eq!(uc.execute("p1", "/mnt", "/d").unwrap_err(), "Could not extract preview for p1");
    }
    repo.photo = None;
    let mut uc = PhotoPreview::new(&repo, &images, &metadata, &files);
    assert_eq!(uc.execute("p1", "/mnt", "/d").unwrap_err(), "Photo p1 not found");
}

#[test]
fn batch_outcome_reports_successes_or_every_insert_failed() {
    let insert = CreatePhoto {
        project_id: "p".to_string(),
        dng_path: "lumik/x/_media/A.dng".to_string(),
        device_uuid: "d".to_string(),
        original_camera: None,
        original_format: None,
        capture_date: None,
        width: None,
        height: None,
        file_size_bytes: None,
        iso: None,
        aperture: None,
        shutter_speed: None,
        exposure_compensation: None,
        focal_length: None,
        lens_model: None,
        rotation: 0,
    };
    let inserts = vec![("/mnt/lumik/x/_media/A.dng".to_string(), insert)];
    let ok = batch_outcome(Ok(1), &inserts, 2);
    assert_eq!((ok.successful, ok.failed_files.len(), ok.videos_copied), (1, 0, 2));
    let err = batch_outcome(Err("locked".to_string()), &inserts, 0);
    assert_eq!(err.successful, 0);
    assert_eq!(err.failed_files.len(), 1);
    assert_eq!(err.failed_files[0].name, "A.dng");
    assert_eq!(err.failed_files[0].path, "/mnt/lumik/x/_media/A.dng");
    assert_eq!(err.failed_files[0].error, "Database error: locked");
}

#[test]
fn regenerate_reconciles_rotations_then_requests_every_thumbnail() {
    let repo = FakeRepo::with(photo("x", None, false, 0));
    let images = FakeImages::default();
    let metadata = FakeMetadata { rotation: 90 };
    let mut a = photo("lumik/x/_media/A.dng", None, false, 90);
    a.id = "a".into();
    let mut b = photo("lumik/x/_media/B.dng", None, false, 0);
    b.id = "b".into();
    let mut uc = RegenerateThumbnails::new(&repo, &metadata, &images, "/mnt");
    let (count, reconciled) = uc.execute(&vec![a, b]);
    assert_eq!((count, reconciled), (2, 1));
    assert_eq!(*repo.rotation_calls.borrow(), vec![90]);
    assert_eq!(*images.thumbs.lock().unwrap(), vec!["a".to_string(), "b".to_string()]);
}
