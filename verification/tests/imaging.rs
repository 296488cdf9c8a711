use lumik::exif::{ascii_tag_text, camera_from_raw, camera_from_tags, orientation_to_degrees, rotation_from_orientation};
use lumik::imaging::{cover_thumbnail_rel, jpeg_data_url, preview_next, thumb_dest, thumbnail_file, thumbnail_next, ImageStep};

#[test]
fn data_urls_are_standard_base64() {
    assert_eq!(jpeg_data_url(b""), "data:image/jpeg;base64,");
    assert_eq!(jpeg_data_url(b"f"), "data:image/jpeg;base64,Zg==");
    assert_eq!(jpeg_data_url(b"fo"), "data:image/jpeg;base64,Zm8=");
    assert_eq!(jpeg_data_url(b"foobar"), "data:image/jpeg;base64,Zm9vYmFy");
    assert_eq!(jpeg_data_url(&[0xfb, 0xff]), "data:image/jpeg;base64,+/8=");
}

#[test]
fn thumbnail_paths() {
    assert_eq!(thumbnail_file("/mnt/lumik/x", "p1"), "/mnt/lumik/x/.thumbs/p1.jpg");
    assert_eq!(thumb_dest("/mnt/lumik/x/_media/IMG.dng", "p1"), Some("/mnt/lumik/x/.thumbs/p1.jpg".to_string()));
    assert_eq!(thumb_dest("/mnt/lumik/x/_culled/IMG.dng", "p1"), Some("/mnt/lumik/x/.thumbs/p1.jpg".to_string()));
    assert_eq!(thumb_dest("/tmp/IMG.jpg", "p2"), Some("/tmp/.thumbs/p2.jpg".to_string()));
    assert_eq!(thumb_dest("", "p2"), None);
    assert_eq!(cover_thumbnail_rel("p3"), ".thumbs/p3.jpg");
}

#[test]
fn exif_tag_reading() {
    assert_eq!(orientation_to_degrees(6), 90);
    assert_eq!(orientation_to_degrees(3), 180);
    assert_eq!(orientation_to_degrees(8), 270);
    assert_eq!(orientation_to_degrees(2), 0);
    assert_eq!(rotation_from_orientation(None), 0);
    assert_eq!(rotation_from_orientation(Some(8)), 270);
    assert_eq!(camera_from_tags(Some("Canon"), Some("R5")), Some("Canon R5".to_string()));
    assert_eq!(camera_from_tags(None, Some("R5")), Some("R5".to_string()));
    assert_eq!(camera_from_tags(None, None), None);
    assert_eq!(camera_from_raw("", "X100"), Some("X100".to_string()));
    assert_eq!(camera_from_raw("Fuji", ""), Some("Fuji".to_string()));
    assert_eq!(camera_from_raw("", ""), None);
    assert_eq!(ascii_tag_text(" Canon \0\0"), Some("Canon".to_string()));
    assert_eq!(ascii_tag_text("\0"), None);
}

fn jpeg_with_exif() -> Vec<u8> {
    let mut tiff: Vec<u8> = vec![b'M', b'M', 0, 42, 0, 0, 0, 8];
    tiff.extend_from_slice(&[0, 2]);
    // Make, ASCII, 6 values at offset 38
    tiff.extend_from_slice(&[0x01, 0x0f, 0, 2, 0, 0, 0, 6, 0, 0, 0, 38]);
    // Orientation, SHORT, 1 value: 6
    tiff.extend_from_slice(&[0x01, 0x12, 0, 3, 0, 0, 0, 1, 0, 6, 0, 0]);
    tiff.extend_from_slice(&[0, 0, 0, 0]);
    tiff.extend_from_slice(b"Canon\0");
    let mut app1: Vec<u8> = b"Exif\0\0".to_vec();
    app1.extend_from_slice(&tiff);
    let len = (app1.len() + 2) as u16;
    let mut out: Vec<u8> = vec![0xff, 0xd8, 0xff, 0xe1, (len >> 8) as u8, (len & 0xff) as u8];
    out.extend_from_slice(&app1);
    out.extend_from_slice(&[0xff, 0xd9]);
    out
}

#[test]
fn jpeg_exif_reads_orientation_and_camera() {
    let bytes = jpeg_with_exif();
    assert_eq!(lumik::exif::jpeg_exif_rotation(&bytes), 90);
    let m = lumik::exif::jpeg_exif_metadata(&bytes).unwrap();
    assert_eq!(m.camera.as_deref(), Some("Canon"));
    assert_eq!(m.rotation, 90);
    assert_eq!(m.iso, None);
    assert_eq!(lumik::exif::jpeg_exif_rotation(b"not an image"), 0);
    assert!(lumik::exif::jpeg_exif_metadata(b"not an image").is_none());
    let files = vec![
        ("/a/IMG.JPG".to_string(), bytes.clone()),
        ("/a/IMG.dng".to_string(), bytes.clone()),
        ("/a/B.jpg".to_string(), b"junk".to_vec()),
    ];
    let batch = lumik::exif::extract_exif_metadata_batch(&files);
    assert_eq!(batch.len(), 1);
    assert_eq!(batch[0].0, "/a/IMG.JPG");
    assert_eq!(batch[0].1.rotation, 90);
}

fn small_jpeg(w: u32, h: u32) -> Vec<u8> {
    let img = image::RgbImage::from_pixel(w, h, image::Rgb([200, 10, 10]));
    let mut buf = std::io::Cursor::new(Vec::new());
    image::DynamicImage::ImageRgb8(img).write_to(&mut buf, image::ImageFormat::Jpeg).unwrap();
    buf.into_inner()
}

#[test]
fn thumbnails_are_scaled_turned_and_fall_back_to_the_raw_bytes() {
    let png = small_jpeg(640, 320);
    let thumb = lumik::imaging::thumbnail_bytes(png.clone(), 90);
    let img = image::load_from_memory(&thumb).unwrap();
    assert_eq!((img.width(), img.height()), (160, 320));
    let plain = lumik::imaging::thumbnail_bytes(png.clone(), 0);
    let img = image::load_from_memory(&plain).unwrap();
    assert_eq!((img.width(), img.height()), (320, 160));
    assert_eq!(lumik::imaging::thumbnail_bytes(b"junk".to_vec(), 90), b"junk".to_vec());
    assert!(lumik::imaging::turned_thumbnail(&png, 0).is_none());
    let turned = lumik::imaging::turned_thumbnail(&png, 270).unwrap();
    let img = image::load_from_memory(&turned).unwrap();
    assert_eq!((img.width(), img.height()), (320, 640));
    assert!(lumik::imaging::tiff_preview(b"junk").is_none());
    assert!(lumik::imaging::decoded_thumbnail(&png).is_some());
}

#[test]
fn image_steps_follow_the_fallback_order() {
    assert_eq!(thumbnail_next("dng", 0), ImageStep::Extract("-PreviewImage"));
    assert_eq!(thumbnail_next("dng", 1), ImageStep::Extract("-ThumbnailImage"));
    assert_eq!(thumbnail_next("dng", 2), ImageStep::GiveUp);
    assert_eq!(thumbnail_next("jpg", 2), ImageStep::DecodeFile);
    assert_eq!(thumbnail_next("jpg", 3), ImageStep::GiveUp);
    assert_eq!(thumbnail_next("tif", 0), ImageStep::DecodeFile);
    assert_eq!(thumbnail_next("tif", 1), ImageStep::DecodeTiffStrips);
    assert_eq!(preview_next("cr2", 3), ImageStep::Extract("-OtherImage"));
    assert_eq!(preview_next("cr2", 4), ImageStep::GiveUp);
    assert_eq!(preview_next("jpeg", 4), ImageStep::CopyJpeg);
    assert_eq!(preview_next("jpeg", 5), ImageStep::GiveUp);
    assert_eq!(preview_next("tiff", 0), ImageStep::DecodeFile);
    assert_eq!(preview_next("tiff", 1), ImageStep::DecodeTiffStrips);
}

#[test]
fn exif_batch_keeps_one_entry_per_path() {
    let bytes = jpeg_with_exif();
    let files = vec![
        ("/a/IMG.JPG".to_string(), b"junk".to_vec()),
        ("/a/X.jpg".to_string(), bytes.clone()),
        ("/a/X.jpg".to_string(), bytes.clone()),
    ];
    let batch = lumik::exif::extract_exif_metadata_batch(&files);
    assert_eq!(batch.len(), 1);
    assert_eq!(batch[0].0, "/a/X.jpg");
}
