use lumik::metadata::{
    is_ready_line, metadata_batch_args, parse_csv_line, parse_exiftool_csv, read_rotation_args,
    rotation_from_exiftool_output, session_input, set_orientation_args, strip_orientation_args,
};
use lumik::scan::{lines_of, parse_i32};

#[test]
fn parse_csv_line_handles_quoted_commas() {
    assert_eq!(
        parse_csv_line(r#"a,"b,c",d"#),
        vec!["a".to_string(), "b,c".to_string(), "d".to_string()]
    );
    assert_eq!(parse_csv_line(r#""quote"" inside""#), vec![r#"quote" inside"#.to_string()]);
}

#[test]
fn csv_line_edges() {
    assert_eq!(parse_csv_line(""), vec!["".to_string()]);
    assert_eq!(parse_csv_line("a,,b,"), vec!["a", "", "b", ""]);
}

#[test]
fn extract_batch_empty_input() {
    assert!(metadata_batch_args(&vec![]).is_none());
    assert!(parse_exiftool_csv("").is_empty());
}

#[test]
fn batch_args_list_options_then_paths() {
    let a = metadata_batch_args(&vec!["/a.dng".to_string()]).unwrap();
    assert_eq!(a.len(), 17);
    assert_eq!(a[0], "-csv");
    assert_eq!(a[14], "-IFD0:Orientation");
    assert_eq!(a[15], "-n");
    assert_eq!(a[16], "/a.dng");
}

#[test]
fn read_rotation_reads_exif_orientation() {
    assert_eq!(rotation_from_exiftool_output("Orientation                     : 6\n"), 90);
    assert_eq!(rotation_from_exiftool_output("Orientation                     : 1\n"), 0);
}

#[test]
fn read_rotation_is_idempotent() {
    let out = "Orientation                     : 6\n";
    let a = rotation_from_exiftool_output(out);
    let b = rotation_from_exiftool_output(out);
    assert_eq!(a, b, "leer la rotación no debe tener efectos secundarios");
    assert_eq!(a, 90);
}

#[test]
fn rotation_output_without_value_is_normal() {
    assert_eq!(rotation_from_exiftool_output(""), 0);
    assert_eq!(rotation_from_exiftool_output("Orientation : x"), 0);
    assert_eq!(rotation_from_exiftool_output("Orientation : 8"), 270);
    assert_eq!(rotation_from_exiftool_output("Orientation : 3"), 180);
}

#[test]
fn exiftool_csv_rows_by_column_name() {
    let out = "SourceFile,ImageWidth,DateTimeOriginal,Make,Model,ISO,FNumber,ExposureTime,LensModel,Orientation\n\
               /a/IMG.dng,6000,2024:06:15 14:30:22,TestMake,TestModel,100,2.8,0.004,TestLens 50mm,6\n\
               /a/B.dng,,,OnlyMake,,x,,,,\n";
    let rows = parse_exiftool_csv(out);
    assert_eq!(rows.len(), 2);
    let r = &rows[0];
    assert_eq!(r.path, "/a/IMG.dng");
    assert_eq!(r.width, Some(6000));
    assert_eq!(r.height, None);
    assert_eq!(r.capture_date.as_deref(), Some("2024:06:15 14:30:22"));
    assert_eq!(r.camera.as_deref(), Some("TestMake TestModel"));
    assert_eq!(r.iso, Some(100));
    assert_eq!(r.fnumber.as_deref(), Some("2.8"));
    assert_eq!(r.exposure_time.as_deref(), Some("0.004"));
    assert_eq!(r.lens_model.as_deref(), Some("TestLens 50mm"));
    assert_eq!(r.rotation, 90);
    let b = &rows[1];
    assert_eq!(b.camera.as_deref(), Some("OnlyMake"));
    assert_eq!(b.iso, None);
    assert_eq!(b.capture_date, None);
    assert_eq!(b.rotation, 0);
}

#[test]
fn exiftool_csv_capture_date_falls_back() {
    let out = "SourceFile,CreateDate,ModifyDate\r\n/x.dng,,2020:01:01 00:00:00\r\n";
    let rows = parse_exiftool_csv(out);
    assert_eq!(rows.len(), 1);
    assert_eq!(rows[0].capture_date.as_deref(), Some("2020:01:01 00:00:00"));
}

#[test]
fn orientation_args() {
    assert_eq!(read_rotation_args("/f.dng"), vec!["-IFD0:Orientation", "-n", "/f.dng"]);
    assert_eq!(
        set_orientation_args("/f.dng", 270),
        vec!["-IFD0:Orientation=8", "-IFD1:Orientation=8", "-n", "-overwrite_original", "/f.dng"]
    );
    assert_eq!(set_orientation_args("/f.dng", 45)[0], "-IFD0:Orientation=1");
    assert_eq!(strip_orientation_args("/p.jpg"), vec!["-Orientation=1", "-n", "-overwrite_original", "/p.jpg"]);
}

#[test]
fn session_protocol() {
    assert_eq!(session_input(&vec!["-n".to_string(), "/a".to_string()]), "-n\n/a\n-execute\n");
    assert!(is_ready_line("{ready}\r\n"));
    assert!(is_ready_line("{ready}"));
    assert!(!is_ready_line("{ready} \n"));
    assert!(!is_ready_line("x{ready}\n"));
}

#[test]
fn parse_i32_like_std() {
    let p = |s: &str| parse_i32(&s.chars().collect());
    for s in ["0", "-0", "+7", "2147483647", "-2147483648", "2147483648", "-2147483649", "", "+", "-", " 1", "1 ", "12a", "0000000000000000000001", "99999999999999999999"] {
        assert_eq!(p(s), s.parse::<i32>().ok(), "{s}");
    }
}

#[test]
fn lines_like_std() {
    for s in ["", "a", "a\n", "a\nb", "a\r\nb\r\n", "\n\n", "a\r", "x\r\r\n"] {
        let got: Vec<String> = lines_of(&s.chars().collect()).iter().map(|l| l.iter().collect()).collect();
        let want: Vec<String> = s.lines().map(String::from).collect();
        assert_eq!(got, want, "{s:?}");
    }
}

#[test]
fn rows_by_path_keeps_the_last_row_of_each_path() {
    let csv = "SourceFile,ISO\n/a.dng,100\n/b.dng,200\n/a.dng,400\n";
    let rows = lumik::metadata::rows_by_path(lumik::metadata::parse_exiftool_csv(csv));
    assert_eq!(rows.len(), 2);
    assert_eq!(rows[0].0, "/b.dng");
    assert_eq!(rows[0].1.iso, Some(200));
    assert_eq!(rows[1].0, "/a.dng");
    assert_eq!(rows[1].1.iso, Some(400));
}
