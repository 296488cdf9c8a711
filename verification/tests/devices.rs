use lumik::devices::{
    android_volume, device_display_name, friendly_volume_name, generate_device_name,
    label_from_udev_name, mount_point_of, should_skip_disk, should_skip_disk_macos, trimmed_output,
    uuid_from_volume_serial, visible_devices, volume_uuid_from_plist, DetectedDevice, DiskFacts,
};

fn disk(mount: &str, name: &str, fs: &str, total: u64) -> DiskFacts {
    DiskFacts { mount_point: mount.into(), name: name.into(), file_system: fs.into(), total_space: total }
}

#[test]
fn linux_disk_rules() {
    assert!(!should_skip_disk(&disk("/media/ana/SD", "/dev/sdb1", "exfat", 64)));
    assert!(should_skip_disk(&disk("/media/ana/SD", "/dev/sdb1", "exfat", 0)));
    assert!(should_skip_disk(&disk("/media/x", "/dev/sdb1", "tmpfs", 1)));
    assert!(should_skip_disk(&disk("/boot/efi", "/dev/sda1", "vfat", 1)));
    assert!(should_skip_disk(&disk("/media/x", "overlay", "ext4", 1)));
    assert!(should_skip_disk(&disk("/snap/x", "/dev/loop3", "squashfs", 1)));
    assert!(should_skip_disk(&disk("/run/media/x", "/dev/sdc1", "vfat", 1)));
}

#[test]
fn macos_disk_rules() {
    assert!(should_skip_disk_macos(&disk("/", "disk1", "apfs", 1)));
    assert!(should_skip_disk_macos(&disk("/System/Volumes/Data", "disk1", "apfs", 1)));
    assert!(should_skip_disk_macos(&disk("/private/var/vm", "disk1", "apfs", 1)));
    assert!(!should_skip_disk_macos(&disk("/Volumes/SD", "disk2", "exfat", 1)));
}

#[test]
fn device_names() {
    assert_eq!(generate_device_name("/media/ana/SD CARD"), "SD CARD");
    assert_eq!(generate_device_name("/"), "/");
    assert_eq!(device_display_name(Some("LUMIK".into()), "/media/x"), "LUMIK");
    assert_eq!(device_display_name(Some("".into()), "/media/x"), "x");
    assert_eq!(device_display_name(None, "/media/y"), "y");
    assert_eq!(label_from_udev_name("MY\\x20DISK"), Some("MY DISK".to_string()));
    assert_eq!(label_from_udev_name(""), None);
    assert_eq!(trimmed_output("  1A2B-3C4D\n"), Some("1A2B-3C4D".to_string()));
    assert_eq!(trimmed_output("\n"), None);
}

#[test]
fn android_volume_names() {
    assert_eq!(friendly_volume_name("1A2B-3C4D"), "SD Card");
    assert_eq!(friendly_volume_name("1a2b-3c4z"), "USB Drive");
    assert_eq!(friendly_volume_name("0123456789ab"), "USB Drive");
}

#[test]
fn android_mount_lines() {
    assert_eq!(
        android_volume("/dev/block/vold/public:179,1 /storage/1A2B-3C4D vfat rw,nosuid 0 0"),
        Some(("1A2B-3C4D".to_string(), "/storage/1A2B-3C4D".to_string(), "vfat".to_string()))
    );
    assert_eq!(android_volume("/dev/fuse /storage/emulated fuse rw 0 0"), None);
    assert_eq!(android_volume("/dev/fuse /storage/self fuse rw 0 0"), None);
    assert_eq!(android_volume("/dev/sda1 /mnt/x vfat rw 0 0"), None);
    assert_eq!(android_volume("/dev/sda1 /storage/x ext4 rw 0 0"), None);
    assert_eq!(android_volume("short line"), None);
}

#[test]
fn windows_serial_ids() {
    assert_eq!(uuid_from_volume_serial(0), None);
    assert_eq!(uuid_from_volume_serial(0x1A2B3C4D), Some("1A2B-3C4D".to_string()));
    assert_eq!(uuid_from_volume_serial(0x0000_00FF), Some("0000-00FF".to_string()));
}

#[test]
fn macos_plist_uuid() {
    let out = "<dict>\n\t<key>VolumeUUID</key>\n\t<string>ABCD-1234</string>\n</dict>\n";
    assert_eq!(volume_uuid_from_plist(out), Some("ABCD-1234".to_string()));
    let empty_first = "<key>VolumeUUID</key>\n<string></string>\n<key>VolumeUUID</key>\n<string>X</string>\n";
    assert_eq!(volume_uuid_from_plist(empty_first), Some("X".to_string()));
    assert_eq!(volume_uuid_from_plist("<key>VolumeUUID</key>"), None);
    assert_eq!(volume_uuid_from_plist(""), None);
}

fn dev(uuid: &str, mount: &str) -> DetectedDevice {
    DetectedDevice {
        uuid: uuid.into(),
        name: uuid.into(),
        mount_point: mount.into(),
        total_bytes: Some(1),
        available_bytes: Some(1),
        fs_type: "vfat".into(),
    }
}

#[test]
fn device_lists() {
    let ds = vec![dev("a", "/m/a"), dev("b", "/m/b"), dev("a", "/m/a2")];
    assert_eq!(mount_point_of(&ds, "a"), Some("/m/a".to_string()));
    assert_eq!(mount_point_of(&ds, "z"), None);
    let vis = visible_devices(ds, &vec!["a".to_string()]);
    assert_eq!(vis.len(), 1);
    assert_eq!(vis[0].uuid, "b");
}
