//! Removable devices: their records and the rules that name them and tell
//! system disks from import targets. What the operating system reports (disk
//! lists, `/proc/mounts`, `blkid`, `diskutil`, volume serials) comes in as
//! text or numbers; these functions decide what it means.
use vstd::prelude::*;
use crate::pathstr::file_name;
use crate::scan::lines;
use crate::search::{contains, contains_str, ends_with, replace_all, replace_all_chars, starts_with, starts_with_str};
use crate::text::{chars_of, is_whitespace, is_ws, string_of, trim, trim_chars};
use vstd::string::StringSliceAdditionalSpecFns;

verus! {

/// A device detected on the system.
#[derive(Debug, Clone)]
pub struct DetectedDevice {
    pub uuid: String,
    pub name: String,
    pub mount_point: String,
    pub total_bytes: Option<u64>,
    pub available_bytes: Option<u64>,
    pub fs_type: String,
}

// ---------------------------------------------------------------------------
// Names
// ---------------------------------------------------------------------------

/// The name of a volume without a label: the last component of its mount
/// point, or the mount point itself when that is missing or empty.
pub open spec fn name_from_mount(mount_point: Seq<char>) -> Seq<char> {
    match file_name(mount_point) {
        Some(n) => if n.len() > 0 {
            n
        } else {
            mount_point
        },
        None => mount_point,
    }
}

/// A name for a volume from its mount point (used when it has no label).
pub fn generate_device_name(mount_point: &str) -> (r: String)
    ensures
        r@ == name_from_mount(mount_point@),
{
    match crate::pathstr::file_name_of(mount_point) {
        Some(n) => {
            if n.as_str().is_empty() {
                string_of(&chars_of(mount_point))
            } else {
                n
            }
        },
        None => string_of(&chars_of(mount_point)),
    }
}

/// The name shown for a device: its label when it has a non-empty one,
/// otherwise the name made from its mount point.
pub fn device_display_name(label: Option<String>, mount_point: &str) -> (r: String)
    ensures
        r@ == match label {
            Some(l) => if l@.len() > 0 {
                l@
            } else {
                name_from_mount(mount_point@)
            },
            None => name_from_mount(mount_point@),
        },
{
    match label {
        Some(l) => {
            if l.as_str().is_empty() {
                generate_device_name(mount_point)
            } else {
                l
            }
        },
        None => generate_device_name(mount_point),
    }
}

/// A label as udev names it under `/dev/disk/by-label` (spaces written
/// `\x20`), decoded; `None` when empty.
pub fn label_from_udev_name(raw: &str) -> (r: Option<String>)
    ensures
        r matches Some(l) ==> l@ == replace_all(raw@, "\\x20"@, " "@) && l@.len() > 0,
        r is None ==> replace_all(raw@, "\\x20"@, " "@).len() == 0,
{
    proof {
        reveal_strlit("\\x20");
    }
    let v = chars_of(raw);
    let pat = chars_of("\\x20");
    let rep = chars_of(" ");
    let l = replace_all_chars(&v, &pat, &rep);
    if l.len() == 0 {
        None
    } else {
        Some(string_of(&l))
    }
}

/// The trimmed output of a command such as `blkid -o value`; `None` when
/// nothing but whitespace was printed.
pub fn trimmed_output(out: &str) -> (r: Option<String>)
    ensures
        r matches Some(t) ==> t@ == trim(out@) && t@.len() > 0,
        r is None ==> trim(out@).len() == 0,
{
    let t = trim_chars(&chars_of(out));
    if t.len() == 0 {
        None
    } else {
        Some(string_of(&t))
    }
}

/// Whether `b` is an ASCII hexadecimal digit.
pub open spec fn is_hex_byte(b: u8) -> bool {
    (48 <= b && b <= 57) || (65 <= b && b <= 70) || (97 <= b && b <= 102)
}

/// Whether all bytes of `s` are ASCII hexadecimal digits.
pub open spec fn all_hex(s: Seq<u8>) -> bool {
    forall|k: int| 0 <= k < s.len() ==> is_hex_byte(#[trigger] s[k])
}

/// Whether an Android volume id looks like a FAT32 serial `XXXX-XXXX`.
pub open spec fn fat32_serial_like(chars: Seq<char>, bytes: Seq<u8>) -> bool {
    &&& bytes.len() == 9
    &&& chars.len() > 4
    &&& chars[4] == '-'
    &&& all_hex(bytes.subrange(0, 4))
    &&& all_hex(bytes.subrange(5, 9))
}

/// Whether the bytes `b[lo..hi]` are hexadecimal digits.
fn hex_range(b: &[u8], lo: usize, hi: usize) -> (r: bool)
    requires
        lo <= hi <= b@.len(),
    ensures
        r == all_hex(b@.subrange(lo as int, hi as int)),
{
    let mut i = lo;
    while i < hi
        invariant
            lo <= i <= hi <= b@.len(),
            all_hex(b@.subrange(lo as int, i as int)),
        decreases hi - i,
    {
        let x = b[i];
        if !((48 <= x && x <= 57) || (65 <= x && x <= 70) || (97 <= x && x <= 102)) {
            assert(!is_hex_byte(b@.subrange(lo as int, hi as int)[i - lo]));
            return false;
        }
        assert forall|k: int| 0 <= k < i + 1 - lo implies is_hex_byte(
            #[trigger] b@.subrange(lo as int, i + 1)[k],
        ) by {
            if k < i - lo {
                assert(b@.subrange(lo as int, i + 1)[k] == b@.subrange(lo as int, i as int)[k]);
            }
        }
        i = i + 1;
    }
    true
}

/// The name of an Android storage volume from its id: `SD Card` for a
/// FAT32 serial, `USB Drive` otherwise. An id of 9 bytes whose fifth
/// character is `-` must have a character boundary at its fifth byte.
pub fn friendly_volume_name(uuid: &str) -> (r: String)
    requires
        uuid.spec_bytes().len() == 9 && uuid@.len() > 4 && uuid@[4] == '-'
            ==> vstd::utf8::is_char_boundary(uuid.spec_bytes(), 4),
    ensures
        r@ == (if fat32_serial_like(uuid@, uuid.spec_bytes()) {
            "SD Card"@
        } else {
            "USB Drive"@
        }),
{
    let b = uuid.as_bytes();
    let c = chars_of(uuid);
    let looks = b.len() == 9 && c.len() > 4 && c[4] == '-' && hex_range(b, 0, 4) && hex_range(
        b,
        5,
        9,
    );
    if looks {
        string_of(&chars_of("SD Card"))
    } else {
        string_of(&chars_of("USB Drive"))
    }
}

// ---------------------------------------------------------------------------
// Which disks are offered
// ---------------------------------------------------------------------------

/// What the system reports of a disk.
#[derive(Debug, Clone)]
pub struct DiskFacts {
    pub mount_point: String,
    /// The device path, such as `/dev/sdb1`.
    pub name: String,
    pub file_system: String,
    pub total_space: u64,
}

/// File systems that are not storage (Linux).
pub open spec fn virtual_file_systems() -> Seq<Seq<char>> {
    seq![
        "sysfs"@,
        "proc"@,
        "devtmpfs"@,
        "devpts"@,
        "tmpfs"@,
        "securityfs"@,
        "cgroup"@,
        "cgroup2"@,
        "pstore"@,
        "efivarfs"@,
        "bpf"@,
        "autofs"@,
        "mqueue"@,
        "hugetlbfs"@,
        "debugfs"@,
        "tracefs"@,
        "fusectl"@,
        "configfs"@,
        "ramfs"@,
        "fuse.portal"@,
        "fuse.gvfsd-fuse"@,
    ]
}

/// Mount points of the system itself (Linux).
pub open spec fn system_mount_points() -> Seq<Seq<char>> {
    seq!["/"@, "/boot"@, "/boot/efi"@, "/home"@, "/tmp"@, "/var"@, "/usr"@]
}

/// Whether a disk is not offered as an import target on Linux: it has no
/// space, a virtual file system, a system mount point, is not a `/dev/`
/// block device or is a loop device, or is mounted under `/run/`.
pub open spec fn skipped_on_linux(d: DiskFacts) -> bool {
    ||| d.total_space == 0
    ||| virtual_file_systems().contains(d.file_system@)
    ||| system_mount_points().contains(d.mount_point@)
    ||| !starts_with(d.name@, "/dev/"@)
    ||| contains(d.name@, "/loop"@)
    ||| starts_with(d.mount_point@, "/run/"@)
}

/// Whether `x` is one of `list`.
fn one_of(x: &Vec<char>, list: &Vec<&str>) -> (r: bool)
    ensures
        r == list@.map_values(|s: &str| s@).contains(x@),
{
    let ghost l = list@.map_values(|s: &str| s@);
    let mut i: usize = 0;
    while i < list.len()
        invariant
            i <= list.len(),
            l == list@.map_values(|s: &str| s@),
            forall|k: int| 0 <= k < i ==> l[k] != x@,
        decreases list.len() - i,
    {
        let w = chars_of(list[i]);
        if crate::domain::photo::chars_eq(&w, x) {
            assert(l[i as int] == x@);
            return true;
        }
        i = i + 1;
    }
    false
}

/// Whether `m` is a mount point of the Linux system itself: the root,
/// `/boot`, `/boot/efi`, `/home`, `/tmp`, `/var` or `/usr`.
pub open spec fn is_system_mount(m: Seq<char>) -> bool {
    m == "/"@ || m == "/boot"@ || m == "/boot/efi"@ || m == "/home"@ || m == "/tmp"@ || m == "/var"@ || m
        == "/usr"@
}

/// Whether `f` is a Linux file system that holds no storage (kernel,
/// memory-backed, control and desktop FUSE file systems).
pub open spec fn is_virtual_fs(f: Seq<char>) -> bool {
    ||| f == "sysfs"@ || f == "proc"@ || f == "devtmpfs"@ || f == "devpts"@ || f == "tmpfs"@
    ||| f == "securityfs"@ || f == "cgroup"@ || f == "cgroup2"@ || f == "pstore"@ || f == "efivarfs"@
    ||| f == "bpf"@ || f == "autofs"@ || f == "mqueue"@ || f == "hugetlbfs"@ || f == "debugfs"@
    ||| f == "tracefs"@ || f == "fusectl"@ || f == "configfs"@ || f == "ramfs"@
    ||| f == "fuse.portal"@ || f == "fuse.gvfsd-fuse"@
}

/// Which disks Linux offers as import targets: a disk mounted at a mount
/// point of the system (`/`, `/boot`, `/boot/efi`, `/home`, `/tmp`, `/var`,
/// `/usr`) is skipped whatever its device and file system, and so is one
/// with no space, a virtual file system, a device outside `/dev/` or a loop
/// device, or a mount under `/run/`; any other disk is offered.
pub proof fn law_linux_skipped_disks(d: DiskFacts)
    ensures
        is_system_mount(d.mount_point@) ==> skipped_on_linux(d),
        d.total_space == 0 ==> skipped_on_linux(d),
        is_virtual_fs(d.file_system@) ==> skipped_on_linux(d),
        skipped_on_linux(d) <==> (d.total_space == 0 || is_virtual_fs(d.file_system@) || is_system_mount(
            d.mount_point@,
        ) || !starts_with(d.name@, "/dev/"@) || contains(d.name@, "/loop"@) || starts_with(
            d.mount_point@,
            "/run/"@,
        )),
{
    let m = d.mount_point@;
    let f = d.file_system@;
    let sys = system_mount_points();
    let virt = virtual_file_systems();
    assert(system_mount_points().contains(m) <==> is_system_mount(m)) by {
        if is_system_mount(m) {
            if m == "/"@ {
                assert(sys[0] == m);
            } else if m == "/boot"@ {
                assert(sys[1] == m);
            } else if m == "/boot/efi"@ {
                assert(sys[2] == m);
            } else if m == "/home"@ {
                assert(sys[3] == m);
            } else if m == "/tmp"@ {
                assert(sys[4] == m);
            } else if m == "/var"@ {
                assert(sys[5] == m);
            } else {
                assert(sys[6] == m);
            }
        }
        if sys.contains(m) {
            let j = choose|j: int| 0 <= j < sys.len() && sys[j] == m;
            assert(is_system_mount(sys[j]));
        }
    }
    assert(virtual_file_systems().contains(f) <==> is_virtual_fs(f)) by {
        if is_virtual_fs(f) {
            let j: int = if f == "sysfs"@ {
                0
            } else if f == "proc"@ {
                1
            } else if f == "devtmpfs"@ {
                2
            } else if f == "devpts"@ {
                3
            } else if f == "tmpfs"@ {
                4
            } else if f == "securityfs"@ {
                5
            } else if f == "cgroup"@ {
                6
            } else if f == "cgroup2"@ {
                7
            } else if f == "pstore"@ {
                8
            } else if f == "efivarfs"@ {
                9
            } else if f == "bpf"@ {
                10
            } else if f == "autofs"@ {
                11
            } else if f == "mqueue"@ {
                12
            } else if f == "hugetlbfs"@ {
                13
            } else if f == "debugfs"@ {
                14
            } else if f == "tracefs"@ {
                15
            } else if f == "fusectl"@ {
                16
            } else if f == "configfs"@ {
                17
            } else if f == "ramfs"@ {
                18
            } else if f == "fuse.portal"@ {
                19
            } else {
                20
            };
            assert(virt[j] == f);
        }
        if virt.contains(f) {
            let j = choose|j: int| 0 <= j < virt.len() && virt[j] == f;
            assert(is_virtual_fs(virt[j]));
        }
    }
}

/// Whether the disk is skipped on Linux.
pub fn should_skip_disk(d: &DiskFacts) -> (r: bool)
    ensures
        r == skipped_on_linux(*d),
        is_system_mount(d.mount_point@) ==> r,
        is_virtual_fs(d.file_system@) ==> r,
{
    proof {
        law_linux_skipped_disks(*d);
    }
    if d.total_space == 0 {
        return true;
    }
    let fs = chars_of(d.file_system.as_str());
    let virt: Vec<&str> = vec![
        "sysfs",
        "proc",
        "devtmpfs",
        "devpts",
        "tmpfs",
        "securityfs",
        "cgroup",
        "cgroup2",
        "pstore",
        "efivarfs",
        "bpf",
        "autofs",
        "mqueue",
        "hugetlbfs",
        "debugfs",
        "tracefs",
        "fusectl",
        "configfs",
        "ramfs",
        "fuse.portal",
        "fuse.gvfsd-fuse",
    ];
    assert(virt@.map_values(|s: &str| s@) =~= virtual_file_systems());
    if one_of(&fs, &virt) {
        return true;
    }
    let mount = chars_of(d.mount_point.as_str());
    let sys: Vec<&str> = vec!["/", "/boot", "/boot/efi", "/home", "/tmp", "/var", "/usr"];
    assert(sys@.map_values(|s: &str| s@) =~= system_mount_points());
    if one_of(&mount, &sys) {
        return true;
    }
    let name = d.name.as_str();
    if !starts_with_str(name, "/dev/") || contains_str(name, "/loop") {
        return true;
    }
    starts_with_str(d.mount_point.as_str(), "/run/")
}

/// Whether a disk is not offered on macOS: no space, or the system volume
/// (`/`, `/System…`, `/private…`).
pub open spec fn skipped_on_macos(d: DiskFacts) -> bool {
    ||| d.total_space == 0
    ||| d.mount_point@ == "/"@
    ||| starts_with(d.mount_point@, "/System"@)
    ||| starts_with(d.mount_point@, "/private"@)
}

/// Which disks macOS offers: the root volume, anything under `/System` or
/// `/private`, and a disk with no space are skipped; any other disk is
/// offered.
pub proof fn law_macos_skipped_disks(d: DiskFacts)
    ensures
        d.mount_point@ == "/"@ ==> skipped_on_macos(d),
        starts_with(d.mount_point@, "/System"@) ==> skipped_on_macos(d),
        starts_with(d.mount_point@, "/private"@) ==> skipped_on_macos(d),
        d.total_space == 0 ==> skipped_on_macos(d),
        d.total_space > 0 && d.mount_point@ != "/"@ && !starts_with(d.mount_point@, "/System"@) && !starts_with(
            d.mount_point@,
            "/private"@,
        ) ==> !skipped_on_macos(d),
{
}

/// Whether the disk is skipped on macOS.
pub fn should_skip_disk_macos(d: &DiskFacts) -> (r: bool)
    ensures
        r == skipped_on_macos(*d),
{
    if d.total_space == 0 {
        return true;
    }
    let m = chars_of(d.mount_point.as_str());
    let root = chars_of("/");
    crate::domain::photo::chars_eq(&m, &root) || starts_with_str(d.mount_point.as_str(), "/System")
        || starts_with_str(d.mount_point.as_str(), "/private")
}

// ---------------------------------------------------------------------------
// Android mounts
// ---------------------------------------------------------------------------

/// The whitespace-separated words of `s`, as `str::split_whitespace` gives
/// them.
pub open spec fn words(s: Seq<char>) -> Seq<Seq<char>>
    decreases s.len(),
{
    if s.len() == 0 {
        Seq::empty()
    } else {
        let w = words(s.drop_last());
        if is_ws(s.last()) {
            w
        } else if s.len() >= 2 && !is_ws(s[s.len() - 2]) && w.len() > 0 {
            w.update(w.len() - 1, w.last().push(s.last()))
        } else {
            w.push(seq![s.last()])
        }
    }
}

/// The words of `v`.
pub fn words_of(v: &Vec<char>) -> (r: Vec<Vec<char>>)
    ensures
        crate::pathstr::views(r@) == words(v@),
{
    let mut r: Vec<Vec<char>> = Vec::new();
    let mut i: usize = 0;
    assert(crate::pathstr::views(r@) =~= words(v@.take(0)));
    while i < v.len()
        invariant
            i <= v.len(),
            crate::pathstr::views(r@) == words(v@.take(i as int)),
        decreases v.len() - i,
    {
        let c = v[i];
        let ghost before = crate::pathstr::views(r@);
        assert(v@.take(i + 1).drop_last() =~= v@.take(i as int));
        assert(v@.take(i + 1).last() == c);
        if is_whitespace(c) {
        } else if i >= 1 && !is_whitespace(v[i - 1]) && r.len() > 0 {
            assert(v@.take(i + 1)[i - 1] == v@[i - 1]);
            let n = r.len();
            let mut last = r.pop().unwrap();
            last.push(c);
            r.push(last);
            assert(crate::pathstr::views(r@) =~= before.update(
                before.len() - 1,
                before.last().push(c),
            ));
        } else {
            proof {
                if i >= 1 {
                    assert(v@.take(i + 1)[i - 1] == v@[i - 1]);
                }
            }
            let mut w: Vec<char> = Vec::new();
            w.push(c);
            r.push(w);
            assert(crate::pathstr::views(r@) =~= before.push(seq![c]));
        }
        i = i + 1;
    }
    assert(v@.take(v.len() as int) =~= v@);
    r
}

/// File systems of removable Android volumes.
pub open spec fn android_removable_fs(fs: Seq<char>) -> bool {
    fs == "vfat"@ || fs == "exfat"@ || fs == "fuse"@
}

/// The removable volume a `/proc/mounts` line describes, as (id, mount
/// point, file system): a FAT/exFAT/FUSE file system mounted under
/// `/storage/` but not internal storage (`/storage/emulated…`,
/// `/storage/self`); the id is the last component of the mount point.
pub open spec fn android_volume_spec(line: Seq<char>) -> Option<(Seq<char>, Seq<char>, Seq<char>)> {
    let p = words(line);
    if p.len() < 3 {
        None
    } else {
        let mount = p[1];
        let fs = p[2];
        if !android_removable_fs(fs) || !starts_with(mount, "/storage/"@) || starts_with(
            mount,
            "/storage/emulated"@,
        ) || mount == "/storage/self"@ {
            None
        } else {
            let id = match file_name(mount) {
                Some(n) => n,
                None => mount,
            };
            Some((id, mount, fs))
        }
    }
}

/// The removable volume described by a `/proc/mounts` line, if any.
pub fn android_volume(line: &str) -> (r: Option<(String, String, String)>)
    ensures
        match r {
            Some(t) => android_volume_spec(line@) == Some((t.0@, t.1@, t.2@)),
            None => android_volume_spec(line@) is None,
        },
{
    let p = words_of(&chars_of(line));
    if p.len() < 3 {
        return None;
    }
    let mount = string_of(&p[1]);
    let fs = &p[2];
    let vfat = chars_of("vfat");
    let exfat = chars_of("exfat");
    let fuse = chars_of("fuse");
    let removable = crate::domain::photo::chars_eq(fs, &vfat) || crate::domain::photo::chars_eq(
        fs,
        &exfat,
    ) || crate::domain::photo::chars_eq(fs, &fuse);
    if !removable {
        return None;
    }
    let m = mount.as_str();
    let selfv = chars_of("/storage/self");
    if !starts_with_str(m, "/storage/") || starts_with_str(m, "/storage/emulated")
        || crate::domain::photo::chars_eq(&p[1], &selfv) {
        return None;
    }
    let id = match crate::pathstr::file_name_of(m) {
        Some(n) => n,
        None => string_of(&p[1]),
    };
    Some((id, mount, string_of(fs)))
}

// ---------------------------------------------------------------------------
// Volume ids
// ---------------------------------------------------------------------------

/// The uppercase hexadecimal digit for `d < 16`.
pub open spec fn hex_upper(d: int) -> char {
    if d < 10 {
        ((48 + d) as u8) as char
    } else {
        ((55 + d) as u8) as char
    }
}

/// `n < 65536` as four uppercase hexadecimal digits.
pub open spec fn hex4(n: int) -> Seq<char> {
    seq![hex_upper(n / 4096), hex_upper((n / 256) % 16), hex_upper((n / 16) % 16), hex_upper(n % 16)]
}

/// The digit for `d < 16`.
fn hex_digit(d: u32) -> (c: char)
    requires
        d < 16,
    ensures
        c == hex_upper(d as int),
{
    if d < 10 {
        ((48 + d) as u8) as char
    } else {
        ((55 + d) as u8) as char
    }
}

/// The id of a Windows volume from its serial number, written as Linux
/// shows FAT/exFAT serials (`XXXX-XXXX`, upper half first); `None` for
/// serial 0 (unknown).
pub fn uuid_from_volume_serial(serial: u32) -> (r: Option<String>)
    ensures
        serial == 0 <==> r is None,
        r matches Some(s) ==> s@ == hex4(serial as int / 65536) + seq!['-'] + hex4(
            serial as int % 65536,
        ),
{
    if serial == 0 {
        return None;
    }
    let hi = serial / 65536;
    let lo = serial % 65536;
    let mut v: Vec<char> = Vec::new();
    v.push(hex_digit(hi / 4096));
    v.push(hex_digit((hi / 256) % 16));
    v.push(hex_digit((hi / 16) % 16));
    v.push(hex_digit(hi % 16));
    v.push('-');
    v.push(hex_digit(lo / 4096));
    v.push(hex_digit((lo / 256) % 16));
    v.push(hex_digit((lo / 16) % 16));
    v.push(hex_digit(lo % 16));
    assert(v@ =~= hex4(serial as int / 65536) + seq!['-'] + hex4(serial as int % 65536));
    Some(string_of(&v))
}

/// `s` without every leading copy of the nonempty `p`.
pub open spec fn strip_prefixes(s: Seq<char>, p: Seq<char>) -> Seq<char>
    decreases s.len(),
{
    if p.len() > 0 && starts_with(s, p) {
        strip_prefixes(s.skip(p.len() as int), p)
    } else {
        s
    }
}

/// `s` without every trailing copy of the nonempty `p`.
pub open spec fn strip_suffixes(s: Seq<char>, p: Seq<char>) -> Seq<char>
    decreases s.len(),
{
    if p.len() > 0 && ends_with(s, p) {
        strip_suffixes(s.take(s.len() - p.len()), p)
    } else {
        s
    }
}

/// The value on a plist line: trimmed, without `<string>` tags.
pub open spec fn plist_string(l: Seq<char>) -> Seq<char> {
    strip_suffixes(strip_prefixes(trim(l), "<string>"@), "</string>"@)
}

/// The volume UUID in `diskutil info -plist` output, read from line `i` on:
/// the first non-empty value on the line after a line naming `VolumeUUID`.
pub open spec fn plist_uuid_from(ls: Seq<Seq<char>>, i: int) -> Option<Seq<char>>
    decreases ls.len() - i,
{
    if i < 0 || i >= ls.len() {
        None
    } else if contains(ls[i], "VolumeUUID"@) {
        if i + 1 < ls.len() {
            let u = plist_string(ls[i + 1]);
            if u.len() > 0 {
                Some(u)
            } else {
                plist_uuid_from(ls, i + 2)
            }
        } else {
            None
        }
    } else {
        plist_uuid_from(ls, i + 1)
    }
}

/// `v` without every leading copy of the nonempty `p`.
fn strip_prefixes_of(v: &Vec<char>, p: &Vec<char>) -> (r: Vec<char>)
    requires
        p@.len() > 0,
    ensures
        r@ == strip_prefixes(v@, p@),
{
    let mut i: usize = 0;
    assert(v@.skip(0) =~= v@);
    while i <= v.len() && p.len() <= v.len() - i && crate::search::occurs_at_chars(v, p, i)
        invariant
            i <= v.len(),
            p@.len() > 0,
            strip_prefixes(v@, p@) == strip_prefixes(v@.skip(i as int), p@),
        decreases v.len() - i,
    {
        assert(v@.skip(i as int).subrange(0, p@.len() as int) =~= v@.subrange(
            i as int,
            i + p@.len(),
        ));
        assert(v@.skip(i as int).skip(p@.len() as int) =~= v@.skip(i + p@.len()));
        i = i + p.len();
    }
    proof {
        if p@.len() <= v@.len() - i {
            assert(v@.skip(i as int).subrange(0, p@.len() as int) =~= v@.subrange(
                i as int,
                i + p@.len(),
            ));
        }
    }
    crate::text::slice_chars(v, i, v.len())
}

/// `v` without every trailing copy of the nonempty `p`.
fn strip_suffixes_of(v: &Vec<char>, p: &Vec<char>) -> (r: Vec<char>)
    requires
        p@.len() > 0,
    ensures
        r@ == strip_suffixes(v@, p@),
{
    let mut j: usize = v.len();
    assert(v@.take(j as int) =~= v@);
    while p.len() <= j && crate::search::occurs_at_chars(v, p, j - p.len())
        invariant
            j <= v.len(),
            p@.len() > 0,
            strip_suffixes(v@, p@) == strip_suffixes(v@.take(j as int), p@),
        decreases j,
    {
        assert(v@.take(j as int).subrange(j - p@.len(), j as int) =~= v@.subrange(
            j - p@.len(),
            j as int,
        ));
        assert(v@.take(j as int).take(j - p@.len()) =~= v@.take(j - p@.len()));
        j = j - p.len();
    }
    proof {
        if p@.len() <= j {
            assert(v@.take(j as int).subrange(j - p@.len(), j as int) =~= v@.subrange(
                j - p@.len(),
                j as int,
            ));
        }
    }
    let r = crate::text::slice_chars(v, 0, j);
    assert(r@ =~= v@.take(j as int));
    r
}

/// The volume UUID in the output of `diskutil info -plist`, if any.
pub fn volume_uuid_from_plist(stdout: &str) -> (r: Option<String>)
    ensures
        match r {
            Some(u) => plist_uuid_from(lines(stdout@), 0) == Some(u@),
            None => plist_uuid_from(lines(stdout@), 0) is None,
        },
{
    proof {
        reveal_strlit("<string>");
        reveal_strlit("</string>");
    }
    let ls = crate::scan::lines_of(&chars_of(stdout));
    let key = chars_of("VolumeUUID");
    let open = chars_of("<string>");
    let close = chars_of("</string>");
    let ghost l = lines(stdout@);
    let mut i: usize = 0;
    while i < ls.len()
        invariant
            i <= ls.len() + 1,
            l == lines(stdout@),
            ls@.len() == l.len(),
            forall|k: int| 0 <= k < ls@.len() ==> #[trigger] ls@[k]@ == l[k],
            key@ == "VolumeUUID"@,
            open@ == "<string>"@,
            close@ == "</string>"@,
            open@.len() > 0,
            close@.len() > 0,
            plist_uuid_from(l, 0) == plist_uuid_from(l, i as int),
        decreases ls.len() + 1 - i,
    {
        assert(ls@[i as int]@ == l[i as int]);
        if crate::search::find_from_chars(&ls[i], &key, 0).is_some() {
            assert(contains(l[i as int], "VolumeUUID"@));
            if i + 1 < ls.len() {
                assert(ls@[i + 1]@ == l[i + 1]);
                let t = trim_chars(&ls[i + 1]);
                let a = strip_prefixes_of(&t, &open);
                let u = strip_suffixes_of(&a, &close);
                assert(u@ == plist_string(l[i + 1]));
                if u.len() > 0 {
                    return Some(string_of(&u));
                }
                i = i + 2;
            } else {
                return None;
            }
        } else {
            i = i + 1;
        }
    }
    None
}

// ---------------------------------------------------------------------------
// Device lists
// ---------------------------------------------------------------------------

/// The first `n` devices of `ds` that are not being ejected, in order.
pub open spec fn not_ejecting(ds: Seq<DetectedDevice>, ejecting: Seq<Seq<char>>, n: int) -> Seq<
    DetectedDevice,
>
    decreases n,
{
    if n <= 0 {
        Seq::empty()
    } else if ejecting.contains(ds[n - 1].uuid@) {
        not_ejecting(ds, ejecting, n - 1)
    } else {
        not_ejecting(ds, ejecting, n - 1).push(ds[n - 1])
    }
}

/// The devices that are not being ejected (the UI drops the others at
/// once), in order.
pub fn visible_devices(devices: Vec<DetectedDevice>, ejecting: &Vec<String>) -> (r: Vec<
    DetectedDevice,
>)
    ensures
        r@ == not_ejecting(devices@, crate::metadata::strs(ejecting@), devices@.len() as int),
{
    let ghost all = devices@;
    let ghost ej = crate::metadata::strs(ejecting@);
    let mut rest = devices;
    assert(all.len() == rest.len());
    let mut out: Vec<DetectedDevice> = Vec::new();
    let mut i: usize = 0;
    while rest.len() > 0
        invariant
            i <= all.len(),
            all.len() <= usize::MAX,
            rest@ == all.skip(i as int),
            ej == crate::metadata::strs(ejecting@),
            out@ == not_ejecting(all, ej, i as int),
        decreases rest.len(),
    {
        let d = rest.remove(0);
        assert(d == all[i as int]);
        assert(rest@ =~= all.skip(i + 1));
        let u = chars_of(d.uuid.as_str());
        let mut found = false;
        let mut j: usize = 0;
        while j < ejecting.len()
            invariant
                j <= ejecting.len(),
                i < all.len(),
                u@ == all[i as int].uuid@,
                ej == crate::metadata::strs(ejecting@),
                found == (exists|m: int| 0 <= m < j && ej[m] == u@),
            decreases ejecting.len() - j,
        {
            let e = chars_of(ejecting[j].as_str());
            if crate::domain::photo::chars_eq(&e, &u) {
                found = true;
            }
            proof {
                if exists|m: int| 0 <= m < j + 1 && ej[m] == u@ {
                    let m = choose|m: int| 0 <= m < j + 1 && ej[m] == u@;
                    if m < j {
                        assert(exists|m: int| 0 <= m < j && ej[m] == u@);
                    }
                }
                if e@ == u@ {
                    assert(ej[j as int] == u@);
                }
            }
            j = j + 1;
        }
        assert(found == ej.contains(all[i as int].uuid@));
        if !found {
            out.push(d);
        }
        i = i + 1;
    }
    assert(all.skip(i as int).len() == 0);
    out
}

/// The mount point of the first device with id `uuid`.
pub fn mount_point_of(devices: &Vec<DetectedDevice>, uuid: &str) -> (r: Option<String>)
    ensures
        match r {
            Some(m) => exists|k: int|
                0 <= k < devices@.len() && devices@[k].uuid@ == uuid@ && devices@[k].mount_point@
                    == m@ && forall|j: int| 0 <= j < k ==> devices@[j].uuid@ != uuid@,
            None => forall|k: int| 0 <= k < devices@.len() ==> devices@[k].uuid@ != uuid@,
        },
{
    let u = chars_of(uuid);
    let mut i: usize = 0;
    while i < devices.len()
        invariant
            i <= devices.len(),
            u@ == uuid@,
            forall|j: int| 0 <= j < i ==> devices@[j].uuid@ != uuid@,
        decreases devices.len() - i,
    {
        let w = chars_of(devices[i].uuid.as_str());
        if crate::domain::photo::chars_eq(&w, &u) {
            let m = string_of(&chars_of(devices[i].mount_point.as_str()));
            return Some(m);
        }
        i = i + 1;
    }
    None
}

} // verus!
