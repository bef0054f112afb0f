//! Removable devices: which block devices are listed, what the kernel's
//! files say of them, and what is mounted where.
use vstd::prelude::*;
use vstd::string::StringExecFns;
use crate::domain::usb::{DiskHealth, UsbDevice, UsbDeviceInfo};
use crate::infra::clock::now_micros;
use crate::infra::ids::new_v4_id;
use crate::text::{
    chars_equal, chars_of, contains_chars, copy_range, has_prefix, has_substring, is_digit,
    lemma_pieces_view, lines, lines_of, parse_trimmed_unsigned, parse_unsigned, starts_with_chars,
    str_equal, string_from_chars, trim, trim_str, words, words_of,
};

verus! {

/// A mount: the mounted device and where it is mounted.
pub type MountView = (Seq<char>, Seq<char>);

/// The mount that one line of `/proc/mounts` describes, if any: a line
/// whose first field is a path under `/dev/` and that has a second field.
pub open spec fn mount_of_line(line: Seq<char>) -> Seq<MountView> {
    let w = words(line);
    if w.len() >= 2 && has_prefix(w[0], "/dev/"@) {
        seq![(w[0], w[1])]
    } else {
        Seq::empty()
    }
}

/// The mounts that the lines describe, in order.
pub open spec fn mounts_of_lines(ls: Seq<Seq<char>>) -> Seq<MountView>
    decreases ls.len(),
{
    if ls.len() == 0 {
        Seq::empty()
    } else {
        mounts_of_lines(ls.drop_last()) + mount_of_line(ls.last())
    }
}

/// The mounts that the text of `/proc/mounts` lists.
pub open spec fn mounts_in(content: Seq<char>) -> Seq<MountView> {
    mounts_of_lines(lines(content))
}

/// The first mount of `device`, by position in `mounts`.
pub open spec fn first_mount_from(mounts: Seq<MountView>, device: Seq<char>, i: int) -> Option<int>
    decreases mounts.len() - i,
{
    if i < 0 || i >= mounts.len() {
        None
    } else if mounts[i].0 == device {
        Some(i)
    } else {
        first_mount_from(mounts, device, i + 1)
    }
}

/// Where `device` is mounted: its first mount in `mounts`.
pub open spec fn mount_point_in(mounts: Seq<MountView>, device: Seq<char>) -> Option<Seq<char>> {
    match first_mount_from(mounts, device, 0) {
        Some(i) => Some(mounts[i].1),
        None => None,
    }
}

/// The file system type that a line of `/proc/mounts` gives for `device`:
/// its third field, when its first field is `device`.
pub open spec fn filesystem_of_line(line: Seq<char>, device: Seq<char>) -> Option<Seq<char>> {
    let w = words(line);
    if w.len() >= 3 && w[0] == device {
        Some(w[2])
    } else {
        None
    }
}

/// The file system type of `device` given by the first line, from line `i`
/// on, that gives one.
pub open spec fn filesystem_from(ls: Seq<Seq<char>>, device: Seq<char>, i: int) -> Option<
    Seq<char>,
>
    decreases ls.len() - i,
{
    if i < 0 || i >= ls.len() {
        None
    } else {
        match filesystem_of_line(ls[i], device) {
            Some(f) => Some(f),
            None => filesystem_from(ls, device, i + 1),
        }
    }
}

/// Whether a mount of a partition of `dev` holds the system: the root, the
/// boot area, or container storage.
pub open spec fn is_system_mount(m: MountView, dev: Seq<char>) -> bool {
    has_prefix(m.0, dev) && (m.1 == "/"@ || m.1 == "/boot"@ || has_prefix(m.1, "/boot/"@)
        || has_substring(m.1, "docker"@))
}

/// Whether block device `name` holds the system: the first SATA, NVMe or
/// MMC disk, or a disk with a system mount.
pub open spec fn system_disk(name: Seq<char>, mounts: Seq<MountView>) -> bool {
    name == "sda"@ || has_prefix(name, "nvme0n1"@) || has_prefix(name, "mmcblk0"@) || exists|i: int|
        0 <= i < mounts.len() && is_system_mount(#[trigger] mounts[i], "/dev/"@ + name)
}

/// Whether the text of a kernel flag file says `1` (trimmed); `false` when
/// the file could not be read.
pub open spec fn flag_set(text: Option<Seq<char>>) -> bool {
    match text {
        Some(t) => trim(t) == "1"@,
        None => false,
    }
}

/// The trimmed text of a kernel file, if it could be read.
pub open spec fn trimmed(text: Option<Seq<char>>) -> Option<Seq<char>> {
    match text {
        Some(t) => Some(trim(t)),
        None => None,
    }
}

/// The number in a kernel file (trimmed), or `default` when the file could
/// not be read or holds no 64-bit number.
pub open spec fn number_or(text: Option<Seq<char>>, default: nat) -> nat {
    match text {
        Some(t) => match parse_unsigned(trim(t), 0xFFFF_FFFF_FFFF_FFFF) {
            Some(v) => v,
            None => default,
        },
        None => default,
    }
}

/// The view of an optional string.
pub open spec fn opt_view(s: Option<&str>) -> Option<Seq<char>> {
    match s {
        Some(t) => Some(t@),
        None => None,
    }
}

/// `s` without every leading copy of `p`.
pub open spec fn strip_all_prefixes(s: Seq<char>, p: Seq<char>) -> Seq<char>
    decreases s.len(),
{
    if p.len() > 0 && has_prefix(s, p) {
        strip_all_prefixes(s.skip(p.len() as int), p)
    } else {
        s
    }
}

/// `s` without its trailing ASCII digits, and also without trailing `p`s
/// when `and_p` holds.
pub open spec fn trim_trailing_digits(s: Seq<char>, and_p: bool) -> Seq<char>
    decreases s.len(),
{
    if s.len() > 0 && (is_digit(s.last()) || (and_p && s.last() == 'p')) {
        trim_trailing_digits(s.drop_last(), and_p)
    } else {
        s
    }
}

/// The device name in a device path (`/dev/` removed), and the name of the
/// whole disk it belongs to (the partition number removed): none for an
/// empty name or one with a `/`.
pub open spec fn device_names_of(path: Seq<char>) -> Option<(Seq<char>, Seq<char>)> {
    let dev = strip_all_prefixes(path, "/dev/"@);
    if dev.len() == 0 || dev.contains('/') {
        None
    } else {
        Some((dev, trim_trailing_digits(dev, has_prefix(dev, "nvme"@))))
    }
}

/// Whether `r` is the record of block device `name`, found at `now` with
/// identifier `id`: its capacity is `sectors` 512-byte sectors (0 when
/// unknown); its vendor, model and serial are the trimmed texts of its
/// kernel files; its mount point is that of its first mount in `mounts`,
/// and its file system is read from `mounts_content` (the text of
/// `/proc/mounts`) when it is mounted; it holds the system as `system_disk`
/// says; it is taken to be writable and healthy.
pub open spec fn is_device_record(
    r: UsbDevice,
    id: u128,
    now: i64,
    name: Seq<char>,
    sectors: Option<u64>,
    vendor_text: Option<Seq<char>>,
    model_text: Option<Seq<char>>,
    serial_text: Option<Seq<char>>,
    mounts: Seq<MountView>,
    mounts_content: Option<Seq<char>>,
) -> bool {
    let dev = "/dev/"@ + name;
    &&& r.id == id
    &&& r.device_path@ == dev
    &&& r.vendor.deep_view() == trimmed(vendor_text)
    &&& r.model.deep_view() == trimmed(model_text)
    &&& r.serial.deep_view() == trimmed(serial_text)
    &&& r.capacity_bytes == (match sectors {
        Some(s) => s * 512,
        None => 0,
    })
    &&& r.mount_point.deep_view() == mount_point_in(mounts, dev)
    &&& r.is_mounted == r.mount_point is Some
    &&& r.filesystem.deep_view() == (match mounts_content {
        Some(c) => if r.is_mounted {
            filesystem_from(lines(c), dev, 0)
        } else {
            None
        },
        None => None,
    })
    &&& !r.is_readonly
    &&& r.is_system_disk == system_disk(name, mounts)
    &&& r.health == DiskHealth::Good
    &&& r.inserted_at == now
    &&& r.updated_at == now
}

/// Reads mounts, devices and kernel files.
pub struct UsbService;

fn opt_trimmed(text: Option<&str>) -> (r: Option<String>)
    ensures
        r.deep_view() == trimmed(opt_view(text)),
{
    match text {
        Some(t) => {
            let c = trim_str(t);
            Some(string_from_chars(c.as_slice()))
        },
        None => None,
    }
}

fn opt_flag(text: Option<&str>) -> (r: bool)
    ensures
        r == flag_set(opt_view(text)),
{
    match text {
        Some(t) => {
            let c = trim_str(t);
            let one = chars_of("1");
            chars_equal(c.as_slice(), one.as_slice())
        },
        None => false,
    }
}

fn opt_number(text: Option<&str>, default: u64) -> (r: u64)
    ensures
        r == number_or(opt_view(text), default as nat),
{
    match text {
        Some(t) => match parse_trimmed_unsigned(t, 0xFFFF_FFFF_FFFF_FFFF) {
            Some(v) => v,
            None => default,
        },
        None => default,
    }
}

impl UsbService {
    /// The mounts that the text of `/proc/mounts` lists: for each line
    /// whose first field is under `/dev/`, the device and the mount point.
    pub fn parse_mounts(content: &str) -> (r: Vec<(String, String)>)
        ensures
            r.deep_view() == mounts_in(content@),
    {
        let cs = chars_of(content);
        let ls = lines_of(cs.as_slice());
        proof {
            lemma_pieces_view(ls);
        }
        let dev = chars_of("/dev/");
        let mut out: Vec<(String, String)> = Vec::new();
        let mut k: usize = 0;
        while k < ls.len()
            invariant
                ls.deep_view() == lines(content@),
                ls.deep_view().len() == ls@.len(),
                forall|i: int| 0 <= i < ls@.len() ==> #[trigger] ls.deep_view()[i] == ls@[i]@,
                dev@ == "/dev/"@,
                k <= ls@.len(),
                out.deep_view() == mounts_of_lines(lines(content@).take(k as int)),
            decreases ls@.len() - k,
        {
            let w = words_of(ls[k].as_slice());
            proof {
                lemma_pieces_view(w);
                let t = lines(content@).take(k + 1);
                assert(t.drop_last() =~= lines(content@).take(k as int));
                assert(t.last() == ls@[k as int]@);
            }
            let ghost before = out.deep_view();
            if w.len() >= 2 && starts_with_chars(w[0].as_slice(), dev.as_slice()) {
                let d = string_from_chars(w[0].as_slice());
                let m = string_from_chars(w[1].as_slice());
                let ghost old_out = out;
                out.push((d, m));
                proof {
                    assert(out.deep_view() =~= before + seq![(d@, m@)]) by {
                        assert forall|i: int| 0 <= i < out@.len() implies #[trigger] out.deep_view()[i]
                            == (before + seq![(d@, m@)])[i] by {
                            if i < old_out@.len() {
                                assert(out@[i] == old_out@[i]);
                            }
                        }
                    }
                }
            } else {
                assert(before + Seq::<MountView>::empty() =~= before);
            }
            k = k + 1;
        }
        assert(lines(content@).take(ls@.len() as int) =~= lines(content@));
        out
    }

    /// Where a device is mounted: the mount point of its first mount.
    pub fn mount_point_of(mounts: &Vec<(String, String)>, device_path: &str) -> (r: Option<String>)
        ensures
            r.deep_view() == mount_point_in(mounts.deep_view(), device_path@),
    {
        let mut i: usize = 0;
        while i < mounts.len()
            invariant
                i <= mounts@.len(),
                first_mount_from(mounts.deep_view(), device_path@, 0) == first_mount_from(
                    mounts.deep_view(),
                    device_path@,
                    i as int,
                ),
            decreases mounts@.len() - i,
        {
            assert(mounts.deep_view()[i as int] == (mounts@[i as int].0@, mounts@[i as int].1@));
            if str_equal(mounts[i].0.as_str(), device_path) {
                return Some(mounts[i].1.clone());
            }
            i = i + 1;
        }
        None
    }

    /// The file system type of a device, from the text of `/proc/mounts`:
    /// the third field of the first line whose first field is the device.
    pub fn filesystem_of(content: &str, device_path: &str) -> (r: Option<String>)
        ensures
            r.deep_view() == filesystem_from(lines(content@), device_path@, 0),
    {
        let cs = chars_of(content);
        let ls = lines_of(cs.as_slice());
        proof {
            lemma_pieces_view(ls);
        }
        let dev = chars_of(device_path);
        let mut k: usize = 0;
        while k < ls.len()
            invariant
                ls.deep_view() == lines(content@),
                ls.deep_view().len() == ls@.len(),
                forall|i: int| 0 <= i < ls@.len() ==> #[trigger] ls.deep_view()[i] == ls@[i]@,
                dev@ == device_path@,
                k <= ls@.len(),
                filesystem_from(lines(content@), device_path@, 0) == filesystem_from(
                    lines(content@),
                    device_path@,
                    k as int,
                ),
            decreases ls@.len() - k,
        {
            let w = words_of(ls[k].as_slice());
            proof {
                lemma_pieces_view(w);
                assert(lines(content@)[k as int] == ls@[k as int]@);
            }
            if w.len() >= 3 && chars_equal(w[0].as_slice(), dev.as_slice()) {
                return Some(string_from_chars(w[2].as_slice()));
            }
            k = k + 1;
        }
        None
    }

    /// Whether block device `name` holds the system: `system_disk`.
    pub fn is_system_disk(name: &str, mounts: &Vec<(String, String)>) -> (r: bool)
        ensures
            r == system_disk(name@, mounts.deep_view()),
    {
        let n = chars_of(name);
        let sda = chars_of("sda");
        let nvme0 = chars_of("nvme0n1");
        let mmc0 = chars_of("mmcblk0");
        if chars_equal(n.as_slice(), sda.as_slice()) || starts_with_chars(
            n.as_slice(),
            nvme0.as_slice(),
        ) || starts_with_chars(n.as_slice(), mmc0.as_slice()) {
            return true;
        }
        let dev_s = String::from_str("/dev/").concat(name);
        let dev = chars_of(dev_s.as_str());
        let root = chars_of("/");
        let boot = chars_of("/boot");
        let boot_dir = chars_of("/boot/");
        let docker = chars_of("docker");
        let mut i: usize = 0;
        while i < mounts.len()
            invariant
                i <= mounts@.len(),
                dev@ == "/dev/"@ + name@,
                root@ == "/"@,
                boot@ == "/boot"@,
                boot_dir@ == "/boot/"@,
                docker@ == "docker"@,
                forall|j: int|
                    0 <= j < i ==> !is_system_mount(#[trigger] mounts.deep_view()[j], dev@),
            decreases mounts@.len() - i,
        {
            assert(mounts.deep_view()[i as int] == (mounts@[i as int].0@, mounts@[i as int].1@));
            let d = chars_of(mounts[i].0.as_str());
            let m = chars_of(mounts[i].1.as_str());
            if starts_with_chars(d.as_slice(), dev.as_slice()) && (chars_equal(
                m.as_slice(),
                root.as_slice(),
            ) || chars_equal(m.as_slice(), boot.as_slice()) || starts_with_chars(
                m.as_slice(),
                boot_dir.as_slice(),
            ) || contains_chars(m.as_slice(), docker.as_slice())) {
                return true;
            }
            i = i + 1;
        }
        false
    }

    /// Whether a block device is listed: it is removable (its `removable`
    /// file says `1`) and is a SCSI/SATA (`sd…`) or NVMe (`nvme…`) disk.
    pub fn is_listed_device(name: &str, removable_text: Option<&str>) -> (r: bool)
        ensures
            r == (flag_set(opt_view(removable_text)) && (has_prefix(name@, "sd"@) || has_prefix(
                name@,
                "nvme"@,
            ))),
    {
        let removable = opt_flag(removable_text);
        let n = chars_of(name);
        let sd = chars_of("sd");
        let nvme = chars_of("nvme");
        removable && (starts_with_chars(n.as_slice(), sd.as_slice()) || starts_with_chars(
            n.as_slice(),
            nvme.as_slice(),
        ))
    }

    /// The number of 512-byte sectors that a `size` file gives, if it holds
    /// a 64-bit number.
    pub fn sectors_from_text(size_text: Option<&str>) -> (r: Option<u64>)
        ensures
            r == (match size_text {
                Some(t) => match parse_unsigned(trim(t@), 0xFFFF_FFFF_FFFF_FFFF) {
                    Some(v) => Some(v as u64),
                    None => None::<u64>,
                },
                None => None::<u64>,
            }),
    {
        match size_text {
            Some(t) => parse_trimmed_unsigned(t, 0xFFFF_FFFF_FFFF_FFFF),
            None => None,
        }
    }

    /// The device record of block device `name`, found now with a fresh
    /// random identifier, as `device_record` describes it.
    pub fn new_device(
        name: &str,
        sectors: Option<u64>,
        vendor_text: Option<&str>,
        model_text: Option<&str>,
        serial_text: Option<&str>,
        mounts: &Vec<(String, String)>,
        mounts_content: Option<&str>,
    ) -> (r: UsbDevice)
        requires
            sectors matches Some(s) ==> s * 512 <= u64::MAX,
        ensures
            is_device_record(
                r,
                r.id,
                r.inserted_at,
                name@,
                sectors,
                opt_view(vendor_text),
                opt_view(model_text),
                opt_view(serial_text),
                mounts.deep_view(),
                opt_view(mounts_content),
            ),
    {
        let id = new_v4_id();
        let now = now_micros();
        Self::device_record(
            id,
            now,
            name,
            sectors,
            vendor_text,
            model_text,
            serial_text,
            mounts,
            mounts_content,
        )
    }

    /// The device record of block device `name`, found at `now` with
    /// identifier `id`: its capacity is `sectors` 512-byte sectors (0 when
    /// unknown); its vendor, model and serial are the trimmed texts of its
    /// kernel files; its mount point is that of its first mount in
    /// `mounts`, and its file system is read from `mounts_content` (the
    /// text of `/proc/mounts`) when it is mounted; it holds the system as
    /// `system_disk` says; it is taken to be writable and healthy.
    pub fn device_record(
        id: u128,
        now: i64,
        name: &str,
        sectors: Option<u64>,
        vendor_text: Option<&str>,
        model_text: Option<&str>,
        serial_text: Option<&str>,
        mounts: &Vec<(String, String)>,
        mounts_content: Option<&str>,
    ) -> (r: UsbDevice)
        requires
            sectors matches Some(s) ==> s * 512 <= u64::MAX,
        ensures
            is_device_record(
                r,
                id,
                now,
                name@,
                sectors,
                opt_view(vendor_text),
                opt_view(model_text),
                opt_view(serial_text),
                mounts.deep_view(),
                opt_view(mounts_content),
            ),
    {
        let device_path = String::from_str("/dev/").concat(name);
        let capacity = match sectors {
            Some(s) => s * 512,
            None => 0,
        };
        let mount_point = Self::mount_point_of(mounts, device_path.as_str());
        let is_mounted = mount_point.is_some();
        let filesystem = if is_mounted {
            match mounts_content {
                Some(c) => Self::filesystem_of(c, device_path.as_str()),
                None => None,
            }
        } else {
            None
        };
        UsbDevice {
            id,
            device_path,
            vendor: opt_trimmed(vendor_text),
            model: opt_trimmed(model_text),
            serial: opt_trimmed(serial_text),
            capacity_bytes: capacity,
            filesystem,
            mount_point,
            is_mounted,
            is_readonly: false,
            is_system_disk: Self::is_system_disk(name, mounts),
            health: DiskHealth::Good,
            inserted_at: now,
            updated_at: now,
        }
    }

    /// The device name in a device path and the name of its whole disk:
    /// `device_names_of`.
    pub fn device_names(path: &str) -> (r: Option<(String, String)>)
        ensures
            match r {
                Some((dev, base)) => device_names_of(path@) == Some((dev@, base@)),
                None => device_names_of(path@) is None,
            },
    {
        let cs = chars_of(path);
        let prefix = chars_of("/dev/");
        let mut start: usize = 0;
        let ghost p = "/dev/"@;
        proof {
            reveal_strlit("/dev/");
            assert(cs@.skip(0) =~= cs@);
        }
        while prefix.len() <= cs.len() - start && matches_prefix_at(
            cs.as_slice(),
            prefix.as_slice(),
            start,
        )
            invariant
                prefix@ == p,
                p.len() > 0,
                start <= cs@.len(),
                strip_all_prefixes(path@, p) == strip_all_prefixes(cs@.skip(start as int), p),
            decreases cs@.len() - start,
        {
            proof {
                let s = cs@.skip(start as int);
                assert(s.take(p.len() as int) =~= cs@.subrange(
                    start as int,
                    start + p.len(),
                ));
                assert(s.skip(p.len() as int) =~= cs@.skip(start + p.len()));
            }
            start = start + prefix.len();
        }
        proof {
            let s = cs@.skip(start as int);
            if has_prefix(s, p) {
                assert(s.take(p.len() as int) =~= cs@.subrange(start as int, start + p.len()));
            }
        }
        let dev = copy_range(cs.as_slice(), start, cs.len());
        assert(dev@ =~= cs@.skip(start as int));
        if dev.len() == 0 {
            return None;
        }
        let mut slash = false;
        let mut i: usize = 0;
        while i < dev.len()
            invariant
                i <= dev@.len(),
                slash == (exists|j: int| 0 <= j < i && dev@[j] == '/'),
            decreases dev@.len() - i,
        {
            if dev[i] == '/' {
                slash = true;
            }
            i = i + 1;
        }
        if slash {
            proof {
                let j = choose|j: int| 0 <= j < dev@.len() && dev@[j] == '/';
                assert(dev@.contains('/'));
            }
            return None;
        }
        let nvme = chars_of("nvme");
        let and_p = starts_with_chars(dev.as_slice(), nvme.as_slice());
        let mut end: usize = dev.len();
        assert(dev@.take(end as int) =~= dev@);
        while end > 0 && (is_ascii_digit(dev[end - 1]) || (and_p && dev[end - 1] == 'p'))
            invariant
                end <= dev@.len(),
                trim_trailing_digits(dev@, and_p) == trim_trailing_digits(
                    dev@.take(end as int),
                    and_p,
                ),
            decreases end,
        {
            proof {
                let t = dev@.take(end as int);
                assert(t.drop_last() =~= dev@.take(end - 1));
                assert(t.last() == dev@[end - 1]);
            }
            end = end - 1;
        }
        proof {
            let t = dev@.take(end as int);
            if end > 0 {
                assert(t.last() == dev@[end - 1]);
            }
            assert(dev@.take(dev@.len() as int) =~= dev@);
        }
        let base = copy_range(dev.as_slice(), 0, end);
        assert(base@ =~= dev@.take(end as int));
        assert(!dev@.contains('/'));
        Some((string_from_chars(dev.as_slice()), string_from_chars(base.as_slice())))
    }

    /// What the kernel files of a device say: the size in sectors (0 when
    /// unknown), the sector size (512 when unknown), whether it is removable
    /// and read-only (files saying `1`), and the trimmed vendor, model and
    /// serial.
    pub fn device_info(
        path: &str,
        size_text: Option<&str>,
        sector_size_text: Option<&str>,
        removable_text: Option<&str>,
        vendor_text: Option<&str>,
        model_text: Option<&str>,
        serial_text: Option<&str>,
        readonly_text: Option<&str>,
    ) -> (r: UsbDeviceInfo)
        ensures
            r.device_path@ == path@,
            r.vendor.deep_view() == trimmed(opt_view(vendor_text)),
            r.model.deep_view() == trimmed(opt_view(model_text)),
            r.serial.deep_view() == trimmed(opt_view(serial_text)),
            r.size_sectors == number_or(opt_view(size_text), 0),
            r.sector_size == number_or(opt_view(sector_size_text), 512),
            r.is_removable == flag_set(opt_view(removable_text)),
            r.is_readonly == flag_set(opt_view(readonly_text)),
    {
        UsbDeviceInfo {
            device_path: String::from_str(path),
            vendor: opt_trimmed(vendor_text),
            model: opt_trimmed(model_text),
            serial: opt_trimmed(serial_text),
            size_sectors: opt_number(size_text, 0),
            sector_size: opt_number(sector_size_text, 512),
            is_removable: opt_flag(removable_text),
            is_readonly: opt_flag(readonly_text),
        }
    }
}

fn is_ascii_digit(c: char) -> (r: bool)
    ensures
        r == is_digit(c),
{
    let v = c as u32;
    48 <= v && v <= 57
}

fn matches_prefix_at(s: &[char], p: &[char], at: usize) -> (r: bool)
    requires
        at + p@.len() <= s@.len(),
    ensures
        r == (s@.subrange(at as int, at + p@.len()) == p@),
{
    let n = s.len();
    let mut k: usize = 0;
    while k < p.len()
        invariant
            n == s@.len(),
            at + p@.len() <= s@.len(),
            k <= p@.len(),
            forall|m: int| 0 <= m < k ==> s@[at + m] == #[trigger] p@[m],
        decreases p@.len() - k,
    {
        if s[at + k] != p[k] {
            assert(s@.subrange(at as int, at + p@.len())[k as int] != p@[k as int]);
            return false;
        }
        k = k + 1;
    }
    assert(s@.subrange(at as int, at + p@.len()) =~= p@);
    true
}

/// Which block devices hold the system:
/// - a disk with a partition (a device whose path starts with `/dev/` and
///   its name) mounted at `/`, at `/boot` or below it, or at a path that
///   mentions `docker`, holds the system;
/// - so do `sda`, and every device whose name starts with `nvme0n1` or
///   `mmcblk0`;
/// - any other name (`sdb`, or `sda1`) holds the system only through its
///   mounts: where none of the device's mounts is at such a path, and in
///   particular where nothing of it is mounted, it is not a system disk.
pub proof fn law_system_disks(name: Seq<char>, mounts: Seq<MountView>, k: int)
    ensures
        0 <= k < mounts.len() && has_prefix(mounts[k].0, "/dev/"@ + name) && mounts[k].1 == "/"@
            ==> system_disk(name, mounts),
        0 <= k < mounts.len() && has_prefix(mounts[k].0, "/dev/"@ + name) && (mounts[k].1
            == "/boot"@ || has_prefix(mounts[k].1, "/boot/"@)) ==> system_disk(name, mounts),
        0 <= k < mounts.len() && has_prefix(mounts[k].0, "/dev/"@ + name) && has_substring(
            mounts[k].1,
            "docker"@,
        ) ==> system_disk(name, mounts),
        name == "sda"@ ==> system_disk(name, mounts),
        has_prefix(name, "nvme0n1"@) || has_prefix(name, "mmcblk0"@) ==> system_disk(name, mounts),
        name != "sda"@ && !has_prefix(name, "nvme0n1"@) && !has_prefix(name, "mmcblk0"@) && (forall|
            j: int,
        |
            0 <= j < mounts.len() && has_prefix(#[trigger] mounts[j].0, "/dev/"@ + name) ==> {
                &&& mounts[j].1 != "/"@
                &&& mounts[j].1 != "/boot"@
                &&& !has_prefix(mounts[j].1, "/boot/"@)
                &&& !has_substring(mounts[j].1, "docker"@)
            }) ==> !system_disk(name, mounts),
        name != "sda"@ && !has_prefix(name, "nvme0n1"@) && !has_prefix(name, "mmcblk0"@) && (forall|
            j: int,
        | 0 <= j < mounts.len() ==> !has_prefix(#[trigger] mounts[j].0, "/dev/"@ + name))
            ==> !system_disk(name, mounts),
{
    if 0 <= k < mounts.len() && has_prefix(mounts[k].0, "/dev/"@ + name) && (mounts[k].1 == "/"@
        || mounts[k].1 == "/boot"@ || has_prefix(mounts[k].1, "/boot/"@) || has_substring(
        mounts[k].1,
        "docker"@,
    )) {
        assert(is_system_mount(mounts[k], "/dev/"@ + name));
    }
}

} // verus!
