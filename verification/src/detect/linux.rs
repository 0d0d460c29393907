//! Linux drive description from sysfs attributes and `/proc/mounts`.

use vstd::prelude::*;
use crate::model::{BusType, DiskInfo, DiskModel, disk_models, string_views};
use crate::text::{chars_contain, chars_eq, lines_of, string_from_chars, views, words_of, parse_u64_chars, chars_of, chars_start_with, contains, join_chars, lines, parse_u64, push_chars, starts_with, trim, trim_chars, words};

verus! {

/// What sysfs shows of one entry of `/sys/block`; each attribute is the file's
/// text, or `None` when it could not be read.
#[derive(Clone, Debug)]
pub struct LinuxBlockDevice {
    /// The entry's name, e.g. "sda".
    pub name: String,
    /// `/sys/block/<name>/removable`.
    pub removable: Option<String>,
    /// `/sys/block/<name>/ro`.
    pub read_only: Option<String>,
    /// `/sys/block/<name>/size`, in 512-byte sectors.
    pub size: Option<String>,
    /// `/sys/block/<name>/device/vendor`.
    pub vendor: Option<String>,
    /// `/sys/block/<name>/device/model`.
    pub model: Option<String>,
    /// The canonical path of `/sys/block/<name>`, or "" when it has none.
    pub sys_path: String,
}

/// Loop, RAM, zram and optical devices are not candidates.
pub open spec fn is_virtual_device(name: Seq<char>) -> bool {
    ||| starts_with(name, "loop"@)
    ||| starts_with(name, "ram"@)
    ||| starts_with(name, "zram"@)
    ||| starts_with(name, "sr"@)
}

/// A sysfs flag attribute reads "1".
pub open spec fn attr_flag(a: Option<String>) -> bool {
    match a {
        Some(t) => trim(t@) == "1"@,
        None => false,
    }
}

/// The sector count in a size attribute, if it parses.
pub open spec fn attr_sectors(a: Option<String>) -> Option<u64> {
    match a {
        Some(t) => parse_u64(trim(t@)),
        None => None,
    }
}

/// The drive size in bytes from a size attribute; 0 when unknown.
pub open spec fn attr_size_bytes(a: Option<String>) -> u64 {
    match attr_sectors(a) {
        Some(v) => (v * 512) as u64,
        None => 0,
    }
}

/// A text attribute, trimmed; empty when unreadable.
pub open spec fn attr_text(a: Option<String>) -> Seq<char> {
    match a {
        Some(t) => trim(t@),
        None => Seq::empty(),
    }
}

/// The drive name from vendor and model text, falling back to `fallback`.
pub open spec fn combined_name(vendor: Seq<char>, model: Seq<char>, fallback: Seq<char>) -> Seq<char> {
    if vendor.len() != 0 && model.len() != 0 {
        vendor + " "@ + model
    } else if model.len() != 0 {
        model
    } else if vendor.len() != 0 {
        vendor
    } else {
        fallback
    }
}

/// The bus a device is on, from its canonical sysfs path and its name.
pub open spec fn linux_bus(name: Seq<char>, sys_path: Seq<char>) -> BusType {
    if contains(sys_path, "/usb"@) || (contains(sys_path, "/target"@) && contains(sys_path, "usb"@)) {
        BusType::Usb
    } else if starts_with(name, "nvme"@) {
        BusType::Nvme
    } else if contains(sys_path, "/ata"@) || starts_with(name, "sd"@) {
        BusType::Sata
    } else if starts_with(name, "mmcblk"@) {
        BusType::SdCard
    } else {
        BusType::Unknown
    }
}

/// The (device, mount point) pairs of mount-table lines: the first two
/// whitespace-separated words of each line that has at least two.
pub open spec fn mount_entries(ls: Seq<Seq<char>>) -> Seq<(Seq<char>, Seq<char>)>
    decreases ls.len(),
{
    if ls.len() == 0 {
        Seq::empty()
    } else {
        let prev = mount_entries(ls.drop_last());
        let w = words(ls.last());
        if w.len() >= 2 {
            prev.push((w[0], w[1]))
        } else {
            prev
        }
    }
}

/// The mount table read from `/proc/mounts`; empty when it could not be read.
pub open spec fn mount_table(content: Option<String>) -> Seq<(Seq<char>, Seq<char>)> {
    match content {
        Some(t) => mount_entries(lines(t@)),
        None => Seq::empty(),
    }
}

/// A mount point that marks a system drive.
pub open spec fn is_system_mount(m: Seq<char>) -> bool {
    m == "/"@ || m == "/boot"@ || starts_with(m, "/boot/"@)
}

/// The mount points whose device path starts with `dev_path`, in table order.
pub open spec fn mounts_of(entries: Seq<(Seq<char>, Seq<char>)>, dev_path: Seq<char>) -> Seq<Seq<char>>
    decreases entries.len(),
{
    if entries.len() == 0 {
        Seq::empty()
    } else {
        let prev = mounts_of(entries.drop_last(), dev_path);
        if starts_with(entries.last().0, dev_path) {
            prev.push(entries.last().1)
        } else {
            prev
        }
    }
}

/// Some mount point of the device is a system mount.
pub open spec fn holds_system_mount(mounts: Seq<Seq<char>>) -> bool {
    exists|i: int| 0 <= i < mounts.len() && is_system_mount(#[trigger] mounts[i])
}

/// The description of one (non-virtual) block device.
pub open spec fn linux_model(d: LinuxBlockDevice, entries: Seq<(Seq<char>, Seq<char>)>) -> DiskModel {
    let dev_path = "/dev/"@ + d.name@;
    let bus = linux_bus(d.name@, d.sys_path@);
    let mounts = mounts_of(entries, dev_path);
    DiskModel {
        id: dev_path,
        name: combined_name(attr_text(d.vendor), attr_text(d.model), d.name@),
        size_bytes: attr_size_bytes(d.size),
        is_removable: attr_flag(d.removable) || bus == BusType::Usb,
        bus_type: bus,
        mount_points: mounts,
        is_system: holds_system_mount(mounts),
        is_read_only: attr_flag(d.read_only),
    }
}

/// The descriptions of the non-virtual devices, in order.
pub open spec fn linux_models(devs: Seq<LinuxBlockDevice>, entries: Seq<(Seq<char>, Seq<char>)>) -> Seq<
    DiskModel,
>
    decreases devs.len(),
{
    if devs.len() == 0 {
        Seq::empty()
    } else {
        let prev = linux_models(devs.drop_last(), entries);
        if is_virtual_device(devs.last().name@) {
            prev
        } else {
            prev.push(linux_model(devs.last(), entries))
        }
    }
}

/// A size attribute whose sector count, times 512, does not fit in a `u64`.
pub open spec fn size_overflows(a: Option<String>) -> bool {
    attr_sectors(a) matches Some(v) && v * 512 > u64::MAX
}

/// Whether `name` names a loop, RAM, zram or optical device.
pub fn is_virtual_block_device(name: &str) -> (r: bool)
    ensures
        r == is_virtual_device(name@),
{
    let n = chars_of(name);
    chars_start_with(&n, &chars_of("loop")) || chars_start_with(&n, &chars_of("ram"))
        || chars_start_with(&n, &chars_of("zram")) || chars_start_with(&n, &chars_of("sr"))
}

fn attr_flag_exec(a: &Option<String>) -> (r: bool)
    ensures
        r == attr_flag(*a),
{
    match a {
        Some(t) => {
            let v = trim_chars(&chars_of(t.as_str()));
            proof {
                reveal_strlit("1");
            }
            let r = v.len() == 1 && v[0] == '1';
            assert(r == (v@ == "1"@)) by {
                if r {
                    assert(v@ =~= "1"@);
                }
            }
            r
        },
        None => false,
    }
}

fn attr_text_exec(a: &Option<String>) -> (r: Vec<char>)
    ensures
        r@ == attr_text(*a),
{
    match a {
        Some(t) => trim_chars(&chars_of(t.as_str())),
        None => Vec::new(),
    }
}

/// The drive name from vendor and model text, as `combined_name` describes.
pub fn combined_name_chars(vendor: &Vec<char>, model: &Vec<char>, fallback: &Vec<char>) -> (r: Vec<
    char,
>)
    ensures
        r@ == combined_name(vendor@, model@, fallback@),
{
    if vendor.len() != 0 && model.len() != 0 {
        let mut r = join_chars(vendor, &chars_of(" "));
        push_chars(&mut r, model);
        r
    } else if model.len() != 0 {
        join_chars(model, &Vec::new())
    } else if vendor.len() != 0 {
        join_chars(vendor, &Vec::new())
    } else {
        join_chars(fallback, &Vec::new())
    }
}

fn linux_bus_exec(name: &Vec<char>, sys_path: &Vec<char>) -> (r: BusType)
    ensures
        r == linux_bus(name@, sys_path@),
{
    if chars_contain(sys_path, &chars_of("/usb")) || (chars_contain(sys_path, &chars_of("/target"))
        && chars_contain(sys_path, &chars_of("usb"))) {
        BusType::Usb
    } else if chars_start_with(name, &chars_of("nvme")) {
        BusType::Nvme
    } else if chars_contain(sys_path, &chars_of("/ata")) || chars_start_with(name, &chars_of("sd")) {
        BusType::Sata
    } else if chars_start_with(name, &chars_of("mmcblk")) {
        BusType::SdCard
    } else {
        BusType::Unknown
    }
}

/// The views of parsed mount-table entries.
pub open spec fn entry_views(v: Seq<(Vec<char>, Vec<char>)>) -> Seq<(Seq<char>, Seq<char>)> {
    v.map_values(|e: (Vec<char>, Vec<char>)| (e.0@, e.1@))
}

/// Parses the text of `/proc/mounts` into (device, mount point) pairs.
fn parse_proc_mounts(content: &Option<String>) -> (r: Vec<(Vec<char>, Vec<char>)>)
    ensures
        entry_views(r@) == mount_table(*content),
{
    let mut r: Vec<(Vec<char>, Vec<char>)> = Vec::new();
    match content {
        None => {
            assert(entry_views(r@) =~= Seq::<(Seq<char>, Seq<char>)>::empty());
            r
        },
        Some(t) => {
            let ls = lines_of(&chars_of(t.as_str()));
            let n = ls.len();
            assert(entry_views(r@) =~= Seq::<(Seq<char>, Seq<char>)>::empty());
            for i in 0..n
                invariant
                    n == ls@.len(),
                    entry_views(r@) == mount_entries(views(ls@).subrange(0, i as int)),
            {
                let w = words_of(&ls[i]);
                let ghost pre = views(ls@).subrange(0, i + 1);
                assert(pre.drop_last() =~= views(ls@).subrange(0, i as int));
                assert(pre.last() == ls@[i as int]@);
                if w.len() >= 2 {
                    let ghost prev = entry_views(r@);
                    let a = join_chars(&w[0], &Vec::new());
                    let b = join_chars(&w[1], &Vec::new());
                    assert(views(w@)[0] == w@[0]@);
                    assert(views(w@)[1] == w@[1]@);
                    r.push((a, b));
                    assert(entry_views(r@) =~= prev.push((a@, b@)));
                }
            }
            assert(views(ls@).subrange(0, n as int) =~= views(ls@));
            r
        },
    }
}

fn is_system_mount_exec(m: &Vec<char>) -> (r: bool)
    ensures
        r == is_system_mount(m@),
{
    chars_eq(m, &chars_of("/")) || chars_eq(m, &chars_of("/boot")) || chars_start_with(
        m,
        &chars_of("/boot/"),
    )
}

/// The mount points of the device at `dev_path` and whether one of them is a
/// system mount.
fn mounts_for(entries: &Vec<(Vec<char>, Vec<char>)>, dev_path: &Vec<char>) -> (r: (Vec<String>, bool))
    ensures
        string_views(r.0@) == mounts_of(entry_views(entries@), dev_path@),
        r.1 == holds_system_mount(mounts_of(entry_views(entries@), dev_path@)),
{
    let mut out: Vec<String> = Vec::new();
    let mut system = false;
    let n = entries.len();
    assert(string_views(out@) =~= Seq::<Seq<char>>::empty());
    for i in 0..n
        invariant
            n == entries@.len(),
            string_views(out@) == mounts_of(entry_views(entries@).subrange(0, i as int), dev_path@),
            system == holds_system_mount(
                mounts_of(entry_views(entries@).subrange(0, i as int), dev_path@),
            ),
    {
        let ghost pre = entry_views(entries@).subrange(0, i + 1);
        assert(pre.drop_last() =~= entry_views(entries@).subrange(0, i as int));
        assert(pre.last() == (entries@[i as int].0@, entries@[i as int].1@));
        let ghost prev = string_views(out@);
        if chars_start_with(&entries[i].0, dev_path) {
            let m = &entries[i].1;
            let sys_here = is_system_mount_exec(m);
            out.push(string_from_chars(m));
            assert(string_views(out@) =~= prev.push(m@));
            assert(system || sys_here <==> holds_system_mount(prev.push(m@))) by {
                if holds_system_mount(prev.push(m@)) {
                    let k = choose|k: int| 0 <= k < prev.push(m@).len() && is_system_mount(#[trigger] prev.push(m@)[k]);
                    if k < prev.len() {
                        assert(prev[k] == prev.push(m@)[k]);
                    }
                }
                if system {
                    let k = choose|k: int| 0 <= k < prev.len() && is_system_mount(#[trigger] prev[k]);
                    assert(prev.push(m@)[k] == prev[k]);
                }
                if sys_here {
                    assert(prev.push(m@)[prev.len() as int] == m@);
                }
            }
            system = system || sys_here;
        }
    }
    assert(entry_views(entries@).subrange(0, n as int) =~= entry_views(entries@));
    (out, system)
}

fn attr_size_bytes_exec(a: &Option<String>) -> (r: u64)
    requires
        !size_overflows(*a),
    ensures
        r == attr_size_bytes(*a),
{
    match a {
        Some(t) => match parse_u64_chars(&trim_chars(&chars_of(t.as_str()))) {
            Some(v) => v * 512,
            None => 0,
        },
        None => 0,
    }
}

/// Whether a size attribute's sector count, times 512, overflows a `u64`.
pub fn size_attr_overflows(a: &Option<String>) -> (r: bool)
    ensures
        r == size_overflows(*a),
{
    match a {
        Some(t) => match parse_u64_chars(&trim_chars(&chars_of(t.as_str()))) {
            Some(v) => v > u64::MAX / 512,
            None => false,
        },
        None => false,
    }
}

/// Describes one non-virtual block device.
fn linux_disk(d: &LinuxBlockDevice, entries: &Vec<(Vec<char>, Vec<char>)>) -> (r: DiskInfo)
    requires
        !size_overflows(d.size),
    ensures
        r.model() == linux_model(*d, entry_views(entries@)),
{
    let name = chars_of(d.name.as_str());
    let dev_path = join_chars(&chars_of("/dev/"), &name);
    let removable = attr_flag_exec(&d.removable);
    let read_only = attr_flag_exec(&d.read_only);
    let size_bytes = attr_size_bytes_exec(&d.size);
    let vendor = attr_text_exec(&d.vendor);
    let model = attr_text_exec(&d.model);
    let display = combined_name_chars(&vendor, &model, &name);
    let bus = linux_bus_exec(&name, &chars_of(d.sys_path.as_str()));
    let (mount_points, is_system) = mounts_for(entries, &dev_path);
    let is_usb = match bus {
        BusType::Usb => true,
        _ => false,
    };
    let r = DiskInfo {
        id: string_from_chars(&dev_path),
        name: string_from_chars(&display),
        size_bytes,
        is_removable: removable || is_usb,
        bus_type: bus,
        mount_points,
        is_system,
        is_read_only: read_only,
    };
    assert(r.model() =~= linux_model(*d, entry_views(entries@)));
    r
}

/// Describes the block devices of a Linux system, skipping loop, RAM, zram
/// and optical devices, with mount points taken from the `/proc/mounts` text
/// (an unreadable table counts as empty).
pub fn linux_disks(devices: &Vec<LinuxBlockDevice>, mounts: &Option<String>) -> (r: Vec<DiskInfo>)
    requires
        forall|i: int|
            0 <= i < devices@.len() && !is_virtual_device(devices@[i].name@) ==> !size_overflows(
                #[trigger] devices@[i].size,
            ),
    ensures
        disk_models(r@) == linux_models(devices@, mount_table(*mounts)),
{
    let entries = parse_proc_mounts(mounts);
    let mut out: Vec<DiskInfo> = Vec::new();
    let n = devices.len();
    assert(disk_models(out@) =~= Seq::<DiskModel>::empty());
    for i in 0..n
        invariant
            n == devices@.len(),
            entry_views(entries@) == mount_table(*mounts),
            forall|j: int|
                0 <= j < devices@.len() && !is_virtual_device(devices@[j].name@) ==> !size_overflows(
                    #[trigger] devices@[j].size,
                ),
            disk_models(out@) == linux_models(devices@.subrange(0, i as int), mount_table(*mounts)),
    {
        let d = &devices[i];
        let ghost pre = devices@.subrange(0, i + 1);
        assert(pre.drop_last() =~= devices@.subrange(0, i as int));
        if !is_virtual_block_device(d.name.as_str()) {
            let ghost prev = disk_models(out@);
            let disk = linux_disk(d, &entries);
            out.push(disk);
            assert(disk_models(out@) =~= prev.push(disk.model()));
        }
    }
    assert(devices@.subrange(0, n as int) =~= devices@);
    out
}

} // verus!
