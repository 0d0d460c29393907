//! What drive detection and target selection must conclude from what the
//! operating system reports, stated over the reported values themselves.

use vstd::prelude::*;
use crate::detect::{PlatformSnapshot, detected};
use crate::detect::linux::{LinuxBlockDevice, is_virtual_device, linux_model, linux_models, mount_table, mounts_of};
use crate::detect::macos::{MacInfo, mac_initial, mac_model, mac_scan};
use crate::detect::windows::{DriveLetter, WindowsDriveProbe, windows_model, windows_models};
use crate::flasher::{find_disk, find_from};
use crate::model::{DiskInfo, DiskModel};
use crate::text::{ascii_lower, contains, eq_ignore_ascii_case, is_ws, lines, starts_with, trim, trim_end, trim_start, unicode_upper};

verus! {

proof fn lemma_linux_models_has(devs: Seq<LinuxBlockDevice>, entries: Seq<(Seq<char>, Seq<char>)>, i: int)
    requires
        0 <= i < devs.len(),
        !is_virtual_device(devs[i].name@),
    ensures
        exists|j: int|
            0 <= j < linux_models(devs, entries).len() && #[trigger] linux_models(devs, entries)[j]
                == linux_model(devs[i], entries),
    decreases devs.len(),
{
    let prev = linux_models(devs.drop_last(), entries);
    if i == devs.len() - 1 {
        assert(linux_models(devs, entries)[prev.len() as int] == linux_model(devs[i], entries));
    } else {
        lemma_linux_models_has(devs.drop_last(), entries, i);
        let j = choose|j: int| 0 <= j < prev.len() && #[trigger] prev[j] == linux_model(devs.drop_last()[i], entries);
        assert(linux_models(devs, entries)[j] == prev[j]);
    }
}

proof fn lemma_mounts_of_has(entries: Seq<(Seq<char>, Seq<char>)>, dev: Seq<char>, k: int)
    requires
        0 <= k < entries.len(),
        starts_with(entries[k].0, dev),
    ensures
        exists|j: int| 0 <= j < mounts_of(entries, dev).len() && #[trigger] mounts_of(entries, dev)[j] == entries[k].1,
    decreases entries.len(),
{
    let prev = mounts_of(entries.drop_last(), dev);
    if k == entries.len() - 1 {
        assert(mounts_of(entries, dev)[prev.len() as int] == entries[k].1);
    } else {
        lemma_mounts_of_has(entries.drop_last(), dev, k);
        let j = choose|j: int| 0 <= j < prev.len() && #[trigger] prev[j] == entries.drop_last()[k].1;
        assert(mounts_of(entries, dev)[j] == prev[j]);
    }
}

/// On Linux, a drive one of whose partitions (a mount-table device whose path
/// starts with "/dev/<name>") is mounted at "/", at "/boot" or below "/boot/"
/// is reported, under the id "/dev/<name>", as a system drive.
pub proof fn law_linux_root_or_boot_mount_marks_system(
    devices: Vec<LinuxBlockDevice>,
    mounts: Option<String>,
    i: int,
    k: int,
)
    requires
        0 <= i < devices@.len(),
        !is_virtual_device(devices@[i].name@),
        0 <= k < mount_table(mounts).len(),
        starts_with(mount_table(mounts)[k].0, "/dev/"@ + devices@[i].name@),
        mount_table(mounts)[k].1 == "/"@ || mount_table(mounts)[k].1 == "/boot"@ || starts_with(
            mount_table(mounts)[k].1,
            "/boot/"@,
        ),
    ensures
        match detected(PlatformSnapshot::Linux { sys_block_exists: true, devices, mounts }) {
            Ok(found) => exists|j: int|
                0 <= j < found.len() && (#[trigger] found[j]).id == "/dev/"@ + devices@[i].name@
                    && found[j].is_system,
            Err(_) => false,
        },
{
    let entries = mount_table(mounts);
    let d = devices@[i];
    let dev = "/dev/"@ + d.name@;
    lemma_linux_models_has(devices@, entries, i);
    lemma_mounts_of_has(entries, dev, k);
    let ms = mounts_of(entries, dev);
    let jm = choose|j: int| 0 <= j < ms.len() && #[trigger] ms[j] == entries[k].1;
    assert(0 <= jm < ms.len() && crate::detect::linux::is_system_mount(ms[jm]));
    assert(linux_model(d, entries).is_system);
    let m = linux_models(devices@, entries);
    let j = choose|j: int| 0 <= j < m.len() && #[trigger] m[j] == linux_model(d, entries);
    assert(m[j].id == dev && m[j].is_system);
    let snap = PlatformSnapshot::Linux { sys_block_exists: true, devices, mounts };
    assert(detected(snap) == Ok::<Seq<DiskModel>, crate::error::SpeedIsoDetectError>(m));
    assert(exists|j: int| 0 <= j < m.len() && (#[trigger] m[j]).id == "/dev/"@ + devices@[i].name@ && m[j].is_system);
    assert(match detected(snap) {
        Ok(found) => exists|j: int|
            0 <= j < found.len() && (#[trigger] found[j]).id == "/dev/"@ + devices@[i].name@
                && found[j].is_system,
        Err(_) => false,
    });
}


proof fn lemma_trim_start_skips(pre: Seq<char>, x: Seq<char>)
    requires
        forall|i: int| 0 <= i < pre.len() ==> is_ws(#[trigger] pre[i]),
    ensures
        trim_start(pre + x) == trim_start(x),
    decreases pre.len(),
{
    if pre.len() > 0 {
        assert((pre + x).drop_first() =~= pre.drop_first() + x);
        lemma_trim_start_skips(pre.drop_first(), x);
    } else {
        assert(pre + x =~= x);
    }
}

proof fn lemma_trim_end_skips(y: Seq<char>, post: Seq<char>)
    requires
        forall|i: int| 0 <= i < post.len() ==> is_ws(#[trigger] post[i]),
    ensures
        trim_end(y + post) == trim_end(y),
    decreases post.len(),
{
    if post.len() > 0 {
        assert((y + post).drop_last() =~= y + post.drop_last());
        lemma_trim_end_skips(y, post.drop_last());
    } else {
        assert(y + post =~= y);
    }
}

/// Text that is `core` wrapped in whitespace trims to `core` when `core`
/// neither starts nor ends with whitespace.
proof fn lemma_trim_wrapped(pre: Seq<char>, core: Seq<char>, post: Seq<char>)
    requires
        core.len() > 0,
        !is_ws(core[0]),
        !is_ws(core.last()),
        forall|i: int| 0 <= i < pre.len() ==> is_ws(#[trigger] pre[i]),
        forall|i: int| 0 <= i < post.len() ==> is_ws(#[trigger] post[i]),
    ensures
        trim(pre + core + post) == core,
{
    lemma_trim_start_skips(pre, core + post);
    assert(pre + core + post =~= pre + (core + post));
    assert(trim_start(core + post) == core + post);
    lemma_trim_end_skips(core, post);
}

/// On Linux, a sysfs `ro` attribute whose text is "1" surrounded by
/// whitespace (such as "1\n") makes the drive read-only, and one whose text is
/// "0" so surrounded does not; a `removable` attribute reading "1" so
/// surrounded makes the drive removable.
pub proof fn law_linux_flag_attributes(
    devices: Vec<LinuxBlockDevice>,
    mounts: Option<String>,
    i: int,
    pre: Seq<char>,
    digit: char,
    post: Seq<char>,
)
    requires
        0 <= i < devices@.len(),
        !is_virtual_device(devices@[i].name@),
        digit == '0' || digit == '1',
        forall|k: int| 0 <= k < pre.len() ==> is_ws(#[trigger] pre[k]),
        forall|k: int| 0 <= k < post.len() ==> is_ws(#[trigger] post[k]),
    ensures
        ({
            let d = devices@[i];
            let text = pre + seq![digit] + post;
            match detected(PlatformSnapshot::Linux { sys_block_exists: true, devices, mounts }) {
                Ok(found) => exists|j: int|
                    0 <= j < found.len() && (#[trigger] found[j]).id == "/dev/"@ + d.name@ && (
                    d.read_only matches Some(t) && t@ == text ==> found[j].is_read_only == (digit
                        == '1')) && (d.removable matches Some(t) && t@ == text && digit == '1'
                        ==> found[j].is_removable),
                Err(_) => false,
            }
        }),
{
    let d = devices@[i];
    let text = pre + seq![digit] + post;
    let entries = mount_table(mounts);
    reveal_strlit("1");
    lemma_trim_wrapped(pre, seq![digit], post);
    assert(trim(text) == seq![digit]);
    assert("1"@ =~= seq!['1']);
    lemma_linux_models_has(devices@, entries, i);
    let m = linux_models(devices@, entries);
    let j = choose|j: int| 0 <= j < m.len() && #[trigger] m[j] == linux_model(d, entries);
    assert((seq![digit] == "1"@) == (digit == '1')) by {
        if digit == '0' {
            assert(seq![digit][0] != "1"@[0]);
        }
    }
    let snap = PlatformSnapshot::Linux { sys_block_exists: true, devices, mounts };
    assert(detected(snap) == Ok::<Seq<DiskModel>, crate::error::SpeedIsoDetectError>(m));
    assert(0 <= j < m.len() && m[j].id == "/dev/"@ + d.name@);
    assert(d.read_only matches Some(t) && t@ == text ==> m[j].is_read_only == (digit == '1'));
    assert(d.removable matches Some(t) && t@ == text && digit == '1' ==> m[j].is_removable);
    assert(match detected(snap) {
        Ok(found) => exists|jj: int|
            0 <= jj < found.len() && (#[trigger] found[jj]).id == "/dev/"@ + d.name@ && (
            d.read_only matches Some(t) && t@ == text ==> found[jj].is_read_only == (digit == '1'))
                && (d.removable matches Some(t) && t@ == text && digit == '1'
                ==> found[jj].is_removable),
        Err(_) => false,
    });
}


/// On Windows, a drive whose storage descriptor has a non-zero
/// `RemovableMedia` byte is reported removable, whatever its bus type.
pub proof fn law_windows_removable_media_makes_removable(
    probes: Vec<WindowsDriveProbe>,
    letters: Vec<DriveLetter>,
    system_drive: String,
    i: int,
)
    requires
        0 <= i < probes@.len(),
        probes@[i].storage matches Some(desc) && desc.removable_media != 0,
    ensures
        match detected(PlatformSnapshot::Windows { probes, letters, system_drive }) {
            Ok(found) => i < found.len() && found[i].is_removable,
            Err(_) => false,
        },
{
    let snap = PlatformSnapshot::Windows { probes, letters, system_drive };
    let m = windows_models(probes@, letters@, unicode_upper(system_drive@));
    assert(m[i] == windows_model(probes@[i], letters@, unicode_upper(system_drive@)));
    assert(detected(snap) == Ok::<Seq<DiskModel>, crate::error::SpeedIsoDetectError>(m));
    assert(match detected(snap) {
        Ok(found) => i < found.len() && found[i].is_removable,
        Err(_) => false,
    });
}

proof fn lemma_mac_removable_stays(st: MacInfo, ls: Seq<Seq<char>>)
    requires
        st.is_removable,
    ensures
        mac_scan(st, ls).is_removable,
    decreases ls.len(),
{
    if ls.len() > 0 {
        lemma_mac_removable_stays(st, ls.drop_last());
    }
}

/// A "Removable Media:" or "Ejectable:" line of `diskutil info` output.
pub open spec fn names_removable_media(t: Seq<char>) -> bool {
    (starts_with(t, "Removable Media:"@) || starts_with(t, "Ejectable:"@)) && (contains(t, "Yes"@)
        || contains(t, "Removable"@))
}

proof fn lemma_mac_removable_line(st: MacInfo, ls: Seq<Seq<char>>, k: int)
    requires
        0 <= k < ls.len(),
        names_removable_media(trim(ls[k])),
    ensures
        mac_scan(st, ls).is_removable,
    decreases ls.len(),
{
    if k == ls.len() - 1 {
        let t = trim(ls[k]);
        reveal_strlit("Removable Media:");
        reveal_strlit("Ejectable:");
        reveal_strlit("Device / Media Name:");
        reveal_strlit("Disk Size:");
        assert(t[0] == 'R' || t[0] == 'E') by {
            if starts_with(t, "Removable Media:"@) {
                assert(t.subrange(0, 16)[0] == t[0]);
            } else {
                assert(t.subrange(0, 10)[0] == t[0]);
            }
        }
        assert(!starts_with(t, "Device / Media Name:"@)) by {
            if starts_with(t, "Device / Media Name:"@) {
                assert(t.subrange(0, 20)[0] == t[0]);
            }
        }
        assert(!starts_with(t, "Disk Size:"@)) by {
            if starts_with(t, "Disk Size:"@) {
                assert(t.subrange(0, 10)[0] == t[0]);
            }
        }
    } else {
        lemma_mac_removable_line(st, ls.drop_last(), k);
        lemma_mac_removable_stays(mac_scan(st, ls.drop_last()), seq![ls.last()]);
        assert(seq![ls.last()].drop_last() =~= Seq::<Seq<char>>::empty());
    }
}

/// On macOS, a drive whose `diskutil info` output has a "Removable Media:"
/// or "Ejectable:" line saying "Yes" or "Removable" is described as
/// removable, whatever its protocol and whatever lines follow.
pub proof fn law_macos_removable_media_makes_removable(disk_id: Seq<char>, info: Seq<char>, k: int)
    requires
        0 <= k < lines(info).len(),
        names_removable_media(trim(lines(info)[k])),
    ensures
        mac_model(disk_id, info).is_removable,
{
    lemma_mac_removable_line(mac_initial(disk_id), lines(info), k);
}

/// Two characters that are equal up to ASCII case: equal, or an ASCII
/// uppercase letter and its lowercase letter.
pub open spec fn same_ignoring_ascii_case(a: char, b: char) -> bool {
    ||| a == b
    ||| ('A' <= a && a <= 'Z' && (b as int) == (a as int) + 32)
    ||| ('A' <= b && b <= 'Z' && (a as int) == (b as int) + 32)
}

proof fn lemma_find_from_result(disks: Seq<DiskInfo>, target: Seq<char>, k: int)
    requires
        0 <= k,
    ensures
        find_from(disks, target, k) matches Some(i) ==> k <= i < disks.len() && eq_ignore_ascii_case(
            disks[i].id@,
            target,
        ),
        forall|e: int| k <= e < disks.len() && disks[e].id@ == target ==> (find_from(disks, target, k) matches Some(i) && i <= e),
    decreases disks.len() - k,
{
    if k < disks.len() {
        lemma_find_from_result(disks, target, k + 1);
        assert(disks[k].id@ == target ==> eq_ignore_ascii_case(disks[k].id@, target));
    }
}

/// Target selection compares whole ids: a drive is chosen only if its id has
/// the requested id's length and agrees with it character by character up to
/// ASCII case; and a drive whose id is exactly the requested one is always
/// found (it or an earlier match is chosen).
pub proof fn law_selected_id_is_requested_id(disks: Seq<DiskInfo>, target: Seq<char>)
    ensures
        find_disk(disks, target) matches Some(i) ==> {
            &&& 0 <= i < disks.len()
            &&& disks[i].id@.len() == target.len()
            &&& forall|j: int|
                0 <= j < target.len() ==> same_ignoring_ascii_case(#[trigger] disks[i].id@[j], target[j])
        },
        forall|e: int| 0 <= e < disks.len() && disks[e].id@ == target ==> (find_disk(disks, target) matches Some(i) && i <= e),
{
    lemma_find_from_result(disks, target, 0);
    if find_disk(disks, target) is Some {
        let i = find_disk(disks, target).unwrap();
        let a = disks[i].id@;
        assert forall|j: int| 0 <= j < target.len() implies same_ignoring_ascii_case(#[trigger] a[j], target[j]) by {
            assert(ascii_lower(a[j]) == ascii_lower(target[j]));
        }
    }
}

} // verus!
