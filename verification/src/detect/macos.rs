//! macOS drive description from `diskutil` output.

use vstd::prelude::*;
use crate::model::{BusType, DiskInfo, DiskModel, string_views};
use crate::text::{
    chars_contain, chars_eq, chars_of, chars_start_with, contains, eq_ignore_ascii_case,
    chars_eq_ignore_ascii_case, is_digit, join_chars, lines, lines_of, parse_u64, parse_u64_chars,
    split_at_char, split_pieces, starts_with, string_from_chars, sub_chars, trim, trim_chars, views, words,
    words_of,
};

verus! {

/// The part of a disk identifier after its "/dev/disk" prefix (empty for an
/// identifier shorter than the prefix).
pub open spec fn disk_suffix(id: Seq<char>) -> Seq<char> {
    if id.len() >= 9 {
        id.subrange(9, id.len() as int)
    } else {
        Seq::empty()
    }
}

/// A slice identifier, such as "/dev/disk2s1": an "s" follows the disk number.
pub open spec fn is_slice_id(id: Seq<char>) -> bool {
    contains(disk_suffix(id), "s"@)
}

/// The candidate whole-disk identifier of a `diskutil list` line: its first
/// word, for lines starting with "/dev/disk"; empty identifiers and slice
/// identifiers (such as disk2s1) are skipped.
pub open spec fn list_line_candidate(line: Seq<char>) -> Option<Seq<char>> {
    if starts_with(line, "/dev/disk"@) {
        let w = words(line);
        let id = if w.len() > 0 {
            w[0]
        } else {
            Seq::empty()
        };
        if id.len() == 0 || is_slice_id(id) {
            None
        } else {
            Some(id)
        }
    } else {
        None
    }
}

/// The candidate identifiers of `diskutil list` lines, in order.
pub open spec fn list_candidates(ls: Seq<Seq<char>>) -> Seq<Seq<char>>
    decreases ls.len(),
{
    if ls.len() == 0 {
        Seq::empty()
    } else {
        let prev = list_candidates(ls.drop_last());
        match list_line_candidate(ls.last()) {
            Some(id) => prev.push(id),
            None => prev,
        }
    }
}

/// The disk identifiers that `diskutil list` output names, each to be
/// inspected with `diskutil info`.
pub fn macos_candidate_ids(list_output: &str) -> (r: Vec<String>)
    ensures
        string_views(r@) == list_candidates(lines(list_output@)),
{
    let ls = lines_of(&chars_of(list_output));
    let prefix = chars_of("/dev/disk");
    let s = chars_of("s");
    let mut out: Vec<String> = Vec::new();
    let n = ls.len();
    assert(string_views(out@) =~= Seq::<Seq<char>>::empty());
    for i in 0..n
        invariant
            n == ls@.len(),
            prefix@ == "/dev/disk"@,
            s@ == "s"@,
            string_views(out@) == list_candidates(views(ls@).subrange(0, i as int)),
    {
        let line = &ls[i];
        let ghost pre = views(ls@).subrange(0, i + 1);
        assert(pre.drop_last() =~= views(ls@).subrange(0, i as int));
        assert(pre.last() == line@);
        if chars_start_with(line, &prefix) {
            let w = words_of(line);
            let id: Vec<char> = if w.len() > 0 {
                assert(views(w@)[0] == w@[0]@);
                join_chars(&w[0], &Vec::new())
            } else {
                Vec::new()
            };
            let suffix = if id.len() >= 9 {
                sub_chars(&id, 9, id.len())
            } else {
                Vec::new()
            };
            assert(suffix@ =~= disk_suffix(id@));
            if !(id.len() == 0 || chars_contain(&suffix, &s)) {
                let ghost prev = string_views(out@);
                out.push(string_from_chars(&id));
                assert(string_views(out@) =~= prev.push(id@));
            }
        }
    }
    assert(views(ls@).subrange(0, n as int) =~= views(ls@));
    out
}

/// The ASCII digits of `s`, in order.
pub open spec fn digits_only(s: Seq<char>) -> Seq<char>
    decreases s.len(),
{
    if s.len() == 0 {
        Seq::empty()
    } else if is_digit(s.last()) {
        digits_only(s.drop_last()).push(s.last())
    } else {
        digits_only(s.drop_last())
    }
}

/// What `diskutil info` has told so far about a disk.
pub struct MacInfo {
    pub name: Seq<char>,
    pub size_bytes: u64,
    pub is_removable: bool,
    pub bus_type: BusType,
    pub mount_points: Seq<Seq<char>>,
    pub is_system: bool,
    pub is_read_only: bool,
}

/// The value after the label of a "Label: value" line, trimmed.
pub open spec fn field_value(t: Seq<char>) -> Seq<char> {
    trim(crate::text::second_piece(t, ':'))
}

/// The effect of one `diskutil info` line on what is known of the disk.
pub open spec fn mac_step(st: MacInfo, line: Seq<char>) -> MacInfo {
    let t = trim(line);
    if starts_with(t, "Device / Media Name:"@) {
        MacInfo { name: field_value(t), ..st }
    } else if starts_with(t, "Disk Size:"@) {
        let pieces = split_pieces(t, '(');
        if pieces.len() > 1 {
            let size = match parse_u64(digits_only(pieces[1])) {
                Some(v) => v,
                None => 0,
            };
            MacInfo { size_bytes: size, ..st }
        } else {
            st
        }
    } else if starts_with(t, "Removable Media:"@) || starts_with(t, "Ejectable:"@) {
        if contains(t, "Yes"@) || contains(t, "Removable"@) {
            MacInfo { is_removable: true, ..st }
        } else {
            st
        }
    } else if starts_with(t, "Protocol:"@) {
        let proto = field_value(t);
        if eq_ignore_ascii_case(proto, "USB"@) {
            MacInfo { bus_type: BusType::Usb, is_removable: true, ..st }
        } else if eq_ignore_ascii_case(proto, "PCI-Express"@) || contains(proto, "NVMe"@) {
            MacInfo { bus_type: BusType::Nvme, ..st }
        } else if eq_ignore_ascii_case(proto, "SATA"@) {
            MacInfo { bus_type: BusType::Sata, ..st }
        } else {
            st
        }
    } else if starts_with(t, "Mount Point:"@) {
        let mp = field_value(t);
        if mp.len() != 0 && mp != "Not mounted"@ {
            MacInfo {
                mount_points: st.mount_points.push(mp),
                is_system: st.is_system || mp == "/"@ || mp == "/System/Volumes/Data"@,
                ..st
            }
        } else {
            st
        }
    } else if starts_with(t, "Read-Only Media:"@) && contains(t, "Yes"@) {
        MacInfo { is_read_only: true, ..st }
    } else {
        st
    }
}

/// What the lines `ls` tell, starting from `st`.
pub open spec fn mac_scan(st: MacInfo, ls: Seq<Seq<char>>) -> MacInfo
    decreases ls.len(),
{
    if ls.len() == 0 {
        st
    } else {
        mac_step(mac_scan(st, ls.drop_last()), ls.last())
    }
}

/// What is assumed of a disk before its `diskutil info` lines are read.
pub open spec fn mac_initial(disk_id: Seq<char>) -> MacInfo {
    MacInfo {
        name: "Disk "@ + disk_id,
        size_bytes: 0,
        is_removable: false,
        bus_type: BusType::Unknown,
        mount_points: Seq::empty(),
        is_system: false,
        is_read_only: false,
    }
}

/// The description of disk `disk_id` from its `diskutil info` output.
pub open spec fn mac_model(disk_id: Seq<char>, info: Seq<char>) -> DiskModel {
    let st = mac_scan(mac_initial(disk_id), lines(info));
    DiskModel {
        id: disk_id,
        name: st.name,
        size_bytes: st.size_bytes,
        is_removable: st.is_removable,
        bus_type: st.bus_type,
        mount_points: st.mount_points,
        is_system: st.is_system,
        is_read_only: st.is_read_only,
    }
}

fn digits_only_exec(s: &Vec<char>) -> (r: Vec<char>)
    ensures
        r@ == digits_only(s@),
{
    let mut r: Vec<char> = Vec::new();
    let n = s.len();
    for i in 0..n
        invariant
            n == s@.len(),
            r@ == digits_only(s@.subrange(0, i as int)),
    {
        assert(s@.subrange(0, i + 1).drop_last() =~= s@.subrange(0, i as int));
        let c = s[i];
        if '0' <= c && c <= '9' {
            r.push(c);
        }
    }
    assert(s@.subrange(0, n as int) =~= s@);
    r
}

fn field_value_exec(t: &Vec<char>) -> (r: Vec<char>)
    ensures
        r@ == field_value(t@),
{
    trim_chars(&crate::text::second_piece_of(t, ':'))
}

/// Describes disk `disk_id` from the text `diskutil info <disk_id>` printed.
pub fn macos_disk_from_info(disk_id: &str, info: &str) -> (r: DiskInfo)
    ensures
        r.model() == mac_model(disk_id@, info@),
{
    let id = chars_of(disk_id);
    let mut name = join_chars(&chars_of("Disk "), &id);
    let mut size_bytes: u64 = 0;
    let mut is_removable = false;
    let mut bus_type = BusType::Unknown;
    let mut mounts: Vec<Vec<char>> = Vec::new();
    let mut is_system = false;
    let mut is_read_only = false;
    let ls = lines_of(&chars_of(info));
    let n = ls.len();
    assert(views(mounts@) =~= Seq::<Seq<char>>::empty());
    for i in 0..n
        invariant
            n == ls@.len(),
            mac_scan(mac_initial(disk_id@), views(ls@).subrange(0, i as int)) == (MacInfo {
                name: name@,
                size_bytes,
                is_removable,
                bus_type,
                mount_points: views(mounts@),
                is_system,
                is_read_only,
            }),
    {
        let ghost pre = views(ls@).subrange(0, i + 1);
        assert(pre.drop_last() =~= views(ls@).subrange(0, i as int));
        assert(pre.last() == ls@[i as int]@);
        let t = trim_chars(&ls[i]);
        if chars_start_with(&t, &chars_of("Device / Media Name:")) {
            name = field_value_exec(&t);
        } else if chars_start_with(&t, &chars_of("Disk Size:")) {
            let pieces = split_at_char(&t, '(');
            if pieces.len() > 1 {
                assert(views(pieces@)[1] == pieces@[1]@);
                size_bytes = match parse_u64_chars(&digits_only_exec(&pieces[1])) {
                    Some(v) => v,
                    None => 0,
                };
            }
        } else if chars_start_with(&t, &chars_of("Removable Media:")) || chars_start_with(
            &t,
            &chars_of("Ejectable:"),
        ) {
            if chars_contain(&t, &chars_of("Yes")) || chars_contain(&t, &chars_of("Removable")) {
                is_removable = true;
            }
        } else if chars_start_with(&t, &chars_of("Protocol:")) {
            let proto = field_value_exec(&t);
            if chars_eq_ignore_ascii_case(&proto, &chars_of("USB")) {
                bus_type = BusType::Usb;
                is_removable = true;
            } else if chars_eq_ignore_ascii_case(&proto, &chars_of("PCI-Express")) || chars_contain(
                &proto,
                &chars_of("NVMe"),
            ) {
                bus_type = BusType::Nvme;
            } else if chars_eq_ignore_ascii_case(&proto, &chars_of("SATA")) {
                bus_type = BusType::Sata;
            }
        } else if chars_start_with(&t, &chars_of("Mount Point:")) {
            let mp = field_value_exec(&t);
            if mp.len() != 0 && !chars_eq(&mp, &chars_of("Not mounted")) {
                if chars_eq(&mp, &chars_of("/")) || chars_eq(&mp, &chars_of("/System/Volumes/Data")) {
                    is_system = true;
                }
                let ghost prev = views(mounts@);
                mounts.push(mp);
                assert(views(mounts@) =~= prev.push(mp@));
            }
        } else if chars_start_with(&t, &chars_of("Read-Only Media:")) && chars_contain(
            &t,
            &chars_of("Yes"),
        ) {
            is_read_only = true;
        }
    }
    assert(views(ls@).subrange(0, n as int) =~= views(ls@));
    let mut mount_points: Vec<String> = Vec::new();
    let m = mounts.len();
    for k in 0..m
        invariant
            m == mounts@.len(),
            string_views(mount_points@) == views(mounts@).subrange(0, k as int),
    {
        let ghost prev = string_views(mount_points@);
        mount_points.push(string_from_chars(&mounts[k]));
        assert(string_views(mount_points@) =~= prev.push(mounts@[k as int]@));
        assert(views(mounts@)[k as int] == mounts@[k as int]@);
        assert(string_views(mount_points@) =~= views(mounts@).subrange(0, k + 1));
    }
    assert(views(mounts@).subrange(0, m as int) =~= views(mounts@));
    let r = DiskInfo {
        id: disk_id.to_owned(),
        name: string_from_chars(&name),
        size_bytes,
        is_removable,
        bus_type,
        mount_points,
        is_system,
        is_read_only,
    };
    assert(r.model() =~= mac_model(disk_id@, info@));
    r
}

} // verus!
