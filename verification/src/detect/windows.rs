//! Windows drive description from storage-device queries and drive letters.

use vstd::prelude::*;
use crate::model::{BusType, DiskInfo, DiskModel, disk_models, string_views};
use crate::text::{
    ascii_upper, chars_eq, chars_of, decimal, decimal_chars, join_chars, push_chars, string_from_chars,
    string_from_utf16_lossy, string_from_utf8_lossy, sub_chars, to_uppercase, trim, trim_chars,
    unicode_upper, utf16_lossy, utf8_lossy,
};

verus! {

/// The bus type for a `STORAGE_BUS_TYPE` code.
pub open spec fn windows_bus(code: i32) -> BusType {
    if code == 7 {
        BusType::Usb
    } else if code == 17 {
        BusType::Nvme
    } else if code == 3 || code == 11 {
        BusType::Sata
    } else if code == 1 || code == 10 {
        BusType::Scsi
    } else if code == 13 {
        BusType::SdCard
    } else {
        BusType::Unknown
    }
}

/// The bus type for a `STORAGE_BUS_TYPE` code.
pub fn bus_type_from_code(code: i32) -> (r: BusType)
    ensures
        r == windows_bus(code),
{
    match code {
        7 => BusType::Usb,
        17 => BusType::Nvme,
        3 | 11 => BusType::Sata,
        1 | 10 => BusType::Scsi,
        13 => BusType::SdCard,
        _ => BusType::Unknown,
    }
}

/// The Windows error code `ERROR_WRITE_PROTECT`.
pub const ERROR_WRITE_PROTECT_CODE: u32 = 19;

/// The drive size from one size-query reply (`IOCTL_DISK_GET_LENGTH_INFO`,
/// or the `IOCTL_DISK_GET_DRIVE_GEOMETRY_EX` fallback): the reported size
/// when the query succeeded and reported a positive size, else nothing.
pub fn size_from_reply(succeeded: bool, reported: i64) -> (r: Option<u64>)
    ensures
        r == (if succeeded && reported > 0 {
            Some(reported as u64)
        } else {
            None
        }),
{
    if succeeded && reported > 0 {
        Some(reported as u64)
    } else {
        None
    }
}

/// Whether a drive is read-only, from the `IOCTL_DISK_IS_WRITABLE` reply:
/// `failure` is the error code when the query failed, `None` when it
/// succeeded. Only a write-protect failure marks the drive read-only.
pub fn read_only_from_reply(failure: Option<u32>) -> (r: bool)
    ensures
        r == (failure == Some(ERROR_WRITE_PROTECT_CODE)),
{
    match failure {
        Some(code) => code == ERROR_WRITE_PROTECT_CODE,
        None => false,
    }
}

/// The bytes of `b` before its first zero byte (all of `b` if it has none).
pub open spec fn before_nul(b: Seq<u8>) -> Seq<u8>
    decreases b.len(),
{
    if b.len() == 0 {
        b
    } else if b[0] == 0 {
        Seq::empty()
    } else {
        seq![b[0]] + before_nul(b.drop_first())
    }
}

/// The text stored at `offset` of a descriptor buffer: the NUL-terminated
/// bytes there, decoded lossily as UTF-8 and trimmed; empty for offset 0 or
/// an offset outside the buffer.
pub open spec fn extracted_text(buffer: Seq<u8>, offset: int) -> Seq<char> {
    if offset == 0 || offset >= buffer.len() {
        Seq::empty()
    } else {
        trim(utf8_lossy(before_nul(buffer.subrange(offset, buffer.len() as int))))
    }
}

proof fn lemma_before_nul_prefix(b: Seq<u8>, k: int)
    requires
        0 <= k <= b.len(),
        forall|j: int| 0 <= j < k ==> b[j] != 0,
        k == b.len() || b[k] == 0,
    ensures
        before_nul(b) == b.subrange(0, k),
    decreases b.len(),
{
    if b.len() == 0 {
        assert(b.subrange(0, k) =~= b);
    } else if k == 0 {
        assert(b.subrange(0, k) =~= Seq::<u8>::empty());
    } else {
        lemma_before_nul_prefix(b.drop_first(), k - 1);
        assert(seq![b[0]] + b.drop_first().subrange(0, k - 1) =~= b.subrange(0, k));
    }
}

/// Reads the text at `offset` of a storage-descriptor buffer.
pub fn extract_string(buffer: &[u8], offset: usize) -> (r: String)
    ensures
        r@ == extracted_text(buffer@, offset as int),
{
    let n = buffer.len();
    if offset == 0 || offset >= n {
        return string_from_chars(&Vec::new());
    }
    let bytes = &buffer[offset..n];
    let m = bytes.len();
    let mut end: usize = 0;
    while end < m && bytes[end] != 0
        invariant
            m == bytes@.len(),
            end <= m,
            forall|j: int| 0 <= j < end ==> bytes@[j] != 0,
        decreases m - end,
    {
        end = end + 1;
    }
    proof {
        lemma_before_nul_prefix(bytes@, end as int);
    }
    let text = string_from_utf8_lossy(&bytes[0..end]);
    let t = trim_chars(&chars_of(text.as_str()));
    string_from_chars(&t)
}

/// What `IOCTL_STORAGE_QUERY_PROPERTY` returned for a drive.
#[derive(Clone, Debug)]
pub struct StorageDescriptor {
    /// `STORAGE_DEVICE_DESCRIPTOR::BusType`.
    pub bus_type_code: i32,
    /// `STORAGE_DEVICE_DESCRIPTOR::RemovableMedia`.
    pub removable_media: u8,
    /// The whole returned buffer.
    pub buffer: Vec<u8>,
    /// `STORAGE_DEVICE_DESCRIPTOR::VendorIdOffset`.
    pub vendor_offset: u32,
    /// `STORAGE_DEVICE_DESCRIPTOR::ProductIdOffset`.
    pub product_offset: u32,
}

/// The drive name from vendor and product text.
pub open spec fn storage_name(vendor: Seq<char>, product: Seq<char>, index: u32) -> Seq<char> {
    trim(
        if vendor.len() != 0 && product.len() != 0 {
            vendor + " "@ + product
        } else if product.len() != 0 {
            product
        } else if vendor.len() != 0 {
            vendor
        } else {
            "Generic Storage Device "@ + decimal(index as nat)
        },
    )
}

/// Bus type, removable flag and name of drive `index` from its descriptor, or
/// the fallbacks when the query failed.
pub open spec fn storage_facts(d: Option<StorageDescriptor>, index: u32) -> (BusType, bool, Seq<char>) {
    match d {
        None => (BusType::Unknown, false, "Physical Drive "@ + decimal(index as nat)),
        Some(d) => {
            let bus = windows_bus(d.bus_type_code);
            (
                bus,
                d.removable_media != 0 || bus == BusType::Usb,
                storage_name(
                    extracted_text(d.buffer@, d.vendor_offset as int),
                    extracted_text(d.buffer@, d.product_offset as int),
                    index,
                ),
            )
        },
    }
}

/// Bus type, removable flag and name of drive `index`, as `storage_facts`
/// describes.
pub fn describe_storage(d: &Option<StorageDescriptor>, index: u32) -> (r: (BusType, bool, String))
    ensures
        (r.0, r.1, r.2@) == storage_facts(*d, index),
{
    match d {
        None => {
            let name = join_chars(&chars_of("Physical Drive "), &decimal_chars(index as u64));
            (BusType::Unknown, false, string_from_chars(&name))
        },
        Some(d) => {
            let bus = bus_type_from_code(d.bus_type_code);
            let is_usb = match bus {
                BusType::Usb => true,
                _ => false,
            };
            let removable = d.removable_media != 0 || is_usb;
            let vendor_s = extract_string(d.buffer.as_slice(), d.vendor_offset as usize);
            let product_s = extract_string(d.buffer.as_slice(), d.product_offset as usize);
            let vendor = chars_of(vendor_s.as_str());
            let product = chars_of(product_s.as_str());
            let raw = if vendor.len() != 0 && product.len() != 0 {
                let mut r = join_chars(&vendor, &chars_of(" "));
                push_chars(&mut r, &product);
                r
            } else if product.len() != 0 {
                product
            } else if vendor.len() != 0 {
                vendor
            } else {
                join_chars(&chars_of("Generic Storage Device "), &decimal_chars(index as u64))
            };
            let name = trim_chars(&raw);
            (bus, removable, string_from_chars(&name))
        },
    }
}

/// Scanning UTF-16 units for the pieces between zero units.
pub open spec fn u16_split_scan(s: Seq<u16>) -> (Seq<Seq<u16>>, Seq<u16>)
    decreases s.len(),
{
    if s.len() == 0 {
        (Seq::empty(), Seq::empty())
    } else {
        let (done, cur) = u16_split_scan(s.drop_last());
        if s.last() == 0 {
            (done.push(cur), Seq::empty())
        } else {
            (done, cur.push(s.last()))
        }
    }
}

/// The pieces of `s` between zero units.
pub open spec fn u16_pieces(s: Seq<u16>) -> Seq<Seq<u16>> {
    let (done, cur) = u16_split_scan(s);
    done.push(cur)
}

/// `s` without leading backslashes.
pub open spec fn strip_backslash_start(s: Seq<char>) -> Seq<char>
    decreases s.len(),
{
    if s.len() > 0 && s[0] == '\\' {
        strip_backslash_start(s.drop_first())
    } else {
        s
    }
}

/// `s` without trailing backslashes.
pub open spec fn strip_backslash_end(s: Seq<char>) -> Seq<char>
    decreases s.len(),
{
    if s.len() > 0 && s.last() == '\\' {
        strip_backslash_end(s.drop_last())
    } else {
        s
    }
}

/// `str::trim_matches('\\')`.
pub open spec fn trim_backslashes(s: Seq<char>) -> Seq<char> {
    strip_backslash_end(strip_backslash_start(s))
}

/// The drive roots named by the non-empty pieces of `pieces`, decoded and
/// stripped of backslashes.
pub open spec fn drive_names(pieces: Seq<Seq<u16>>) -> Seq<Seq<char>>
    decreases pieces.len(),
{
    if pieces.len() == 0 {
        Seq::empty()
    } else {
        let prev = drive_names(pieces.drop_last());
        if pieces.last().len() == 0 {
            prev
        } else {
            prev.push(trim_backslashes(utf16_lossy(pieces.last())))
        }
    }
}

/// The drive names in the first `len` units of a `GetLogicalDriveStringsW`
/// buffer; none when `len` is 0 or exceeds the buffer.
pub open spec fn logical_drive_names(buffer: Seq<u16>, len: u32) -> Seq<Seq<char>> {
    if len == 0 || len > buffer.len() {
        Seq::empty()
    } else {
        drive_names(u16_pieces(buffer.subrange(0, len as int)))
    }
}

fn trim_backslashes_exec(s: &Vec<char>) -> (r: Vec<char>)
    ensures
        r@ == trim_backslashes(s@),
{
    let n = s.len();
    let mut i: usize = 0;
    assert(s@.subrange(0, n as int) =~= s@);
    while i < n && s[i] == '\\'
        invariant
            n == s@.len(),
            i <= n,
            strip_backslash_start(s@) == strip_backslash_start(s@.subrange(i as int, n as int)),
        decreases n - i,
    {
        assert(s@.subrange(i as int, n as int).drop_first() =~= s@.subrange(i + 1, n as int));
        i = i + 1;
    }
    let ghost mid = s@.subrange(i as int, n as int);
    let mut j: usize = n;
    assert(mid.subrange(0, (j - i) as int) =~= mid);
    while j > i && s[j - 1] == '\\'
        invariant
            n == s@.len(),
            i <= j <= n,
            mid == s@.subrange(i as int, n as int),
            strip_backslash_end(mid) == strip_backslash_end(mid.subrange(0, (j - i) as int)),
        decreases j,
    {
        assert(mid.subrange(0, (j - i) as int).drop_last() =~= mid.subrange(0, (j - 1 - i) as int));
        j = j - 1;
    }
    let r = sub_chars(s, i, j);
    assert(r@ =~= mid.subrange(0, (j - i) as int));
    r
}

/// The drive names (such as "C:") listed in the first `len` units of a
/// `GetLogicalDriveStringsW` buffer.
pub fn parse_logical_drive_strings(buffer: &[u16], len: u32) -> (r: Vec<String>)
    ensures
        string_views(r@) == logical_drive_names(buffer@, len),
{
    let mut out: Vec<String> = Vec::new();
    if len == 0 || len as usize > buffer.len() {
        assert(string_views(out@) =~= Seq::<Seq<char>>::empty());
        return out;
    }
    let n = len as usize;
    let ghost whole = buffer@.subrange(0, n as int);
    let mut cur: Vec<u16> = Vec::new();
    assert(string_views(out@) =~= Seq::<Seq<char>>::empty());
    for i in 0..n
        invariant
            n == len,
            n <= buffer@.len(),
            whole == buffer@.subrange(0, n as int),
            ({
                let (done, c) = u16_split_scan(whole.subrange(0, i as int));
                &&& c == cur@
                &&& string_views(out@) == drive_names(done)
            }),
    {
        let u = buffer[i];
        assert(whole.subrange(0, i + 1).drop_last() =~= whole.subrange(0, i as int));
        assert(whole.subrange(0, i + 1).last() == u);
        let ghost done0 = u16_split_scan(whole.subrange(0, i as int)).0;
        assert(done0.push(cur@).drop_last() =~= done0);
        if u == 0 {
            if cur.len() > 0 {
                let ghost prev = string_views(out@);
                let text = string_from_utf16_lossy(cur.as_slice());
                let name = trim_backslashes_exec(&chars_of(text.as_str()));
                out.push(string_from_chars(&name));
                assert(string_views(out@) =~= prev.push(name@));
            }
            cur = Vec::new();
        } else {
            cur.push(u);
        }
    }
    assert(whole.subrange(0, n as int) =~= whole);
    let ghost done1 = u16_split_scan(whole).0;
    assert(done1.push(cur@).drop_last() =~= done1);
    if cur.len() > 0 {
        let ghost prev = string_views(out@);
        let text = string_from_utf16_lossy(cur.as_slice());
        let name = trim_backslashes_exec(&chars_of(text.as_str()));
        out.push(string_from_chars(&name));
        assert(string_views(out@) =~= prev.push(name@));
    }
    out
}

/// A drive letter and the physical drive its volume lies on.
#[derive(Clone, Debug)]
pub struct DriveLetter {
    /// The drive name, e.g. "E:".
    pub letter: String,
    /// The physical drive number of the volume's first extent.
    pub disk_number: u32,
    /// `GetDriveTypeW` reports `DRIVE_REMOVABLE` for the drive's root.
    pub is_removable_drive: bool,
}

/// What probing `\\.\PhysicalDrive<index>` gave.
#[derive(Clone, Debug)]
pub struct WindowsDriveProbe {
    pub index: u32,
    /// The drive length, when a size query succeeded.
    pub size_bytes: Option<u64>,
    /// The storage descriptor, when that query succeeded.
    pub storage: Option<StorageDescriptor>,
    pub is_read_only: bool,
}

/// The letters of the volumes on drive `index`, in order.
pub open spec fn letters_of(letters: Seq<DriveLetter>, index: u32) -> Seq<Seq<char>>
    decreases letters.len(),
{
    if letters.len() == 0 {
        Seq::empty()
    } else {
        let prev = letters_of(letters.drop_last(), index);
        if letters.last().disk_number == index {
            prev.push(letters.last().letter@)
        } else {
            prev
        }
    }
}

/// Some volume of drive `index` is the system drive.
pub open spec fn holds_system_letter(letters: Seq<DriveLetter>, index: u32, system: Seq<char>) -> bool {
    exists|i: int|
        0 <= i < letters.len() && (#[trigger] letters[i]).disk_number == index && unicode_upper(
            letters[i].letter@,
        ) == system
}

/// Some volume of drive `index` is on a removable drive.
pub open spec fn has_removable_letter(letters: Seq<DriveLetter>, index: u32) -> bool {
    exists|i: int|
        0 <= i < letters.len() && (#[trigger] letters[i]).disk_number == index
            && letters[i].is_removable_drive
}

/// The description of a probed drive; `system` is the uppercased system drive.
pub open spec fn windows_model(p: WindowsDriveProbe, letters: Seq<DriveLetter>, system: Seq<char>) -> DiskModel {
    let (bus, removable_bus, name) = storage_facts(p.storage, p.index);
    DiskModel {
        id: "\\\\.\\PhysicalDrive"@ + decimal(p.index as nat),
        name,
        size_bytes: match p.size_bytes {
            Some(s) => s,
            None => 0,
        },
        is_removable: removable_bus || has_removable_letter(letters, p.index),
        bus_type: bus,
        mount_points: letters_of(letters, p.index),
        is_system: holds_system_letter(letters, p.index, system),
        is_read_only: p.is_read_only,
    }
}

/// The descriptions of the probed drives, in probing order.
pub open spec fn windows_models(probes: Seq<WindowsDriveProbe>, letters: Seq<DriveLetter>, system: Seq<char>) -> Seq<DiskModel> {
    probes.map_values(|p: WindowsDriveProbe| windows_model(p, letters, system))
}

/// Describes one probed drive.
fn windows_disk(p: &WindowsDriveProbe, letters: &Vec<DriveLetter>, system: &String) -> (r: DiskInfo)
    ensures
        r.model() == windows_model(*p, letters@, system@),
{
    let (bus, removable_bus, name) = describe_storage(&p.storage, p.index);
    let mut mounts: Vec<String> = Vec::new();
    let mut is_system = false;
    let mut removable_letter = false;
    let sys = chars_of(system.as_str());
    let n = letters.len();
    assert(string_views(mounts@) =~= Seq::<Seq<char>>::empty());
    for i in 0..n
        invariant
            n == letters@.len(),
            sys@ == system@,
            string_views(mounts@) == letters_of(letters@.subrange(0, i as int), p.index),
            is_system == holds_system_letter(letters@.subrange(0, i as int), p.index, system@),
            removable_letter == has_removable_letter(letters@.subrange(0, i as int), p.index),
    {
        let ghost pre = letters@.subrange(0, i + 1);
        assert(pre.drop_last() =~= letters@.subrange(0, i as int));
        let l = &letters[i];
        assert(pre.last() == *l);
        if l.disk_number == p.index {
            let ghost prev = string_views(mounts@);
            mounts.push(l.letter.clone());
            assert(string_views(mounts@) =~= prev.push(l.letter@));
            let up = to_uppercase(l.letter.as_str());
            let here = chars_eq(&chars_of(up.as_str()), &sys);
            assert(holds_system_letter(pre, p.index, system@) == (is_system || here)) by {
                if holds_system_letter(pre, p.index, system@) {
                    let k = choose|k: int|
                        0 <= k < pre.len() && (#[trigger] pre[k]).disk_number == p.index
                            && unicode_upper(pre[k].letter@) == system@;
                    if k < i {
                        assert(pre[k] == letters@.subrange(0, i as int)[k]);
                    }
                }
                if is_system {
                    let k = choose|k: int|
                        0 <= k < i && (#[trigger] letters@.subrange(0, i as int)[k]).disk_number
                            == p.index && unicode_upper(letters@.subrange(0, i as int)[k].letter@)
                            == system@;
                    assert(pre[k] == letters@.subrange(0, i as int)[k]);
                }
                if here {
                    assert(pre[i as int] == *l);
                }
            }
            assert(has_removable_letter(pre, p.index) == (removable_letter || l.is_removable_drive)) by {
                if has_removable_letter(pre, p.index) {
                    let k = choose|k: int|
                        0 <= k < pre.len() && (#[trigger] pre[k]).disk_number == p.index
                            && pre[k].is_removable_drive;
                    if k < i {
                        assert(pre[k] == letters@.subrange(0, i as int)[k]);
                    }
                }
                if removable_letter {
                    let k = choose|k: int|
                        0 <= k < i && (#[trigger] letters@.subrange(0, i as int)[k]).disk_number
                            == p.index && letters@.subrange(0, i as int)[k].is_removable_drive;
                    assert(pre[k] == letters@.subrange(0, i as int)[k]);
                }
                if l.is_removable_drive {
                    assert(pre[i as int] == *l);
                }
            }
            is_system = is_system || here;
            removable_letter = removable_letter || l.is_removable_drive;
        } else {
            assert(holds_system_letter(pre, p.index, system@) == is_system) by {
                if holds_system_letter(pre, p.index, system@) {
                    let k = choose|k: int|
                        0 <= k < pre.len() && (#[trigger] pre[k]).disk_number == p.index
                            && unicode_upper(pre[k].letter@) == system@;
                    assert(pre[k] == letters@.subrange(0, i as int)[k]);
                }
                if is_system {
                    let k = choose|k: int|
                        0 <= k < i && (#[trigger] letters@.subrange(0, i as int)[k]).disk_number
                            == p.index && unicode_upper(letters@.subrange(0, i as int)[k].letter@)
                            == system@;
                    assert(pre[k] == letters@.subrange(0, i as int)[k]);
                }
            }
            assert(has_removable_letter(pre, p.index) == removable_letter) by {
                if has_removable_letter(pre, p.index) {
                    let k = choose|k: int|
                        0 <= k < pre.len() && (#[trigger] pre[k]).disk_number == p.index
                            && pre[k].is_removable_drive;
                    assert(pre[k] == letters@.subrange(0, i as int)[k]);
                }
                if removable_letter {
                    let k = choose|k: int|
                        0 <= k < i && (#[trigger] letters@.subrange(0, i as int)[k]).disk_number
                            == p.index && letters@.subrange(0, i as int)[k].is_removable_drive;
                    assert(pre[k] == letters@.subrange(0, i as int)[k]);
                }
            }
        }
    }
    assert(letters@.subrange(0, n as int) =~= letters@);
    let id = join_chars(&chars_of("\\\\.\\PhysicalDrive"), &decimal_chars(p.index as u64));
    let size_bytes = match p.size_bytes {
        Some(s) => s,
        None => 0,
    };
    let r = DiskInfo {
        id: string_from_chars(&id),
        name,
        size_bytes,
        is_removable: removable_bus || removable_letter,
        bus_type: bus,
        mount_points: mounts,
        is_system,
        is_read_only: p.is_read_only,
    };
    assert(r.model() =~= windows_model(*p, letters@, system@));
    r
}

/// Describes the probed drives of a Windows system. `system_drive` is the
/// `SystemDrive` setting ("C:" when unset); a drive holding a volume whose
/// uppercased letter equals its uppercase is a system drive.
pub fn windows_disks(probes: &Vec<WindowsDriveProbe>, letters: &Vec<DriveLetter>, system_drive: &str) -> (r: Vec<DiskInfo>)
    ensures
        disk_models(r@) == windows_models(probes@, letters@, unicode_upper(system_drive@)),
{
    let system = to_uppercase(system_drive);
    let mut out: Vec<DiskInfo> = Vec::new();
    let n = probes.len();
    for i in 0..n
        invariant
            n == probes@.len(),
            system@ == unicode_upper(system_drive@),
            disk_models(out@) == windows_models(probes@.subrange(0, i as int), letters@, system@),
    {
        let ghost prev = disk_models(out@);
        let d = windows_disk(&probes[i], letters, &system);
        out.push(d);
        assert(disk_models(out@) =~= prev.push(d.model()));
        assert(probes@.subrange(0, i + 1) =~= probes@.subrange(0, i as int).push(probes@[i as int]));
        assert(windows_models(probes@.subrange(0, i + 1), letters@, system@) =~= windows_models(
            probes@.subrange(0, i as int),
            letters@,
            system@,
        ).push(windows_model(probes@[i as int], letters@, system@)));
    }
    assert(probes@.subrange(0, n as int) =~= probes@);
    out
}

/// The order in which `\\.\PhysicalDrive<n>` paths are probed: indices from 0
/// up to 63, stopping after four consecutive paths fail to open.
pub struct DriveScan {
    next: u32,
    failures: u32,
    stopped: bool,
}

impl DriveScan {
    pub closed spec fn spec_next(&self) -> u32 {
        self.next
    }

    pub closed spec fn spec_failures(&self) -> u32 {
        self.failures
    }

    pub closed spec fn spec_stopped(&self) -> bool {
        self.stopped
    }

    pub closed spec fn wf(&self) -> bool {
        self.next <= 64 && self.failures <= self.next && self.failures <= 4 && (!self.stopped
            ==> self.failures < 4)
    }

    /// A scan that has probed nothing.
    pub fn new() -> (s: Self)
        ensures
            s.wf(),
            s.spec_next() == 0,
            s.spec_failures() == 0,
            !s.spec_stopped(),
    {
        DriveScan { next: 0, failures: 0, stopped: false }
    }

    /// The drive index to probe next, if the scan goes on.
    pub fn next_index(&self) -> (r: Option<u32>)
        requires
            self.wf(),
        ensures
            r == (if self.spec_stopped() || self.spec_next() >= 64 {
                None
            } else {
                Some(self.spec_next())
            }),
    {
        if self.stopped || self.next >= 64 {
            None
        } else {
            Some(self.next)
        }
    }

    /// Records whether the drive `next_index` gave could be opened.
    pub fn record(&mut self, opened: bool)
        requires
            old(self).wf(),
            !old(self).spec_stopped(),
            old(self).spec_next() < 64,
        ensures
            final(self).wf(),
            final(self).spec_next() == old(self).spec_next() + 1,
            opened ==> final(self).spec_failures() == 0 && !final(self).spec_stopped(),
            !opened ==> final(self).spec_failures() == old(self).spec_failures() + 1
                && final(self).spec_stopped() == (old(self).spec_failures() + 1 >= 4),
    {
        if opened {
            self.failures = 0;
        } else {
            self.failures = self.failures + 1;
            if self.failures >= 4 {
                self.stopped = true;
            }
        }
        self.next = self.next + 1;
    }
}

} // verus!
