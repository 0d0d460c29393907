//! Properties of the library that span several functions.

use vstd::prelude::*;
use crate::buffer::{DEFAULT_ALIGNMENT, round_up_to_sector};
use crate::flasher::VerifySession;
use crate::hasher::{StreamingHasher, hex_digit, hex_lower, lemma_hex_lower_len, sha256_digest};
use crate::detect::linux::{LinuxBlockDevice, is_system_mount, linux_model, mounts_of};
use crate::detect::macos::{MacInfo, mac_initial, mac_model, mac_scan};
use crate::detect::windows::{DriveLetter, WindowsDriveProbe, windows_model};
use crate::model::{BusType, DiskInfo, safe_model, safe_target};
use crate::display::safety_status_text;
use crate::text::lines;

verus! {

/// Rounding up to a sector gives the nearest multiple of `DEFAULT_ALIGNMENT`
/// at or above `n`: it is such a multiple, and no such multiple is smaller.
pub proof fn law_round_up_is_nearest_sector(n: int, m: int)
    requires
        n >= 0,
        m >= n,
        m % (DEFAULT_ALIGNMENT as int) == 0,
    ensures
        round_up_to_sector(n) % (DEFAULT_ALIGNMENT as int) == 0,
        n <= round_up_to_sector(n) < n + DEFAULT_ALIGNMENT,
        round_up_to_sector(n) <= m,
{
    let a = DEFAULT_ALIGNMENT as int;
    let r = round_up_to_sector(n);
    assert(r % a == 0 && n <= r < n + a) by {
        assert(n == a * (n / a) + n % a) by (nonlinear_arith)
            requires
                a == 4096,
        ;
        if n % a != 0 {
            assert(r == a * (n / a) + a);
            assert((a * (n / a) + a) % a == 0) by (nonlinear_arith)
                requires
                    a == 4096,
            ;
        }
    }
    assert(r <= m) by {
        assert(m == a * (m / a)) by (nonlinear_arith)
            requires
                a == 4096,
                m % a == 0,
        ;
        assert(r == a * (r / a)) by (nonlinear_arith)
            requires
                a == 4096,
                r % a == 0,
        ;
        if r > m {
            assert(r / a > m / a) by (nonlinear_arith)
                requires
                    a == 4096,
                    r == a * (r / a),
                    m == a * (m / a),
                    r > m,
            ;
            assert(r - m >= a) by (nonlinear_arith)
                requires
                    a == 4096,
                    r == a * (r / a),
                    m == a * (m / a),
                    r / a > m / a,
            ;
        }
    }
}

proof fn lemma_hex_digit_injective(x: int, y: int)
    requires
        0 <= x < 16,
        0 <= y < 16,
        hex_digit(x) == hex_digit(y),
    ensures
        x == y,
{
}

/// Lowercase hexadecimal text tells bytes apart: equal texts come from equal
/// byte sequences.
pub proof fn law_hex_lower_injective(a: Seq<u8>, b: Seq<u8>)
    requires
        hex_lower(a) == hex_lower(b),
    ensures
        a == b,
    decreases a.len(),
{
    lemma_hex_lower_len(a);
    lemma_hex_lower_len(b);
    if a.len() > 0 {
        let ha = hex_lower(a);
        let hb = hex_lower(b);
        let n = ha.len();
        lemma_hex_lower_len(a.drop_last());
        lemma_hex_lower_len(b.drop_last());
        assert(ha[n - 2] == hex_digit(a.last() as int / 16));
        assert(hb[n - 2] == hex_digit(b.last() as int / 16));
        assert(ha[n - 1] == hex_digit(a.last() as int % 16));
        assert(hb[n - 1] == hex_digit(b.last() as int % 16));
        lemma_hex_digit_injective(a.last() as int / 16, b.last() as int / 16);
        lemma_hex_digit_injective(a.last() as int % 16, b.last() as int % 16);
        assert(a.last() == b.last());
        assert(hex_lower(a.drop_last()) =~= ha.subrange(0, n - 2));
        assert(hex_lower(b.drop_last()) =~= hb.subrange(0, n - 2));
        law_hex_lower_injective(a.drop_last(), b.drop_last());
        assert(a =~= a.drop_last().push(a.last()));
        assert(b =~= b.drop_last().push(b.last()));
    } else {
        assert(a =~= b);
    }
}

/// Verification compares checksum texts; the texts agree exactly when the
/// SHA-256 digests of the written and the read-back bytes agree.
pub proof fn law_checksums_agree_iff_digests_agree(written: Seq<u8>, read_back: Seq<u8>)
    ensures
        hex_lower(sha256_digest(written)) == hex_lower(sha256_digest(read_back)) <==> sha256_digest(
            written,
        ) == sha256_digest(read_back),
{
    if hex_lower(sha256_digest(written)) == hex_lower(sha256_digest(read_back)) {
        law_hex_lower_injective(sha256_digest(written), sha256_digest(read_back));
    }
}

/// A drive that gives back exactly the image bytes passes verification: the
/// read-back checksum equals the checksum of the written image.
pub proof fn law_faithful_readback_verifies(written: Seq<u8>, read_back: Seq<u8>)
    requires
        read_back == written,
    ensures
        hex_lower(sha256_digest(read_back)) == hex_lower(sha256_digest(written)),
{
}

/// The read-back pass ends exactly when the whole image extent has been read.
pub proof fn law_verify_pass_covers_image(s: VerifySession)
    requires
        s.wf(),
    ensures
        s.spec_next_read() is None <==> s.data().len() == s.spec_total_bytes(),
{
    s.lemma_read_bounds();
}


/// The safety rule reads the same on a drive and on its description.
pub proof fn law_safety_rule_on_descriptions(d: DiskInfo)
    ensures
        safe_target(d) == safe_model(d.model()),
{
}

/// On Linux a drive with a partition mounted at "/", "/boot" or below
/// "/boot/" is a system drive, and so never a safe target.
pub proof fn law_linux_system_mount_protects_drive(
    d: LinuxBlockDevice,
    entries: Seq<(Seq<char>, Seq<char>)>,
    k: int,
)
    requires
        0 <= k < mounts_of(entries, "/dev/"@ + d.name@).len(),
        is_system_mount(mounts_of(entries, "/dev/"@ + d.name@)[k]),
    ensures
        linux_model(d, entries).is_system,
        !safe_model(linux_model(d, entries)),
{
    let m = mounts_of(entries, "/dev/"@ + d.name@);
    assert(0 <= k < m.len() && is_system_mount(m[k]));
}

/// A Linux drive on the USB bus is always counted removable.
pub proof fn law_linux_usb_is_removable(d: LinuxBlockDevice, entries: Seq<(Seq<char>, Seq<char>)>)
    ensures
        linux_model(d, entries).bus_type == BusType::Usb ==> linux_model(d, entries).is_removable,
{
}

/// A Windows drive on the USB bus is always counted removable.
pub proof fn law_windows_usb_is_removable(p: WindowsDriveProbe, letters: Seq<DriveLetter>, system: Seq<char>)
    ensures
        windows_model(p, letters, system).bus_type == BusType::Usb ==> windows_model(
            p,
            letters,
            system,
        ).is_removable,
{
}

proof fn lemma_mac_usb_removable(st: MacInfo, ls: Seq<Seq<char>>)
    requires
        st.bus_type == BusType::Usb ==> st.is_removable,
    ensures
        mac_scan(st, ls).bus_type == BusType::Usb ==> mac_scan(st, ls).is_removable,
    decreases ls.len(),
{
    if ls.len() > 0 {
        lemma_mac_usb_removable(st, ls.drop_last());
    }
}

/// A macOS drive reported on the USB bus is always counted removable.
pub proof fn law_macos_usb_is_removable(disk_id: Seq<char>, info: Seq<char>)
    ensures
        mac_model(disk_id, info).bus_type == BusType::Usb ==> mac_model(disk_id, info).is_removable,
{
    lemma_mac_usb_removable(mac_initial(disk_id), lines(info));
}


/// The drive table marks a drive "[SAFE TO WRITE]" exactly when the safety
/// rule allows writing it.
pub proof fn law_status_marks_exactly_safe_targets(d: DiskInfo)
    ensures
        safety_status_text(d) == "[SAFE TO WRITE]"@ <==> safe_target(d),
{
    reveal_strlit("[SAFE TO WRITE]");
    reveal_strlit("[PROTECTED - SYSTEM]");
    reveal_strlit("[PROTECTED - READ-ONLY]");
    reveal_strlit("[PROTECTED - INTERNAL]");
    if !safe_target(d) {
        assert(safety_status_text(d)[1] == 'P');
        assert("[SAFE TO WRITE]"@[1] == 'S');
    }
}


/// The bytes a hasher holds after `new` and one `update` per chunk, in order.
pub open spec fn fed(chunks: Seq<Seq<u8>>) -> Seq<u8>
    decreases chunks.len(),
{
    if chunks.len() == 0 {
        Seq::empty()
    } else {
        fed(chunks.drop_last()) + chunks.last()
    }
}

/// One more `update` with `c` after the chunks `chunks` is feeding
/// `chunks.push(c)`: `StreamingHasher::new` holds `fed([])`, and each
/// `StreamingHasher::update` moves from `fed(chunks)` to `fed(chunks.push(c))`.
pub proof fn law_update_feeds_next_chunk(chunks: Seq<Seq<u8>>, c: Seq<u8>)
    ensures
        fed(Seq::<Seq<u8>>::empty()) == Seq::<u8>::empty(),
        fed(chunks.push(c)) == fed(chunks) + c,
{
    assert(chunks.push(c).drop_last() =~= chunks);
}

/// The streaming checksum does not depend on how the bytes were split into
/// `update` calls: a hasher fed `chunks` holds their concatenation, and its
/// checksum text is that of any other split `other` of the same bytes.
pub proof fn law_checksum_ignores_chunking(h: StreamingHasher, chunks: Seq<Seq<u8>>, other: Seq<Seq<u8>>)
    requires
        h.data() == fed(chunks),
        other.flatten() == chunks.flatten(),
    ensures
        h.data() == chunks.flatten(),
        h.data() == fed(other),
        hex_lower(sha256_digest(h.data())) == hex_lower(sha256_digest(fed(other))),
{
    lemma_fed_is_flatten(chunks);
    lemma_fed_is_flatten(other);
}

proof fn lemma_fed_is_flatten(chunks: Seq<Seq<u8>>)
    ensures
        fed(chunks) == chunks.flatten(),
{
    chunks.lemma_flatten_and_flatten_alt_are_equivalent();
    lemma_fed_is_flatten_alt(chunks);
}

proof fn lemma_fed_is_flatten_alt(chunks: Seq<Seq<u8>>)
    ensures
        fed(chunks) == chunks.flatten_alt(),
    decreases chunks.len(),
{
    if chunks.len() > 0 {
        lemma_fed_is_flatten_alt(chunks.drop_last());
    }
}

} // verus!
