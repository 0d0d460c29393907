//! Text shown to the user: shortened table cells, drive safety status, the
//! progress bar, and raw device paths.

use vstd::prelude::*;
use vstd::utf8::{decode_utf8, is_char_boundary};
use vstd::string::StringSliceAdditionalSpecFns;
use crate::model::{DiskInfo, safe_target};
use crate::text::{chars_of, chars_start_with, concat_str, replace_all, replace_all_chars, starts_with, string_from_chars};

verus! {

/// `s` shortened to `max_len - 1` bytes followed by an ellipsis when it is
/// longer than `max_len` bytes.
pub open spec fn truncated(s: &str, max_len: usize) -> Seq<char> {
    if s.len() > max_len {
        decode_utf8(s.spec_bytes().subrange(0, max_len - 1)) + "…"@
    } else {
        s@
    }
}

/// Shortens `s` for a table cell of `max_len` bytes: a longer text keeps its
/// first `max_len - 1` bytes and gains an ellipsis.
pub fn truncate(s: &str, max_len: usize) -> (r: String)
    requires
        s.len() > max_len ==> max_len >= 1 && is_char_boundary(
            s.spec_bytes(),
            max_len - 1,
        ),
    ensures
        r@ == truncated(s, max_len),
{
    if s.len() > max_len {
        let (pre, _) = s.split_at(max_len - 1);
        proof {
            vstd::utf8::encode_utf8_decode_utf8(pre@);
        }
        concat_str(pre, "…")
    } else {
        s.to_owned()
    }
}

/// The safety status shown for a drive.
pub open spec fn safety_status_text(d: DiskInfo) -> Seq<char> {
    if safe_target(d) {
        "[SAFE TO WRITE]"@
    } else if d.is_system {
        "[PROTECTED - SYSTEM]"@
    } else if d.is_read_only {
        "[PROTECTED - READ-ONLY]"@
    } else {
        "[PROTECTED - INTERNAL]"@
    }
}

/// The safety status shown for a drive in the drive table.
pub fn safety_status(d: &DiskInfo) -> (s: &'static str)
    ensures
        s@ == safety_status_text(*d),
{
    if d.is_safe_target() {
        "[SAFE TO WRITE]"
    } else if d.is_system {
        "[PROTECTED - SYSTEM]"
    } else if d.is_read_only {
        "[PROTECTED - READ-ONLY]"
    } else {
        "[PROTECTED - INTERNAL]"
    }
}

/// A progress bar of `width` cells with `filled` of them done: `filled - 1`
/// '=' cells, a '>' head when anything is done, then blanks up to `width`.
pub open spec fn bar_text(filled: nat, width: nat) -> Seq<char> {
    let body = if filled > 0 {
        (filled - 1) as nat
    } else {
        0
    };
    let blanks = if width > filled {
        (width - filled) as nat
    } else {
        0
    };
    Seq::new(body, |i: int| '=') + (if filled > 0 {
        seq!['>']
    } else {
        Seq::empty()
    }) + Seq::new(blanks, |i: int| ' ')
}

/// Draws the progress bar `bar_text` describes.
pub fn progress_bar(filled: usize, width: usize) -> (r: String)
    ensures
        r@ == bar_text(filled as nat, width as nat),
{
    let mut v: Vec<char> = Vec::new();
    let body = filled.saturating_sub(1);
    for i in 0..body
        invariant
            v@ == Seq::new(i as nat, |k: int| '='),
    {
        v.push('=');
        assert(v@ =~= Seq::new((i + 1) as nat, |k: int| '='));
    }
    if filled > 0 {
        v.push('>');
    }
    let ghost head = v@;
    let blanks = width.saturating_sub(filled);
    for i in 0..blanks
        invariant
            v@ == head + Seq::new(i as nat, |k: int| ' '),
    {
        v.push(' ');
        assert(v@ =~= head + Seq::new((i + 1) as nat, |k: int| ' '));
    }
    assert(v@ =~= bar_text(filled as nat, width as nat));
    string_from_chars(&v)
}

/// The raw-device path macOS writes through: "/dev/diskN" paths become
/// "/dev/rdiskN" (every "/dev/disk" in the path is replaced); other paths are
/// kept.
pub open spec fn raw_device_path_text(id: Seq<char>) -> Seq<char> {
    if starts_with(id, "/dev/disk"@) && !starts_with(id, "/dev/rdisk"@) {
        replace_all(id, "/dev/disk"@, "/dev/rdisk"@)
    } else {
        id
    }
}

/// The raw-device path for `device_id`, as `raw_device_path_text` describes.
pub fn raw_device_path(device_id: &str) -> (r: String)
    ensures
        r@ == raw_device_path_text(device_id@),
{
    let id = chars_of(device_id);
    let disk = chars_of("/dev/disk");
    let rdisk = chars_of("/dev/rdisk");
    if chars_start_with(&id, &disk) && !chars_start_with(&id, &rdisk) {
        proof {
            reveal_strlit("/dev/disk");
        }
        string_from_chars(&replace_all_chars(&id, &disk, &rdisk))
    } else {
        device_id.to_owned()
    }
}

} // verus!
