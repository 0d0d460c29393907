//! The decisions of a flashing operation: which drive may be written, how
//! each chunk of the image is padded and checksummed, how the read-back pass
//! is cut into aligned reads, and when verification passes.
//!
//! The caller performs the file and device I/O and hands each result here.

use vstd::prelude::*;
use crate::buffer::{AlignedBuffer, DEFAULT_ALIGNMENT, round_up_to_sector, round_up_to_sector_exec};
use crate::error::SpeedIsoCoreError;
use crate::hasher::{StreamingHasher, hex_lower, sha256_digest};
use crate::model::{DiskInfo, safe_target};
use crate::text::eq_ignore_ascii_case;

verus! {

/// The index of the first drive at or after `k` whose id equals `target` up
/// to ASCII case.
pub open spec fn find_from(disks: Seq<DiskInfo>, target: Seq<char>, k: int) -> Option<int>
    decreases disks.len() - k,
{
    if k < 0 || k >= disks.len() {
        None
    } else if eq_ignore_ascii_case(disks[k].id@, target) {
        Some(k)
    } else {
        find_from(disks, target, k + 1)
    }
}

/// The index of the first drive whose id equals `target` up to ASCII case.
pub open spec fn find_disk(disks: Seq<DiskInfo>, target: Seq<char>) -> Option<int> {
    find_from(disks, target, 0)
}

/// Why a drive that is not a safe target is refused, in order of priority.
pub open spec fn unsafe_reason(d: DiskInfo) -> Seq<char> {
    if d.is_system {
        "Drive is a protected OS system/boot volume"@
    } else if !d.is_removable {
        "Drive is a fixed internal disk"@
    } else {
        "Drive is read-only"@
    }
}

/// The outcome of choosing the target drive among the detected ones.
pub open spec fn selection_ok(disks: Seq<DiskInfo>, target: Seq<char>, r: Result<usize, SpeedIsoCoreError>) -> bool {
    match r {
        Ok(i) => find_disk(disks, target) == Some(i as int) && safe_target(disks[i as int]),
        Err(SpeedIsoCoreError::UnsafeTarget { id, reason }) => {
            &&& id@ == target
            &&& match find_disk(disks, target) {
                None => reason@ == "Target drive not found on system"@,
                Some(i) => !safe_target(disks[i]) && reason@ == unsafe_reason(disks[i]),
            }
        },
        Err(_) => false,
    }
}

/// The index of the first drive whose id equals `target_id` up to ASCII case.
pub fn find_target(disks: &Vec<DiskInfo>, target_id: &str) -> (r: Option<usize>)
    ensures
        r matches Some(i) ==> find_disk(disks@, target_id@) == Some(i as int) && i < disks@.len(),
        r is None ==> find_disk(disks@, target_id@) is None,
{
    let n = disks.len();
    let mut i: usize = 0;
    while i < n
        invariant
            n == disks@.len(),
            i <= n,
            find_disk(disks@, target_id@) == find_from(disks@, target_id@, i as int),
        decreases n - i,
    {
        if crate::text::str_eq_ignore_ascii_case(disks[i].id.as_str(), target_id) {
            return Some(i);
        }
        i = i + 1;
    }
    None
}

/// Chooses the drive to flash: the first detected drive whose id equals
/// `target_id` up to ASCII case, provided it is a safe target.
pub fn select_target(disks: &Vec<DiskInfo>, target_id: &str) -> (r: Result<usize, SpeedIsoCoreError>)
    ensures
        selection_ok(disks@, target_id@, r),
        r is Ok <==> (find_disk(disks@, target_id@) matches Some(i) && safe_target(disks@[i])),
{
    match find_target(disks, target_id) {
        Some(i) => {
            let d = &disks[i];
            if d.is_safe_target() {
                return Ok(i);
            }
            let reason = if d.is_system {
                "Drive is a protected OS system/boot volume"
            } else if !d.is_removable {
                "Drive is a fixed internal disk"
            } else {
                "Drive is read-only"
            };
            Err(SpeedIsoCoreError::UnsafeTarget { id: target_id.to_owned(), reason: reason.to_owned() })
        },
        None => Err(
            SpeedIsoCoreError::UnsafeTarget {
                id: target_id.to_owned(),
                reason: "Target drive not found on system".to_owned(),
            },
        ),
    }
}

/// Refuses an image larger than a drive of known (non-zero) size.
pub fn check_capacity(disk: &DiskInfo, image_bytes: u64) -> (r: Result<(), SpeedIsoCoreError>)
    ensures
        r is Ok <==> !(disk.size_bytes > 0 && image_bytes > disk.size_bytes),
        r matches Err(e) ==> e == SpeedIsoCoreError::ImageTooLarge(image_bytes, disk.size_bytes),
{
    if disk.size_bytes > 0 && image_bytes > disk.size_bytes {
        Err(SpeedIsoCoreError::ImageTooLarge(image_bytes, disk.size_bytes))
    } else {
        Ok(())
    }
}

/// `n` zero bytes.
pub open spec fn zeros(n: int) -> Seq<u8> {
    Seq::new(n as nat, |i: int| 0u8)
}

/// The write pass: every chunk read from the image is checksummed, counted,
/// and padded with zeros up to the next sector boundary before it is written.
pub struct WriteSession {
    total_bytes: u64,
    bytes_written: u64,
    hasher: StreamingHasher,
}

impl WriteSession {
    /// The image bytes absorbed so far, in order.
    pub closed spec fn data(&self) -> Seq<u8> {
        self.hasher.data()
    }

    /// The size of the image being written, in bytes.
    pub closed spec fn spec_total_bytes(&self) -> u64 {
        self.total_bytes
    }

    pub closed spec fn wf(&self) -> bool {
        &&& self.hasher.wf()
        &&& self.bytes_written == self.hasher.data().len()
    }

    /// A session for an image of `total_bytes` bytes, with nothing written.
    pub fn new(total_bytes: u64) -> (s: Self)
        ensures
            s.wf(),
            s.data() == Seq::<u8>::empty(),
            s.spec_total_bytes() == total_bytes,
    {
        WriteSession { total_bytes, bytes_written: 0, hasher: StreamingHasher::new() }
    }

    /// The first `bytes_read` bytes of `buffer` were just read from the image:
    /// absorbs them into the checksum, zero-fills the buffer up to the next
    /// sector boundary, and returns how many bytes of the buffer to write.
    pub fn absorb_chunk(&mut self, buffer: &mut AlignedBuffer, bytes_read: usize) -> (write_len: usize)
        requires
            old(self).wf(),
            old(buffer).wf(),
            bytes_read <= old(buffer)@.len(),
            old(self).data().len() + bytes_read <= u64::MAX,
        ensures
            final(self).wf(),
            final(self).spec_total_bytes() == old(self).spec_total_bytes(),
            final(self).data() == old(self).data() + old(buffer)@.subrange(0, bytes_read as int),
            write_len == round_up_to_sector(bytes_read as int),
            write_len <= old(buffer)@.len(),
            final(buffer).wf(),
            final(buffer).spec_capacity() == old(buffer).spec_capacity(),
            final(buffer).data_address() == old(buffer).data_address(),
            final(buffer)@ == old(buffer)@.subrange(0, bytes_read as int) + zeros(
                write_len - bytes_read,
            ) + old(buffer)@.subrange(write_len as int, old(buffer)@.len() as int),
    {
        proof {
            old(buffer).lemma_view_len();
        }
        let cap = buffer.capacity();
        let chunk = &buffer.as_slice()[0..bytes_read];
        self.hasher.update(chunk);
        self.bytes_written = self.bytes_written + bytes_read as u64;
        let write_len = round_up_to_sector_exec(bytes_read);
        assert(write_len <= cap) by {
            assert(cap % DEFAULT_ALIGNMENT == 0);
            assert(bytes_read <= cap);
        }
        buffer.fill_zero(bytes_read, write_len);
        write_len
    }

    /// How many image bytes have been written so far.
    pub fn bytes_written(&self) -> (n: u64)
        requires
            self.wf(),
        ensures
            n == self.data().len(),
    {
        self.bytes_written
    }

    /// The size of the image, in bytes.
    pub fn total_bytes(&self) -> (n: u64)
        ensures
            n == self.spec_total_bytes(),
    {
        self.total_bytes
    }

    /// How many image bytes remain, counted as zero once more than the image
    /// size has been written.
    pub fn remaining_bytes(&self) -> (n: u64)
        requires
            self.wf(),
        ensures
            n == if self.data().len() >= self.spec_total_bytes() {
                0
            } else {
                self.spec_total_bytes() - self.data().len()
            },
    {
        self.total_bytes.saturating_sub(self.bytes_written)
    }

    /// Ends the write pass: the lowercase hexadecimal SHA-256 of everything
    /// written.
    pub fn finish(self) -> (checksum: String)
        ensures
            checksum@ == hex_lower(sha256_digest(self.data())),
            checksum@.len() == 64,
    {
        self.hasher.finalize_hex()
    }
}

/// One read of the verification pass: `to_read` image bytes, fetched with a
/// sector-aligned read of `aligned_read` bytes.
#[derive(Clone, Copy, Debug, PartialEq, Eq, Structural)]
pub struct ReadRequest {
    pub to_read: usize,
    pub aligned_read: usize,
}

/// The verification pass: reads the image's extent back from the drive in
/// buffer-sized, sector-aligned pieces and checksums the image bytes.
pub struct VerifySession {
    total_bytes: u64,
    verify_read: u64,
    capacity: usize,
    hasher: StreamingHasher,
}

impl VerifySession {
    /// The bytes read back so far, in order.
    pub closed spec fn data(&self) -> Seq<u8> {
        self.hasher.data()
    }

    pub closed spec fn spec_total_bytes(&self) -> u64 {
        self.total_bytes
    }

    /// The buffer capacity that every read fits in.
    pub closed spec fn spec_capacity(&self) -> usize {
        self.capacity
    }

    pub closed spec fn wf(&self) -> bool {
        &&& self.hasher.wf()
        &&& self.verify_read == self.hasher.data().len()
        &&& self.verify_read <= self.total_bytes
        &&& self.capacity > 0
        &&& self.capacity % DEFAULT_ALIGNMENT == 0
    }

    /// The next read: `None` once the whole image extent has been read back,
    /// else the smaller of the capacity and the bytes left, rounded up to a
    /// sector for the device read.
    pub open spec fn spec_next_read(&self) -> Option<ReadRequest> {
        if self.data().len() >= self.spec_total_bytes() {
            None
        } else {
            let left = self.spec_total_bytes() - self.data().len();
            let to_read = if self.spec_capacity() < left {
                self.spec_capacity() as int
            } else {
                left
            };
            Some(
                ReadRequest {
                    to_read: to_read as usize,
                    aligned_read: round_up_to_sector(to_read) as usize,
                },
            )
        }
    }

    /// Nothing is read past the image extent.
    pub proof fn lemma_read_bounds(&self)
        requires
            self.wf(),
        ensures
            self.data().len() <= self.spec_total_bytes(),
    {
    }

    /// A verification pass over an image of `total_bytes` bytes, reading into
    /// a buffer of `capacity` bytes.
    pub fn new(total_bytes: u64, capacity: usize) -> (s: Self)
        requires
            capacity > 0,
            capacity % DEFAULT_ALIGNMENT == 0,
        ensures
            s.wf(),
            s.data() == Seq::<u8>::empty(),
            s.spec_total_bytes() == total_bytes,
            s.spec_capacity() == capacity,
    {
        VerifySession { total_bytes, verify_read: 0, capacity, hasher: StreamingHasher::new() }
    }

    /// The next read to perform, if any.
    pub fn next_read(&self) -> (r: Option<ReadRequest>)
        requires
            self.wf(),
        ensures
            r == self.spec_next_read(),
            r matches Some(q) ==> {
                &&& 0 < q.to_read <= q.aligned_read <= self.spec_capacity()
                &&& q.aligned_read % DEFAULT_ALIGNMENT == 0
                &&& q.aligned_read - q.to_read < DEFAULT_ALIGNMENT
            },
    {
        if self.verify_read >= self.total_bytes {
            return None;
        }
        let left = self.total_bytes - self.verify_read;
        let to_read: usize = if (self.capacity as u64) < left {
            self.capacity
        } else {
            left as usize
        };
        let aligned_read = round_up_to_sector_exec(to_read);
        Some(ReadRequest { to_read, aligned_read })
    }

    /// How many image bytes have been read back so far.
    pub fn bytes_read(&self) -> (n: u64)
        requires
            self.wf(),
        ensures
            n == self.data().len(),
    {
        self.verify_read
    }

    /// The device read for `q` (the request `next_read` gave) filled the front of
    /// `buffer`: absorbs its first `q.to_read` bytes into the checksum.
    pub fn absorb_read(&mut self, buffer: &AlignedBuffer, q: ReadRequest)
        requires
            old(self).wf(),
            buffer.wf(),
            old(self).spec_next_read() == Some(q),
            q.to_read <= buffer@.len(),
        ensures
            final(self).wf(),
            final(self).spec_total_bytes() == old(self).spec_total_bytes(),
            final(self).spec_capacity() == old(self).spec_capacity(),
            final(self).data() == old(self).data() + buffer@.subrange(0, q.to_read as int),
            final(self).data().len() > old(self).data().len(),
    {
        proof {
            buffer.lemma_view_len();
        }
        let chunk = &buffer.as_slice()[0..q.to_read];
        self.hasher.update(chunk);
        self.verify_read = self.verify_read + q.to_read as u64;
    }

    /// Ends the verification pass: succeeds exactly when the checksum of the
    /// bytes read back equals `source_checksum`.
    pub fn conclude(self, source_checksum: String) -> (r: Result<(), SpeedIsoCoreError>)
        ensures
            r is Ok <==> hex_lower(sha256_digest(self.data())) == source_checksum@,
            r matches Err(e) ==> (e matches SpeedIsoCoreError::VerificationFailed {
                source_hash,
                target_hash,
            } && source_hash@ == source_checksum@ && target_hash@ == hex_lower(
                sha256_digest(self.data()),
            )),
    {
        let target_checksum = self.hasher.finalize_hex();
        if target_checksum != source_checksum {
            Err(
                SpeedIsoCoreError::VerificationFailed {
                    source_hash: source_checksum,
                    target_hash: target_checksum,
                },
            )
        } else {
            Ok(())
        }
    }
}

} // verus!
