//! Sector-aligned, zero-initialised byte buffers for unbuffered block I/O.

use vstd::prelude::*;

verus! {

/// Sector alignment of every buffer, in bytes.
pub const DEFAULT_ALIGNMENT: usize = 4096;

/// Size of the default streaming buffer (2 MiB).
pub const DEFAULT_BUFFER_SIZE: usize = 2097152;

/// The smallest multiple of `DEFAULT_ALIGNMENT` that is at least `n`.
pub open spec fn round_up_to_sector(n: int) -> int {
    if n % (DEFAULT_ALIGNMENT as int) == 0 {
        n
    } else {
        n + (DEFAULT_ALIGNMENT - n % (DEFAULT_ALIGNMENT as int))
    }
}

/// Rounds `n` up to the next multiple of `DEFAULT_ALIGNMENT`.
pub fn round_up_to_sector_exec(n: usize) -> (r: usize)
    requires
        round_up_to_sector(n as int) <= usize::MAX,
    ensures
        r == round_up_to_sector(n as int),
        r >= n,
        r % DEFAULT_ALIGNMENT == 0,
        r - n < DEFAULT_ALIGNMENT,
{
    if n % DEFAULT_ALIGNMENT == 0 {
        n
    } else {
        n + (DEFAULT_ALIGNMENT - (n % DEFAULT_ALIGNMENT))
    }
}

/// The address at which the heap storage of `v` begins.
/// `Vec::as_ptr` is called and the pointer's address is read; nothing is
/// stated of the value, which depends on the allocator.
#[verifier::external_body]
fn storage_address(v: &Vec<u8>) -> (addr: usize) {
    v.as_ptr() as usize
}

/// Sector-aligned memory buffer of a fixed capacity, zero-filled at creation.
/// Its storage is over-allocated by one sector and the usable window starts
/// at the first sector boundary inside it, computed from the storage address
/// read once at creation; the proofs speak of that recorded address.
pub struct AlignedBuffer {
    storage: Vec<u8>,
    offset: usize,
    size: usize,
    base_address: usize,
}

impl View for AlignedBuffer {
    type V = Seq<u8>;

    closed spec fn view(&self) -> Seq<u8> {
        self.storage@.subrange(self.offset as int, self.offset + self.size)
    }
}

/// `std::alloc::Layout::from_size_align(size, DEFAULT_ALIGNMENT)`, giving the
/// layout's size, or the text of the `LayoutError`.
/// Claims what std documents: the call succeeds exactly when `size`, rounded
/// up to a multiple of the alignment, is at most `isize::MAX`, and the
/// layout's size is `size`. The error text is left unsaid.
#[verifier::external_body]
fn sector_layout_size(size: usize) -> (r: Result<usize, String>)
    ensures
        r is Ok <==> round_up_to_sector(size as int) <= isize::MAX,
        r matches Ok(s) ==> s == size,
{
    match std::alloc::Layout::from_size_align(size, DEFAULT_ALIGNMENT) {
        Ok(layout) => Ok(layout.size()),
        Err(e) => Err(e.to_string()),
    }
}

impl AlignedBuffer {
    /// The internal well-formedness of a buffer.
    pub closed spec fn wf(&self) -> bool {
        &&& self.offset + self.size <= self.storage@.len()
        &&& self.storage@.len() <= usize::MAX
        &&& self.size % DEFAULT_ALIGNMENT == 0
        &&& (self.base_address + self.offset) % (DEFAULT_ALIGNMENT as int) == 0
    }

    /// The capacity of the buffer in bytes.
    pub closed spec fn spec_capacity(&self) -> nat {
        self.size as nat
    }

    /// The address (as recorded at creation) at which the usable bytes start.
    pub closed spec fn data_address(&self) -> int {
        self.base_address + self.offset
    }

    pub proof fn lemma_view_len(&self)
        requires
            self.wf(),
        ensures
            self@.len() == self.spec_capacity(),
            self.spec_capacity() % (DEFAULT_ALIGNMENT as nat) == 0,
            self.data_address() % (DEFAULT_ALIGNMENT as int) == 0,
    {
    }

    /// `self` is `old` with its usable window replaced by the bytes `w`.
    pub closed spec fn window_replaced(&self, old: &Self, w: Seq<u8>) -> bool {
        &&& self.offset == old.offset
        &&& self.size == old.size
        &&& self.base_address == old.base_address
        &&& self.storage@ =~= old.storage@.subrange(0, old.offset as int) + w
            + old.storage@.subrange(old.offset + old.size, old.storage@.len() as int)
    }

    /// Writing a window of the same length keeps a buffer well formed, keeps its
    /// capacity and address, and its contents become that window.
    pub proof fn lemma_window_replaced(&self, old: &Self, w: Seq<u8>)
        requires
            old.wf(),
            self.window_replaced(old, w),
            w.len() == old.spec_capacity(),
        ensures
            self.wf(),
            self@ == w,
            self.spec_capacity() == old.spec_capacity(),
            self.data_address() == old.data_address(),
    {
        assert(self@ =~= w);
    }

    /// Creates a zero-filled, sector-aligned buffer of at least `size` bytes.
    /// The capacity is `size` rounded up to the nearest multiple of
    /// `DEFAULT_ALIGNMENT`.
    pub fn new(size: usize) -> (r: Result<Self, String>)
        requires
            round_up_to_sector(size as int) <= usize::MAX,
        ensures
            round_up_to_sector(size as int) > isize::MAX ==> (r matches Err(msg)
                && msg@.len() >= 23 && msg@.subrange(0, 23) == "Invalid memory layout: "@),
            r matches Ok(b) ==> {
                &&& b.wf()
                &&& b.spec_capacity() == round_up_to_sector(size as int)
                &&& forall|i: int| 0 <= i < b@.len() ==> b@[i] == 0u8
            },
            round_up_to_sector(size as int) <= isize::MAX && r is Err ==> (r matches Err(msg)
                && msg@ == "Failed to allocate sector-aligned memory buffer"@),
    {
        let aligned_size = round_up_to_sector_exec(size);
        let layout_size = match sector_layout_size(aligned_size) {
            Ok(s) => s,
            Err(e) => {
                let msg = crate::text::concat_str("Invalid memory layout: ", e.as_str());
                proof {
                    reveal_strlit("Invalid memory layout: ");
                    assert(msg@.subrange(0, 23) =~= "Invalid memory layout: "@);
                    assert(msg@.len() >= 23);
                }
                return Err(msg);
            },
        };
        let total = layout_size + DEFAULT_ALIGNMENT;
        let mut storage: Vec<u8> = Vec::new();
        match storage.try_reserve(total) {
            Ok(()) => {},
            Err(_) => {
                return Err("Failed to allocate sector-aligned memory buffer".to_owned());
            },
        }
        storage.resize(total, 0u8);
        let base_address = storage_address(&storage);
        let rem = base_address % DEFAULT_ALIGNMENT;
        let offset = if rem == 0 {
            0
        } else {
            DEFAULT_ALIGNMENT - rem
        };
        let buf = AlignedBuffer { storage, offset, size: layout_size, base_address };
        assert(buf@ =~= buf.storage@.subrange(offset as int, offset + layout_size));
        Ok(buf)
    }

    /// Creates a buffer of `DEFAULT_BUFFER_SIZE` bytes (2 MiB), sector-aligned.
    pub fn with_default_capacity() -> (r: Result<Self, String>)
        ensures
            r matches Ok(b) ==> {
                &&& b.wf()
                &&& b.spec_capacity() == DEFAULT_BUFFER_SIZE
                &&& forall|i: int| 0 <= i < b@.len() ==> b@[i] == 0u8
            },
            r matches Err(msg) ==> msg@ == "Failed to allocate sector-aligned memory buffer"@,
    {
        Self::new(DEFAULT_BUFFER_SIZE)
    }

    /// The buffer's capacity in bytes.
    pub fn capacity(&self) -> (n: usize)
        requires
            self.wf(),
        ensures
            n == self.spec_capacity(),
            n == self@.len(),
    {
        self.size
    }

    /// The buffer's bytes.
    pub fn as_slice(&self) -> (s: &[u8])
        requires
            self.wf(),
        ensures
            s@ == self@,
    {
        let all = self.storage.as_slice();
        &all[self.offset..self.offset + self.size]
    }

    /// Sets the bytes at positions `from..to` to zero.
    pub fn fill_zero(&mut self, from: usize, to: usize)
        requires
            old(self).wf(),
            from <= to <= old(self)@.len(),
        ensures
            final(self).wf(),
            final(self).spec_capacity() == old(self).spec_capacity(),
            final(self).data_address() == old(self).data_address(),
            final(self)@ == old(self)@.subrange(0, from as int) + Seq::new(
                (to - from) as nat,
                |i: int| 0u8,
            ) + old(self)@.subrange(to as int, old(self)@.len() as int),
    {
        let ghost start = self@;
        let mut i = from;
        while i < to
            invariant
                self.wf(),
                self.offset == old(self).offset,
                self.size == old(self).size,
                self.base_address == old(self).base_address,
                self.storage@.len() == old(self).storage@.len(),
                from <= i <= to,
                to <= self.size,
                self@.len() == start.len(),
                forall|j: int| 0 <= j < from ==> self@[j] == start[j],
                forall|j: int| from <= j < i ==> self@[j] == 0u8,
                forall|j: int| i <= j < start.len() ==> self@[j] == start[j],
            decreases to - i,
        {
            let k = self.offset + i;
            let ghost prev = self@;
            self.storage.set(k, 0u8);
            assert(self@ =~= prev.update(i as int, 0u8));
            i = i + 1;
        }
        assert(self@ =~= start.subrange(0, from as int) + Seq::new((to - from) as nat, |i: int| 0u8)
            + start.subrange(to as int, start.len() as int));
    }

    /// The buffer's bytes, writable in place.
    pub fn as_mut_slice(&mut self) -> (s: &mut [u8])
        requires
            old(self).wf(),
        ensures
            s@ == old(self)@,
            final(self).window_replaced(&*old(self), final(s)@),
    {
        let off = self.offset;
        let size = self.size;
        let all = self.storage.as_mut_slice();
        let (front, rest) = all.split_at_mut(off);
        let (mid, tail) = rest.split_at_mut(size);
        mid
    }
}

} // verus!
