//! Streaming SHA-256 checksums with lowercase hexadecimal output.

use vstd::prelude::*;
use sha2::Digest;

verus! {

#[verifier::external_type_specification]
#[verifier::external_body]
pub struct ExSha256(sha2::Sha256);

/// The SHA-256 digest of a byte sequence.
pub uninterp spec fn sha256_digest(data: Seq<u8>) -> Seq<u8>;

/// A `sha2::Sha256` hasher together with a ghost record of the bytes it has
/// been given. The record is set only by the three methods below, each of
/// which makes the matching call on the hasher.
struct Sha256State {
    hasher: sha2::Sha256,
    absorbed: Ghost<Seq<u8>>,
}

impl Sha256State {
    /// The bytes given to this hasher since it was created, in order.
    closed spec fn absorbed(&self) -> Seq<u8> {
        self.absorbed@
    }

    /// `sha2::Sha256::new`: a fresh hasher, which has been given nothing.
    #[verifier::external_body]
    fn new() -> (s: Self)
        ensures
            s.absorbed() == Seq::<u8>::empty(),
    {
        Sha256State { hasher: sha2::Sha256::new(), absorbed: Ghost(Seq::empty()) }
    }

    /// `Digest::update` on the hasher; the record gains `data` at its end
    /// (the crate documents that `update` may be called repeatedly on a
    /// streamed message).
    #[verifier::external_body]
    fn update(&mut self, data: &[u8])
        ensures
            final(self).absorbed() == old(self).absorbed() + data@,
    {
        Digest::update(&mut self.hasher, data)
    }

    /// `Digest::finalize` on the hasher, copied into a `Vec`: claims the
    /// result is the SHA-256 digest of the recorded bytes, 32 bytes long (the
    /// hasher's output size `U32`).
    #[verifier::external_body]
    fn finalize(self) -> (out: Vec<u8>)
        ensures
            out@ == sha256_digest(self.absorbed()),
            out@.len() == 32,
    {
        self.hasher.finalize().as_slice().to_vec()
    }
}

/// The lowercase hexadecimal digit for a value below 16.
pub open spec fn hex_digit(v: int) -> char {
    if v < 10 {
        (('0' as int) + v) as char
    } else {
        (('a' as int) + (v - 10)) as char
    }
}

/// Lowercase hexadecimal text of a byte sequence: two digits per byte, high
/// nibble first.
pub open spec fn hex_lower(data: Seq<u8>) -> Seq<char>
    decreases data.len(),
{
    if data.len() == 0 {
        Seq::empty()
    } else {
        hex_lower(data.drop_last()) + seq![
            hex_digit(data.last() as int / 16),
            hex_digit(data.last() as int % 16),
        ]
    }
}

fn hex_digit_exec(v: u8) -> (c: char)
    requires
        v < 16,
    ensures
        c == hex_digit(v as int),
{
    let table: [char; 16] = [
        '0', '1', '2', '3', '4', '5', '6', '7', '8', '9', 'a', 'b', 'c', 'd', 'e', 'f',
    ];
    proof {
        assert(table@ =~= seq![
            hex_digit(0), hex_digit(1), hex_digit(2), hex_digit(3), hex_digit(4), hex_digit(5),
            hex_digit(6), hex_digit(7), hex_digit(8), hex_digit(9), hex_digit(10), hex_digit(11),
            hex_digit(12), hex_digit(13), hex_digit(14), hex_digit(15),
        ]);
    }
    table[v as usize]
}

pub proof fn lemma_hex_lower_len(data: Seq<u8>)
    ensures
        hex_lower(data).len() == 2 * data.len(),
    decreases data.len(),
{
    if data.len() > 0 {
        lemma_hex_lower_len(data.drop_last());
    }
}

/// Renders `data` as lowercase hexadecimal text.
pub fn to_hex_lower(data: &[u8]) -> (s: String)
    ensures
        s@ == hex_lower(data@),
{
    let mut out: Vec<char> = Vec::new();
    let n = data.len();
    for i in 0..n
        invariant
            n == data@.len(),
            out@ == hex_lower(data@.subrange(0, i as int)),
    {
        let b = data[i];
        let hi = hex_digit_exec(b / 16);
        let lo = hex_digit_exec(b % 16);
        out.push(hi);
        out.push(lo);
        proof {
            let pre = data@.subrange(0, i + 1);
            assert(pre.drop_last() =~= data@.subrange(0, i as int));
            assert(pre.last() == b);
        }
    }
    assert(data@.subrange(0, n as int) =~= data@);
    crate::text::string_from_chars(&out)
}

/// Incremental SHA-256 over a stream of chunks, counting the bytes absorbed.
pub struct StreamingHasher {
    hasher: Sha256State,
    bytes_processed: u64,
}

impl StreamingHasher {
    /// Everything this hasher has absorbed, in order.
    pub closed spec fn data(&self) -> Seq<u8> {
        self.hasher.absorbed()
    }

    /// The byte counter agrees with what was absorbed.
    pub closed spec fn wf(&self) -> bool {
        self.bytes_processed == self.hasher.absorbed().len()
    }

    /// A hasher that has absorbed nothing.
    pub fn new() -> (h: Self)
        ensures
            h.wf(),
            h.data() == Seq::<u8>::empty(),
    {
        StreamingHasher { hasher: Sha256State::new(), bytes_processed: 0 }
    }

    /// Absorbs `chunk` after everything absorbed so far.
    pub fn update(&mut self, chunk: &[u8])
        requires
            old(self).wf(),
            old(self).data().len() + chunk@.len() <= u64::MAX,
        ensures
            final(self).wf(),
            final(self).data() == old(self).data() + chunk@,
    {
        self.hasher.update(chunk);
        self.bytes_processed = self.bytes_processed + chunk.len() as u64;
    }

    /// The lowercase hexadecimal SHA-256 digest of everything absorbed
    /// (64 characters).
    pub fn finalize_hex(self) -> (s: String)
        ensures
            s@ == hex_lower(sha256_digest(self.data())),
            s@.len() == 64,
    {
        let digest = self.hasher.finalize();
        proof {
            lemma_hex_lower_len(digest@);
        }
        to_hex_lower(digest.as_slice())
    }

    /// How many bytes have been absorbed.
    pub fn bytes_processed(&self) -> (n: u64)
        requires
            self.wf(),
        ensures
            n == self.data().len(),
    {
        self.bytes_processed
    }
}

impl Default for StreamingHasher {
    fn default() -> (h: Self)
        ensures
            h.wf(),
            h.data() == Seq::<u8>::empty(),
    {
        Self::new()
    }
}

} // verus!
