use vstd::prelude::*;

verus! {

/// Size in bytes of the fixed header at the start of every pack.
pub const HEADER_SIZE: usize = 32;

/// Format version understood by this library.
pub const VERSION: u8 = 1;

/// The five magic bytes, `MPACK`, that open every pack.
pub const MAGIC: [u8; 5] = [0x4d, 0x50, 0x41, 0x43, 0x4b];

pub open spec fn magic_seq() -> Seq<u8> {
    seq![0x4du8, 0x50u8, 0x41u8, 0x43u8, 0x4bu8]
}

/// `n` little-endian bytes of `x` (the low `n` bytes).
pub open spec fn le_bytes(x: nat, n: nat) -> Seq<u8>
    decreases n,
{
    if n == 0 {
        Seq::empty()
    } else {
        seq![(x % 256) as u8] + le_bytes(x / 256, (n - 1) as nat)
    }
}

/// The number that a little-endian byte sequence denotes.
pub open spec fn le_value(s: Seq<u8>) -> nat
    decreases s.len(),
{
    if s.len() == 0 {
        0
    } else {
        s[0] as nat + 256 * le_value(s.drop_first())
    }
}

/// `256^n`.
pub open spec fn byte_bound(n: nat) -> nat
    decreases n,
{
    if n == 0 {
        1
    } else {
        256 * byte_bound((n - 1) as nat)
    }
}

/// The fixed-size header at the start of a pack.
#[derive(Debug, Clone, Copy, PartialEq, Eq, Structural)]
pub struct Header {
    /// Size in bytes of the index block at the end of the file.
    pub index_length: u64,
    /// Size in bytes of the metadata block just before the index block.
    pub metadata_length: u64,
    /// Number of media entries in the pack.
    pub total_files: u32,
}

/// Why a header could not be read.
#[derive(Debug, Clone, Copy, PartialEq, Eq, Structural)]
pub enum ReadError {
    /// The file does not start with the magic bytes.
    InvalidMagic,
    /// The version byte is not one this library reads.
    UnsupportedVersion,
    /// The input ends before the header (or a block it announces) does.
    Truncated,
}

/// The 32 bytes that encode `h`.
pub open spec fn header_bytes(h: Header) -> Seq<u8> {
    magic_seq() + seq![VERSION, 0u8, 0u8] + le_bytes(h.index_length as nat, 8) + le_bytes(
        h.metadata_length as nat,
        8,
    ) + le_bytes(h.total_files as nat, 4) + seq![0u8, 0u8, 0u8, 0u8]
}

/// What reading a header from `s` gives: checks run in the order magic, version, length.
pub open spec fn parse_header(s: Seq<u8>) -> Result<Header, ReadError> {
    if s.len() < 5 {
        Err(ReadError::Truncated)
    } else if s.subrange(0, 5) != magic_seq() {
        Err(ReadError::InvalidMagic)
    } else if s.len() < 6 {
        Err(ReadError::Truncated)
    } else if s[5] != VERSION {
        Err(ReadError::UnsupportedVersion)
    } else if s.len() < 28 {
        Err(ReadError::Truncated)
    } else {
        Ok(
            Header {
                index_length: le_value(s.subrange(8, 16)) as u64,
                metadata_length: le_value(s.subrange(16, 24)) as u64,
                total_files: le_value(s.subrange(24, 28)) as u32,
            },
        )
    }
}

proof fn lemma_le_bytes_len(x: nat, n: nat)
    ensures
        le_bytes(x, n).len() == n,
    decreases n,
{
    if n > 0 {
        lemma_le_bytes_len(x / 256, (n - 1) as nat);
    }
}

proof fn lemma_le_value_bound(s: Seq<u8>)
    ensures
        le_value(s) < byte_bound(s.len()),
    decreases s.len(),
{
    if s.len() > 0 {
        lemma_le_value_bound(s.drop_first());
        let a = s[0] as nat;
        let b = le_value(s.drop_first());
        let c = byte_bound(s.drop_first().len());
        assert(a + 256 * b < 256 * c) by (nonlinear_arith)
            requires
                a < 256,
                b < c,
        ;
    }
}

proof fn lemma_le_round_trip(x: nat, n: nat)
    requires
        x < byte_bound(n),
    ensures
        le_value(le_bytes(x, n)) == x,
    decreases n,
{
    if n > 0 {
        let b = byte_bound((n - 1) as nat);
        assert(x / 256 < b) by (nonlinear_arith)
            requires
                x < 256 * b,
        ;
        lemma_le_round_trip(x / 256, (n - 1) as nat);
        let s = le_bytes(x, n);
        assert(s.drop_first() =~= le_bytes(x / 256, (n - 1) as nat));
        assert(x == x % 256 + 256 * (x / 256)) by (nonlinear_arith);
    }
}

proof fn lemma_bounds()
    ensures
        byte_bound(4) == 0x1_0000_0000,
        byte_bound(8) == 0x1_0000_0000_0000_0000,
{
    reveal_with_fuel(byte_bound, 9);
}

/// Reading the bytes that a header writes gives the header back.
pub proof fn lemma_header_round_trip(h: Header)
    ensures
        parse_header(header_bytes(h)) == Ok::<Header, ReadError>(h),
{
    let s = header_bytes(h);
    lemma_le_bytes_len(h.index_length as nat, 8);
    lemma_le_bytes_len(h.metadata_length as nat, 8);
    lemma_le_bytes_len(h.total_files as nat, 4);
    lemma_bounds();
    lemma_le_round_trip(h.index_length as nat, 8);
    lemma_le_round_trip(h.metadata_length as nat, 8);
    lemma_le_round_trip(h.total_files as nat, 4);
    assert(s.len() == 32);
    assert(s.subrange(0, 5) =~= magic_seq());
    assert(s.subrange(8, 16) =~= le_bytes(h.index_length as nat, 8));
    assert(s.subrange(16, 24) =~= le_bytes(h.metadata_length as nat, 8));
    assert(s.subrange(24, 28) =~= le_bytes(h.total_files as nat, 4));
}

/// Appends the `n` low bytes of `x`, least significant first.
fn push_le(buf: &mut Vec<u8>, x: u64, n: usize)
    ensures
        final(buf)@ == old(buf)@ + le_bytes(x as nat, n as nat),
    decreases n,
{
    if n > 0 {
        let ghost before = buf@;
        buf.push((x % 256) as u8);
        push_le(buf, x / 256, n - 1);
        assert(final(buf)@ =~= before + le_bytes(x as nat, n as nat));
    }
}

/// The number that bytes `start .. start + n` of `b` denote, least significant first.
fn read_le(b: &[u8], start: usize, n: usize) -> (r: u64)
    requires
        n <= 8,
        start + n <= b@.len(),
    ensures
        r as nat == le_value(b@.subrange(start as int, start + n)),
    decreases n,
{
    proof {
        lemma_le_value_bound(b@.subrange(start as int, start + n));
        lemma_bounds();
        assert(byte_bound(n as nat) <= byte_bound(8)) by {
            lemma_byte_bound_mono(n as nat, 8);
        }
    }
    if n == 0 {
        0
    } else {
        let len = b.len();
        assert(start < len);
        let rest = read_le(b, start + 1, n - 1);
        let ghost s = b@.subrange(start as int, start + n);
        assert(s.drop_first() =~= b@.subrange(start + 1, start + n));
        let lo = b[start] as u64;
        assert(lo + 256 * rest == le_value(s));
        lo + 256 * rest
    }
}

proof fn lemma_byte_bound_mono(a: nat, b: nat)
    requires
        a <= b,
    ensures
        byte_bound(a) <= byte_bound(b),
    decreases b,
{
    if a < b {
        lemma_byte_bound_mono(a, (b - 1) as nat);
    }
}

impl Header {
    /// The 32 header bytes of this header: magic, version, two reserved bytes, the
    /// index and metadata lengths, the file count, four reserved bytes.
    pub fn write_to(&self) -> (r: Vec<u8>)
        ensures
            r@ == header_bytes(*self),
    {
        let mut buf: Vec<u8> = Vec::new();
        let mut i: usize = 0;
        while i < 5
            invariant
                i <= 5,
                buf@ == magic_seq().subrange(0, i as int),
            decreases 5 - i,
        {
            buf.push(MAGIC[i]);
            i = i + 1;
            assert(buf@ =~= magic_seq().subrange(0, i as int));
        }
        assert(magic_seq().subrange(0, 5) =~= magic_seq());
        buf.push(VERSION);
        buf.push(0);
        buf.push(0);
        push_le(&mut buf, self.index_length, 8);
        push_le(&mut buf, self.metadata_length, 8);
        push_le(&mut buf, self.total_files as u64, 4);
        buf.push(0);
        buf.push(0);
        buf.push(0);
        buf.push(0);
        assert(buf@ =~= header_bytes(*self));
        buf
    }

    /// Reads a header from the first bytes of a pack.
    pub fn read_from(b: &[u8]) -> (r: Result<Header, ReadError>)
        ensures
            r == parse_header(b@),
    {
        if b.len() < 5 {
            return Err(ReadError::Truncated);
        }
        let mut i: usize = 0;
        while i < 5
            invariant
                i <= 5,
                5 <= b@.len(),
                forall|j: int| 0 <= j < i ==> b@[j] == magic_seq()[j],
            decreases 5 - i,
        {
            if b[i] != MAGIC[i] {
                assert(b@.subrange(0, 5)[i as int] != magic_seq()[i as int]);
                return Err(ReadError::InvalidMagic);
            }
            i = i + 1;
        }
        assert(b@.subrange(0, 5) =~= magic_seq());
        if b.len() < 6 {
            return Err(ReadError::Truncated);
        }
        if b[5] != VERSION {
            return Err(ReadError::UnsupportedVersion);
        }
        if b.len() < 28 {
            return Err(ReadError::Truncated);
        }
        let index_length = read_le(b, 8, 8);
        let metadata_length = read_le(b, 16, 8);
        let total = read_le(b, 24, 4);
        proof {
            lemma_le_value_bound(b@.subrange(24, 28));
            lemma_bounds();
        }
        Ok(Header { index_length, metadata_length, total_files: total as u32 })
    }

    /// Size of the trailer (metadata block and index block together), or `None` where
    /// it does not fit in a `u64`.
    pub fn index_offset(&self) -> (r: Option<u64>)
        ensures
            r is Some <==> self.index_length + self.metadata_length <= u64::MAX,
            r is Some ==> r->0 == self.index_length + self.metadata_length,
    {
        self.index_length.checked_add(self.metadata_length)
    }
}

} // verus!
