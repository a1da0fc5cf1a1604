//! Little-endian 256-bit values. Block hashes, filter hashes, filter
//! headers and proof-of-work targets are all 256-bit quantities that the
//! protocol interprets as little-endian integers; this module gives them
//! one representation with byte conversions and an ordering.
use vstd::prelude::*;

verus! {

/// A 256-bit value held as four little-endian 64-bit limbs: `w0` is the
/// least significant limb, holding the first eight bytes of the wire
/// encoding.
#[derive(Clone, Copy, Debug, PartialEq, Eq, Hash, Structural)]
pub struct U256 {
    pub w0: u64,
    pub w1: u64,
    pub w2: u64,
    pub w3: u64,
}

/// A block hash: the double-SHA-256 of an 80-byte header, read little-endian.
pub type BlockHash = U256;

/// A BIP 158 filter hash: the double-SHA-256 of the filter contents.
pub type FilterHash = U256;

/// A BIP 157 filter header, chaining a filter hash to its predecessor.
pub type FilterHeader = U256;

/// The numeric value of a [`U256`].
pub open spec fn u256_val(a: U256) -> nat {
    (a.w0 + a.w1 * 0x1_0000_0000_0000_0000
        + a.w2 * 0x1_0000_0000_0000_0000_0000_0000_0000_0000
        + a.w3 * 0x1_0000_0000_0000_0000_0000_0000_0000_0000_0000_0000_0000_0000) as nat
}

/// A 64-bit limb from eight little-endian bytes.
pub open spec fn le8(b0: u8, b1: u8, b2: u8, b3: u8, b4: u8, b5: u8, b6: u8, b7: u8) -> u64 {
    (b0 as u64) | (b1 as u64) << 8 | (b2 as u64) << 16 | (b3 as u64) << 24 | (b4 as u64) << 32
        | (b5 as u64) << 40 | (b6 as u64) << 48 | (b7 as u64) << 56
}

/// The [`U256`] whose wire encoding is the 32-byte sequence `s`.
pub open spec fn u256_of_bytes(s: Seq<u8>) -> U256
    recommends
        s.len() == 32,
{
    U256 {
        w0: le8(s[0], s[1], s[2], s[3], s[4], s[5], s[6], s[7]),
        w1: le8(s[8], s[9], s[10], s[11], s[12], s[13], s[14], s[15]),
        w2: le8(s[16], s[17], s[18], s[19], s[20], s[21], s[22], s[23]),
        w3: le8(s[24], s[25], s[26], s[27], s[28], s[29], s[30], s[31]),
    }
}

/// The eight little-endian bytes of one limb.
pub open spec fn limb_bytes(w: u64) -> Seq<u8> {
    Seq::new(8, |j: int| (w >> ((j * 8) as u64)) as u8)
}

/// The limb of `a` that byte `i` of the wire encoding falls in.
pub open spec fn u256_limb(a: U256, i: int) -> u64 {
    if i < 8 {
        a.w0
    } else if i < 16 {
        a.w1
    } else if i < 24 {
        a.w2
    } else {
        a.w3
    }
}

/// The 32-byte little-endian wire encoding of `a`.
pub open spec fn u256_bytes(a: U256) -> Seq<u8> {
    Seq::new(32, |i: int| (u256_limb(a, i) >> (((i % 8) * 8) as u64)) as u8)
}

/// The wire encoding of a value is its four limb encodings in order.
pub proof fn lemma_u256_bytes_concat(a: U256)
    ensures
        u256_bytes(a) =~= limb_bytes(a.w0) + limb_bytes(a.w1) + limb_bytes(a.w2) + limb_bytes(
            a.w3,
        ),
{
    let s = limb_bytes(a.w0) + limb_bytes(a.w1) + limb_bytes(a.w2) + limb_bytes(a.w3);
    assert forall|i: int| 0 <= i < 32 implies u256_bytes(a)[i] == s[i] by {
        if i < 8 {
            assert(s[i] == limb_bytes(a.w0)[i]);
        } else if i < 16 {
            assert(s[i] == limb_bytes(a.w1)[i - 8]);
        } else if i < 24 {
            assert(s[i] == limb_bytes(a.w2)[i - 16]);
        } else {
            assert(s[i] == limb_bytes(a.w3)[i - 24]);
        }
    }
}

/// Rebuilding a limb from its eight little-endian bytes gives the limb back.
proof fn lemma_le8_of_limb(w: u64)
    ensures
        le8(
            (w >> 0) as u8,
            (w >> 8) as u8,
            (w >> 16) as u8,
            (w >> 24) as u8,
            (w >> 32) as u8,
            (w >> 40) as u8,
            (w >> 48) as u8,
            (w >> 56) as u8,
        ) == w,
{
    assert((((w >> 0) as u8) as u64) | (((w >> 8) as u8) as u64) << 8 | (((w
        >> 16) as u8) as u64) << 16 | (((w >> 24) as u8) as u64) << 24 | (((w
        >> 32) as u8) as u64) << 32 | (((w >> 40) as u8) as u64) << 40 | (((w
        >> 48) as u8) as u64) << 48 | (((w >> 56) as u8) as u64) << 56 == w) by (bit_vector);
}

/// Parsing the wire encoding of `a` gives `a` back.
pub proof fn lemma_u256_bytes_roundtrip(a: U256)
    ensures
        u256_of_bytes(u256_bytes(a)) == a,
{
    lemma_le8_of_limb(a.w0);
    lemma_le8_of_limb(a.w1);
    lemma_le8_of_limb(a.w2);
    lemma_le8_of_limb(a.w3);
}

/// Each byte of a rebuilt limb is the byte it was built from.
proof fn lemma_limb_bytes_of_le8(b0: u8, b1: u8, b2: u8, b3: u8, b4: u8, b5: u8, b6: u8, b7: u8)
    ensures
        limb_bytes(le8(b0, b1, b2, b3, b4, b5, b6, b7)) =~= seq![b0, b1, b2, b3, b4, b5, b6, b7],
{
    assert(((b0 as u64) | (b1 as u64) << 8 | (b2 as u64) << 16 | (b3 as u64) << 24 | (b4 as u64)
        << 32 | (b5 as u64) << 40 | (b6 as u64) << 48 | (b7 as u64) << 56) >> 0 == ((b0 as u64) | (
    b1 as u64) << 8 | (b2 as u64) << 16 | (b3 as u64) << 24 | (b4 as u64) << 32 | (b5 as u64) << 40
        | (b6 as u64) << 48 | (b7 as u64) << 56)) by (bit_vector);
    assert({
        let w = (b0 as u64) | (b1 as u64) << 8 | (b2 as u64) << 16 | (b3 as u64) << 24 | (
        b4 as u64) << 32 | (b5 as u64) << 40 | (b6 as u64) << 48 | (b7 as u64) << 56;
        (w >> 0) as u8 == b0 && (w >> 8) as u8 == b1 && (w >> 16) as u8 == b2 && (w >> 24) as u8
            == b3 && (w >> 32) as u8 == b4 && (w >> 40) as u8 == b5 && (w >> 48) as u8 == b6 && (w
            >> 56) as u8 == b7
    }) by (bit_vector);
}

/// Encoding the value parsed from a 32-byte sequence gives the sequence back.
pub proof fn lemma_u256_of_bytes_roundtrip(s: Seq<u8>)
    requires
        s.len() == 32,
    ensures
        u256_bytes(u256_of_bytes(s)) =~= s,
{
    let a = u256_of_bytes(s);
    lemma_u256_bytes_concat(a);
    lemma_limb_bytes_of_le8(s[0], s[1], s[2], s[3], s[4], s[5], s[6], s[7]);
    lemma_limb_bytes_of_le8(s[8], s[9], s[10], s[11], s[12], s[13], s[14], s[15]);
    lemma_limb_bytes_of_le8(s[16], s[17], s[18], s[19], s[20], s[21], s[22], s[23]);
    lemma_limb_bytes_of_le8(s[24], s[25], s[26], s[27], s[28], s[29], s[30], s[31]);
}

impl U256 {
    /// The zero value.
    pub fn zero() -> (r: U256)
        ensures
            u256_val(r) == 0,
    {
        U256 { w0: 0, w1: 0, w2: 0, w3: 0 }
    }

    /// Reads a [`U256`] from 32 little-endian bytes starting at `off`.
    pub fn from_le_slice(v: &Vec<u8>, off: usize) -> (r: U256)
        requires
            off + 32 <= v@.len(),
        ensures
            r == u256_of_bytes(v@.subrange(off as int, off + 32)),
    {
        let n: usize = v.len();
        let w0 = read_u64_le(v, off);
        let w1 = read_u64_le(v, off + 8);
        let w2 = read_u64_le(v, off + 16);
        let w3 = read_u64_le(v, off + 24);
        let r = U256 { w0, w1, w2, w3 };
        proof {
            let s = v@.subrange(off as int, off + 32);
            assert(r == u256_of_bytes(s));
        }
        r
    }

    /// Appends the 32-byte little-endian encoding of `self` to `out`.
    pub fn write_le(&self, out: &mut Vec<u8>)
        ensures
            final(out)@ =~= old(out)@ + u256_bytes(*self),
    {
        write_u64_le(out, self.w0);
        write_u64_le(out, self.w1);
        write_u64_le(out, self.w2);
        write_u64_le(out, self.w3);
        proof {
            lemma_u256_bytes_concat(*self);
        }
    }

    /// Whether `self <= other` as 256-bit integers.
    pub fn le(&self, other: &U256) -> (r: bool)
        ensures
            r == (u256_val(*self) <= u256_val(*other)),
    {
        proof {
            lemma_u256_order(*self, *other);
        }
        if self.w3 != other.w3 {
            self.w3 < other.w3
        } else if self.w2 != other.w2 {
            self.w2 < other.w2
        } else if self.w1 != other.w1 {
            self.w1 < other.w1
        } else {
            self.w0 <= other.w0
        }
    }

    /// Whether `self < other` as 256-bit integers.
    pub fn lt(&self, other: &U256) -> (r: bool)
        ensures
            r == (u256_val(*self) < u256_val(*other)),
    {
        proof {
            lemma_u256_order(*self, *other);
        }
        if self.w3 != other.w3 {
            self.w3 < other.w3
        } else if self.w2 != other.w2 {
            self.w2 < other.w2
        } else if self.w1 != other.w1 {
            self.w1 < other.w1
        } else {
            self.w0 < other.w0
        }
    }
}

/// The limb-wise order of two values agrees with their numeric order.
pub proof fn lemma_u256_order(a: U256, b: U256)
    ensures
        (u256_val(a) <= u256_val(b)) == (if a.w3 != b.w3 {
            a.w3 < b.w3
        } else if a.w2 != b.w2 {
            a.w2 < b.w2
        } else if a.w1 != b.w1 {
            a.w1 < b.w1
        } else {
            a.w0 <= b.w0
        }),
        (u256_val(a) == u256_val(b)) == (a == b),
{
}

/// Reads a little-endian `u64` from `v` at `off`.
pub fn read_u64_le(v: &Vec<u8>, off: usize) -> (w: u64)
    requires
        off + 8 <= v@.len(),
    ensures
        w == le8(
            v@[off as int],
            v@[off + 1],
            v@[off + 2],
            v@[off + 3],
            v@[off + 4],
            v@[off + 5],
            v@[off + 6],
            v@[off + 7],
        ),
{
    let n: usize = v.len();
    (v[off] as u64) | (v[off + 1] as u64) << 8 | (v[off + 2] as u64) << 16 | (v[off + 3] as u64)
        << 24 | (v[off + 4] as u64) << 32 | (v[off + 5] as u64) << 40 | (v[off + 6] as u64) << 48
        | (v[off + 7] as u64) << 56
}

/// Appends the eight little-endian bytes of `w` to `out`.
pub fn write_u64_le(out: &mut Vec<u8>, w: u64)
    ensures
        final(out)@ =~= old(out)@ + limb_bytes(w),
{
    let mut j: usize = 0;
    while j < 8
        invariant
            j <= 8,
            out@ =~= old(out)@ + limb_bytes(w).take(j as int),
        decreases 8 - j,
    {
        out.push((w >> ((j * 8) as u64)) as u8);
        j = j + 1;
        proof {
            assert(limb_bytes(w).take(j as int) =~= limb_bytes(w).take(j - 1).push(
                limb_bytes(w)[j - 1],
            ));
        }
    }
    proof {
        assert(limb_bytes(w).take(8) =~= limb_bytes(w));
    }
}

} // verus!
