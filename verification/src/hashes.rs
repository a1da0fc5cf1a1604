//! Double SHA-256 and the byte layouts built on it: block headers, block
//! hashes, filter hashes and the BIP 157 filter header chain.
use vstd::prelude::*;

use crate::pow::{target_of_bits, target_from_bits};
use crate::types::{u256_bytes, u256_of_bytes, u256_val, BlockHash, FilterHash, FilterHeader, U256};

verus! {

/// The 32-byte double SHA-256 digest of a byte sequence.
pub uninterp spec fn sha256d_of(data: Seq<u8>) -> Seq<u8>;

/// Relies on `bitcoin::hashes::sha256d::Hash::hash`: the 32-byte double
/// SHA-256 digest, a function of the input bytes alone.
#[verifier::external_body]
pub fn sha256d(data: &Vec<u8>) -> (r: Vec<u8>)
    ensures
        r@ == sha256d_of(data@),
        r@.len() == 32,
{
    let digest = <bitcoin::hashes::sha256d::Hash as bitcoin::hashes::Hash>::hash(data.as_slice());
    <bitcoin::hashes::sha256d::Hash as bitcoin::hashes::Hash>::to_byte_array(digest).to_vec()
}

/// The four little-endian bytes of a 32-bit word.
pub open spec fn u32_bytes(w: u32) -> Seq<u8> {
    Seq::new(4, |j: int| (w >> ((j * 8) as u32)) as u8)
}

/// Appends the four little-endian bytes of `w` to `out`.
pub fn write_u32_le(out: &mut Vec<u8>, w: u32)
    ensures
        final(out)@ =~= old(out)@ + u32_bytes(w),
{
    let mut j: usize = 0;
    while j < 4
        invariant
            j <= 4,
            out@ =~= old(out)@ + u32_bytes(w).take(j as int),
        decreases 4 - j,
    {
        out.push((w >> ((j * 8) as u32)) as u8);
        j = j + 1;
        proof {
            assert(u32_bytes(w).take(j as int) =~= u32_bytes(w).take(j - 1).push(
                u32_bytes(w)[j - 1],
            ));
        }
    }
    proof {
        assert(u32_bytes(w).take(4) =~= u32_bytes(w));
    }
}

/// A block header as it appears on the wire, eighty bytes.
#[derive(Clone, Copy, Debug, PartialEq, Eq, Structural)]
pub struct Header {
    /// The block version, as a signed word.
    pub version: i32,
    /// The hash of the preceding block's header.
    pub prev_blockhash: BlockHash,
    /// The root of the transaction merkle tree.
    pub merkle_root: U256,
    /// The block timestamp.
    pub time: u32,
    /// The compact encoding of the block's target.
    pub bits: u32,
    /// The miner's nonce.
    pub nonce: u32,
}

/// The eighty-byte wire encoding of a header.
pub open spec fn header_bytes(h: Header) -> Seq<u8> {
    u32_bytes(h.version as u32) + u256_bytes(h.prev_blockhash) + u256_bytes(h.merkle_root)
        + u32_bytes(h.time) + u32_bytes(h.bits) + u32_bytes(h.nonce)
}

/// The hash of a header: the double SHA-256 of its wire encoding.
pub open spec fn block_hash_of(h: Header) -> BlockHash {
    u256_of_bytes(sha256d_of(header_bytes(h)))
}

/// Whether a header meets its own target.
pub open spec fn pow_valid(h: Header) -> bool {
    u256_val(block_hash_of(h)) <= target_of_bits(h.bits)
}

impl Header {
    /// Serializes the header into its eighty-byte wire encoding.
    pub fn serialize(&self) -> (out: Vec<u8>)
        ensures
            out@ =~= header_bytes(*self),
            out@.len() == 80,
    {
        let mut out: Vec<u8> = Vec::new();
        write_u32_le(&mut out, self.version as u32);
        self.prev_blockhash.write_le(&mut out);
        self.merkle_root.write_le(&mut out);
        write_u32_le(&mut out, self.time);
        write_u32_le(&mut out, self.bits);
        write_u32_le(&mut out, self.nonce);
        out
    }

    /// Computes the header's block hash.
    pub fn block_hash(&self) -> (r: BlockHash)
        ensures
            r == block_hash_of(*self),
    {
        let encoded = self.serialize();
        let digest = sha256d(&encoded);
        let r = U256::from_le_slice(&digest, 0);
        proof {
            assert(digest@.subrange(0, 32) =~= digest@);
        }
        r
    }

    /// Checks the header's proof of work against its own target.
    pub fn check_pow(&self) -> (r: bool)
        ensures
            r == pow_valid(*self),
    {
        let hash = self.block_hash();
        let target = target_from_bits(self.bits);
        hash.le(&target)
    }
}

/// The filter header committing to `filter_hash` on top of `prev`: the
/// double SHA-256 of the filter hash followed by the previous filter
/// header.
pub open spec fn filter_header_of(filter_hash: FilterHash, prev: FilterHeader) -> FilterHeader {
    u256_of_bytes(sha256d_of(u256_bytes(filter_hash) + u256_bytes(prev)))
}

/// Computes the next filter header in the chain.
pub fn next_filter_header(filter_hash: &FilterHash, prev: &FilterHeader) -> (r: FilterHeader)
    ensures
        r == filter_header_of(*filter_hash, *prev),
{
    let mut buf: Vec<u8> = Vec::new();
    filter_hash.write_le(&mut buf);
    prev.write_le(&mut buf);
    let digest = sha256d(&buf);
    let r = U256::from_le_slice(&digest, 0);
    proof {
        assert(digest@.subrange(0, 32) =~= digest@);
    }
    r
}

/// The hash of a serialized filter: its double SHA-256, as a 256-bit value.
pub open spec fn filter_hash_of(contents: Seq<u8>) -> FilterHash {
    u256_of_bytes(sha256d_of(contents))
}

/// Computes the hash of a filter's contents.
pub fn hash_filter(contents: &Vec<u8>) -> (r: FilterHash)
    ensures
        r == filter_hash_of(contents@),
{
    let digest = sha256d(contents);
    let r = U256::from_le_slice(&digest, 0);
    proof {
        assert(digest@.subrange(0, 32) =~= digest@);
    }
    r
}

} // verus!
