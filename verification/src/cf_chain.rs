//! The compact filter side of synchronization: filter headers chained
//! from the anchor and audited across several peers before they are
//! committed, then each filter checked against its committed hash and
//! matched against the watched scripts.
use vstd::prelude::*;

use crate::hashes::{filter_hash_of, filter_header_of};
use crate::messages::CFHeadersMsg;
use crate::types::{u256_bytes, BlockHash, FilterHash, FilterHeader, U256};

verus! {

/// What a filter headers message did.
#[derive(Clone, Copy, Debug, PartialEq, Eq, Structural)]
pub enum CFHeaderChanges {
    /// Recorded; more peers must corroborate before the chain advances.
    AddedToQueue,
    /// Enough peers agreed: the filter hashes are committed.
    Extended,
    /// Peers disagree about the filter headers.
    Conflict,
}

/// Why a filter headers message was rejected.
#[derive(Clone, Copy, Debug, PartialEq, Eq, Structural)]
pub enum CFHeaderSyncError {
    /// The message carried no filter hashes.
    EmptyMessage,
    /// The message does not chain from the committed filter header.
    PrevHeaderMismatch,
}

/// Why a filter was rejected.
#[derive(Clone, Copy, Debug, PartialEq, Eq, Structural)]
pub enum CFilterSyncError {
    /// The filter is for a height the node did not expect next.
    UnexpectedFilterHeight,
    /// The filter bytes do not hash to the committed filter hash.
    FilterHashMismatch,
    /// The filter bytes cannot be decoded; worth a disconnect, not a ban.
    Filter,
}

/// What checking one filter produced.
#[derive(Clone, Copy, Debug, PartialEq, Eq, Structural)]
pub struct FilterCheck {
    /// The block to download, when a watched script may be in it.
    pub needs_request: Option<BlockHash>,
    /// Whether this filter closed the current request batch.
    pub was_last_in_batch: bool,
}

/// One peer's claim about the filter header chain.
#[derive(Clone, Copy, Debug, PartialEq, Eq, Structural)]
pub struct Attestation {
    /// The claiming peer.
    pub peer: u64,
    /// The filter header tip its hashes chain to.
    pub tip: FilterHeader,
}

/// The filter header reached by chaining `hashes` on top of `prev`.
pub open spec fn fold_headers(prev: FilterHeader, hashes: Seq<FilterHash>) -> FilterHeader
    decreases hashes.len(),
{
    if hashes.len() == 0 {
        prev
    } else {
        filter_header_of(hashes.last(), fold_headers(prev, hashes.drop_last()))
    }
}

/// How many attestations in `q` claim `tip`.
pub open spec fn count_claims(q: Seq<Attestation>, tip: FilterHeader) -> int
    decreases q.len(),
{
    if q.len() == 0 {
        0int
    } else {
        count_claims(q.drop_last(), tip) + if q.last().tip == tip {
            1int
        } else {
            0int
        }
    }
}

/// The audit queue after one peer's claim arrives: any earlier claim of
/// that peer leaves, and the new claim joins at the end.
pub open spec fn insert_claim(q: Seq<Attestation>, peer: u64, tip: FilterHeader) -> Seq<
    Attestation,
> {
    q.filter(|a: Attestation| a.peer != peer).push(Attestation { peer, tip })
}

/// Whether every attestation in `q` claims `tip`.
pub open spec fn all_claim(q: Seq<Attestation>, tip: FilterHeader) -> bool {
    forall|i: int| 0 <= i < q.len() ==> (#[trigger] q[i]).tip == tip
}

/// The scaling factor of the BIP 158 basic filter: each element maps
/// into `[0, count * M)`.
pub const FILTER_M: u64 = 784931;

/// The element count a filter's leading compact-size prefix decodes to,
/// with every malformed prefix — truncated, or not minimally encoded —
/// reading as zero, exactly as the reference reader falls back to zero.
pub open spec fn filter_element_count(s: Seq<u8>) -> nat {
    if s.len() == 0 {
        0
    } else {
        let b0 = s[0];
        if b0 < 0xFD {
            b0 as nat
        } else if b0 == 0xFD {
            if s.len() >= 3 {
                let v = s[1] + s[2] * 0x100;
                if v < 0xFD {
                    0
                } else {
                    v as nat
                }
            } else {
                0
            }
        } else if b0 == 0xFE {
            if s.len() >= 5 {
                let v = s[1] + s[2] * 0x100 + s[3] * 0x1_0000 + s[4] * 0x100_0000;
                if v < 0x1_0000 {
                    0
                } else {
                    v as nat
                }
            } else {
                0
            }
        } else {
            if s.len() >= 9 {
                let v = s[1] + s[2] * 0x100 + s[3] * 0x1_0000 + s[4] * 0x100_0000 + s[5]
                    * 0x1_0000_0000 + s[6] * 0x100_0000_0000 + s[7] * 0x1_0000_0000_0000 + s[8]
                    * 0x100_0000_0000_0000;
                if v < 0x1_0000_0000 {
                    0
                } else {
                    v as nat
                }
            } else {
                0
            }
        }
    }
}

/// Decodes the filter's leading element-count prefix, malformed as zero.
fn element_count(filter: &Vec<u8>) -> (n: u64)
    ensures
        n == filter_element_count(filter@),
{
    if filter.len() == 0 {
        return 0;
    }
    let b0 = filter[0];
    if b0 < 0xFD {
        b0 as u64
    } else if b0 == 0xFD {
        if filter.len() >= 3 {
            let v: u64 = filter[1] as u64 + filter[2] as u64 * 0x100;
            if v < 0xFD {
                0
            } else {
                v
            }
        } else {
            0
        }
    } else if b0 == 0xFE {
        if filter.len() >= 5 {
            let v: u64 = filter[1] as u64 + filter[2] as u64 * 0x100 + filter[3] as u64 * 0x1_0000
                + filter[4] as u64 * 0x100_0000;
            if v < 0x1_0000 {
                0
            } else {
                v
            }
        } else {
            0
        }
    } else {
        if filter.len() >= 9 {
            let v: u64 = filter[1] as u64 + filter[2] as u64 * 0x100 + filter[3] as u64 * 0x1_0000
                + filter[4] as u64 * 0x100_0000 + filter[5] as u64 * 0x1_0000_0000
                + filter[6] as u64 * 0x100_0000_0000 + filter[7] as u64 * 0x1_0000_0000_0000
                + filter[8] as u64 * 0x100_0000_0000_0000;
            if v < 0x1_0000_0000 {
                0
            } else {
                v
            }
        } else {
            0
        }
    }
}

/// The result of a BIP 158 filter query: whether any of the scripts may
/// be in the block, or nothing when the compressed data cannot be
/// decoded.
pub uninterp spec fn bip158_match_of(filter: Seq<u8>, block_hash: Seq<u8>, scripts: Seq<Seq<u8>>) -> Option<bool>;

/// Relies on `bitcoin::bip158::BlockFilter::match_any`: a Golomb-Rice
/// coded set query, a function of the filter bytes, the block hash and
/// the queried scripts alone. A malformed element-count prefix reads as
/// zero elements and reports `Some(false)`; a failure while decoding the
/// compressed data reports `None`. The reader multiplies the decoded
/// element count by the scaling factor unchecked, so the count is
/// bounded here before the call.
#[verifier::external_body]
fn bip158_match(filter: &Vec<u8>, block_hash: &U256, scripts: &Vec<Vec<u8>>) -> (r: Option<bool>)
    requires
        filter_element_count(filter@) * FILTER_M <= u64::MAX,
    ensures
        r == bip158_match_of(
            filter@,
            u256_bytes(*block_hash),
            scripts@.map_values(|s: Vec<u8>| s@),
        ),
{
    let mut key = [0u8; 32];
    key[0..8].copy_from_slice(&block_hash.w0.to_le_bytes());
    key[8..16].copy_from_slice(&block_hash.w1.to_le_bytes());
    key[16..24].copy_from_slice(&block_hash.w2.to_le_bytes());
    key[24..32].copy_from_slice(&block_hash.w3.to_le_bytes());
    let bh = <bitcoin::BlockHash as bitcoin::hashes::Hash>::from_byte_array(key);
    let f = bitcoin::bip158::BlockFilter::new(filter.as_slice());
    match f.match_any(&bh, scripts.iter().map(|s| s.as_slice())) {
        Ok(b) => Some(b),
        Err(_) => None,
    }
}

/// The filter header chain and its audit state.
pub struct FilterChain {
    anchor_height: u32,
    tip_header: FilterHeader,
    filter_hashes: Vec<FilterHash>,
    queue: Vec<Attestation>,
    required: usize,
    checked_to: usize,
}

impl FilterChain {
    /// The height the filter chain roots at.
    pub closed spec fn spec_anchor_height(&self) -> u32 {
        self.anchor_height
    }

    /// The committed filter header tip.
    pub closed spec fn spec_tip_header(&self) -> FilterHeader {
        self.tip_header
    }

    /// The committed filter hashes, by ascending height.
    pub closed spec fn spec_hashes(&self) -> Seq<FilterHash> {
        self.filter_hashes@
    }

    /// The attestations waiting for corroboration.
    pub closed spec fn spec_queue(&self) -> Seq<Attestation> {
        self.queue@
    }

    /// How many peers must agree before the chain advances.
    pub closed spec fn spec_required(&self) -> int {
        self.required as int
    }

    /// How many committed filters have been fetched and checked.
    pub closed spec fn spec_checked_to(&self) -> int {
        self.checked_to as int
    }

    /// The standing invariant: filter progress never outruns the
    /// committed hashes.
    pub open spec fn wf(&self) -> bool {
        &&& self.spec_checked_to() <= self.spec_hashes().len()
        &&& self.spec_anchor_height() + self.spec_hashes().len() <= u32::MAX
    }

    /// A filter chain rooted at `anchor_height`, requiring `required`
    /// agreeing peers; the committed tip starts as the all-zero header.
    pub fn new(anchor_height: u32, required: usize) -> (c: FilterChain)
        ensures
            c.wf(),
            c.spec_anchor_height() == anchor_height,
            c.spec_tip_header() == (U256 { w0: 0, w1: 0, w2: 0, w3: 0 }),
            c.spec_hashes() =~= Seq::<FilterHash>::empty(),
            c.spec_queue() =~= Seq::<Attestation>::empty(),
            c.spec_required() == required,
            c.spec_checked_to() == 0,
    {
        FilterChain {
            anchor_height,
            tip_header: U256 { w0: 0, w1: 0, w2: 0, w3: 0 },
            filter_hashes: Vec::new(),
            queue: Vec::new(),
            required,
            checked_to: 0,
        }
    }

    /// The height of the last committed filter hash.
    pub fn height(&self) -> (h: u32)
        requires
            self.wf(),
        ensures
            h == self.spec_anchor_height() + self.spec_hashes().len(),
    {
        self.anchor_height + self.filter_hashes.len() as u32
    }

    /// Whether the filter header chain has reached `chain_height`.
    pub fn is_cf_headers_synced(&self, chain_height: u32) -> (r: bool)
        requires
            self.wf(),
        ensures
            r == (self.spec_anchor_height() + self.spec_hashes().len() >= chain_height),
    {
        self.height() >= chain_height
    }

    /// Whether every committed filter has been fetched and checked.
    pub fn is_filters_synced(&self) -> (r: bool)
        requires
            self.wf(),
        ensures
            r == (self.spec_checked_to() == self.spec_hashes().len()),
    {
        self.checked_to == self.filter_hashes.len()
    }

    /// The height of the next filter the node needs.
    pub fn next_filter_height(&self) -> (h: u32)
        requires
            self.wf(),
            self.spec_checked_to() < self.spec_hashes().len(),
        ensures
            h == self.spec_anchor_height() + self.spec_checked_to() + 1,
            h <= self.spec_anchor_height() + self.spec_hashes().len(),
    {
        self.anchor_height + self.checked_to as u32 + 1
    }

    /// The height the next filter header request should start at.
    pub fn next_cf_header_height(&self) -> (h: u32)
        requires
            self.wf(),
            self.spec_anchor_height() + self.spec_hashes().len() < u32::MAX,
        ensures
            h == self.spec_anchor_height() + self.spec_hashes().len() + 1,
    {
        self.anchor_height + self.filter_hashes.len() as u32 + 1
    }

    /// Records one peer's filter headers message. The hashes must chain
    /// from the committed tip; the peer's claimed tip joins the audit
    /// queue, replacing its earlier claim. The chain advances only once
    /// at least the required number of peers claim the identical tip, and
    /// any disagreement among queued claims is a conflict.
    pub fn sync_cf_headers(&mut self, peer: u64, msg: &CFHeadersMsg) -> (r: Result<
        CFHeaderChanges,
        CFHeaderSyncError,
    >)
        requires
            old(self).wf(),
            old(self).spec_anchor_height() + old(self).spec_hashes().len() + msg.filter_hashes@.len()
                <= u32::MAX,
        ensures
            final(self).wf(),
            final(self).spec_anchor_height() == old(self).spec_anchor_height(),
            final(self).spec_required() == old(self).spec_required(),
            final(self).spec_checked_to() == old(self).spec_checked_to(),
            (r == Err::<CFHeaderChanges, CFHeaderSyncError>(CFHeaderSyncError::EmptyMessage))
                <==> msg.filter_hashes@.len() == 0,
            msg.filter_hashes@.len() > 0 ==> ((r == Err::<CFHeaderChanges, CFHeaderSyncError>(
                CFHeaderSyncError::PrevHeaderMismatch,
            )) <==> msg.previous_filter_header != old(self).spec_tip_header()),
            r is Err ==> final(self).spec_hashes() == old(self).spec_hashes() && final(self).spec_tip_header() == old(self).spec_tip_header() && final(self).spec_queue() == old(self).spec_queue(),
            r is Err ==> (r == Err::<CFHeaderChanges, CFHeaderSyncError>(
                CFHeaderSyncError::EmptyMessage,
            ) || r == Err::<CFHeaderChanges, CFHeaderSyncError>(
                CFHeaderSyncError::PrevHeaderMismatch,
            )),
            r is Ok ==> {
                let tip = fold_headers(old(self).spec_tip_header(), msg.filter_hashes@);
                let q2 = insert_claim(old(self).spec_queue(), peer, tip);
                &&& (r == Ok::<CFHeaderChanges, CFHeaderSyncError>(CFHeaderChanges::Conflict)
                    <==> !all_claim(q2, tip))
                &&& r == Ok::<CFHeaderChanges, CFHeaderSyncError>(CFHeaderChanges::Conflict) ==> (
                final(self).spec_hashes() == old(self).spec_hashes() && final(self).spec_tip_header()
                    == old(self).spec_tip_header() && final(self).spec_queue() == old(self).spec_queue())
                &&& r == Ok::<CFHeaderChanges, CFHeaderSyncError>(CFHeaderChanges::Extended) ==> (
                count_claims(q2, tip) >= old(self).spec_required() && final(self).spec_hashes()
                    == old(self).spec_hashes() + msg.filter_hashes@ && final(self).spec_tip_header()
                    == tip && final(self).spec_queue() =~= Seq::<Attestation>::empty())
                &&& r == Ok::<CFHeaderChanges, CFHeaderSyncError>(CFHeaderChanges::AddedToQueue)
                    ==> (all_claim(q2, tip) && count_claims(q2, tip) < old(self).spec_required()
                    && final(self).spec_hashes() == old(self).spec_hashes() && final(self).spec_tip_header() == old(self).spec_tip_header() && final(self).spec_queue()
                    == q2)
                &&& (r == Ok::<CFHeaderChanges, CFHeaderSyncError>(CFHeaderChanges::AddedToQueue)
                    || r == Ok::<CFHeaderChanges, CFHeaderSyncError>(CFHeaderChanges::Extended) || r
                    == Ok::<CFHeaderChanges, CFHeaderSyncError>(CFHeaderChanges::Conflict))
            },
    {
        if msg.filter_hashes.is_empty() {
            return Err(CFHeaderSyncError::EmptyMessage);
        }
        if msg.previous_filter_header != self.tip_header {
            return Err(CFHeaderSyncError::PrevHeaderMismatch);
        }
        // chain the claimed hashes from the committed tip
        let n = msg.filter_hashes.len();
        let mut tip = self.tip_header;
        let mut i: usize = 0;
        proof {
            assert(msg.filter_hashes@.take(0) =~= Seq::<FilterHash>::empty());
        }
        while i < n
            invariant
                i <= n,
                n == msg.filter_hashes@.len(),
                tip == fold_headers(self.spec_tip_header(), msg.filter_hashes@.take(i as int)),
            decreases n - i,
        {
            tip = crate::hashes::next_filter_header(&msg.filter_hashes[i], &tip);
            proof {
                assert(msg.filter_hashes@.take(i + 1).drop_last() =~= msg.filter_hashes@.take(
                    i as int,
                ));
                assert(msg.filter_hashes@.take(i + 1).last() == msg.filter_hashes@[i as int]);
            }
            i = i + 1;
        }
        proof {
            assert(msg.filter_hashes@.take(n as int) =~= msg.filter_hashes@);
        }
        // replace this peer's earlier claim
        let qn = self.queue.len();
        let mut q2: Vec<Attestation> = Vec::new();
        let mut j: usize = 0;
        proof {
            assert(self.spec_queue().take(0).filter(|a: Attestation| a.peer != peer) =~= Seq::<
                Attestation,
            >::empty());
        }
        while j < qn
            invariant
                j <= qn,
                qn == self.spec_queue().len(),
                q2@ =~= self.spec_queue().take(j as int).filter(|a: Attestation| a.peer != peer),
            decreases qn - j,
        {
            proof {
                reveal(Seq::filter);
                assert(self.spec_queue().take(j + 1).drop_last() =~= self.spec_queue().take(
                    j as int,
                ));
                assert(self.spec_queue().take(j + 1).last() == self.spec_queue()[j as int]);
            }
            if self.queue[j].peer != peer {
                q2.push(self.queue[j]);
            }
            j = j + 1;
        }
        proof {
            assert(self.spec_queue().take(qn as int) =~= self.spec_queue());
        }
        q2.push(Attestation { peer, tip });
        // any disagreement is a conflict
        let m = q2.len();
        let mut k: usize = 0;
        let mut agree: usize = 0;
        while k < m
            invariant
                k <= m,
                m == q2@.len(),
                agree == count_claims(q2@.take(k as int), tip),
                agree <= k,
                (forall|x: int| 0 <= x < k ==> (#[trigger] q2@[x]).tip == tip) <==> agree == k,
            decreases m - k,
        {
            proof {
                assert(q2@.take(k + 1).drop_last() =~= q2@.take(k as int));
                assert(q2@.take(k + 1).last() == q2@[k as int]);
            }
            if q2[k].tip == tip {
                agree = agree + 1;
            }
            k = k + 1;
        }
        proof {
            assert(q2@.take(m as int) =~= q2@);
        }
        if agree < m {
            proof {
                assert(!all_claim(q2@, tip));
            }
            return Ok(CFHeaderChanges::Conflict);
        }
        proof {
            assert(all_claim(q2@, tip));
        }
        if agree >= self.required {
            // quorum: commit the hashes and advance the tip
            let hn = msg.filter_hashes.len();
            let mut x: usize = 0;
            proof {
                assert(self.filter_hashes@ + msg.filter_hashes@.take(0) =~= self.filter_hashes@);
            }
            while x < hn
                invariant
                    x <= hn,
                    hn == msg.filter_hashes@.len(),
                    self.filter_hashes@ =~= old(self).spec_hashes() + msg.filter_hashes@.take(
                        x as int,
                    ),
                    self.tip_header == old(self).spec_tip_header(),
                    self.anchor_height == old(self).spec_anchor_height(),
                    self.required == old(self).required,
                    self.checked_to == old(self).checked_to,
                    old(self).wf(),
                    old(self).spec_anchor_height() + old(self).spec_hashes().len()
                        + msg.filter_hashes@.len() <= u32::MAX,
                decreases hn - x,
            {
                self.filter_hashes.push(msg.filter_hashes[x]);
                proof {
                    assert(msg.filter_hashes@.take(x + 1) =~= msg.filter_hashes@.take(
                        x as int,
                    ).push(msg.filter_hashes@[x as int]));
                }
                x = x + 1;
            }
            proof {
                assert(msg.filter_hashes@.take(hn as int) =~= msg.filter_hashes@);
            }
            self.tip_header = tip;
            self.queue = Vec::new();
            return Ok(CFHeaderChanges::Extended);
        }
        self.queue = q2;
        Ok(CFHeaderChanges::AddedToQueue)
    }

    /// Checks one filter against its committed hash and the watched
    /// scripts. Filters arrive in committed order; the filter's bytes
    /// must hash to the hash the quorum committed for that height, and a
    /// match puts the block up for download.
    pub fn sync_filter(
        &mut self,
        height: u32,
        block_hash: &BlockHash,
        filter: &Vec<u8>,
        scripts: &Vec<Vec<u8>>,
    ) -> (r: Result<FilterCheck, CFilterSyncError>)
        requires
            old(self).wf(),
        ensures
            final(self).wf(),
            final(self).spec_hashes() == old(self).spec_hashes(),
            final(self).spec_tip_header() == old(self).spec_tip_header(),
            final(self).spec_queue() == old(self).spec_queue(),
            final(self).spec_anchor_height() == old(self).spec_anchor_height(),
            final(self).spec_required() == old(self).spec_required(),
            (r == Err::<FilterCheck, CFilterSyncError>(CFilterSyncError::UnexpectedFilterHeight))
                <==> !(old(self).spec_checked_to() < old(self).spec_hashes().len() && height
                == old(self).spec_anchor_height() + old(self).spec_checked_to() + 1),
            old(self).spec_checked_to() < old(self).spec_hashes().len() && height == old(self).spec_anchor_height() + old(self).spec_checked_to() + 1 ==> {
                let expected = old(self).spec_hashes()[old(self).spec_checked_to()];
                if filter_hash_of(filter@) != expected {
                    r == Err::<FilterCheck, CFilterSyncError>(CFilterSyncError::FilterHashMismatch)
                        && final(self).spec_checked_to() == old(self).spec_checked_to()
                } else if filter_element_count(filter@) * FILTER_M > u64::MAX {
                    r == Err::<FilterCheck, CFilterSyncError>(CFilterSyncError::Filter) && final(self).spec_checked_to() == old(self).spec_checked_to()
                } else {
                    match bip158_match_of(
                        filter@,
                        u256_bytes(*block_hash),
                        scripts@.map_values(|s: Vec<u8>| s@),
                    ) {
                        Option::None => r == Err::<FilterCheck, CFilterSyncError>(
                            CFilterSyncError::Filter,
                        ) && final(self).spec_checked_to() == old(self).spec_checked_to(),
                        Option::Some(matched) => final(self).spec_checked_to() == old(self).spec_checked_to() + 1 && (r matches Ok(c) && c.needs_request == (if matched {
                            Some(*block_hash)
                        } else {
                            Option::<BlockHash>::None
                        }) && c.was_last_in_batch == (final(self).spec_checked_to() == old(self).spec_hashes().len() || final(self).spec_checked_to() % 1000 == 0)),
                    }
                }
            },
            r is Err ==> final(self).spec_checked_to() == old(self).spec_checked_to(),
    {
        if !(self.checked_to < self.filter_hashes.len()) {
            return Err(CFilterSyncError::UnexpectedFilterHeight);
        }
        let expected_height_ok: bool = {
            let base = self.anchor_height as u64 + self.checked_to as u64 + 1;
            (height as u64) == base
        };
        if !expected_height_ok {
            return Err(CFilterSyncError::UnexpectedFilterHeight);
        }
        let expected = self.filter_hashes[self.checked_to];
        let got = crate::hashes::hash_filter(filter);
        if got != expected {
            return Err(CFilterSyncError::FilterHashMismatch);
        }
        // a hostile element-count prefix would overflow the reader's
        // range computation; reject it before the call
        let count = element_count(filter);
        if count > u64::MAX / FILTER_M {
            return Err(CFilterSyncError::Filter);
        }
        proof {
            assert(filter_element_count(filter@) * FILTER_M <= u64::MAX) by (nonlinear_arith)
                requires
                    filter_element_count(filter@) <= u64::MAX as nat / FILTER_M as nat,
                    FILTER_M > 0,
            ;
        }
        match bip158_match(filter, block_hash, scripts) {
            None => Err(CFilterSyncError::Filter),
            Some(matched) => {
                self.checked_to = self.checked_to + 1;
                let needs_request = if matched {
                    Some(*block_hash)
                } else {
                    None
                };
                let was_last_in_batch = self.checked_to == self.filter_hashes.len()
                    || self.checked_to % 1000 == 0;
                Ok(FilterCheck { needs_request, was_last_in_batch })
            },
        }
    }

    /// Forgets filter progress so every filter is fetched and matched
    /// again; the committed headers and hashes stay.
    pub fn clear_filters(&mut self)
        requires
            old(self).wf(),
        ensures
            final(self).wf(),
            final(self).spec_checked_to() == 0,
            final(self).spec_hashes() == old(self).spec_hashes(),
            final(self).spec_tip_header() == old(self).spec_tip_header(),
            final(self).spec_queue() == old(self).spec_queue(),
            final(self).spec_anchor_height() == old(self).spec_anchor_height(),
            final(self).spec_required() == old(self).spec_required(),
    {
        self.checked_to = 0;
    }

    /// Drops the audit queue; new inventory restarts the audit.
    pub fn clear_queue(&mut self)
        requires
            old(self).wf(),
        ensures
            final(self).wf(),
            final(self).spec_queue() =~= Seq::<Attestation>::empty(),
            final(self).spec_hashes() == old(self).spec_hashes(),
            final(self).spec_tip_header() == old(self).spec_tip_header(),
            final(self).spec_checked_to() == old(self).spec_checked_to(),
            final(self).spec_anchor_height() == old(self).spec_anchor_height(),
            final(self).spec_required() == old(self).spec_required(),
    {
        self.queue = Vec::new();
    }

    /// Rolls filter state back to `height` after a reorganization: when
    /// the committed hashes reach past it, the excess is dropped, checked
    /// progress is capped, the audit queue restarts, and the tip header
    /// is the chain of the hashes that remain; a rollback at or past the
    /// committed height changes nothing.
    pub fn rollback_to(&mut self, height: u32)
        requires
            old(self).wf(),
        ensures
            final(self).wf(),
            final(self).spec_anchor_height() == old(self).spec_anchor_height(),
            final(self).spec_required() == old(self).spec_required(),
            ({
                let keep: int = if height <= old(self).spec_anchor_height() {
                    0
                } else {
                    height - old(self).spec_anchor_height()
                };
                if keep >= old(self).spec_hashes().len() {
                    final(self).spec_hashes() == old(self).spec_hashes() && final(self).spec_checked_to() == old(self).spec_checked_to() && final(self).spec_tip_header() == old(self).spec_tip_header() && final(self).spec_queue()
                        == old(self).spec_queue()
                } else {
                    final(self).spec_hashes() == old(self).spec_hashes().take(keep) && final(self).spec_checked_to() == (if old(self).spec_checked_to() < keep {
                        old(self).spec_checked_to()
                    } else {
                        keep
                    }) && final(self).spec_tip_header() == fold_headers(
                        U256 { w0: 0, w1: 0, w2: 0, w3: 0 },
                        old(self).spec_hashes().take(keep),
                    ) && final(self).spec_queue() =~= Seq::<Attestation>::empty()
                }
            }),
    {
        let keep: usize = if height <= self.anchor_height {
            0
        } else {
            (height - self.anchor_height) as usize
        };
        if keep >= self.filter_hashes.len() {
            return ;
        }
        let kept = keep_prefix(&self.filter_hashes, keep);
        // rebuild the tip header of the shortened chain
        let n = kept.len();
        let mut tip = U256 { w0: 0, w1: 0, w2: 0, w3: 0 };
        let mut i: usize = 0;
        proof {
            assert(kept@.take(0) =~= Seq::<FilterHash>::empty());
        }
        while i < n
            invariant
                i <= n,
                n == kept@.len(),
                tip == fold_headers(U256 { w0: 0, w1: 0, w2: 0, w3: 0 }, kept@.take(i as int)),
            decreases n - i,
        {
            tip = crate::hashes::next_filter_header(&kept[i], &tip);
            proof {
                assert(kept@.take(i + 1).drop_last() =~= kept@.take(i as int));
                assert(kept@.take(i + 1).last() == kept@[i as int]);
            }
            i = i + 1;
        }
        proof {
            assert(kept@.take(n as int) =~= kept@);
        }
        self.filter_hashes = kept;
        if self.checked_to > keep {
            self.checked_to = keep;
        }
        self.tip_header = tip;
        self.queue = Vec::new();
    }
}

/// Copies the first `keep` elements of `v`.
fn keep_prefix(v: &Vec<FilterHash>, keep: usize) -> (r: Vec<FilterHash>)
    requires
        keep <= v@.len(),
    ensures
        r@ =~= v@.take(keep as int),
{
    let mut r: Vec<FilterHash> = Vec::new();
    let mut i: usize = 0;
    while i < keep
        invariant
            i <= keep,
            keep <= v@.len(),
            r@ =~= v@.take(i as int),
        decreases keep - i,
    {
        r.push(v[i]);
        proof {
            assert(v@.take(i + 1) =~= v@.take(i as int).push(v@[i as int]));
        }
        i = i + 1;
    }
    r
}

} // verus!
