//! The header chain: an ordered run of headers rooted at a trusted
//! checkpoint, extended by validated batches, guarded by hard-coded
//! checkpoints, and rewritten only by a fork that carries strictly more
//! work than the stretch of chain it replaces.
use vstd::arithmetic::power2::pow2;
use vstd::prelude::*;

use crate::hashes::{block_hash_of, Header};
use crate::header_batch::{all_pow_valid, bits_adhere, connected_seq, HeadersBatch};
use crate::pow::{
    lemma_work_bound, max_transition_of, target_of_bits, work_from_bits, work_of_bits, Params,
    WorkSum,
};
use crate::pow::{max_transition_from_bits, target_from_bits, worksum_val};
use crate::types::BlockHash;

verus! {

/// A trusted (height, hash) pair.
#[derive(Clone, Copy, Debug, PartialEq, Eq, Structural)]
pub struct HeaderCheckpoint {
    /// The height the hash must appear at.
    pub height: u32,
    /// The block hash at that height.
    pub hash: BlockHash,
}

impl HeaderCheckpoint {
    /// Builds a checkpoint.
    pub fn new(height: u32, hash: BlockHash) -> (r: HeaderCheckpoint)
        ensures
            r == (HeaderCheckpoint { height, hash }),
    {
        HeaderCheckpoint { height, hash }
    }
}

/// A candidate fork awaiting more work: headers branching off the main
/// chain at `anchor_height`.
pub struct Fork {
    /// The main-chain height the fork branches from.
    pub anchor_height: u32,
    /// The fork's headers, starting just above the branch point.
    pub headers: Vec<Header>,
}

/// What applying a batch of headers did to the chain.
pub enum HeaderChainChanges {
    /// The batch extended the tip; the new height.
    Extended(u32),
    /// The batch was stored as a candidate fork.
    ForkAdded {
        /// The height of the fork's tip.
        tip_height: u32,
        /// The hash of the fork's tip.
        tip_hash: BlockHash,
    },
    /// A fork replaced the old tip.
    Reorg {
        /// The new tip height.
        height: u32,
        /// The orphaned block hashes, tip first.
        hashes: Vec<BlockHash>,
    },
    /// The batch repeated headers the chain already holds.
    Duplicate,
}

/// Why a batch was rejected.
#[derive(Clone, Copy, Debug, PartialEq, Eq, Structural)]
pub enum HeaderSyncError {
    /// The batch held no headers; benign once synced, a fault otherwise.
    EmptyMessage,
    /// Some header does not name the hash of its predecessor.
    HeadersNotConnected,
    /// Some header misses its own target.
    InvalidHeaderWork,
    /// Some difficulty transition is out of bounds.
    InvalidBits,
    /// The batch anchors to no hash the chain knows.
    FloatingHeaders,
    /// The batch contradicts a hard-coded checkpoint.
    InvalidCheckpoint,
}

/// The index of the topmost header whose hash is `h`, or -1.
pub open spec fn hash_idx(s: Seq<Header>, h: BlockHash) -> int
    decreases s.len(),
{
    if s.len() == 0 {
        -1
    } else if block_hash_of(s.last()) == h {
        s.len() - 1
    } else {
        hash_idx(s.drop_last(), h)
    }
}

/// `hash_idx` stays at or above -1 and below the length.
pub proof fn lemma_hash_idx_range(s: Seq<Header>, h: BlockHash)
    ensures
        -1 <= hash_idx(s, h) < s.len(),
    decreases s.len(),
{
    if s.len() > 0 && block_hash_of(s.last()) != h {
        lemma_hash_idx_range(s.drop_last(), h);
    }
}

/// A found index holds `h`, and everything above it misses `h`.
pub proof fn lemma_hash_idx_hit(s: Seq<Header>, h: BlockHash)
    requires
        hash_idx(s, h) >= 0,
    ensures
        block_hash_of(s[hash_idx(s, h)]) == h,
        forall|i: int| hash_idx(s, h) < i < s.len() ==> block_hash_of(#[trigger] s[i]) != h,
    decreases s.len(),
{
    lemma_hash_idx_range(s.drop_last(), h);
    if s.len() > 0 && block_hash_of(s.last()) != h {
        lemma_hash_idx_hit(s.drop_last(), h);
        assert forall|i: int|
            hash_idx(s, h) < i < s.len() implies block_hash_of(#[trigger] s[i]) != h by {
            if i < s.len() - 1 {
                assert(s[i] == s.drop_last()[i]);
            }
        }
    }
}

/// When no index holds `h`, every header's hash misses `h`.
pub proof fn lemma_hash_idx_miss(s: Seq<Header>, h: BlockHash, i: int)
    requires
        hash_idx(s, h) == -1,
        0 <= i < s.len(),
    ensures
        block_hash_of(s[i]) != h,
    decreases s.len(),
{
    lemma_hash_idx_range(s.drop_last(), h);
    if i < s.len() - 1 {
        lemma_hash_idx_miss(s.drop_last(), h, i);
        assert(s[i] == s.drop_last()[i]);
    }
}

/// The summed work of a run of headers.
pub open spec fn total_work(s: Seq<Header>) -> nat
    decreases s.len(),
{
    if s.len() == 0 {
        0
    } else {
        total_work(s.drop_last()) + work_of_bits(s.last().bits)
    }
}

/// Summed work grows by less than 2^256 per header.
pub proof fn lemma_total_work_bound(s: Seq<Header>)
    ensures
        total_work(s) <= s.len() * ((pow2(256) - 1) as nat),
    decreases s.len(),
{
    if s.len() > 0 {
        lemma_total_work_bound(s.drop_last());
        lemma_work_bound(s.last().bits);
        assert((s.len() - 1) * ((pow2(256) - 1) as nat) + ((pow2(256) - 1) as nat) == s.len() * ((
        pow2(256) - 1) as nat)) by (nonlinear_arith);
    }
}

/// The hashes of a run of headers, tip first.
pub open spec fn desc_hashes(s: Seq<Header>) -> Seq<BlockHash>
    decreases s.len(),
{
    if s.len() == 0 {
        Seq::empty()
    } else {
        seq![block_hash_of(s.last())] + desc_hashes(s.drop_last())
    }
}

/// A run and its tip-first hash list have the same length.
pub proof fn lemma_desc_hashes_len(s: Seq<Header>)
    ensures
        desc_hashes(s).len() == s.len(),
    decreases s.len(),
{
    if s.len() > 0 {
        lemma_desc_hashes_len(s.drop_last());
    }
}

/// The locator hashes a chain advertises: the hashes of its most recent
/// headers — at most ten — tip first, then the anchor's hash.
pub open spec fn spec_locators(c: HeaderChain) -> Seq<BlockHash> {
    let n = c.spec_headers().len() as int;
    let k = if n < 10 {
        n
    } else {
        10int
    };
    Seq::new(k as nat, |i: int| block_hash_of(c.spec_headers()[n - 1 - i])).push(
        c.spec_anchor().hash,
    )
}

/// The checkpoints a run of headers rooted at `anchor_height` satisfies.
pub open spec fn cps_ok(cps: Seq<HeaderCheckpoint>, anchor_height: u32, hs: Seq<Header>) -> bool {
    forall|i: int|
        0 <= i < cps.len() ==> ((#[trigger] cps[i]).height - anchor_height <= hs.len()
            ==> block_hash_of(hs[cps[i].height - anchor_height - 1]) == cps[i].hash)
}

/// The header chain.
pub struct HeaderChain {
    anchor: HeaderCheckpoint,
    headers: Vec<Header>,
    checkpoints: Vec<HeaderCheckpoint>,
    params: Params,
    forks: Vec<Fork>,
}

impl HeaderChain {
    /// The checkpoint the chain roots at.
    pub closed spec fn spec_anchor(&self) -> HeaderCheckpoint {
        self.anchor
    }

    /// The headers above the anchor, by ascending height.
    pub closed spec fn spec_headers(&self) -> Seq<Header> {
        self.headers@
    }

    /// The hard-coded checkpoints the chain must satisfy.
    pub closed spec fn spec_checkpoints(&self) -> Seq<HeaderCheckpoint> {
        self.checkpoints@
    }

    /// The consensus parameters the chain validates under.
    pub closed spec fn spec_params(&self) -> Params {
        self.params
    }

    /// The tip height.
    pub open spec fn spec_height(&self) -> int {
        self.spec_anchor().height + self.spec_headers().len()
    }

    /// The tip hash.
    pub open spec fn spec_tip_hash(&self) -> BlockHash {
        if self.spec_headers().len() == 0 {
            self.spec_anchor().hash
        } else {
            block_hash_of(self.spec_headers().last())
        }
    }

    /// Whether the chain knows `h`: the anchor's hash or any header's.
    pub open spec fn spec_contains(&self, h: BlockHash) -> bool {
        h == self.spec_anchor().hash || hash_idx(self.spec_headers(), h) >= 0
    }

    /// The chain's standing invariant: headers connect from the anchor,
    /// each meets its own target, difficulty transitions stay in bounds,
    /// heights fit, and every covered checkpoint matches.
    pub open spec fn wf(&self) -> bool {
        &&& (self.spec_headers().len() > 0 ==> self.spec_headers()[0].prev_blockhash
            == self.spec_anchor().hash)
        &&& connected_seq(self.spec_headers())
        &&& all_pow_valid(self.spec_headers())
        &&& bits_adhere(self.spec_headers(), self.spec_params())
        &&& self.spec_anchor().height + self.spec_headers().len() <= u32::MAX
        &&& cps_ok(self.spec_checkpoints(), self.spec_anchor().height, self.spec_headers())
        &&& forall|i: int|
            0 <= i < self.spec_checkpoints().len() ==> (#[trigger] self.spec_checkpoints()[i]).height
                > self.spec_anchor().height
    }

    /// Roots a chain at `anchor` under `params`, guarded by the
    /// checkpoints above the anchor.
    pub fn new(anchor: HeaderCheckpoint, checkpoints: Vec<HeaderCheckpoint>, params: Params) -> (c:
        HeaderChain)
        requires
            forall|i: int|
                0 <= i < checkpoints@.len() ==> (#[trigger] checkpoints@[i]).height > anchor.height,
        ensures
            c.wf(),
            c.spec_anchor() == anchor,
            c.spec_headers() =~= Seq::<Header>::empty(),
            c.spec_checkpoints() == checkpoints@,
            c.spec_params() == params,
    {
        HeaderChain { anchor, headers: Vec::new(), checkpoints, params, forks: Vec::new() }
    }

    /// The tip height.
    pub fn height(&self) -> (h: u32)
        requires
            self.wf(),
        ensures
            h == self.spec_height(),
    {
        self.anchor.height + self.headers.len() as u32
    }

    /// The tip hash.
    pub fn tip_hash(&self) -> (h: BlockHash)
        ensures
            h == self.spec_tip_hash(),
    {
        if self.headers.is_empty() {
            self.anchor.hash
        } else {
            self.headers[self.headers.len() - 1].block_hash()
        }
    }

    /// Finds the topmost header whose hash is `h`.
    fn find_hash(&self, h: &BlockHash) -> (r: Option<usize>)
        ensures
            r matches Some(i) ==> i == hash_idx(self.spec_headers(), *h),
            r is None ==> hash_idx(self.spec_headers(), *h) == -1,
    {
        let n = self.headers.len();
        let mut i: usize = n;
        proof {
            assert(self.spec_headers().take(n as int) =~= self.spec_headers());
        }
        while i > 0
            invariant
                i <= n,
                n == self.spec_headers().len(),
                hash_idx(self.spec_headers(), *h) == hash_idx(
                    self.spec_headers().take(i as int),
                    *h,
                ),
            decreases i,
        {
            i = i - 1;
            let hash = self.headers[i].block_hash();
            proof {
                assert(self.spec_headers().take(i + 1).last() == self.spec_headers()[i as int]);
                assert(self.spec_headers().take(i + 1).drop_last() =~= self.spec_headers().take(
                    i as int,
                ));
            }
            if hash == *h {
                proof {
                    lemma_hash_idx_range(self.spec_headers().take(i as int), *h);
                }
                return Some(i);
            }
        }
        proof {
            assert(self.spec_headers().take(0) =~= Seq::<Header>::empty());
        }
        None
    }

    /// The height of `hash` on the chain, when it stands on it.
    pub fn height_of_hash(&self, hash: &BlockHash) -> (r: Option<u32>)
        requires
            self.wf(),
        ensures
            *hash == self.spec_anchor().hash ==> r == Some(self.spec_anchor().height),
            *hash != self.spec_anchor().hash && hash_idx(self.spec_headers(), *hash) >= 0 ==> r
                == Some((self.spec_anchor().height + hash_idx(self.spec_headers(), *hash)
                + 1) as u32),
            *hash != self.spec_anchor().hash && hash_idx(self.spec_headers(), *hash) == -1 ==> r
                is None,
    {
        if *hash == self.anchor.hash {
            return Some(self.anchor.height);
        }
        proof {
            lemma_hash_idx_range(self.spec_headers(), *hash);
        }
        match self.find_hash(hash) {
            Some(i) => Some(self.anchor.height + i as u32 + 1),
            None => None,
        }
    }

    /// Whether the chain knows `hash`.
    pub fn contains(&self, hash: &BlockHash) -> (r: bool)
        requires
            self.wf(),
        ensures
            r == self.spec_contains(*hash),
    {
        if *hash == self.anchor.hash {
            return true;
        }
        self.find_hash(hash).is_some()
    }

    /// The header at height `height`.
    pub fn header_at_height(&self, height: u32) -> (r: Option<Header>)
        requires
            self.wf(),
        ensures
            self.spec_anchor().height < height <= self.spec_height() ==> r == Some(
                self.spec_headers()[height - self.spec_anchor().height - 1],
            ),
            !(self.spec_anchor().height < height <= self.spec_height()) ==> r is None,
    {
        if height <= self.anchor.height {
            return None;
        }
        let off = height - self.anchor.height - 1;
        if (off as usize) < self.headers.len() {
            Some(self.headers[off as usize])
        } else {
            None
        }
    }

    /// Block locator hashes for a headers request: the most recent
    /// hashes, tip first, then the anchor's.
    pub fn locators(&self) -> (r: Vec<BlockHash>)
        requires
            self.wf(),
        ensures
            r@ == spec_locators(*self),
            r@.len() > 0,
            r@[0] == self.spec_tip_hash(),
    {
        let mut r: Vec<BlockHash> = Vec::new();
        let n = self.headers.len();
        let k = if n < 10 {
            n
        } else {
            10
        };
        let mut back: usize = 0;
        while back < k
            invariant
                back <= k,
                k == (if n < 10 {
                    n as int
                } else {
                    10int
                }),
                n == self.spec_headers().len(),
                r@.len() == back,
                forall|i: int|
                    0 <= i < back ==> #[trigger] r@[i] == block_hash_of(
                        self.spec_headers()[n - 1 - i],
                    ),
            decreases k - back,
        {
            r.push(self.headers[n - 1 - back].block_hash());
            back = back + 1;
        }
        r.push(self.anchor.hash);
        proof {
            assert(r@ =~= spec_locators(*self));
        }
        r
    }

    /// Checks a candidate header run against every checkpoint it covers.    /// Checks a candidate header run against every checkpoint it covers.
    fn checkpoints_ok(&self, candidate: &Vec<Header>) -> (r: bool)
        requires
            candidate@.len() + self.spec_anchor().height <= u32::MAX,
            forall|i: int|
                0 <= i < self.spec_checkpoints().len() ==> (#[trigger] self.spec_checkpoints()[i]).height
                    > self.spec_anchor().height,
        ensures
            r == cps_ok(self.spec_checkpoints(), self.spec_anchor().height, candidate@),
    {
        let n = self.checkpoints.len();
        let mut i: usize = 0;
        while i < n
            invariant
                i <= n,
                n == self.spec_checkpoints().len(),
                candidate@.len() + self.spec_anchor().height <= u32::MAX,
                forall|j: int|
                    0 <= j < n ==> (#[trigger] self.spec_checkpoints()[j]).height
                        > self.spec_anchor().height,
                forall|j: int|
                    0 <= j < i ==> ((#[trigger] self.spec_checkpoints()[j]).height
                        - self.spec_anchor().height <= candidate@.len() ==> block_hash_of(
                        candidate@[self.spec_checkpoints()[j].height - self.spec_anchor().height
                            - 1],
                    ) == self.spec_checkpoints()[j].hash),
            decreases n - i,
        {
            let cp = self.checkpoints[i];
            proof {
                assert(self.spec_checkpoints()[i as int].height > self.spec_anchor().height);
            }
            let off = cp.height - self.anchor.height;
            if (off as usize) <= candidate.len() {
                let hash = candidate[off as usize - 1].block_hash();
                if hash != cp.hash {
                    proof {
                        let j = i as int;
                        assert(self.spec_checkpoints()[j].height - self.spec_anchor().height
                            <= candidate@.len() && block_hash_of(
                            candidate@[self.spec_checkpoints()[j].height - self.spec_anchor().height
                                - 1],
                        ) != self.spec_checkpoints()[j].hash);
                    }
                    return false;
                }
            }
            i = i + 1;
        }
        true
    }

    /// The offset above the anchor at which a run whose first header
    /// names `h` would attach to the main chain, or -1 when `h` is
    /// unknown: 0 for the anchor itself, `i + 1` for the header at
    /// index `i`.
    pub open spec fn main_anchor_off(&self, h: BlockHash) -> int {
        if h == self.spec_anchor().hash {
            0
        } else if hash_idx(self.spec_headers(), h) >= 0 {
            hash_idx(self.spec_headers(), h) + 1
        } else {
            -1
        }
    }

    /// Resolves the attachment offset for `h`.
    fn main_off(&self, h: &BlockHash) -> (r: Option<usize>)
        ensures
            r matches Some(o) ==> o == self.main_anchor_off(*h) && o <= self.spec_headers().len(),
            r is None ==> self.main_anchor_off(*h) == -1,
    {
        proof {
            lemma_hash_idx_range(self.spec_headers(), *h);
        }
        if *h == self.anchor.hash {
            return Some(0);
        }
        match self.find_hash(h) {
            Some(i) => {
                proof {
                    lemma_hash_idx_range(self.spec_headers(), *h);
                }
                assert(i < self.headers.len());
                Some(i + 1)
            },
            None => None,
        }
    }

    /// Builds the run made of the first `keep` main-chain headers
    /// followed by `branch` from position `from` on.
    fn build_candidate(&self, keep: usize, branch: &Vec<Header>, from: usize) -> (v: Vec<Header>)
        requires
            keep <= self.spec_headers().len(),
            from <= branch@.len(),
        ensures
            v@ =~= self.spec_headers().take(keep as int) + branch@.skip(from as int),
    {
        let mut v: Vec<Header> = Vec::new();
        let mut i: usize = 0;
        while i < keep
            invariant
                i <= keep,
                keep <= self.spec_headers().len(),
                v@ =~= self.spec_headers().take(i as int),
            decreases keep - i,
        {
            v.push(self.headers[i]);
            proof {
                assert(self.spec_headers().take(i + 1) =~= self.spec_headers().take(i as int).push(
                    self.spec_headers()[i as int],
                ));
            }
            i = i + 1;
        }
        let n = branch.len();
        let mut j: usize = from;
        while j < n
            invariant
                from <= j <= n,
                n == branch@.len(),
                v@ =~= self.spec_headers().take(keep as int) + branch@.subrange(
                    from as int,
                    j as int,
                ),
            decreases n - j,
        {
            v.push(branch[j]);
            proof {
                assert(branch@.subrange(from as int, j + 1) =~= branch@.subrange(
                    from as int,
                    j as int,
                ).push(branch@[j as int]));
            }
            j = j + 1;
        }
        proof {
            assert(branch@.subrange(from as int, n as int) =~= branch@.skip(from as int));
        }
        v
    }

    /// The hashes of the main-chain headers above offset `off`, tip
    /// first: the blocks a reorganization at `off` orphans.
    fn orphans(&self, off: usize) -> (v: Vec<BlockHash>)
        requires
            off <= self.spec_headers().len(),
        ensures
            v@ =~= desc_hashes(self.spec_headers().skip(off as int)),
    {
        let n = self.headers.len();
        let mut v: Vec<BlockHash> = Vec::new();
        let mut j: usize = n;
        proof {
            assert(self.spec_headers().skip(n as int) =~= Seq::<Header>::empty());
        }
        while j > off
            invariant
                off <= j <= n,
                n == self.spec_headers().len(),
                v@ =~= desc_hashes(self.spec_headers().skip(j as int)),
            decreases j,
        {
            j = j - 1;
            let h = self.headers[j].block_hash();
            v.push(h);
            proof {
                lemma_desc_unfold(self.spec_headers(), j + 1);
            }
        }
        v
    }

    /// Extends the tip with `seg` from position `t` on, checkpoints
    /// permitting.
    #[verifier::rlimit(100)]
    fn extend_tip_inner(&mut self, seg: &Vec<Header>, t: usize) -> (r: Result<
        HeaderChainChanges,
        HeaderSyncError,
    >)
        requires
            old(self).wf(),
            batch_valid(seg@, old(self).spec_params()),
            t < seg@.len(),
            old(self).spec_height() + seg@.len() <= u32::MAX,
            seg@[t as int].prev_blockhash == old(self).spec_tip_hash(),
            junction_ok(
                old(self).spec_headers(),
                old(self).spec_headers().len() as int,
                seg@[t as int],
                old(self).spec_params(),
            ),
        ensures
            final(self).wf(),
            final(self).spec_anchor() == old(self).spec_anchor(),
            final(self).spec_checkpoints() == old(self).spec_checkpoints(),
            final(self).spec_params() == old(self).spec_params(),
            cps_ok(
                old(self).spec_checkpoints(),
                old(self).spec_anchor().height,
                old(self).spec_headers() + seg@.skip(t as int),
            ) ==> r == Ok::<HeaderChainChanges, HeaderSyncError>(
                HeaderChainChanges::Extended(
                    (old(self).spec_anchor().height + old(self).spec_headers().len() + (seg@.len()
                        - t)) as u32,
                ),
            ) && final(self).spec_headers() == old(self).spec_headers() + seg@.skip(t as int),
            !cps_ok(
                old(self).spec_checkpoints(),
                old(self).spec_anchor().height,
                old(self).spec_headers() + seg@.skip(t as int),
            ) ==> r == Err::<HeaderChainChanges, HeaderSyncError>(
                HeaderSyncError::InvalidCheckpoint,
            ) && final(self).spec_headers() == old(self).spec_headers(),
    {
        proof {
            reveal(crate::chain::batch_valid);
        }
        let ghost hs = self.spec_headers();
        let ghost params0 = self.spec_params();
        let hn = self.headers.len();
        let candidate = self.build_candidate(hn, seg, t);
        proof {
            assert(hs.take(hn as int) =~= hs);
        }
        if !self.checkpoints_ok(&candidate) {
            return Err(HeaderSyncError::InvalidCheckpoint);
        }
        proof {
            lemma_skip_valid(seg@, params0, t as int);
            let rest = seg@.skip(t as int);
            assert(rest[0] == seg@[t as int]);
            lemma_concat_valid(hs, rest, params0);
        }
        let new_height = self.anchor.height + (candidate.len() as u32);
        self.headers = candidate;
        Ok(HeaderChainChanges::Extended(new_height))
    }

    /// Replaces the stretch of chain above offset `off2` with `seg` from
    /// position `t` on, which carries strictly more work, checkpoints
    /// permitting.
    #[verifier::rlimit(100)]
    fn reorg_inner(&mut self, seg: &Vec<Header>, t: usize, off2: usize) -> (r: Result<
        HeaderChainChanges,
        HeaderSyncError,
    >)
        requires
            old(self).wf(),
            batch_valid(seg@, old(self).spec_params()),
            t < seg@.len(),
            off2 < old(self).spec_headers().len(),
            old(self).spec_height() + seg@.len() <= u32::MAX,
            seg@[t as int].prev_blockhash == (if off2 == 0 {
                old(self).spec_anchor().hash
            } else {
                block_hash_of(old(self).spec_headers()[off2 - 1])
            }),
            junction_ok(
                old(self).spec_headers(),
                off2 as int,
                seg@[t as int],
                old(self).spec_params(),
            ),
            total_work(seg@.skip(t as int)) > total_work(
                old(self).spec_headers().skip(off2 as int),
            ),
        ensures
            final(self).wf(),
            final(self).spec_anchor() == old(self).spec_anchor(),
            final(self).spec_checkpoints() == old(self).spec_checkpoints(),
            final(self).spec_params() == old(self).spec_params(),
            cps_ok(
                old(self).spec_checkpoints(),
                old(self).spec_anchor().height,
                old(self).spec_headers().take(off2 as int) + seg@.skip(t as int),
            ) ==> (r matches Ok(m) && m matches HeaderChainChanges::Reorg { height, hashes }
                && height == old(self).spec_anchor().height + off2 + (seg@.len() - t) && hashes@
                == desc_hashes(old(self).spec_headers().skip(off2 as int)) && final(self).spec_headers() == old(self).spec_headers().take(off2 as int) + seg@.skip(t as int)
                && height == final(self).spec_height() && total_work(final(self).spec_headers())
                > total_work(old(self).spec_headers()) && final(self).spec_headers().take(
                off2 as int,
            ) == old(self).spec_headers().take(off2 as int)),
            !cps_ok(
                old(self).spec_checkpoints(),
                old(self).spec_anchor().height,
                old(self).spec_headers().take(off2 as int) + seg@.skip(t as int),
            ) ==> r == Err::<HeaderChainChanges, HeaderSyncError>(
                HeaderSyncError::InvalidCheckpoint,
            ) && final(self).spec_headers() == old(self).spec_headers(),
    {
        proof {
            reveal(crate::chain::batch_valid);
        }
        let ghost hs = self.spec_headers();
        let ghost params0 = self.spec_params();
        let candidate = self.build_candidate(off2, seg, t);
        if !self.checkpoints_ok(&candidate) {
            return Err(HeaderSyncError::InvalidCheckpoint);
        }
        let hashes = self.orphans(off2);
        proof {
            lemma_skip_valid(seg@, params0, t as int);
            let rest = seg@.skip(t as int);
            let prefix = hs.take(off2 as int);
            assert(rest[0] == seg@[t as int]);
            lemma_take_valid(hs, params0, off2 as int);
            assert(prefix.len() == off2);
            if off2 > 0 {
                assert(prefix.last() == hs[off2 - 1]);
                assert(prefix[0] == hs[0]);
            }
            lemma_concat_valid(prefix, rest, params0);
            lemma_total_work_concat(prefix, rest);
            lemma_total_work_concat(prefix, hs.skip(off2 as int));
            assert(prefix + hs.skip(off2 as int) =~= hs);
            assert((prefix + rest).take(off2 as int) =~= prefix);
        }
        let new_height = self.anchor.height + (candidate.len() as u32);
        self.headers = candidate;
        self.forks = Vec::new();
        Ok(HeaderChainChanges::Reorg { height: new_height, hashes })
    }

    /// Remembers `seg` from position `t` on as a candidate fork branching
    /// at offset `off2`.
    #[verifier::rlimit(100)]
    fn store_fork_inner(&mut self, seg: &Vec<Header>, t: usize, off2: usize) -> (r:
        HeaderChainChanges)
        requires
            old(self).wf(),
            t < seg@.len(),
            off2 <= old(self).spec_headers().len(),
            old(self).spec_height() + seg@.len() <= u32::MAX,
        ensures
            final(self).wf(),
            final(self).spec_anchor() == old(self).spec_anchor(),
            final(self).spec_checkpoints() == old(self).spec_checkpoints(),
            final(self).spec_params() == old(self).spec_params(),
            final(self).spec_headers() == old(self).spec_headers(),
            r matches HeaderChainChanges::ForkAdded { tip_height, tip_hash } && tip_height == old(self).spec_anchor().height + off2 + (seg@.len() - t) && tip_hash == block_hash_of(
                seg@.last(),
            ),
    {
        let rest = self.build_candidate(0, seg, t);
        proof {
            assert(self.spec_headers().take(0) =~= Seq::<Header>::empty());
            assert(Seq::<Header>::empty() + seg@.skip(t as int) =~= seg@.skip(t as int));
            assert(seg@.skip(t as int).last() == seg@.last());
        }
        let tip_hash = rest[rest.len() - 1].block_hash();
        let tip_height = self.anchor.height + (off2 as u32) + (rest.len() as u32);
        let anchor_height = self.anchor.height + (off2 as u32);
        self.forks.push(Fork { anchor_height, headers: rest });
        HeaderChainChanges::ForkAdded { tip_height, tip_hash }
    }

    /// Applies a validated run of headers to the chain.
    #[verifier::rlimit(100)]
    fn apply_main(&mut self, seg: Vec<Header>) -> (r: Result<HeaderChainChanges, HeaderSyncError>)
        requires
            old(self).wf(),
            batch_valid(seg@, old(self).spec_params()),
            old(self).spec_height() + seg@.len() <= u32::MAX,
        ensures
            final(self).wf(),
            final(self).spec_anchor() == old(self).spec_anchor(),
            final(self).spec_checkpoints() == old(self).spec_checkpoints(),
            final(self).spec_params() == old(self).spec_params(),
            r is Err ==> final(self).spec_headers() == old(self).spec_headers(),
            r != Err::<HeaderChainChanges, HeaderSyncError>(HeaderSyncError::EmptyMessage),
            r != Err::<HeaderChainChanges, HeaderSyncError>(HeaderSyncError::HeadersNotConnected),
            r != Err::<HeaderChainChanges, HeaderSyncError>(HeaderSyncError::InvalidHeaderWork),
            (r == Err::<HeaderChainChanges, HeaderSyncError>(HeaderSyncError::FloatingHeaders))
                <==> old(self).main_anchor_off(seg@[0].prev_blockhash) < 0,
            old(self).main_anchor_off(seg@[0].prev_blockhash) >= 0 ==> main_outcome(
                *old(self),
                *final(self),
                seg@,
                r,
            ),
            (r matches Ok(m) && !(m is Reorg)) ==> final(self).spec_headers().len() >= old(self).spec_headers().len(),
            (r matches Ok(m) && (m is ForkAdded || m is Duplicate)) ==> final(self).spec_headers()
                == old(self).spec_headers(),
            r matches Ok(HeaderChainChanges::Reorg { height, hashes }) ==> height == final(self).spec_height(),
    {
        proof {
            reveal(crate::chain::main_outcome);
            reveal(crate::chain::batch_valid);
        }
        let ghost hs = self.spec_headers();
        let ghost params0 = self.spec_params();
        let first_prev = seg[0].prev_blockhash;
        let off = match self.main_off(&first_prev) {
            Some(o) => o,
            None => {
                return Err(HeaderSyncError::FloatingHeaders);
            },
        };
        let hn = self.headers.len();
        let segn = seg.len();
        // peel off the headers the chain already holds
        let mut t: usize = 0;
        while t < segn && off + t < hn && seg[t] == self.headers[off + t]
            invariant
                t <= segn,
                off + t <= hn,
                off <= hn,
                hn == self.spec_headers().len(),
                segn == seg@.len(),
                forall|j: int| 0 <= j < t ==> self.spec_headers()[off + j] == #[trigger] seg@[j],
            decreases segn - t,
        {
            t = t + 1;
        }
        proof {
            lemma_trim_at(hs, off as int, seg@, t as int);
        }
        if t == segn {
            return Ok(HeaderChainChanges::Duplicate);
        }
        let off2 = off + t;
        // what the next header chains from
        proof {
            if t == 0 {
                if off > 0 {
                    lemma_hash_idx_hit(hs, first_prev);
                }
            } else {
                assert(seg@[t as int].prev_blockhash == block_hash_of(seg@[t - 1]));
                assert(seg@[t - 1] == hs[off2 - 1]);
            }
            assert(seg@[t as int].prev_blockhash == if off2 == 0 {
                self.spec_anchor().hash
            } else {
                block_hash_of(hs[off2 - 1])
            });
        }
        if off2 > 0 {
            if !transition_ok(&self.headers[off2 - 1], &seg[t], &self.params) {
                return Err(HeaderSyncError::InvalidBits);
            }
        }
        proof {
            assert(junction_ok(hs, off2 as int, seg@[t as int], params0));
        }
        if off2 == hn {
            self.extend_tip_inner(&seg, t)
        } else {
            let fork_work = segment_work(&seg, t);
            let main_work = segment_work(&self.headers, off2);
            if fork_work.gt(&main_work) {
                self.reorg_inner(&seg, t, off2)
            } else {
                Ok(self.store_fork_inner(&seg, t, off2))
            }
        }
    }

    /// Applies a batch of headers from one peer: validates it, then
    /// extends the chain, recognizes a repeat, evaluates a fork, or
    /// rejects it, exactly as [`main_outcome`] lays out for every batch
    /// anchored to the chain.
    pub fn sync_chain(&mut self, batch: Vec<Header>) -> (r: Result<
        HeaderChainChanges,
        HeaderSyncError,
    >)
        requires
            old(self).wf(),
            old(self).spec_height() + batch@.len() <= u32::MAX,
        ensures
            final(self).wf(),
            final(self).spec_anchor() == old(self).spec_anchor(),
            final(self).spec_checkpoints() == old(self).spec_checkpoints(),
            final(self).spec_params() == old(self).spec_params(),
            r is Err ==> final(self).spec_headers() == old(self).spec_headers(),
            (r == Err::<HeaderChainChanges, HeaderSyncError>(HeaderSyncError::EmptyMessage)) <==> batch@.len() == 0,
            batch@.len() > 0 ==> ((r == Err::<HeaderChainChanges, HeaderSyncError>(
                HeaderSyncError::HeadersNotConnected,
            )) <==> !connected_seq(batch@)),
            batch@.len() > 0 && connected_seq(batch@) ==> ((r == Err::<
                HeaderChainChanges,
                HeaderSyncError,
            >(HeaderSyncError::InvalidHeaderWork)) <==> !all_pow_valid(batch@)),
            batch@.len() > 0 && connected_seq(batch@) && all_pow_valid(batch@) && !bits_adhere(
                batch@,
                old(self).spec_params(),
            ) ==> r == Err::<HeaderChainChanges, HeaderSyncError>(HeaderSyncError::InvalidBits),
            batch_valid(batch@, old(self).spec_params()) && old(self).main_anchor_off(
                batch@[0].prev_blockhash,
            ) >= 0 ==> main_outcome(*old(self), *final(self), batch@, r),
            batch_valid(batch@, old(self).spec_params()) && old(self).main_anchor_off(
                batch@[0].prev_blockhash,
            ) < 0 && r is Err ==> (r == Err::<HeaderChainChanges, HeaderSyncError>(
                HeaderSyncError::FloatingHeaders,
            ) || r == Err::<HeaderChainChanges, HeaderSyncError>(HeaderSyncError::InvalidBits) || r
                == Err::<HeaderChainChanges, HeaderSyncError>(HeaderSyncError::InvalidCheckpoint)),
            (r matches Ok(m) && !(m is Reorg)) ==> final(self).spec_headers().len() >= old(self).spec_headers().len(),
            (r matches Ok(m) && (m is ForkAdded || m is Duplicate)) ==> final(self).spec_headers()
                == old(self).spec_headers(),
            r matches Ok(HeaderChainChanges::Reorg { height, hashes }) ==> height == final(self).spec_height(),
    {
        proof {
            reveal(crate::chain::batch_valid);
        }
        let hb = match HeadersBatch::new(batch) {
            Err(_) => {
                return Err(HeaderSyncError::EmptyMessage);
            },
            Ok(b) => b,
        };
        if !hb.connected() {
            return Err(HeaderSyncError::HeadersNotConnected);
        }
        if !hb.individually_valid_pow() {
            return Err(HeaderSyncError::InvalidHeaderWork);
        }
        if !hb.bits_adhere_transition(&self.params) {
            return Err(HeaderSyncError::InvalidBits);
        }
        let batch_vec = hb.into_vec();
        let first_prev = batch_vec[0].prev_blockhash;
        if self.main_off(&first_prev).is_some() {
            return self.apply_main(batch_vec);
        }
        // the batch may extend a remembered candidate fork
        let fi = match self.find_fork(&first_prev) {
            Some(fi) => fi,
            None => {
                return Err(HeaderSyncError::FloatingHeaders);
            },
        };
        let combined = self.concat_fork(fi, &batch_vec);
        let hb2 = match HeadersBatch::new(combined) {
            Err(_) => {
                return Err(HeaderSyncError::FloatingHeaders);
            },
            Ok(b) => b,
        };
        if !hb2.connected() {
            return Err(HeaderSyncError::FloatingHeaders);
        }
        if !hb2.individually_valid_pow() {
            return Err(HeaderSyncError::FloatingHeaders);
        }
        if !hb2.bits_adhere_transition(&self.params) {
            return Err(HeaderSyncError::FloatingHeaders);
        }
        let combined = hb2.into_vec();
        let room: u64 = (u32::MAX as u64) - (self.anchor.height as u64) - (
        self.headers.len() as u64);
        if (combined.len() as u64) > room {
            return Err(HeaderSyncError::FloatingHeaders);
        }
        match self.apply_main(combined) {
            Ok(c) => Ok(c),
            Err(_) => Err(HeaderSyncError::FloatingHeaders),
        }
    }

    /// Finds a remembered fork whose tip hash is `h`.
    fn find_fork(&self, h: &BlockHash) -> (r: Option<usize>)
        ensures
            r matches Some(i) ==> i < self.forks@.len() && self.forks@[i as int].headers@.len()
                > 0,
    {
        let n = self.forks.len();
        let mut i: usize = 0;
        while i < n
            invariant
                i <= n,
                n == self.forks@.len(),
            decreases n - i,
        {
            let fl = self.forks[i].headers.len();
            if fl > 0 {
                let tip = self.forks[i].headers[fl - 1].block_hash();
                if tip == *h {
                    return Some(i);
                }
            }
            i = i + 1;
        }
        None
    }

    /// Joins a remembered fork's headers with a new batch.
    fn concat_fork(&self, fi: usize, batch: &Vec<Header>) -> (v: Vec<Header>)
        requires
            fi < self.forks@.len(),
        ensures
            v@ =~= self.forks@[fi as int].headers@ + batch@,
    {
        let fn_ = self.forks[fi].headers.len();
        let mut v: Vec<Header> = Vec::new();
        let mut i: usize = 0;
        while i < fn_
            invariant
                i <= fn_,
                fi < self.forks@.len(),
                fn_ == self.forks@[fi as int].headers@.len(),
                v@ =~= self.forks@[fi as int].headers@.take(i as int),
            decreases fn_ - i,
        {
            v.push(self.forks[fi].headers[i]);
            proof {
                assert(self.forks@[fi as int].headers@.take(i + 1) =~= self.forks@[
                    fi as int
                ].headers@.take(i as int).push(self.forks@[fi as int].headers@[i as int]));
            }
            i = i + 1;
        }
        proof {
            assert(self.forks@[fi as int].headers@.take(fn_ as int) =~= self.forks@[
                fi as int
            ].headers@);
        }
        let n = batch.len();
        let mut j: usize = 0;
        while j < n
            invariant
                j <= n,
                n == batch@.len(),
                fi < self.forks@.len(),
                v@ =~= self.forks@[fi as int].headers@ + batch@.take(j as int),
            decreases n - j,
        {
            v.push(batch[j]);
            proof {
                assert(batch@.take(j + 1) =~= batch@.take(j as int).push(batch@[j as int]));
            }
            j = j + 1;
        }
        proof {
            assert(batch@.take(n as int) =~= batch@);
        }
        v
    }

    /// Whether the chain has caught up to the best height peers report.
    pub fn is_synced(&self, best_known: Option<u32>) -> (r: bool)
        requires
            self.wf(),
        ensures
            r == match best_known {
                Some(b) => self.spec_height() >= b,
                None => false,
            },
    {
        match best_known {
            Some(b) => self.height() >= b,
            None => false,
        }
    }
}

/// Whether the difficulty step from `prev` to `next` is permitted.
pub open spec fn pair_ok(prev: Header, next: Header, params: Params) -> bool {
    if params.allow_min_difficulty_blocks {
        true
    } else {
        target_of_bits(next.bits) <= max_transition_of(prev.bits, params)
    }
}

/// Checks one difficulty transition.
fn transition_ok(prev: &Header, next: &Header, params: &Params) -> (r: bool)
    ensures
        r == pair_ok(*prev, *next, *params),
{
    if params.allow_min_difficulty_blocks {
        return true;
    }
    let cap = max_transition_from_bits(prev.bits, params);
    let target = target_from_bits(next.bits);
    target.le(&cap)
}

/// A batch that passed every internal check.
#[verifier::opaque]
pub open spec fn batch_valid(s: Seq<Header>, params: Params) -> bool {
    &&& s.len() > 0
    &&& connected_seq(s)
    &&& all_pow_valid(s)
    &&& bits_adhere(s, params)
}

/// The junction from position `off` into a run is within difficulty
/// bounds; the anchor itself carries no difficulty, so a run rooted
/// there has nothing to check.
pub open spec fn junction_ok(hs: Seq<Header>, off: int, next: Header, params: Params) -> bool {
    off == 0 || pair_ok(hs[off - 1], next, params)
}

/// Two valid runs joined at a valid junction form a valid run.
#[verifier::rlimit(100)]
proof fn lemma_concat_valid(a: Seq<Header>, b: Seq<Header>, params: Params)
    requires
        connected_seq(a),
        connected_seq(b),
        all_pow_valid(a),
        all_pow_valid(b),
        bits_adhere(a, params),
        bits_adhere(b, params),
        a.len() > 0 && b.len() > 0 ==> b[0].prev_blockhash == block_hash_of(a.last()) && pair_ok(
            a.last(),
            b[0],
            params,
        ),
    ensures
        connected_seq(a + b),
        all_pow_valid(a + b),
        bits_adhere(a + b, params),
{
    let c = a + b;
    assert forall|i: int| 0 < i < c.len() implies c[i].prev_blockhash == block_hash_of(
        c[i - 1],
    ) by {
        if i < a.len() {
            assert(c[i] == a[i] && c[i - 1] == a[i - 1]);
        } else if i == a.len() {
            assert(c[i] == b[0] && c[i - 1] == a[i - 1]);
        } else {
            assert(c[i] == b[i - a.len()] && c[i - 1] == b[i - a.len() - 1]);
        }
    }
    assert forall|i: int| 0 <= i < c.len() implies crate::hashes::pow_valid(c[i]) by {
        if i < a.len() {
            assert(c[i] == a[i]);
        } else {
            assert(c[i] == b[i - a.len()]);
        }
    }
    if !params.allow_min_difficulty_blocks {
        assert forall|i: int| 0 < i < c.len() implies target_of_bits(
            (#[trigger] c[i]).bits,
        ) <= max_transition_of(c[i - 1].bits, params) by {
            if i < a.len() {
                assert(c[i] == a[i] && c[i - 1] == a[i - 1]);
                assert(target_of_bits(a[i].bits) <= max_transition_of(a[i - 1].bits, params));
            } else if i == a.len() {
                assert(c[i] == b[0] && c[i - 1] == a[i - 1]);
            } else {
                assert(c[i] == b[i - a.len()] && c[i - 1] == b[i - a.len() - 1]);
                assert(target_of_bits(b[i - a.len()].bits) <= max_transition_of(
                    b[i - a.len() - 1].bits,
                    params,
                ));
            }
        }
    }
}

/// A prefix of a valid run is a valid run.
proof fn lemma_take_valid(s: Seq<Header>, params: Params, k: int)
    requires
        0 <= k <= s.len(),
        connected_seq(s),
        all_pow_valid(s),
        bits_adhere(s, params),
    ensures
        connected_seq(s.take(k)),
        all_pow_valid(s.take(k)),
        bits_adhere(s.take(k), params),
{
    let t = s.take(k);
    assert forall|i: int| 0 < i < t.len() implies t[i].prev_blockhash == block_hash_of(
        t[i - 1],
    ) by {
        assert(t[i] == s[i] && t[i - 1] == s[i - 1]);
    }
    assert forall|i: int| 0 <= i < t.len() implies crate::hashes::pow_valid(t[i]) by {
        assert(t[i] == s[i]);
    }
    if !params.allow_min_difficulty_blocks {
        assert forall|i: int| 0 < i < t.len() implies target_of_bits(
            (#[trigger] t[i]).bits,
        ) <= max_transition_of(t[i - 1].bits, params) by {
            assert(t[i] == s[i] && t[i - 1] == s[i - 1]);
            assert(target_of_bits(s[i].bits) <= max_transition_of(s[i - 1].bits, params));
        }
    }
}

/// A suffix of a valid run is a valid run.
proof fn lemma_skip_valid(s: Seq<Header>, params: Params, k: int)
    requires
        0 <= k <= s.len(),
        connected_seq(s),
        all_pow_valid(s),
        bits_adhere(s, params),
    ensures
        connected_seq(s.skip(k)),
        all_pow_valid(s.skip(k)),
        bits_adhere(s.skip(k), params),
{
    let t = s.skip(k);
    assert forall|i: int| 0 < i < t.len() implies t[i].prev_blockhash == block_hash_of(
        t[i - 1],
    ) by {
        assert(t[i] == s[i + k] && t[i - 1] == s[i + k - 1]);
    }
    assert forall|i: int| 0 <= i < t.len() implies crate::hashes::pow_valid(t[i]) by {
        assert(t[i] == s[i + k]);
    }
    if !params.allow_min_difficulty_blocks {
        assert forall|i: int| 0 < i < t.len() implies target_of_bits(
            (#[trigger] t[i]).bits,
        ) <= max_transition_of(t[i - 1].bits, params) by {
            assert(t[i] == s[i + k] && t[i - 1] == s[i + k - 1]);
            assert(target_of_bits(s[i + k].bits) <= max_transition_of(s[i + k - 1].bits, params));
        }
    }
}

/// How many leading headers of `b` repeat the chain starting at offset
/// `off`.
pub open spec fn trim_len(hs: Seq<Header>, off: int, b: Seq<Header>) -> int
    decreases b.len(),
{
    if b.len() == 0 {
        0
    } else if 0 <= off < hs.len() && hs[off] == b[0] {
        1 + trim_len(hs, off + 1, b.skip(1))
    } else {
        0
    }
}

/// `trim_len` is the length of the matching run found by a forward scan.
proof fn lemma_trim_at(hs: Seq<Header>, off: int, b: Seq<Header>, k: int)
    requires
        0 <= off,
        0 <= k <= b.len(),
        off + k <= hs.len(),
        forall|j: int| 0 <= j < k ==> hs[off + j] == #[trigger] b[j],
        k == b.len() || off + k >= hs.len() || hs[off + k] != b[k],
    ensures
        trim_len(hs, off, b) == k,
    decreases b.len(),
{
    if b.len() > 0 && k > 0 {
        assert(hs[off] == b[0]);
        let b2 = b.skip(1);
        assert forall|j: int| 0 <= j < k - 1 implies hs[off + 1 + j] == #[trigger] b2[j] by {
            assert(b2[j] == b[j + 1]);
        }
        if !(k - 1 == b2.len() || off + k >= hs.len()) {
            assert(b2[k - 1] == b[k]);
        }
        lemma_trim_at(hs, off + 1, b2, k - 1);
    }
}

/// Sums the work of the headers of `v` from position `from` on.
fn segment_work(v: &Vec<Header>, from: usize) -> (w: WorkSum)
    requires
        from <= v@.len(),
    ensures
        worksum_val(w) == total_work(v@.skip(from as int)),
{
    let n = v.len();
    let mut acc = WorkSum::zero();
    let mut i: usize = from;
    proof {
        assert(v@.subrange(from as int, from as int) =~= Seq::<Header>::empty());
    }
    while i < n
        invariant
            from <= i <= n,
            n == v@.len(),
            worksum_val(acc) == total_work(v@.subrange(from as int, i as int)),
        decreases n - i,
    {
        let work = work_from_bits(v[i].bits);
        proof {
            lemma_total_work_bound(v@.subrange(from as int, i as int));
            lemma_work_bound(v@[i as int].bits);
            crate::pow::lemma_pow2_big();
            vstd::arithmetic::power2::lemma_pow2_adds(64, 256);
            vstd::arithmetic::power2::lemma2_to64();
            assert((i - from) * ((pow2(256) - 1) as nat) + pow2(256) <= pow2(64) * pow2(256))
                by (nonlinear_arith)
                requires
                    0 <= i - from,
                    i - from + 1 <= pow2(64),
                    pow2(256) > 0,
            ;
        }
        acc = acc.plus(&work);
        proof {
            assert(v@.subrange(from as int, i + 1).drop_last() =~= v@.subrange(
                from as int,
                i as int,
            ));
            assert(v@.subrange(from as int, i + 1).last() == v@[i as int]);
        }
        i = i + 1;
    }
    proof {
        assert(v@.subrange(from as int, n as int) =~= v@.skip(from as int));
    }
    acc
}

/// What applying a validated run anchored on the main chain must do:
/// repeated headers collapse to `Duplicate`; a bad junction transition is
/// `InvalidBits`; a run landing on the tip extends it, checkpoints
/// permitting; a run branching below the tip reorganizes the chain
/// exactly when it carries strictly more work than the stretch it
/// replaces, and is remembered as a candidate fork otherwise.
#[verifier::opaque]
pub open spec fn main_outcome(
    pre: HeaderChain,
    post: HeaderChain,
    seg: Seq<Header>,
    r: Result<HeaderChainChanges, HeaderSyncError>,
) -> bool {
    let hs = pre.spec_headers();
    let params = pre.spec_params();
    let anchor = pre.spec_anchor();
    let off = pre.main_anchor_off(seg[0].prev_blockhash);
    let t = trim_len(hs, off, seg);
    let off2 = off + t;
    let rest = seg.skip(t);
    if t == seg.len() {
        r == Ok::<HeaderChainChanges, HeaderSyncError>(HeaderChainChanges::Duplicate)
            && post.spec_headers() == hs
    } else if !junction_ok(hs, off2, seg[t], params) {
        r == Err::<HeaderChainChanges, HeaderSyncError>(HeaderSyncError::InvalidBits)
            && post.spec_headers() == hs
    } else if off2 == hs.len() {
        if cps_ok(pre.spec_checkpoints(), anchor.height, hs + rest) {
            r == Ok::<HeaderChainChanges, HeaderSyncError>(
                HeaderChainChanges::Extended((anchor.height + hs.len() + rest.len()) as u32),
            ) && post.spec_headers() == hs + rest
        } else {
            r == Err::<HeaderChainChanges, HeaderSyncError>(HeaderSyncError::InvalidCheckpoint)
                && post.spec_headers() == hs
        }
    } else {
        if total_work(rest) > total_work(hs.skip(off2)) {
            if cps_ok(pre.spec_checkpoints(), anchor.height, hs.take(off2) + rest) {
                &&& r matches Ok(HeaderChainChanges::Reorg { height, hashes }) && height
                    == anchor.height + off2 + rest.len() && hashes@ == desc_hashes(hs.skip(off2))
                &&& post.spec_headers() == hs.take(off2) + rest
            } else {
                r == Err::<HeaderChainChanges, HeaderSyncError>(HeaderSyncError::InvalidCheckpoint)
                    && post.spec_headers() == hs
            }
        } else {
            &&& r matches Ok(HeaderChainChanges::ForkAdded { tip_height, tip_hash }) && tip_height
                == anchor.height + off2 + rest.len() && tip_hash == block_hash_of(rest.last())
            &&& post.spec_headers() == hs
        }
    }
}

/// The standing chain invariants, as one statement: a well-formed chain
/// is connected link by link, every header meets its own target, and
/// difficulty transitions stay within the permitted bounds.
pub proof fn lemma_chain_invariants(c: HeaderChain)
    requires
        c.wf(),
    ensures
        connected_seq(c.spec_headers()),
        all_pow_valid(c.spec_headers()),
        bits_adhere(c.spec_headers(), c.spec_params()),
        c.spec_headers().len() > 0 ==> c.spec_headers()[0].prev_blockhash
            == c.spec_anchor().hash,
{
}

/// `trim_len` never leaves the run or the chain.
pub proof fn lemma_trim_range(hs: Seq<Header>, off: int, b: Seq<Header>)
    requires
        0 <= off <= hs.len(),
    ensures
        0 <= trim_len(hs, off, b) <= b.len(),
        off + trim_len(hs, off, b) <= hs.len() || trim_len(hs, off, b) == b.len(),
    decreases b.len(),
{
    if b.len() > 0 && 0 <= off < hs.len() && hs[off] == b[0] {
        lemma_trim_range(hs, off + 1, b.skip(1));
    }
}

/// Peeling one more header off the bottom of a suffix appends its hash.
proof fn lemma_desc_unfold(s: Seq<Header>, k: int)
    requires
        1 <= k <= s.len(),
    ensures
        desc_hashes(s.skip(k - 1)) =~= desc_hashes(s.skip(k)) + seq![block_hash_of(s[k - 1])],
    decreases s.len(),
{
    if k == s.len() {
        assert(s.skip(k) =~= Seq::<Header>::empty());
        assert(s.skip(k - 1) =~= seq![s[k - 1]]);
        assert(s.skip(k - 1).drop_last() =~= Seq::<Header>::empty());
    } else {
        let dl = s.drop_last();
        lemma_desc_unfold(dl, k);
        assert(s.skip(k - 1).drop_last() =~= dl.skip(k - 1));
        assert(s.skip(k).drop_last() =~= dl.skip(k));
        assert(s.skip(k - 1).last() == s.last());
        assert(s.skip(k).last() == s.last());
        assert(dl[k - 1] == s[k - 1]);
    }
}

/// Summed work splits over concatenation.
proof fn lemma_total_work_concat(a: Seq<Header>, b: Seq<Header>)
    ensures
        total_work(a + b) == total_work(a) + total_work(b),
    decreases b.len(),
{
    if b.len() == 0 {
        assert(a + b =~= a);
    } else {
        lemma_total_work_concat(a, b.drop_last());
        assert((a + b).drop_last() =~= a + b.drop_last());
        assert((a + b).last() == b.last());
    }
}

} // verus!
