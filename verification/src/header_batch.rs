//! Sanity checks over a batch of headers received from one peer: the
//! expected response to a headers request is up to two thousand headers
//! that connect to one another, each meeting its own target, with
//! difficulty moving only within the permitted bounds.
use vstd::prelude::*;

use crate::hashes::{block_hash_of, pow_valid, Header};
use crate::pow::{max_transition_of, target_of_bits, max_transition_from_bits, Params};

verus! {

/// Every header after the first names the hash of its predecessor.
pub open spec fn connected_seq(s: Seq<Header>) -> bool {
    forall|i: int| 0 < i < s.len() ==> s[i].prev_blockhash == block_hash_of(s[i - 1])
}

/// Every header in the sequence meets its own target.
pub open spec fn all_pow_valid(s: Seq<Header>) -> bool {
    forall|i: int| 0 <= i < s.len() ==> pow_valid(s[i])
}

/// Between adjacent headers the target never rises past the transition
/// cap, unless the network allows minimum-difficulty blocks.
pub open spec fn bits_adhere(s: Seq<Header>, params: Params) -> bool {
    if params.allow_min_difficulty_blocks {
        true
    } else {
        forall|i: int|
            0 < i < s.len() ==> target_of_bits((#[trigger] s[i]).bits) <= max_transition_of(
                s[i - 1].bits,
                params,
            )
    }
}

/// A non-empty batch of headers from one peer.
pub struct HeadersBatch {
    batch: Vec<Header>,
}

/// The fault found in a would-be batch.
#[derive(Clone, Copy, Debug, PartialEq, Eq, Structural)]
pub enum HeadersBatchError {
    /// The peer sent no headers at all.
    EmptyVec,
}

impl View for HeadersBatch {
    type V = Seq<Header>;

    closed spec fn view(&self) -> Seq<Header> {
        self.batch@
    }
}

impl HeadersBatch {
    /// Wraps a vector of headers, rejecting an empty one.
    pub fn new(batch: Vec<Header>) -> (r: Result<Self, HeadersBatchError>)
        ensures
            batch@.len() == 0 <==> r == Result::<Self, HeadersBatchError>::Err(
                HeadersBatchError::EmptyVec,
            ),
            r is Err ==> batch@.len() == 0,
            r matches Ok(b) ==> b@ == batch@ && b@.len() > 0,
    {
        if batch.is_empty() {
            return Err(HeadersBatchError::EmptyVec);
        }
        Ok(HeadersBatch { batch })
    }

    /// The number of headers in the batch.
    pub fn len(&self) -> (n: usize)
        ensures
            n == self@.len(),
    {
        self.batch.len()
    }

    /// The header at position `i`.
    pub fn get(&self, i: usize) -> (h: Header)
        requires
            i < self@.len(),
        ensures
            h == self@[i as int],
    {
        self.batch[i]
    }

    /// Whether the headers are all logically connected.
    pub fn connected(&self) -> (r: bool)
        ensures
            r == connected_seq(self@),
    {
        let n = self.batch.len();
        let mut i: usize = 1;
        while i < n
            invariant
                1 <= i,
                n == self@.len(),
                i <= n || n <= 1,
                forall|j: int| 0 < j < i && j < n ==> self@[j].prev_blockhash == block_hash_of(self@[j - 1]),
            decreases n - i,
        {
            let expected = self.batch[i - 1].block_hash();
            if self.batch[i].prev_blockhash != expected {
                return false;
            }
            i = i + 1;
        }
        true
    }

    /// Whether every header meets its own target.
    pub fn individually_valid_pow(&self) -> (r: bool)
        ensures
            r == all_pow_valid(self@),
    {
        let n = self.batch.len();
        let mut i: usize = 0;
        while i < n
            invariant
                i <= n,
                n == self@.len(),
                forall|j: int| 0 <= j < i ==> pow_valid(self@[j]),
            decreases n - i,
        {
            if !self.batch[i].check_pow() {
                return false;
            }
            i = i + 1;
        }
        true
    }

    /// Whether the targets stay within the permitted transition bounds
    /// across the batch.
    pub fn bits_adhere_transition(&self, params: &Params) -> (r: bool)
        ensures
            r == bits_adhere(self@, *params),
    {
        if params.allow_min_difficulty_blocks {
            return true;
        }
        let n = self.batch.len();
        let mut i: usize = 1;
        while i < n
            invariant
                1 <= i,
                n == self@.len(),
                i <= n || n <= 1,
                !params.allow_min_difficulty_blocks,
                forall|j: int|
                    0 < j < i && j < n ==> target_of_bits(self@[j].bits) <= max_transition_of(
                        self@[j - 1].bits,
                        *params,
                    ),
            decreases n - i,
        {
            let cap = max_transition_from_bits(self.batch[i - 1].bits, params);
            let target = crate::pow::target_from_bits(self.batch[i].bits);
            if !target.le(&cap) {
                proof {
                    let k = i as int;
                    if bits_adhere(self@, *params) {
                        assert(target_of_bits(self@[k].bits) <= max_transition_of(
                            self@[k - 1].bits,
                            *params,
                        ));
                    }
                }
                return false;
            }
            i = i + 1;
        }
        true
    }

    /// The tip of the batch.
    pub fn last(&self) -> (h: Header)
        requires
            self@.len() > 0,
        ensures
            h == self@[self@.len() - 1],
    {
        self.batch[self.batch.len() - 1]
    }

    /// Gives the headers up for consumption, in order.
    pub fn into_vec(self) -> (v: Vec<Header>)
        ensures
            v@ == self@,
    {
        self.batch
    }
}

} // verus!
