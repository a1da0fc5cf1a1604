//! Core logic of a compact block filter light client: header chain
//! maintenance with reorganizations, compact filter header auditing,
//! filter matching against a watched script set, a content-addressed
//! block request queue, message bounds enforcement, and the coordinator
//! state machine that sequences synchronization across peers.
pub mod block_queue;
pub mod cf_chain;
pub mod chain;
pub mod codec;
pub mod hashes;
pub mod header_batch;
pub mod messages;
pub mod node;
pub mod pow;
pub mod reader;
pub mod types;

use vstd::prelude::*;

verus! {

} // verus!
