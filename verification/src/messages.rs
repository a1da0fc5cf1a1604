//! Plain-value models of the wire messages the node consumes and
//! produces. Each carries exactly what the node's logic reads of the
//! corresponding protocol message.
use vstd::prelude::*;

use crate::hashes::Header;
use crate::types::{BlockHash, FilterHash, FilterHeader, U256};

verus! {

/// The service bit a network-serving peer advertises.
pub const SERVICE_NETWORK: u64 = 1;

/// The service bit a compact-filter-serving peer advertises.
pub const SERVICE_COMPACT_FILTERS: u64 = 64;

/// What the node reads of a peer's version message.
#[derive(Clone, Copy, Debug, PartialEq, Eq, Structural)]
pub struct VersionInfo {
    /// The peer's protocol version.
    pub version: u32,
    /// The peer's advertised service flags.
    pub services: u64,
    /// The peer's advertised chain height.
    pub start_height: i32,
}

/// One gossiped peer address, its bytes held in a fixed 256-bit slot:
/// no network the message carries addresses for needs more than 32 bytes.
#[derive(Clone, Copy, Debug, PartialEq, Eq, Structural)]
pub struct AddrEntry {
    /// The advertised service flags.
    pub services: u64,
    /// The address network identifier byte.
    pub network_id: u8,
    /// The address bytes, leading bytes of the slot.
    pub addr: U256,
    /// How many bytes of the slot the address occupies.
    pub addr_len: u8,
    /// The advertised port.
    pub port: u16,
}

/// One inventory vector entry.
#[derive(Clone, Copy, Debug, PartialEq, Eq, Structural)]
pub enum InventoryItem {
    /// A plain block announcement.
    Block(BlockHash),
    /// A compact block announcement.
    CompactBlock(BlockHash),
    /// A witness block announcement.
    WitnessBlock(BlockHash),
    /// A witness transaction request.
    WTx(U256),
    /// Anything the node does not act on.
    Other,
}

/// What the node reads of a block another peer delivered.
#[derive(Clone, Copy, Debug, PartialEq, Eq, Structural)]
pub struct BlockSummary {
    /// The hash of the block's header.
    pub hash: BlockHash,
    /// Whether the header's merkle root commits to the transactions.
    pub merkle_ok: bool,
}

/// What the node reads of a compact filter message.
#[derive(Clone, Debug, PartialEq, Eq)]
pub struct CFilterMsg {
    /// The hash of the block the filter is for.
    pub block_hash: BlockHash,
    /// The serialized filter contents.
    pub filter: Vec<u8>,
}

/// What the node reads of a compact filter headers message.
#[derive(Clone, Debug, PartialEq, Eq)]
pub struct CFHeadersMsg {
    /// The hash of the last block the message covers.
    pub stop_hash: BlockHash,
    /// The filter header the hashes chain from.
    pub previous_filter_header: FilterHeader,
    /// The filter hashes, by ascending height.
    pub filter_hashes: Vec<FilterHash>,
}

/// What the node reads of a transaction rejection.
#[derive(Clone, Copy, Debug, PartialEq, Eq, Structural)]
pub struct RejectPayload {
    /// The rejection code the peer gave, as its wire byte.
    pub ccode: u8,
    /// The witness transaction id the rejection names.
    pub wtxid: U256,
}

/// An inbound protocol message, decoded, with plain payloads.
pub enum NetMessage {
    Version(VersionInfo),
    Verack,
    Addr,
    Inv(Vec<InventoryItem>),
    GetData(Vec<InventoryItem>),
    NotFound,
    GetBlocks,
    GetHeaders,
    MemPool,
    Tx,
    Block(BlockSummary),
    Headers(Vec<Header>),
    SendHeaders,
    GetAddr,
    Ping(u64),
    Pong(u64),
    MerkleBlock,
    FilterLoad,
    FilterAdd,
    FilterClear,
    GetCFilters,
    CFilter(CFilterMsg),
    GetCFHeaders,
    CFHeaders(CFHeadersMsg),
    GetCFCheckpt,
    CFCheckpt,
    SendCmpct,
    CmpctBlock,
    GetBlockTxn,
    BlockTxn,
    Alert,
    Reject(RejectPayload),
    FeeFilter(i64),
    WtxidRelay,
    AddrV2(Vec<AddrEntry>),
    SendAddrV2,
    Unknown,
}

/// What the reader hands the node for one inbound message.
pub enum ReaderMessage {
    Version(VersionInfo),
    Addr(Vec<AddrEntry>),
    Headers(Vec<Header>),
    FilterHeaders(CFHeadersMsg),
    Filter(CFilterMsg),
    Block(BlockSummary),
    NewBlocks(Vec<BlockHash>),
    Reject(RejectPayload),
    Disconnect,
    Verack,
    Ping(u64),
    Pong(u64),
    /// A fee floor in satoshis per thousand weight units.
    FeeFilter(u64),
    TxRequests(Vec<U256>),
}

} // verus!
