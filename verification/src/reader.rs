//! Turning decoded protocol messages into the events the node acts on,
//! with the bounds the protocol demands: oversized inventories, header
//! batches or address gossip, a negative fee filter and unknown commands
//! all disconnect the peer.
use vstd::prelude::*;

use crate::hashes::Header;
use crate::messages::{
    AddrEntry, InventoryItem, NetMessage, ReaderMessage, SERVICE_COMPACT_FILTERS, SERVICE_NETWORK,
};
use crate::types::{BlockHash, U256};

verus! {

/// The most address entries one message may carry.
pub const MAX_ADDR: usize = 1000;

/// The most inventory entries one message may carry.
pub const MAX_INV: usize = 50000;

/// The most headers one message may carry.
pub const MAX_HEADERS: usize = 2000;

/// The block hash an inventory entry announces, if any.
pub open spec fn inv_block_hash(item: InventoryItem) -> Option<BlockHash> {
    match item {
        InventoryItem::Block(h) => Some(h),
        InventoryItem::CompactBlock(h) => Some(h),
        InventoryItem::WitnessBlock(h) => Some(h),
        _ => None,
    }
}

/// The block hashes an inventory announces, in order.
pub open spec fn block_hashes_of(items: Seq<InventoryItem>) -> Seq<BlockHash>
    decreases items.len(),
{
    if items.len() == 0 {
        Seq::empty()
    } else {
        let rest = block_hashes_of(items.drop_last());
        match inv_block_hash(items.last()) {
            Some(h) => rest.push(h),
            None => rest,
        }
    }
}

/// The witness transaction ids a getdata requests, in order.
pub open spec fn wtx_requests_of(items: Seq<InventoryItem>) -> Seq<U256>
    decreases items.len(),
{
    if items.len() == 0 {
        Seq::empty()
    } else {
        let rest = wtx_requests_of(items.drop_last());
        match items.last() {
            InventoryItem::WTx(id) => rest.push(id),
            _ => rest,
        }
    }
}

/// Whether a gossiped address serves both the network and compact filters.
pub open spec fn useful_addr(e: AddrEntry) -> bool {
    &&& e.services & SERVICE_NETWORK == SERVICE_NETWORK
    &&& e.services & SERVICE_COMPACT_FILTERS == SERVICE_COMPACT_FILTERS
}

/// The gossiped addresses worth keeping, in order.
pub open spec fn useful_addrs_of(entries: Seq<AddrEntry>) -> Seq<AddrEntry>
    decreases entries.len(),
{
    if entries.len() == 0 {
        Seq::empty()
    } else {
        let rest = useful_addrs_of(entries.drop_last());
        if useful_addr(entries.last()) {
            rest.push(entries.last())
        } else {
            rest
        }
    }
}

/// Classifies one decoded message, enforcing the protocol bounds: the
/// result is `Disconnect` exactly when the message is an oversized
/// inventory, an oversized header batch, oversized address gossip, a
/// negative fee filter, or an unknown command.
pub fn parse_message(message: NetMessage) -> (r: Option<ReaderMessage>)
    ensures
        message matches NetMessage::Version(v) ==> (r matches Some(m) && m
            == ReaderMessage::Version(v)),
        message is Verack ==> (r matches Some(m) && m is Verack),
        message matches NetMessage::Inv(items) ==> {
            if items@.len() > MAX_INV {
                r matches Some(m) && m is Disconnect
            } else if block_hashes_of(items@).len() > 0 {
                r matches Some(m) && m matches ReaderMessage::NewBlocks(hashes) && hashes@
                    == block_hashes_of(items@)
            } else {
                r is None
            }
        },
        message matches NetMessage::GetData(items) ==> (r matches Some(m) && m
            matches ReaderMessage::TxRequests(ids) && ids@ == wtx_requests_of(items@)),
        message matches NetMessage::Block(b) ==> (r matches Some(m) && m
            == ReaderMessage::Block(b)),
        message matches NetMessage::Headers(hs) ==> {
            if hs@.len() > MAX_HEADERS {
                r matches Some(m) && m is Disconnect
            } else {
                r matches Some(m) && m matches ReaderMessage::Headers(out) && out@ == hs@
            }
        },
        message matches NetMessage::Ping(n) ==> (r matches Some(m) && m
            == ReaderMessage::Ping(n)),
        message matches NetMessage::Pong(n) ==> (r matches Some(m) && m
            == ReaderMessage::Pong(n)),
        message matches NetMessage::CFilter(f) ==> (r matches Some(m) && m
            matches ReaderMessage::Filter(out) && out == f),
        message matches NetMessage::CFHeaders(c) ==> (r matches Some(m) && m
            matches ReaderMessage::FilterHeaders(out) && out == c),
        message matches NetMessage::Reject(p) ==> (r matches Some(m) && m
            == ReaderMessage::Reject(p)),
        message matches NetMessage::FeeFilter(i) ==> {
            if i < 0 {
                r matches Some(m) && m is Disconnect
            } else {
                r matches Some(m) && m == ReaderMessage::FeeFilter((i as u64) / 4)
            }
        },
        message matches NetMessage::AddrV2(entries) ==> {
            if entries@.len() > MAX_ADDR {
                r matches Some(m) && m is Disconnect
            } else if useful_addrs_of(entries@).len() > 0 {
                r matches Some(m) && m matches ReaderMessage::Addr(out) && out@ == useful_addrs_of(
                    entries@,
                )
            } else {
                r is None
            }
        },
        message is Unknown ==> (r matches Some(m) && m is Disconnect),
        message is Addr || message is NotFound || message is GetBlocks || message is GetHeaders
            || message is MemPool || message is Tx || message is SendHeaders || message is GetAddr
            || message is MerkleBlock || message is FilterLoad || message is FilterAdd || message
            is FilterClear || message is GetCFilters || message is GetCFHeaders || message
            is GetCFCheckpt || message is CFCheckpt || message is SendCmpct || message
            is CmpctBlock || message is GetBlockTxn || message is BlockTxn || message is Alert
            || message is WtxidRelay || message is SendAddrV2 ==> r is None,
{
    match message {
        NetMessage::Version(version) => Some(ReaderMessage::Version(version)),
        NetMessage::Verack => Some(ReaderMessage::Verack),
        // Peers gossiping legacy addresses are too old to serve filters.
        NetMessage::Addr => None,
        NetMessage::Inv(inventory) => {
            if inventory.len() > MAX_INV {
                return Some(ReaderMessage::Disconnect);
            }
            let n = inventory.len();
            let mut hashes: Vec<BlockHash> = Vec::new();
            let mut i: usize = 0;
            while i < n
                invariant
                    i <= n,
                    n == inventory@.len(),
                    hashes@ =~= block_hashes_of(inventory@.take(i as int)),
                decreases n - i,
            {
                match inventory[i] {
                    InventoryItem::Block(hash) => hashes.push(hash),
                    InventoryItem::CompactBlock(hash) => hashes.push(hash),
                    InventoryItem::WitnessBlock(hash) => hashes.push(hash),
                    _ => {},
                }
                proof {
                    assert(inventory@.take(i + 1).drop_last() =~= inventory@.take(i as int));
                    assert(inventory@.take(i + 1).last() == inventory@[i as int]);
                }
                i = i + 1;
            }
            proof {
                assert(inventory@.take(n as int) =~= inventory@);
            }
            if !hashes.is_empty() {
                Some(ReaderMessage::NewBlocks(hashes))
            } else {
                None
            }
        },
        NetMessage::GetData(inventory) => {
            let n = inventory.len();
            let mut requests: Vec<U256> = Vec::new();
            let mut i: usize = 0;
            while i < n
                invariant
                    i <= n,
                    n == inventory@.len(),
                    requests@ =~= wtx_requests_of(inventory@.take(i as int)),
                decreases n - i,
            {
                match inventory[i] {
                    InventoryItem::WTx(wtxid) => requests.push(wtxid),
                    _ => {},
                }
                proof {
                    assert(inventory@.take(i + 1).drop_last() =~= inventory@.take(i as int));
                    assert(inventory@.take(i + 1).last() == inventory@[i as int]);
                }
                i = i + 1;
            }
            proof {
                assert(inventory@.take(n as int) =~= inventory@);
            }
            Some(ReaderMessage::TxRequests(requests))
        },
        NetMessage::NotFound => None,
        NetMessage::GetBlocks => None,
        NetMessage::GetHeaders => None,
        NetMessage::MemPool => None,
        NetMessage::Tx => None,
        NetMessage::Block(block) => Some(ReaderMessage::Block(block)),
        NetMessage::Headers(headers) => {
            if headers.len() > MAX_HEADERS {
                return Some(ReaderMessage::Disconnect);
            }
            Some(ReaderMessage::Headers(headers))
        },
        NetMessage::SendHeaders => None,
        NetMessage::GetAddr => None,
        NetMessage::Ping(nonce) => Some(ReaderMessage::Ping(nonce)),
        NetMessage::Pong(nonce) => Some(ReaderMessage::Pong(nonce)),
        NetMessage::MerkleBlock => None,
        NetMessage::FilterLoad => None,
        NetMessage::FilterAdd => None,
        NetMessage::FilterClear => None,
        NetMessage::GetCFilters => None,
        NetMessage::CFilter(filter) => Some(ReaderMessage::Filter(filter)),
        NetMessage::GetCFHeaders => None,
        NetMessage::CFHeaders(cf_headers) => Some(ReaderMessage::FilterHeaders(cf_headers)),
        NetMessage::GetCFCheckpt => None,
        NetMessage::CFCheckpt => None,
        NetMessage::SendCmpct => None,
        NetMessage::CmpctBlock => None,
        NetMessage::GetBlockTxn => None,
        NetMessage::BlockTxn => None,
        NetMessage::Alert => None,
        NetMessage::Reject(rejection) => Some(ReaderMessage::Reject(rejection)),
        NetMessage::FeeFilter(i) => {
            if i < 0 {
                Some(ReaderMessage::Disconnect)
            } else {
                // The cast is safe: non-negative i64 always fits in u64.
                Some(ReaderMessage::FeeFilter((i as u64) / 4))
            }
        },
        NetMessage::WtxidRelay => None,
        NetMessage::AddrV2(addresses) => {
            if addresses.len() > MAX_ADDR {
                return Some(ReaderMessage::Disconnect);
            }
            let n = addresses.len();
            let mut kept: Vec<AddrEntry> = Vec::new();
            let mut i: usize = 0;
            while i < n
                invariant
                    i <= n,
                    n == addresses@.len(),
                    kept@ =~= useful_addrs_of(addresses@.take(i as int)),
                decreases n - i,
            {
                let services = addresses[i].services;
                if services & SERVICE_NETWORK == SERVICE_NETWORK && services
                    & SERVICE_COMPACT_FILTERS == SERVICE_COMPACT_FILTERS {
                    kept.push(addresses[i]);
                }
                proof {
                    assert(addresses@.take(i + 1).drop_last() =~= addresses@.take(i as int));
                    assert(addresses@.take(i + 1).last() == addresses@[i as int]);
                }
                i = i + 1;
            }
            proof {
                assert(addresses@.take(n as int) =~= addresses@);
            }
            if kept.is_empty() {
                return None;
            }
            Some(ReaderMessage::Addr(kept))
        },
        NetMessage::SendAddrV2 => None,
        NetMessage::Unknown => Some(ReaderMessage::Disconnect),
    }
}

/// The tag of a request whose answer the peer owes within the response
/// window.
#[derive(Clone, Copy, Debug, PartialEq, Eq, Structural)]
pub enum TimeSensitiveId {
    /// A headers request.
    HeaderMsg,
    /// A filter headers request.
    CfHeaderMsg,
    /// A filter request.
    CFilterMsg,
    /// A ping.
    Ping,
    /// A request for one block.
    Block(BlockHash),
}

impl ReaderMessage {
    /// The request this inbound message answers, if it answers one.
    pub fn time_sensitive_message_received(&self) -> (r: Option<TimeSensitiveId>)
        ensures
            self is Headers ==> r == Some(TimeSensitiveId::HeaderMsg),
            self is FilterHeaders ==> r == Some(TimeSensitiveId::CfHeaderMsg),
            self is Filter ==> r == Some(TimeSensitiveId::CFilterMsg),
            self is Pong ==> r == Some(TimeSensitiveId::Ping),
            self matches ReaderMessage::Block(b) ==> r == Some(TimeSensitiveId::Block(b.hash)),
            !(self is Headers || self is FilterHeaders || self is Filter || self is Pong || self
                is Block) ==> r is None,
    {
        match self {
            ReaderMessage::Headers(_) => Some(TimeSensitiveId::HeaderMsg),
            ReaderMessage::FilterHeaders(_) => Some(TimeSensitiveId::CfHeaderMsg),
            ReaderMessage::Filter(_) => Some(TimeSensitiveId::CFilterMsg),
            ReaderMessage::Pong(_) => Some(TimeSensitiveId::Ping),
            ReaderMessage::Block(b) => Some(TimeSensitiveId::Block(b.hash)),
            _ => None,
        }
    }
}

} // verus!
