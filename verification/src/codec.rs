//! Serializing outbound protocol messages. Each command the node sends
//! is framed by the reference V1 codec behind one trusted item whose
//! result is named, so callers' contracts can speak of the exact bytes;
//! the generator picks the right frame for each command of the
//! coordinator.
use vstd::prelude::*;

use crate::node::MainThreadMessage;
use crate::pow::Network;
use crate::types::{u256_bytes, BlockHash, U256};

verus! {

/// The network magic, as the little-endian word of its four wire bytes.
pub open spec fn magic_of(network: Network) -> u32 {
    match network {
        Network::Bitcoin => 0xD9B4BEF9,
        Network::Testnet => 0x0709110B,
        Network::Testnet4 => 0x283F161C,
        Network::Signet => 0x40CF030A,
        Network::Regtest => 0xDAB5BFFA,
    }
}

/// Computes the network magic word.
pub fn network_magic(network: &Network) -> (r: u32)
    ensures
        r == magic_of(*network),
{
    match network {
        Network::Bitcoin => 0xD9B4BEF9,
        Network::Testnet => 0x0709110B,
        Network::Testnet4 => 0x283F161C,
        Network::Signet => 0x40CF030A,
        Network::Regtest => 0xDAB5BFFA,
    }
}

/// The V1 frame of a ping with this nonce.
pub uninterp spec fn ping_frame_of(magic: u32, nonce: u64) -> Seq<u8>;

/// The V1 frame of a pong with this nonce.
pub uninterp spec fn pong_frame_of(magic: u32, nonce: u64) -> Seq<u8>;

/// The V1 frame of a verack.
pub uninterp spec fn verack_frame_of(magic: u32) -> Seq<u8>;

/// The V1 frame of a getaddr.
pub uninterp spec fn getaddr_frame_of(magic: u32) -> Seq<u8>;

/// The V1 frame of a sendaddrv2.
pub uninterp spec fn sendaddrv2_frame_of(magic: u32) -> Seq<u8>;

/// The V1 frame of a wtxidrelay.
pub uninterp spec fn wtxidrelay_frame_of(magic: u32) -> Seq<u8>;

/// The V1 frame of a getdata for one witness block.
pub uninterp spec fn getdata_block_frame_of(magic: u32, hash: Seq<u8>) -> Seq<u8>;

/// The V1 frame of a getheaders with these locator hashes.
pub uninterp spec fn get_headers_frame_of(magic: u32, locators: Seq<Seq<u8>>) -> Seq<u8>;

/// The V1 frame of a getcfheaders for this range.
pub uninterp spec fn get_cf_headers_frame_of(magic: u32, start_height: u32, stop_hash: Seq<u8>) -> Seq<u8>;

/// The V1 frame of a getcfilters for this range.
pub uninterp spec fn get_cf_filters_frame_of(magic: u32, start_height: u32, stop_hash: Seq<u8>) -> Seq<u8>;

/// The V1 frame of an inv announcing these witness transactions.
pub uninterp spec fn inv_wtx_frame_of(magic: u32, wtxids: Seq<Seq<u8>>) -> Seq<u8>;

/// The V1 frame of a tx carrying the transaction these bytes encode, or
/// nothing when they encode none.
pub uninterp spec fn tx_frame_of(magic: u32, raw: Seq<u8>) -> Option<Seq<u8>>;

/// Relies on `bitcoin::consensus::serialize` of a raw network message:
/// a function of the magic and the message fields alone.
#[verifier::external_body]
fn frame_ping(magic: u32, nonce: u64) -> (r: Vec<u8>)
    ensures
        r@ == ping_frame_of(magic, nonce),
{
    let m = bitcoin::p2p::Magic::from_bytes(magic.to_le_bytes());
    let msg = bitcoin::p2p::message::NetworkMessage::Ping(nonce);
    bitcoin::consensus::serialize(&bitcoin::p2p::message::RawNetworkMessage::new(m, msg))
}

/// Relies on `bitcoin::consensus::serialize` of a raw network message:
/// a function of the magic and the message fields alone.
#[verifier::external_body]
fn frame_pong(magic: u32, nonce: u64) -> (r: Vec<u8>)
    ensures
        r@ == pong_frame_of(magic, nonce),
{
    let m = bitcoin::p2p::Magic::from_bytes(magic.to_le_bytes());
    let msg = bitcoin::p2p::message::NetworkMessage::Pong(nonce);
    bitcoin::consensus::serialize(&bitcoin::p2p::message::RawNetworkMessage::new(m, msg))
}

/// Relies on `bitcoin::consensus::serialize` of a raw network message:
/// a function of the magic alone.
#[verifier::external_body]
fn frame_verack(magic: u32) -> (r: Vec<u8>)
    ensures
        r@ == verack_frame_of(magic),
{
    let m = bitcoin::p2p::Magic::from_bytes(magic.to_le_bytes());
    let msg = bitcoin::p2p::message::NetworkMessage::Verack;
    bitcoin::consensus::serialize(&bitcoin::p2p::message::RawNetworkMessage::new(m, msg))
}

/// Relies on `bitcoin::consensus::serialize` of a raw network message:
/// a function of the magic alone.
#[verifier::external_body]
fn frame_getaddr(magic: u32) -> (r: Vec<u8>)
    ensures
        r@ == getaddr_frame_of(magic),
{
    let m = bitcoin::p2p::Magic::from_bytes(magic.to_le_bytes());
    let msg = bitcoin::p2p::message::NetworkMessage::GetAddr;
    bitcoin::consensus::serialize(&bitcoin::p2p::message::RawNetworkMessage::new(m, msg))
}

/// Relies on `bitcoin::consensus::serialize` of a raw network message:
/// a function of the magic alone.
#[verifier::external_body]
fn frame_sendaddrv2(magic: u32) -> (r: Vec<u8>)
    ensures
        r@ == sendaddrv2_frame_of(magic),
{
    let m = bitcoin::p2p::Magic::from_bytes(magic.to_le_bytes());
    let msg = bitcoin::p2p::message::NetworkMessage::SendAddrV2;
    bitcoin::consensus::serialize(&bitcoin::p2p::message::RawNetworkMessage::new(m, msg))
}

/// Relies on `bitcoin::consensus::serialize` of a raw network message:
/// a function of the magic alone.
#[verifier::external_body]
fn frame_wtxidrelay(magic: u32) -> (r: Vec<u8>)
    ensures
        r@ == wtxidrelay_frame_of(magic),
{
    let m = bitcoin::p2p::Magic::from_bytes(magic.to_le_bytes());
    let msg = bitcoin::p2p::message::NetworkMessage::WtxidRelay;
    bitcoin::consensus::serialize(&bitcoin::p2p::message::RawNetworkMessage::new(m, msg))
}

/// Relies on `bitcoin::consensus::serialize` of a raw network message:
/// a function of the magic and the hash bytes alone.
#[verifier::external_body]
fn frame_getdata_block(magic: u32, hash: &Vec<u8>) -> (r: Vec<u8>)
    requires
        hash@.len() == 32,
    ensures
        r@ == getdata_block_frame_of(magic, hash@),
{
    let m = bitcoin::p2p::Magic::from_bytes(magic.to_le_bytes());
    let h = <bitcoin::BlockHash as bitcoin::hashes::Hash>::from_slice(hash).expect("32 bytes by precondition");
    let inv = bitcoin::p2p::message_blockdata::Inventory::WitnessBlock(h);
    let msg = bitcoin::p2p::message::NetworkMessage::GetData(vec![inv]);
    bitcoin::consensus::serialize(&bitcoin::p2p::message::RawNetworkMessage::new(m, msg))
}

/// Relies on `bitcoin::consensus::serialize` of a raw network message:
/// a function of the magic and the locator hash bytes alone.
#[verifier::external_body]
fn frame_get_headers(magic: u32, locators: &Vec<Vec<u8>>) -> (r: Vec<u8>)
    requires
        forall|i: int| 0 <= i < locators@.len() ==> (#[trigger] locators@[i])@.len() == 32,
    ensures
        r@ == get_headers_frame_of(magic, locators@.map_values(|v: Vec<u8>| v@)),
{
    let m = bitcoin::p2p::Magic::from_bytes(magic.to_le_bytes());
    let locator_hashes = locators
        .iter()
        .map(|v| <bitcoin::BlockHash as bitcoin::hashes::Hash>::from_slice(v).expect("32 bytes by precondition"))
        .collect();
    let msg = bitcoin::p2p::message::NetworkMessage::GetHeaders(
        bitcoin::p2p::message_blockdata::GetHeadersMessage {
            version: crate::node::WTXID_VERSION,
            locator_hashes,
            stop_hash: <bitcoin::BlockHash as bitcoin::hashes::Hash>::all_zeros(),
        },
    );
    bitcoin::consensus::serialize(&bitcoin::p2p::message::RawNetworkMessage::new(m, msg))
}

/// Relies on `bitcoin::consensus::serialize` of a raw network message:
/// a function of the magic, the height and the stop hash bytes alone.
#[verifier::external_body]
fn frame_get_cf_headers(magic: u32, start_height: u32, stop_hash: &Vec<u8>) -> (r: Vec<u8>)
    requires
        stop_hash@.len() == 32,
    ensures
        r@ == get_cf_headers_frame_of(magic, start_height, stop_hash@),
{
    let m = bitcoin::p2p::Magic::from_bytes(magic.to_le_bytes());
    let msg = bitcoin::p2p::message::NetworkMessage::GetCFHeaders(
        bitcoin::p2p::message_filter::GetCFHeaders {
            filter_type: 0,
            start_height,
            stop_hash: <bitcoin::BlockHash as bitcoin::hashes::Hash>::from_slice(stop_hash).expect("32 bytes by precondition"),
        },
    );
    bitcoin::consensus::serialize(&bitcoin::p2p::message::RawNetworkMessage::new(m, msg))
}

/// Relies on `bitcoin::consensus::serialize` of a raw network message:
/// a function of the magic, the height and the stop hash bytes alone.
#[verifier::external_body]
fn frame_get_cf_filters(magic: u32, start_height: u32, stop_hash: &Vec<u8>) -> (r: Vec<u8>)
    requires
        stop_hash@.len() == 32,
    ensures
        r@ == get_cf_filters_frame_of(magic, start_height, stop_hash@),
{
    let m = bitcoin::p2p::Magic::from_bytes(magic.to_le_bytes());
    let msg = bitcoin::p2p::message::NetworkMessage::GetCFilters(
        bitcoin::p2p::message_filter::GetCFilters {
            filter_type: 0,
            start_height,
            stop_hash: <bitcoin::BlockHash as bitcoin::hashes::Hash>::from_slice(stop_hash).expect("32 bytes by precondition"),
        },
    );
    bitcoin::consensus::serialize(&bitcoin::p2p::message::RawNetworkMessage::new(m, msg))
}

/// Relies on `bitcoin::consensus::serialize` of a raw network message:
/// a function of the magic and the witness transaction id bytes alone.
#[verifier::external_body]
fn frame_inv_wtx(magic: u32, wtxids: &Vec<Vec<u8>>) -> (r: Vec<u8>)
    requires
        forall|i: int| 0 <= i < wtxids@.len() ==> (#[trigger] wtxids@[i])@.len() == 32,
    ensures
        r@ == inv_wtx_frame_of(magic, wtxids@.map_values(|v: Vec<u8>| v@)),
{
    let m = bitcoin::p2p::Magic::from_bytes(magic.to_le_bytes());
    let items = wtxids
        .iter()
        .map(|v| {
            bitcoin::p2p::message_blockdata::Inventory::WTx(
                <bitcoin::Wtxid as bitcoin::hashes::Hash>::from_slice(v).expect("32 bytes by precondition"),
            )
        })
        .collect();
    let msg = bitcoin::p2p::message::NetworkMessage::Inv(items);
    bitcoin::consensus::serialize(&bitcoin::p2p::message::RawNetworkMessage::new(m, msg))
}

/// Relies on `bitcoin::consensus::deserialize` and `serialize`: whether
/// the bytes decode to a transaction, and the frame carrying it, are
/// functions of the magic and the bytes alone.
#[verifier::external_body]
fn frame_tx(magic: u32, raw: &Vec<u8>) -> (r: Option<Vec<u8>>)
    ensures
        match r {
            Some(b) => tx_frame_of(magic, raw@) == Some(b@),
            None => tx_frame_of(magic, raw@) is None,
        },
{
    let m = bitcoin::p2p::Magic::from_bytes(magic.to_le_bytes());
    let tx: bitcoin::Transaction = match bitcoin::consensus::deserialize(raw) {
        Ok(t) => t,
        Err(_) => {
            return None;
        },
    };
    let msg = bitcoin::p2p::message::NetworkMessage::Tx(tx);
    Some(bitcoin::consensus::serialize(&bitcoin::p2p::message::RawNetworkMessage::new(m, msg)))
}

/// Copies the 32-byte little-endian encoding of a hash.
fn hash_bytes_vec(h: &U256) -> (v: Vec<u8>)
    ensures
        v@ =~= u256_bytes(*h),
        v@.len() == 32,
{
    let mut v: Vec<u8> = Vec::new();
    h.write_le(&mut v);
    v
}

/// Serializes the coordinator's outbound commands for one network.
pub struct MessageGenerator {
    /// The network whose magic frames every message.
    pub network: Network,
}

impl MessageGenerator {
    /// A generator for `network`.
    pub fn new(network: Network) -> (r: MessageGenerator)
        ensures
            r.network == network,
    {
        MessageGenerator { network }
    }

    /// The frame of a ping.
    pub fn ping(&self, nonce: u64) -> (r: Vec<u8>)
        ensures
            r@ == ping_frame_of(magic_of(self.network), nonce),
    {
        frame_ping(network_magic(&self.network), nonce)
    }

    /// The frame of a pong.
    pub fn pong(&self, nonce: u64) -> (r: Vec<u8>)
        ensures
            r@ == pong_frame_of(magic_of(self.network), nonce),
    {
        frame_pong(network_magic(&self.network), nonce)
    }

    /// The frame of a getheaders with these locators.
    pub fn headers(&self, locators: &Vec<BlockHash>) -> (r: Vec<u8>)
        ensures
            r@ == get_headers_frame_of(
                magic_of(self.network),
                locators@.map_values(|h: BlockHash| u256_bytes(h)),
            ),
    {
        let n = locators.len();
        let mut bytes: Vec<Vec<u8>> = Vec::new();
        let mut i: usize = 0;
        while i < n
            invariant
                i <= n,
                n == locators@.len(),
                bytes@.len() == i,
                forall|j: int|
                    0 <= j < i ==> (#[trigger] bytes@[j])@ == u256_bytes(locators@[j]),
                forall|j: int| 0 <= j < i ==> (#[trigger] bytes@[j])@.len() == 32,
            decreases n - i,
        {
            let v = hash_bytes_vec(&locators[i]);
            bytes.push(v);
            i = i + 1;
        }
        proof {
            assert(bytes@.map_values(|v: Vec<u8>| v@) =~= locators@.map_values(
                |h: BlockHash| u256_bytes(h),
            ));
        }
        frame_get_headers(network_magic(&self.network), &bytes)
    }

    /// The frame of a getcfheaders.
    pub fn cf_headers(&self, start_height: u32, stop_hash: &BlockHash) -> (r: Vec<u8>)
        ensures
            r@ == get_cf_headers_frame_of(
                magic_of(self.network),
                start_height,
                u256_bytes(*stop_hash),
            ),
    {
        let v = hash_bytes_vec(stop_hash);
        frame_get_cf_headers(network_magic(&self.network), start_height, &v)
    }

    /// The frame of a getcfilters.
    pub fn filters(&self, start_height: u32, stop_hash: &BlockHash) -> (r: Vec<u8>)
        ensures
            r@ == get_cf_filters_frame_of(
                magic_of(self.network),
                start_height,
                u256_bytes(*stop_hash),
            ),
    {
        let v = hash_bytes_vec(stop_hash);
        frame_get_cf_filters(network_magic(&self.network), start_height, &v)
    }

    /// The frame of a getdata for one witness block.
    pub fn block(&self, hash: &BlockHash) -> (r: Vec<u8>)
        ensures
            r@ == getdata_block_frame_of(magic_of(self.network), u256_bytes(*hash)),
    {
        let v = hash_bytes_vec(hash);
        frame_getdata_block(network_magic(&self.network), &v)
    }

    /// The frame of a verack.
    pub fn verack(&self) -> (r: Vec<u8>)
        ensures
            r@ == verack_frame_of(magic_of(self.network)),
    {
        frame_verack(network_magic(&self.network))
    }

    /// The frame of a getaddr.
    pub fn getaddr(&self) -> (r: Vec<u8>)
        ensures
            r@ == getaddr_frame_of(magic_of(self.network)),
    {
        frame_getaddr(network_magic(&self.network))
    }

    /// The frame of a sendaddrv2.
    pub fn sendaddrv2(&self) -> (r: Vec<u8>)
        ensures
            r@ == sendaddrv2_frame_of(magic_of(self.network)),
    {
        frame_sendaddrv2(network_magic(&self.network))
    }

    /// The frame of a wtxidrelay.
    pub fn wtxidrelay(&self) -> (r: Vec<u8>)
        ensures
            r@ == wtxidrelay_frame_of(magic_of(self.network)),
    {
        frame_wtxidrelay(network_magic(&self.network))
    }

    /// The frame of an inv announcing witness transactions.
    pub fn announce_transactions(&self, wtxids: &Vec<U256>) -> (r: Vec<u8>)
        ensures
            r@ == inv_wtx_frame_of(
                magic_of(self.network),
                wtxids@.map_values(|h: U256| u256_bytes(h)),
            ),
    {
        let n = wtxids.len();
        let mut bytes: Vec<Vec<u8>> = Vec::new();
        let mut i: usize = 0;
        while i < n
            invariant
                i <= n,
                n == wtxids@.len(),
                bytes@.len() == i,
                forall|j: int| 0 <= j < i ==> (#[trigger] bytes@[j])@ == u256_bytes(wtxids@[j]),
                forall|j: int| 0 <= j < i ==> (#[trigger] bytes@[j])@.len() == 32,
            decreases n - i,
        {
            let v = hash_bytes_vec(&wtxids[i]);
            bytes.push(v);
            i = i + 1;
        }
        proof {
            assert(bytes@.map_values(|v: Vec<u8>| v@) =~= wtxids@.map_values(
                |h: U256| u256_bytes(h),
            ));
        }
        frame_inv_wtx(network_magic(&self.network), &bytes)
    }

    /// The frame of a tx carrying these raw transaction bytes, or
    /// nothing when they encode no transaction.
    pub fn broadcast_transaction(&self, raw: &Vec<u8>) -> (r: Option<Vec<u8>>)
        ensures
            match r {
                Some(b) => tx_frame_of(magic_of(self.network), raw@) == Some(b@),
                None => tx_frame_of(magic_of(self.network), raw@) is None,
            },
    {
        frame_tx(network_magic(&self.network), raw)
    }

    /// The frame for one coordinator command: every command that goes on
    /// the wire gets its exact frame; a disconnect or a pending-broadcast
    /// signal puts nothing on the wire.
    pub fn serialize(&self, m: &MainThreadMessage) -> (r: Option<Vec<u8>>)
        ensures
            m matches MainThreadMessage::GetHeaders { locators } ==> (r matches Some(b) && b@
                == get_headers_frame_of(
                magic_of(self.network),
                locators@.map_values(|h: BlockHash| u256_bytes(h)),
            )),
            m matches MainThreadMessage::GetFilterHeaders { start_height, stop_hash } ==> (r
                matches Some(b) && b@ == get_cf_headers_frame_of(
                magic_of(self.network),
                *start_height,
                u256_bytes(*stop_hash),
            )),
            m matches MainThreadMessage::GetFilters { start_height, stop_hash } ==> (r matches Some(
                b,
            ) && b@ == get_cf_filters_frame_of(
                magic_of(self.network),
                *start_height,
                u256_bytes(*stop_hash),
            )),
            m matches MainThreadMessage::GetBlock(hash) ==> (r matches Some(b) && b@
                == getdata_block_frame_of(magic_of(self.network), u256_bytes(*hash))),
            m is Verack ==> (r matches Some(b) && b@ == verack_frame_of(magic_of(self.network))),
            m is GetAddr ==> (r matches Some(b) && b@ == getaddr_frame_of(magic_of(self.network))),
            m is GetAddrV2 ==> (r matches Some(b) && b@ == sendaddrv2_frame_of(
                magic_of(self.network),
            )),
            m is WtxidRelay ==> (r matches Some(b) && b@ == wtxidrelay_frame_of(
                magic_of(self.network),
            )),
            m is Disconnect || m is BroadcastPending ==> r is None,
    {
        match m {
            MainThreadMessage::GetHeaders { locators } => Some(self.headers(locators)),
            MainThreadMessage::GetFilterHeaders { start_height, stop_hash } => Some(
                self.cf_headers(*start_height, stop_hash),
            ),
            MainThreadMessage::GetFilters { start_height, stop_hash } => Some(
                self.filters(*start_height, stop_hash),
            ),
            MainThreadMessage::GetBlock(hash) => Some(self.block(hash)),
            MainThreadMessage::Verack => Some(self.verack()),
            MainThreadMessage::GetAddr => Some(self.getaddr()),
            MainThreadMessage::GetAddrV2 => Some(self.sendaddrv2()),
            MainThreadMessage::WtxidRelay => Some(self.wtxidrelay()),
            MainThreadMessage::Disconnect => None,
            MainThreadMessage::BroadcastPending => None,
        }
    }
}

} // verus!
