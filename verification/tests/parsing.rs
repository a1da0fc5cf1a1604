//! Message bound enforcement and codec cross-checks.
use kyoto::hashes::Header;
use kyoto::messages::{AddrEntry, InventoryItem, NetMessage, ReaderMessage};
use kyoto::reader::parse_message;
use kyoto::types::U256;

fn zero_hash() -> U256 {
    U256 { w0: 0, w1: 0, w2: 0, w3: 0 }
}

fn dummy_header() -> Header {
    Header {
        version: 4,
        prev_blockhash: zero_hash(),
        merkle_root: zero_hash(),
        time: 0,
        bits: 0x207FFFFF,
        nonce: 0,
    }
}

#[test]
fn oversized_inventory_disconnects() {
    let items = vec![InventoryItem::Block(zero_hash()); 50_001];
    let r = parse_message(NetMessage::Inv(items));
    assert!(matches!(r, Some(ReaderMessage::Disconnect)));
}

#[test]
fn inventory_at_limit_is_kept() {
    let items = vec![InventoryItem::Block(zero_hash()); 50_000];
    let r = parse_message(NetMessage::Inv(items));
    match r {
        Some(ReaderMessage::NewBlocks(hashes)) => assert_eq!(hashes.len(), 50_000),
        _ => panic!("expected new blocks"),
    }
}

#[test]
fn oversized_headers_disconnect() {
    let headers = vec![dummy_header(); 2_001];
    let r = parse_message(NetMessage::Headers(headers));
    assert!(matches!(r, Some(ReaderMessage::Disconnect)));
}

#[test]
fn headers_at_limit_are_kept() {
    let headers = vec![dummy_header(); 2_000];
    let r = parse_message(NetMessage::Headers(headers));
    match r {
        Some(ReaderMessage::Headers(h)) => assert_eq!(h.len(), 2_000),
        _ => panic!("expected headers"),
    }
}

#[test]
fn oversized_addr_gossip_disconnects() {
    let entry = AddrEntry { services: 65, network_id: 1, addr: zero_hash(), addr_len: 4, port: 8333 };
    let entries = vec![entry; 1_001];
    let r = parse_message(NetMessage::AddrV2(entries));
    assert!(matches!(r, Some(ReaderMessage::Disconnect)));
}

#[test]
fn addr_gossip_filters_by_services() {
    let good = AddrEntry { services: 65, network_id: 1, addr: zero_hash(), addr_len: 4, port: 8333 };
    let no_filters = AddrEntry { services: 1, network_id: 1, addr: zero_hash(), addr_len: 4, port: 8333 };
    let r = parse_message(NetMessage::AddrV2(vec![no_filters, good.clone(), no_filters]));
    match r {
        Some(ReaderMessage::Addr(kept)) => {
            assert_eq!(kept.len(), 1);
            assert_eq!(kept[0], good);
        },
        _ => panic!("expected kept addresses"),
    }
}

#[test]
fn addr_gossip_with_no_useful_peer_is_dropped() {
    let no_filters = AddrEntry { services: 1, network_id: 1, addr: zero_hash(), addr_len: 4, port: 8333 };
    let r = parse_message(NetMessage::AddrV2(vec![no_filters]));
    assert!(r.is_none());
}

#[test]
fn negative_feefilter_disconnects() {
    let r = parse_message(NetMessage::FeeFilter(-1));
    assert!(matches!(r, Some(ReaderMessage::Disconnect)));
}

#[test]
fn feefilter_converts_to_kwu() {
    let r = parse_message(NetMessage::FeeFilter(1000));
    assert!(matches!(r, Some(ReaderMessage::FeeFilter(250))));
}

#[test]
fn unknown_command_disconnects() {
    let r = parse_message(NetMessage::Unknown);
    assert!(matches!(r, Some(ReaderMessage::Disconnect)));
}

#[test]
fn header_serialization_matches_consensus_encoding() {
    // the library's eighty-byte layout and hash must agree with the
    // reference implementation
    let ours = Header {
        version: 0x2000_0000,
        prev_blockhash: U256 { w0: 1, w1: 2, w2: 3, w3: 4 },
        merkle_root: U256 { w0: 5, w1: 6, w2: 7, w3: 8 },
        time: 1_700_000_000,
        bits: 0x1703_2AC3,
        nonce: 42,
    };
    let our_bytes = ours.serialize();

    let mut prev = [0u8; 32];
    prev[0..8].copy_from_slice(&1u64.to_le_bytes());
    prev[8..16].copy_from_slice(&2u64.to_le_bytes());
    prev[16..24].copy_from_slice(&3u64.to_le_bytes());
    prev[24..32].copy_from_slice(&4u64.to_le_bytes());
    let mut merkle = [0u8; 32];
    merkle[0..8].copy_from_slice(&5u64.to_le_bytes());
    merkle[8..16].copy_from_slice(&6u64.to_le_bytes());
    merkle[16..24].copy_from_slice(&7u64.to_le_bytes());
    merkle[24..32].copy_from_slice(&8u64.to_le_bytes());
    let theirs = bitcoin::block::Header {
        version: bitcoin::block::Version::from_consensus(0x2000_0000),
        prev_blockhash: <bitcoin::BlockHash as bitcoin::hashes::Hash>::from_byte_array(prev),
        merkle_root: <bitcoin::TxMerkleNode as bitcoin::hashes::Hash>::from_byte_array(merkle),
        time: 1_700_000_000,
        bits: bitcoin::CompactTarget::from_consensus(0x1703_2AC3),
        nonce: 42,
    };
    let their_bytes = bitcoin::consensus::serialize(&theirs);
    assert_eq!(our_bytes, their_bytes);

    let our_hash = ours.block_hash();
    let their_hash =
        <bitcoin::BlockHash as bitcoin::hashes::Hash>::to_byte_array(theirs.block_hash());
    assert_eq!(our_hash.w0, u64::from_le_bytes(their_hash[0..8].try_into().unwrap()));
    assert_eq!(our_hash.w1, u64::from_le_bytes(their_hash[8..16].try_into().unwrap()));
    assert_eq!(our_hash.w2, u64::from_le_bytes(their_hash[16..24].try_into().unwrap()));
    assert_eq!(our_hash.w3, u64::from_le_bytes(their_hash[24..32].try_into().unwrap()));
}

#[test]
fn network_message_round_trips_under_v1() {
    // serializing then parsing a message with the reference codec gives
    // the message back
    let msg = bitcoin::p2p::message::NetworkMessage::Ping(7);
    let raw = bitcoin::p2p::message::RawNetworkMessage::new(
        bitcoin::Network::Bitcoin.magic(),
        msg.clone(),
    );
    let bytes = bitcoin::consensus::serialize(&raw);
    let back: bitcoin::p2p::message::RawNetworkMessage =
        bitcoin::consensus::deserialize(&bytes).unwrap();
    assert_eq!(back.payload(), &msg);
}

#[test]
fn target_decoding_matches_reference() {
    for bits in [0x1d00FFFFu32, 0x207FFFFF, 0x1703_2AC3, 0x0100_0012, 0x0392_3456] {
        let ours = kyoto::pow::target_from_bits(bits);
        let theirs = bitcoin::Target::from_compact(bitcoin::CompactTarget::from_consensus(bits))
            .to_le_bytes();
        assert_eq!(ours.w0, u64::from_le_bytes(theirs[0..8].try_into().unwrap()));
        assert_eq!(ours.w1, u64::from_le_bytes(theirs[8..16].try_into().unwrap()));
        assert_eq!(ours.w2, u64::from_le_bytes(theirs[16..24].try_into().unwrap()));
        assert_eq!(ours.w3, u64::from_le_bytes(theirs[24..32].try_into().unwrap()));
    }
}
