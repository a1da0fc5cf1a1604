//! End-to-end synchronization scenarios: checkpoint bootstrap, duplicate
//! replay, reorganization, quorum auditing, filter matching, handshake
//! rejection, stale-tip detection and peer banning.
use kyoto::block_queue::{BlockQueue, BlockRecipient, ProcessBlockResponse};
use kyoto::cf_chain::{CFHeaderChanges, FilterChain};
use kyoto::chain::{HeaderChain, HeaderChainChanges, HeaderCheckpoint, HeaderSyncError};
use kyoto::hashes::Header;
use kyoto::messages::{AddrEntry, BlockSummary, CFHeadersMsg, CFilterMsg, VersionInfo};
use kyoto::node::{Event, MainThreadMessage, Node, NodeState, Warning};
use kyoto::pow::{Network, Params};
use kyoto::types::U256;

const EASY_BITS: u32 = 0x207FFFFF;

fn zero() -> U256 {
    U256 { w0: 0, w1: 0, w2: 0, w3: 0 }
}

fn anchor_hash() -> U256 {
    U256 { w0: 0xDEAD, w1: 0xBEEF, w2: 0, w3: 0 }
}

/// Mines one header over `prev` that meets the easy regtest target.
fn mine(prev: U256, seed: u32) -> Header {
    let mut nonce = 0u32;
    loop {
        let h = Header {
            version: 0x2000_0000,
            prev_blockhash: prev,
            merkle_root: U256 { w0: seed as u64, w1: 0, w2: 0, w3: 0 },
            time: 1_700_000_000 + seed,
            bits: EASY_BITS,
            nonce,
        };
        if h.check_pow() {
            return h;
        }
        nonce += 1;
    }
}

/// Mines `n` connected headers on top of `prev`.
fn mine_chain(prev: U256, n: usize, seed: u32) -> Vec<Header> {
    let mut out = Vec::new();
    let mut tip = prev;
    for i in 0..n {
        let h = mine(tip, seed + i as u32);
        tip = h.block_hash();
        out.push(h);
    }
    out
}

fn regtest() -> Params {
    Params::new(Network::Regtest)
}

#[test]
fn checkpoint_bootstrap_reaches_the_advertised_height() {
    let anchor = HeaderCheckpoint::new(800_000, anchor_hash());
    let mut chain = HeaderChain::new(anchor, Vec::new(), regtest());
    let batch = mine_chain(anchor_hash(), 2_000, 1);
    match chain.sync_chain(batch).unwrap() {
        HeaderChainChanges::Extended(h) => assert_eq!(h, 802_000),
        _ => panic!("expected extension"),
    }
    assert_eq!(chain.height(), 802_000);
}

#[test]
fn checkpoint_mismatch_is_rejected() {
    let anchor = HeaderCheckpoint::new(100, anchor_hash());
    let cp = HeaderCheckpoint::new(102, U256 { w0: 77, w1: 0, w2: 0, w3: 0 });
    let mut chain = HeaderChain::new(anchor, vec![cp], regtest());
    let batch = mine_chain(anchor_hash(), 3, 1);
    assert!(matches!(chain.sync_chain(batch), Err(HeaderSyncError::InvalidCheckpoint)));
    assert_eq!(chain.height(), 100);
}

#[test]
fn replaying_a_batch_is_a_duplicate_without_mutation() {
    let anchor = HeaderCheckpoint::new(800_000, anchor_hash());
    let mut chain = HeaderChain::new(anchor, Vec::new(), regtest());
    let batch = mine_chain(anchor_hash(), 10, 1);
    assert!(matches!(chain.sync_chain(batch.clone()), Ok(HeaderChainChanges::Extended(_))));
    let tip = chain.tip_hash();
    assert!(matches!(chain.sync_chain(batch), Ok(HeaderChainChanges::Duplicate)));
    assert_eq!(chain.height(), 800_010);
    assert_eq!(chain.tip_hash(), tip);
}

#[test]
fn a_heavier_fork_reorganizes_the_chain() {
    let anchor = HeaderCheckpoint::new(800_000, anchor_hash());
    let mut chain = HeaderChain::new(anchor, Vec::new(), regtest());
    let batch = mine_chain(anchor_hash(), 2_000, 1);
    chain.sync_chain(batch.clone()).unwrap();
    assert_eq!(chain.height(), 802_000);
    let orphan_one = batch[1_999].block_hash();
    let orphan_two = batch[1_998].block_hash();
    // branch at height 801998 with three headers of equal work each
    let fork = mine_chain(batch[1_997].block_hash(), 3, 50_000);
    match chain.sync_chain(fork).unwrap() {
        HeaderChainChanges::Reorg { height, hashes } => {
            assert_eq!(height, 802_001);
            assert_eq!(hashes, vec![orphan_one, orphan_two]);
        },
        _ => panic!("expected a reorganization"),
    }
    assert_eq!(chain.height(), 802_001);
}

#[test]
fn a_lighter_fork_is_stored_not_promoted() {
    let anchor = HeaderCheckpoint::new(100, anchor_hash());
    let mut chain = HeaderChain::new(anchor, Vec::new(), regtest());
    let batch = mine_chain(anchor_hash(), 5, 1);
    chain.sync_chain(batch.clone()).unwrap();
    let fork = mine_chain(batch[2].block_hash(), 1, 9_000);
    match chain.sync_chain(fork).unwrap() {
        HeaderChainChanges::ForkAdded { tip_height, .. } => assert_eq!(tip_height, 104),
        _ => panic!("expected a candidate fork"),
    }
    assert_eq!(chain.height(), 105);
}

#[test]
fn floating_headers_are_rejected() {
    let anchor = HeaderCheckpoint::new(100, anchor_hash());
    let mut chain = HeaderChain::new(anchor, Vec::new(), regtest());
    let stranger = mine_chain(U256 { w0: 31337, w1: 0, w2: 0, w3: 0 }, 1, 5);
    assert!(matches!(chain.sync_chain(stranger), Err(HeaderSyncError::FloatingHeaders)));
}

#[test]
fn quorum_must_agree_before_filter_headers_extend() {
    let mut cf = FilterChain::new(100, 2);
    let h1 = U256 { w0: 11, w1: 0, w2: 0, w3: 0 };
    let msg = CFHeadersMsg {
        stop_hash: zero(),
        previous_filter_header: zero(),
        filter_hashes: vec![h1],
    };
    assert!(matches!(cf.sync_cf_headers(1, &msg), Ok(CFHeaderChanges::AddedToQueue)));
    assert!(matches!(cf.sync_cf_headers(2, &msg), Ok(CFHeaderChanges::Extended)));
    assert_eq!(cf.height(), 101);
}

#[test]
fn disagreeing_peers_are_a_conflict() {
    let mut cf = FilterChain::new(100, 2);
    let m1 = CFHeadersMsg {
        stop_hash: zero(),
        previous_filter_header: zero(),
        filter_hashes: vec![U256 { w0: 11, w1: 0, w2: 0, w3: 0 }],
    };
    let m2 = CFHeadersMsg {
        stop_hash: zero(),
        previous_filter_header: zero(),
        filter_hashes: vec![U256 { w0: 22, w1: 0, w2: 0, w3: 0 }],
    };
    assert!(matches!(cf.sync_cf_headers(1, &m1), Ok(CFHeaderChanges::AddedToQueue)));
    assert!(matches!(cf.sync_cf_headers(2, &m2), Ok(CFHeaderChanges::Conflict)));
}

#[test]
fn low_version_peer_is_disconnected_before_anything_else() {
    let anchor = HeaderCheckpoint::new(100, anchor_hash());
    let mut node = Node::new(anchor, Vec::new(), regtest(), 1);
    let v = VersionInfo { version: 70_015, services: 0xFFFF, start_height: 0 };
    let r = node.handle_version(1, v, false);
    assert_eq!(r.len(), 1);
    assert!(matches!(r[0], MainThreadMessage::Disconnect));
}

#[test]
fn accepted_peer_gets_the_handshake_sequence() {
    let anchor = HeaderCheckpoint::new(100, anchor_hash());
    let mut node = Node::new(anchor, Vec::new(), regtest(), 1);
    let v = VersionInfo { version: 70_016, services: 0, start_height: 0 };
    let r = node.handle_version(1, v, true);
    assert!(matches!(r[0], MainThreadMessage::GetAddrV2));
    assert!(matches!(r[1], MainThreadMessage::WtxidRelay));
    assert!(matches!(r[2], MainThreadMessage::Verack));
    assert!(matches!(r[3], MainThreadMessage::GetAddr));
    assert!(matches!(r[4], MainThreadMessage::GetHeaders { .. }));
}

#[test]
fn empty_headers_disconnect_only_while_behind() {
    let anchor = HeaderCheckpoint::new(100, anchor_hash());
    let mut node = Node::new(anchor, Vec::new(), regtest(), 1);
    // not yet synced: an empty batch is a fault
    let r = node.handle_headers(1, Vec::new());
    assert!(matches!(r, Some(MainThreadMessage::Disconnect)));
    // synced: an empty batch is the normal end of headers
    node.set_best_known_height(100);
    let r = node.handle_headers(1, Vec::new());
    assert!(!matches!(r, Some(MainThreadMessage::Disconnect)));
}

#[test]
fn state_machine_walks_forward_and_detects_a_stale_tip() {
    let anchor = HeaderCheckpoint::new(100, anchor_hash());
    let mut node = Node::new(anchor, Vec::new(), regtest(), 1);
    node.set_best_known_height(100);
    assert!(node.advance_state(false).is_none());
    assert_eq!(node.state(), NodeState::HeadersSynced);
    assert!(node.advance_state(false).is_none());
    assert_eq!(node.state(), NodeState::FilterHeadersSynced);
    assert!(node.advance_state(false).is_none());
    assert_eq!(node.state(), NodeState::FiltersSynced);
    assert!(node.advance_state(false).is_none());
    assert_eq!(node.state(), NodeState::TransactionsSynced);
    let events = node.take_events();
    assert!(events.iter().any(|e| matches!(e, Event::Synced { height: 100, .. })));
    // no fresh block for too long: disconnect everyone and warn
    let r = node.advance_state(true);
    assert!(matches!(r, Some(MainThreadMessage::Disconnect)));
    let warnings = node.take_warnings();
    assert!(warnings.iter().any(|w| matches!(w, Warning::PotentialStaleTip)));
}

#[test]
fn unknown_inventory_regresses_to_behind() {
    let anchor = HeaderCheckpoint::new(100, anchor_hash());
    let mut node = Node::new(anchor, Vec::new(), regtest(), 1);
    node.set_best_known_height(100);
    node.advance_state(false);
    assert_eq!(node.state(), NodeState::HeadersSynced);
    let unknown = U256 { w0: 424_242, w1: 0, w2: 0, w3: 0 };
    let r = node.handle_inventory_blocks(&vec![unknown]);
    assert!(matches!(r, Some(MainThreadMessage::GetHeaders { .. })));
    assert_eq!(node.state(), NodeState::Behind);
    // known inventory changes nothing
    node.set_best_known_height(100);
    node.advance_state(false);
    let r = node.handle_inventory_blocks(&vec![anchor_hash()]);
    assert!(r.is_none());
    assert_eq!(node.state(), NodeState::HeadersSynced);
}

#[test]
fn a_peer_sending_invalid_pow_is_banned() {
    let anchor = HeaderCheckpoint::new(100, anchor_hash());
    let mut node = Node::new(anchor, Vec::new(), regtest(), 1);
    let entry = AddrEntry { services: 65, network_id: 1, addr: zero(), addr_len: 4, port: 8333 };
    let id = node.add_peer(entry, false);
    assert!(node.next_peer().is_some());
    // a header with an unreachable target cannot meet its own work
    let bad = Header {
        version: 0x2000_0000,
        prev_blockhash: anchor_hash(),
        merkle_root: zero(),
        time: 1_700_000_000,
        bits: 0x0300_0001,
        nonce: 0,
    };
    assert!(!bad.check_pow());
    let r = node.handle_headers(id, vec![bad]);
    assert!(matches!(r, Some(MainThreadMessage::Disconnect)));
    // the banned peer's address is never handed out again
    assert!(node.next_peer().is_none());
}

#[test]
fn a_matching_filter_queues_and_delivers_the_block() {
    // a real block with one watched output script
    let script = bitcoin::ScriptBuf::from_hex("0014df0e28bd2e314e09c9c2f6b66c4a77a45e125e33").unwrap();
    let tx = bitcoin::Transaction {
        version: bitcoin::transaction::Version::TWO,
        lock_time: bitcoin::absolute::LockTime::ZERO,
        input: vec![],
        output: vec![bitcoin::TxOut {
            value: bitcoin::Amount::from_sat(50_000),
            script_pubkey: script.clone(),
        }],
    };
    let txid = <bitcoin::Txid as bitcoin::hashes::Hash>::to_byte_array(tx.compute_txid());
    let merkle_root = U256 {
        w0: u64::from_le_bytes(txid[0..8].try_into().unwrap()),
        w1: u64::from_le_bytes(txid[8..16].try_into().unwrap()),
        w2: u64::from_le_bytes(txid[16..24].try_into().unwrap()),
        w3: u64::from_le_bytes(txid[24..32].try_into().unwrap()),
    };
    // mine the header carrying that transaction
    let mut nonce = 0u32;
    let header = loop {
        let h = Header {
            version: 0x2000_0000,
            prev_blockhash: anchor_hash(),
            merkle_root,
            time: 1_700_000_000,
            bits: EASY_BITS,
            nonce,
        };
        if h.check_pow() {
            break h;
        }
        nonce += 1;
    };
    let block_hash = header.block_hash();
    let their_header = bitcoin::block::Header {
        version: bitcoin::block::Version::from_consensus(0x2000_0000),
        prev_blockhash: <bitcoin::BlockHash as bitcoin::hashes::Hash>::from_byte_array({
            let mut b = [0u8; 32];
            b[0..8].copy_from_slice(&0xDEADu64.to_le_bytes());
            b[8..16].copy_from_slice(&0xBEEFu64.to_le_bytes());
            b
        }),
        merkle_root: <bitcoin::TxMerkleNode as bitcoin::hashes::Hash>::from_byte_array(txid),
        time: 1_700_000_000,
        bits: bitcoin::CompactTarget::from_consensus(EASY_BITS),
        nonce,
    };
    let block = bitcoin::Block { header: their_header, txdata: vec![tx] };
    let filter = bitcoin::bip158::BlockFilter::new_script_filter(&block, |_| {
        Err::<bitcoin::ScriptBuf, _>(bitcoin::bip158::Error::UtxoMissing(
            bitcoin::OutPoint::null(),
        ))
    })
    .unwrap();
    let filter_bytes = filter.content.clone();
    let filter_hash = {
        let digest = <bitcoin::hashes::sha256d::Hash as bitcoin::hashes::Hash>::hash(&filter_bytes);
        let b = <bitcoin::hashes::sha256d::Hash as bitcoin::hashes::Hash>::to_byte_array(digest);
        U256 {
            w0: u64::from_le_bytes(b[0..8].try_into().unwrap()),
            w1: u64::from_le_bytes(b[8..16].try_into().unwrap()),
            w2: u64::from_le_bytes(b[16..24].try_into().unwrap()),
            w3: u64::from_le_bytes(b[24..32].try_into().unwrap()),
        }
    };

    let anchor = HeaderCheckpoint::new(100, anchor_hash());
    let mut node = Node::new(anchor, Vec::new(), regtest(), 1);
    let _ = node.handle_headers(1, vec![header]);
    assert_eq!(node.chain_height(), 101);
    // one peer suffices here: commit the filter hash
    let msg = CFHeadersMsg {
        stop_hash: block_hash,
        previous_filter_header: zero(),
        filter_hashes: vec![filter_hash],
    };
    let _ = node.handle_cf_headers(1, &msg);
    node.add_script(script.to_bytes());
    // the filter matches the watched script: the block is wanted
    let r = node.handle_filter(1, &CFilterMsg { block_hash, filter: filter_bytes });
    assert!(r.is_none());
    // advance until block requests flow
    node.set_best_known_height(101);
    node.advance_state(false);
    node.advance_state(false);
    assert_eq!(node.state(), NodeState::FilterHeadersSynced);
    let r = node.pop_block_queue();
    match r {
        Some(MainThreadMessage::GetBlock(h)) => assert_eq!(h, block_hash),
        _ => panic!("expected a block request"),
    }
    // delivery reaches the event stream exactly once
    let (r, tickets) = node.handle_block(1, &BlockSummary { hash: block_hash, merkle_ok: true });
    assert!(r.is_none());
    assert!(tickets.is_empty());
    let events = node.take_events();
    assert!(events.iter().any(|e| matches!(e, Event::Block { height: 101, .. })));
    // a second copy of the block is late, not redelivered
    let (_, tickets) = node.handle_block(1, &BlockSummary { hash: block_hash, merkle_ok: true });
    assert!(tickets.is_empty());
    assert!(node.take_events().is_empty());
}

#[test]
fn block_queue_collapses_recipients_and_delivers_once() {
    let mut q = BlockQueue::new();
    let h = U256 { w0: 5, w1: 0, w2: 0, w3: 0 };
    q.add(h, BlockRecipient::Client(1));
    q.add(h, BlockRecipient::Event);
    // one outstanding request for the hash, not two
    assert_eq!(q.pop(), Some(h));
    assert_eq!(q.pop(), None);
    assert!(!q.complete());
    match q.process_block(&h) {
        ProcessBlockResponse::Accepted { recipients } => {
            assert_eq!(recipients, vec![BlockRecipient::Client(1), BlockRecipient::Event]);
        },
        _ => panic!("expected acceptance"),
    }
    assert!(q.complete());
    // at-most-once: the same hash later is only a late response
    assert!(matches!(q.process_block(&h), ProcessBlockResponse::LateResponse));
    let other = U256 { w0: 6, w1: 0, w2: 0, w3: 0 };
    assert!(matches!(q.process_block(&other), ProcessBlockResponse::UnknownHash));
}

#[test]
fn rescan_drops_back_to_filter_headers_synced() {
    let anchor = HeaderCheckpoint::new(100, anchor_hash());
    let mut node = Node::new(anchor, Vec::new(), regtest(), 1);
    node.set_best_known_height(100);
    node.advance_state(false);
    node.advance_state(false);
    node.advance_state(false);
    assert_eq!(node.state(), NodeState::FiltersSynced);
    let _ = node.rescan();
    assert_eq!(node.state(), NodeState::FilterHeadersSynced);
}
