//! The node coordinator's decision core: one structure holding the sync
//! state machine, the header chain, the filter chain, the block queue
//! and the address book, with one method per peer event or client
//! command. Each method decides; the surrounding runtime performs the
//! sends, sleeps and reads the decisions call for.
use vstd::prelude::*;

use crate::block_queue::{BlockQueue, BlockRecipient, ProcessBlockResponse};
use crate::cf_chain::{CFHeaderChanges, CFilterSyncError, FilterChain, FilterCheck};
use crate::chain::{HeaderChain, HeaderChainChanges, HeaderCheckpoint, HeaderSyncError};
use crate::hashes::Header;
use crate::messages::{AddrEntry, BlockSummary, CFHeadersMsg, CFilterMsg, VersionInfo};
use crate::pow::Params;
use crate::types::{BlockHash, U256};

verus! {

/// The protocol version the node requires of every peer.
pub const WTXID_VERSION: u32 = 70016;

/// The coordinator's synchronization stage.
#[derive(Clone, Copy, Debug, PartialEq, Eq, Structural)]
pub enum NodeState {
    /// Headers are still being fetched.
    Behind,
    /// Headers have caught up to the best advertised height.
    HeadersSynced,
    /// Filter headers have caught up to the tip.
    FilterHeadersSynced,
    /// Filters have all been fetched and matched.
    FiltersSynced,
    /// The block queue has drained.
    TransactionsSynced,
}

/// The rank of a stage, for stating that the machine only moves forward.
pub open spec fn state_rank(s: NodeState) -> int {
    match s {
        NodeState::Behind => 0,
        NodeState::HeadersSynced => 1,
        NodeState::FilterHeadersSynced => 2,
        NodeState::FiltersSynced => 3,
        NodeState::TransactionsSynced => 4,
    }
}

/// A command the coordinator sends back toward peers.
pub enum MainThreadMessage {
    /// Request headers, newest locator hashes first.
    GetHeaders { locators: Vec<BlockHash> },
    /// Request filter headers from a height up to a block.
    GetFilterHeaders { start_height: u32, stop_hash: BlockHash },
    /// Request filters from a height up to a block.
    GetFilters { start_height: u32, stop_hash: BlockHash },
    /// Request one block.
    GetBlock(BlockHash),
    /// Sever the connection.
    Disconnect,
    /// Acknowledge the peer's version.
    Verack,
    /// Ask for address gossip.
    GetAddr,
    /// Signal addrv2 support.
    GetAddrV2,
    /// Signal witness transaction relay.
    WtxidRelay,
    /// Announce queued transactions.
    BroadcastPending,
}

/// Information surfaced to the client.
#[derive(Clone, Copy, Debug, PartialEq, Eq, Structural)]
pub enum Info {
    /// The state machine moved.
    StateChange(NodeState),
    /// The chain advanced to a height.
    NewChainHeight(u32),
    /// A candidate fork was recorded.
    NewFork { tip_height: u32, tip_hash: BlockHash },
    /// The required number of connections is met.
    ConnectionsMet,
}

/// Warnings surfaced to the client.
#[derive(Clone, Copy, Debug, PartialEq, Eq, Structural)]
pub enum Warning {
    /// Too few live connections.
    NeedConnections,
    /// An outbound connection failed.
    CouldNotConnect,
    /// A peer does not serve compact filters.
    NoCompactFilters,
    /// No block has been seen for too long.
    PotentialStaleTip,
    /// A client receiver hung up.
    ChannelDropped,
    /// A peer rejected a broadcast transaction.
    TransactionRejected,
    /// A sync message failed validation.
    UnexpectedSyncError,
}

/// Events surfaced to the client.
#[derive(Clone, Copy, Debug, PartialEq, Eq, Structural)]
pub enum Event {
    /// A downloaded block relevant to the watched scripts.
    Block { height: u32, hash: BlockHash },
    /// Synchronization completed at a tip.
    Synced { height: u32, hash: BlockHash },
}

/// The address book: gossiped peers, with the ban list. A banned
/// address is never handed out again; a trusted allowlisted peer cannot
/// be banned.
pub struct PeerBook {
    addrs: Vec<(u64, AddrEntry)>,
    banned: Vec<u64>,
    trusted: Vec<u64>,
    tried: Vec<u64>,
    next_id: u64,
}

impl PeerBook {
    /// The recorded addresses.
    pub closed spec fn spec_addrs(&self) -> Seq<(u64, AddrEntry)> {
        self.addrs@
    }

    /// The banned identities.
    pub closed spec fn spec_banned(&self) -> Seq<u64> {
        self.banned@
    }

    /// The allowlisted identities.
    pub closed spec fn spec_trusted(&self) -> Seq<u64> {
        self.trusted@
    }

    /// The identities already tried.
    pub closed spec fn spec_tried(&self) -> Seq<u64> {
        self.tried@
    }

    /// Whether an address book entry may still be handed out.
    pub open spec fn spec_eligible(&self, id: u64) -> bool {
        !self.spec_banned().contains(id) && !self.spec_tried().contains(id)
    }

    /// An empty book.
    pub fn new() -> (b: PeerBook)
        ensures
            b.spec_addrs() =~= Seq::<(u64, AddrEntry)>::empty(),
            b.spec_banned() =~= Seq::<u64>::empty(),
            b.spec_trusted() =~= Seq::<u64>::empty(),
            b.spec_tried() =~= Seq::<u64>::empty(),
    {
        PeerBook {
            addrs: Vec::new(),
            banned: Vec::new(),
            trusted: Vec::new(),
            tried: Vec::new(),
            next_id: 0,
        }
    }

    /// Records a gossiped address under a fresh identity.
    pub fn add_gossiped(&mut self, entry: AddrEntry) -> (id: u64)
        ensures
            final(self).spec_addrs() =~= old(self).spec_addrs().push((id, entry)),
            final(self).spec_banned() == old(self).spec_banned(),
            final(self).spec_trusted() == old(self).spec_trusted(),
            final(self).spec_tried() == old(self).spec_tried(),
    {
        let id = self.next_id;
        if self.next_id < u64::MAX {
            self.next_id = self.next_id + 1;
        }
        self.addrs.push((id, entry));
        id
    }

    /// Records a trusted address: allowlisted, never banned.
    pub fn add_trusted(&mut self, entry: AddrEntry) -> (id: u64)
        ensures
            final(self).spec_addrs() =~= old(self).spec_addrs().push((id, entry)),
            final(self).spec_banned() == old(self).spec_banned(),
            final(self).spec_trusted() =~= old(self).spec_trusted().push(id),
            final(self).spec_tried() == old(self).spec_tried(),
    {
        let id = self.next_id;
        if self.next_id < u64::MAX {
            self.next_id = self.next_id + 1;
        }
        self.addrs.push((id, entry));
        self.trusted.push(id);
        id
    }

    /// Bans an identity, unless it is allowlisted.
    pub fn ban(&mut self, id: u64)
        ensures
            final(self).spec_addrs() == old(self).spec_addrs(),
            final(self).spec_trusted() == old(self).spec_trusted(),
            final(self).spec_tried() == old(self).spec_tried(),
            old(self).spec_trusted().contains(id) ==> final(self).spec_banned() == old(self).spec_banned(),
            !old(self).spec_trusted().contains(id) ==> final(self).spec_banned() =~= old(self).spec_banned().push(id),
    {
        let n = self.trusted.len();
        let mut i: usize = 0;
        while i < n
            invariant
                i <= n,
                n == self.spec_trusted().len(),
                forall|j: int| 0 <= j < i ==> self.spec_trusted()[j] != id,
            decreases n - i,
        {
            if self.trusted[i] == id {
                return ;
            }
            i = i + 1;
        }
        self.banned.push(id);
    }

    /// Whether `id` is banned.
    pub fn is_banned(&self, id: u64) -> (r: bool)
        ensures
            r == self.spec_banned().contains(id),
    {
        let n = self.banned.len();
        let mut i: usize = 0;
        while i < n
            invariant
                i <= n,
                n == self.spec_banned().len(),
                forall|j: int| 0 <= j < i ==> self.spec_banned()[j] != id,
            decreases n - i,
        {
            if self.banned[i] == id {
                return true;
            }
            i = i + 1;
        }
        false
    }

    /// Notes that an address was tried; the book will not hand it out
    /// again.
    pub fn mark_tried(&mut self, id: u64)
        ensures
            final(self).spec_addrs() == old(self).spec_addrs(),
            final(self).spec_banned() == old(self).spec_banned(),
            final(self).spec_trusted() == old(self).spec_trusted(),
            final(self).spec_tried() =~= old(self).spec_tried().push(id),
    {
        self.tried.push(id);
    }

    /// Whether `id` was already tried.
    fn is_tried(&self, id: u64) -> (r: bool)
        ensures
            r == self.spec_tried().contains(id),
    {
        let n = self.tried.len();
        let mut i: usize = 0;
        while i < n
            invariant
                i <= n,
                n == self.spec_tried().len(),
                forall|j: int| 0 <= j < i ==> self.spec_tried()[j] != id,
            decreases n - i,
        {
            if self.tried[i] == id {
                return true;
            }
            i = i + 1;
        }
        false
    }

    /// Draws the first address that is neither banned nor already tried;
    /// a banned peer's address is never handed out, and the draw comes up
    /// empty exactly when no eligible address remains.
    pub fn next_peer(&self) -> (r: Option<(u64, AddrEntry)>)
        ensures
            r is None <==> (forall|i: int|
                0 <= i < self.spec_addrs().len() ==> !self.spec_eligible(
                    (#[trigger] self.spec_addrs()[i]).0,
                )),
            r matches Some(p) ==> self.spec_eligible(p.0) && (exists|i: int|
                0 <= i < self.spec_addrs().len() && #[trigger] self.spec_addrs()[i] == p),
    {
        let n = self.addrs.len();
        let mut i: usize = 0;
        while i < n
            invariant
                i <= n,
                n == self.spec_addrs().len(),
                forall|j: int|
                    0 <= j < i ==> !self.spec_eligible((#[trigger] self.spec_addrs()[j]).0),
            decreases n - i,
        {
            let id = self.addrs[i].0;
            if !self.is_banned(id) && !self.is_tried(id) {
                let p = self.addrs[i];
                proof {
                    assert(self.spec_addrs()[i as int] == p);
                }
                return Some(p);
            }
            i = i + 1;
        }
        None
    }
}

/// The block hash a ranged request starting at `start` stops at: a
/// window of at most a thousand entries, capped at the tip.
pub open spec fn spec_stop_hash(c: HeaderChain, start: u32) -> BlockHash {
    let height = c.spec_height();
    let stop: int = if start <= u32::MAX - 999 && start + 999 < height {
        start + 999
    } else {
        height
    };
    if c.spec_anchor().height < stop <= height {
        crate::hashes::block_hash_of(c.spec_headers()[stop - c.spec_anchor().height - 1])
    } else {
        c.spec_tip_hash()
    }
}

/// The request the sync stage of `pre` calls for: headers until the
/// chain is caught up, then filter headers, then filters, then nothing.
#[verifier::opaque]
pub open spec fn is_next_request(pre: Node, r: Option<MainThreadMessage>) -> bool {
    if !pre.spec_headers_synced() {
        r matches Some(m) && m matches MainThreadMessage::GetHeaders { locators } && locators@
            == crate::chain::spec_locators(pre.spec_chain())
    } else if !pre.spec_cf_headers_synced() {
        r matches Some(m) && m matches MainThreadMessage::GetFilterHeaders {
            start_height,
            stop_hash,
        } && start_height == pre.spec_cf().spec_anchor_height() + pre.spec_cf().spec_hashes().len()
            + 1 && stop_hash == spec_stop_hash(pre.spec_chain(), start_height)
    } else if !pre.spec_filters_synced() {
        r matches Some(m) && m matches MainThreadMessage::GetFilters { start_height, stop_hash }
            && start_height == pre.spec_cf().spec_anchor_height() + pre.spec_cf().spec_checked_to()
            + 1 && stop_hash == spec_stop_hash(pre.spec_chain(), start_height)
    } else {
        r is None
    }
}

/// The two header chains hold the same state.
pub open spec fn same_chain(a: HeaderChain, b: HeaderChain) -> bool {
    &&& b.spec_headers() == a.spec_headers()
    &&& b.spec_anchor() == a.spec_anchor()
    &&& b.spec_checkpoints() == a.spec_checkpoints()
    &&& b.spec_params() == a.spec_params()
}

/// The two filter chains hold the same state.
pub open spec fn same_cf(a: FilterChain, b: FilterChain) -> bool {
    &&& b.spec_hashes() == a.spec_hashes()
    &&& b.spec_tip_header() == a.spec_tip_header()
    &&& b.spec_queue() == a.spec_queue()
    &&& b.spec_checked_to() == a.spec_checked_to()
    &&& b.spec_anchor_height() == a.spec_anchor_height()
    &&& b.spec_required() == a.spec_required()
}

/// The two block queues hold the same state.
pub open spec fn same_queue(a: BlockQueue, b: BlockQueue) -> bool {
    &&& b@ == a@
    &&& b.completed() == a.completed()
}

/// The two address books hold the same state.
pub open spec fn same_book(a: PeerBook, b: PeerBook) -> bool {
    &&& b.spec_addrs() == a.spec_addrs()
    &&& b.spec_banned() == a.spec_banned()
    &&& b.spec_trusted() == a.spec_trusted()
    &&& b.spec_tried() == a.spec_tried()
}

/// Nothing of the synchronization state moved.
pub open spec fn sync_untouched(pre: Node, post: Node) -> bool {
    &&& same_chain(pre.spec_chain(), post.spec_chain())
    &&& same_cf(pre.spec_cf(), post.spec_cf())
    &&& same_queue(pre.spec_queue(), post.spec_queue())
    &&& same_book(pre.spec_book(), post.spec_book())
    &&& post.spec_infos() == pre.spec_infos()
    &&& post.spec_warnings() == pre.spec_warnings()
    &&& post.spec_events() == pre.spec_events()
}

/// A faulty peer's sendoff: the reply is a lone disconnect, a warning is
/// queued, the peer is banned unless allowlisted, and the sync state
/// stays as it was.
pub open spec fn ban_reply(pre: Node, post: Node, peer: u64, r: Option<MainThreadMessage>) -> bool {
    &&& (r matches Some(m) && m is Disconnect)
    &&& same_chain(pre.spec_chain(), post.spec_chain())
    &&& same_cf(pre.spec_cf(), post.spec_cf())
    &&& same_queue(pre.spec_queue(), post.spec_queue())
    &&& post.spec_warnings() == pre.spec_warnings().push(Warning::UnexpectedSyncError)
    &&& post.spec_infos() == pre.spec_infos()
    &&& post.spec_events() == pre.spec_events()
    &&& post.spec_book().spec_addrs() == pre.spec_book().spec_addrs()
    &&& post.spec_book().spec_trusted() == pre.spec_book().spec_trusted()
    &&& post.spec_book().spec_tried() == pre.spec_book().spec_tried()
    &&& (if pre.spec_book().spec_trusted().contains(peer) {
        post.spec_book().spec_banned() == pre.spec_book().spec_banned()
    } else {
        post.spec_book().spec_banned() == pre.spec_book().spec_banned().push(peer)
    })
}

/// A disconnect without a ban: the reply is a lone disconnect and a
/// warning is queued; everything else stays.
pub open spec fn disconnect_reply(pre: Node, post: Node, r: Option<MainThreadMessage>) -> bool {
    &&& (r matches Some(m) && m is Disconnect)
    &&& same_chain(pre.spec_chain(), post.spec_chain())
    &&& same_cf(pre.spec_cf(), post.spec_cf())
    &&& same_queue(pre.spec_queue(), post.spec_queue())
    &&& same_book(pre.spec_book(), post.spec_book())
    &&& post.spec_warnings() == pre.spec_warnings().push(Warning::UnexpectedSyncError)
    &&& post.spec_infos() == pre.spec_infos()
    &&& post.spec_events() == pre.spec_events()
}

/// The client tickets among a recipient list, each paired with the
/// delivered height, in order.
pub open spec fn client_tickets(rs: Seq<BlockRecipient>, height: u32) -> Seq<(u64, u32)>
    decreases rs.len(),
{
    if rs.len() == 0 {
        Seq::empty()
    } else {
        let rest = client_tickets(rs.drop_last(), height);
        match rs.last() {
            BlockRecipient::Client(t) => rest.push((t, height)),
            BlockRecipient::Event => rest,
        }
    }
}

/// The block events a recipient list produces, one per event recipient,
/// in order.
pub open spec fn event_deliveries(rs: Seq<BlockRecipient>, height: u32, hash: BlockHash) -> Seq<
    Event,
>
    decreases rs.len(),
{
    if rs.len() == 0 {
        Seq::empty()
    } else {
        let rest = event_deliveries(rs.drop_last(), height, hash);
        match rs.last() {
            BlockRecipient::Event => rest.push(Event::Block { height, hash }),
            BlockRecipient::Client(_) => rest,
        }
    }
}

/// A reorganization's side effects over the prior state, given by its
/// parts: the orphaned hashes leave the block queue and are marked
/// completed, the new height is announced, and filter state rolls back
/// to the fork point — the prior height less the orphan count — capped
/// at the new tip.
#[verifier::opaque]
pub open spec fn reorg_effects_shape(
    q0: Seq<crate::block_queue::EntryView>,
    comp0: Seq<BlockHash>,
    infos0: Seq<Info>,
    cf_hashes0: Seq<crate::types::FilterHash>,
    cf_checked0: int,
    cf_anchor0: u32,
    cf_required0: int,
    cf_tip0: U256,
    cf_queue0: Seq<crate::cf_chain::Attestation>,
    post: Node,
    pre_height: u32,
    chain_height_post: int,
    height: u32,
    hashes: Seq<BlockHash>,
) -> bool {
    let fp: int = if pre_height >= hashes.len() {
        pre_height - hashes.len()
    } else {
        0
    };
    let to: int = if fp < chain_height_post {
        fp
    } else {
        chain_height_post
    };
    let keep: int = if to <= cf_anchor0 {
        0
    } else {
        to - cf_anchor0
    };
    &&& post.spec_infos() == infos0.push(Info::NewChainHeight(height))
    &&& post.spec_queue()@ == crate::block_queue::without_hashes(q0, hashes)
    &&& post.spec_queue().completed() == comp0 + hashes
    &&& post.spec_cf().spec_anchor_height() == cf_anchor0
    &&& post.spec_cf().spec_required() == cf_required0
    &&& (if keep >= cf_hashes0.len() {
        post.spec_cf().spec_hashes() == cf_hashes0 && post.spec_cf().spec_checked_to()
            == cf_checked0 && post.spec_cf().spec_tip_header() == cf_tip0
            && post.spec_cf().spec_queue() == cf_queue0
    } else {
        post.spec_cf().spec_hashes() == cf_hashes0.take(keep) && post.spec_cf().spec_checked_to()
            == (if cf_checked0 < keep {
            cf_checked0
        } else {
            keep
        }) && post.spec_cf().spec_queue() =~= Seq::<crate::cf_chain::Attestation>::empty()
    })
}

/// What answering a headers batch anchored to the main chain must do,
/// mirroring the chain's own outcome: repeats lead to the next request
/// and change nothing; an extension announces the new height; a
/// reorganization also drops exactly the orphaned hashes from the block
/// queue and rolls filter state back to the fork point; a lighter fork
/// is announced and stored; and every validation fault bans the peer.
#[verifier::opaque]
pub open spec fn headers_outcome(
    pre: Node,
    post: Node,
    peer: u64,
    batch: Seq<Header>,
    r: Option<MainThreadMessage>,
) -> bool {
    let hs = pre.spec_chain().spec_headers();
    let params = pre.spec_chain().spec_params();
    let anchor = pre.spec_chain().spec_anchor();
    let cps = pre.spec_chain().spec_checkpoints();
    let off = pre.spec_chain().main_anchor_off(batch[0].prev_blockhash);
    let t = crate::chain::trim_len(hs, off, batch);
    let off2 = off + t;
    let rest = batch.skip(t);
    if t == batch.len() {
        sync_untouched(pre, post) && is_next_request(post, r)
    } else if !crate::chain::junction_ok(hs, off2, batch[t], params) {
        ban_reply(pre, post, peer, r)
    } else if off2 == hs.len() {
        if crate::chain::cps_ok(cps, anchor.height, hs + rest) {
            &&& post.spec_chain().spec_headers() == hs + rest
            &&& post.spec_chain().spec_anchor() == anchor
            &&& post.spec_infos() == pre.spec_infos().push(
                Info::NewChainHeight((anchor.height + hs.len() + rest.len()) as u32),
            )
            &&& same_cf(pre.spec_cf(), post.spec_cf())
            &&& same_queue(pre.spec_queue(), post.spec_queue())
            &&& same_book(pre.spec_book(), post.spec_book())
            &&& post.spec_warnings() == pre.spec_warnings()
            &&& post.spec_events() == pre.spec_events()
            &&& is_next_request(post, r)
        } else {
            ban_reply(pre, post, peer, r)
        }
    } else if crate::chain::total_work(rest) > crate::chain::total_work(hs.skip(off2)) {
        if crate::chain::cps_ok(cps, anchor.height, hs.take(off2) + rest) {
            let orphans = crate::chain::desc_hashes(hs.skip(off2));
            &&& post.spec_chain().spec_headers() == hs.take(off2) + rest
            &&& post.spec_chain().spec_anchor() == anchor
            &&& reorg_effects_shape(
                pre.spec_queue()@,
                pre.spec_queue().completed(),
                pre.spec_infos(),
                pre.spec_cf().spec_hashes(),
                pre.spec_cf().spec_checked_to(),
                pre.spec_cf().spec_anchor_height(),
                pre.spec_cf().spec_required(),
                pre.spec_cf().spec_tip_header(),
                pre.spec_cf().spec_queue(),
                post,
                (anchor.height + hs.len()) as u32,
                anchor.height + off2 + rest.len(),
                (anchor.height + off2 + rest.len()) as u32,
                orphans,
            )
            &&& same_book(pre.spec_book(), post.spec_book())
            &&& post.spec_warnings() == pre.spec_warnings()
            &&& post.spec_events() == pre.spec_events()
            &&& is_next_request(post, r)
        } else {
            ban_reply(pre, post, peer, r)
        }
    } else {
        &&& post.spec_chain().spec_headers() == hs
        &&& post.spec_infos() == pre.spec_infos().push(
            Info::NewFork {
                tip_height: (anchor.height + off2 + rest.len()) as u32,
                tip_hash: crate::hashes::block_hash_of(rest.last()),
            },
        )
        &&& same_cf(pre.spec_cf(), post.spec_cf())
        &&& same_queue(pre.spec_queue(), post.spec_queue())
        &&& same_book(pre.spec_book(), post.spec_book())
        &&& post.spec_warnings() == pre.spec_warnings()
        &&& post.spec_events() == pre.spec_events()
        &&& is_next_request(post, r)
    }
}

/// Composes the chain's outcome with the coordinator's side effects
/// when the chain extended: announcing the new height and asking for the
/// next request is what [`headers_outcome`] lays out.
#[verifier::rlimit(100)]
#[verifier::spinoff_prover]
proof fn lemma_outcome_extended(
    pre: Node,
    post: Node,
    peer: u64,
    batch: Seq<Header>,
    h: u32,
    r: Option<MainThreadMessage>,
)
    requires
        pre.spec_chain().wf(),
        crate::chain::batch_valid(batch, pre.spec_chain().spec_params()),
        pre.spec_chain().main_anchor_off(batch[0].prev_blockhash) >= 0,
        pre.spec_chain().spec_height() + batch.len() <= u32::MAX,
        crate::chain::main_outcome(
            pre.spec_chain(),
            post.spec_chain(),
            batch,
            Ok::<HeaderChainChanges, HeaderSyncError>(HeaderChainChanges::Extended(h)),
        ),
        post.spec_chain().spec_anchor() == pre.spec_chain().spec_anchor(),
        is_next_request(post, r),
        post.spec_infos() == pre.spec_infos().push(Info::NewChainHeight(h)),
        same_cf(pre.spec_cf(), post.spec_cf()),
        same_queue(pre.spec_queue(), post.spec_queue()),
        same_book(pre.spec_book(), post.spec_book()),
        post.spec_warnings() == pre.spec_warnings(),
        post.spec_events() == pre.spec_events(),
    ensures
        headers_outcome(pre, post, peer, batch, r),
{
    reveal(crate::chain::main_outcome);
    reveal(headers_outcome);
    reveal(crate::chain::batch_valid);
    let hs = pre.spec_chain().spec_headers();
    let off = pre.spec_chain().main_anchor_off(batch[0].prev_blockhash);
    crate::chain::lemma_hash_idx_range(hs, batch[0].prev_blockhash);
    crate::chain::lemma_trim_range(hs, off, batch);
}

/// Composes the chain's outcome with the coordinator's side effects when
/// the batch repeated known headers: nothing moved and the next request
/// follows, which is what [`headers_outcome`] lays out.
#[verifier::rlimit(100)]
#[verifier::spinoff_prover]
proof fn lemma_outcome_duplicate(
    pre: Node,
    post: Node,
    peer: u64,
    batch: Seq<Header>,
    r: Option<MainThreadMessage>,
)
    requires
        pre.spec_chain().wf(),
        crate::chain::batch_valid(batch, pre.spec_chain().spec_params()),
        pre.spec_chain().main_anchor_off(batch[0].prev_blockhash) >= 0,
        pre.spec_chain().spec_height() + batch.len() <= u32::MAX,
        crate::chain::main_outcome(
            pre.spec_chain(),
            post.spec_chain(),
            batch,
            Ok::<HeaderChainChanges, HeaderSyncError>(HeaderChainChanges::Duplicate),
        ),
        post.spec_chain().spec_anchor() == pre.spec_chain().spec_anchor(),
        is_next_request(post, r),
        sync_untouched(pre, post),
    ensures
        headers_outcome(pre, post, peer, batch, r),
{
    reveal(crate::chain::main_outcome);
    reveal(headers_outcome);
    reveal(crate::chain::batch_valid);
    let hs = pre.spec_chain().spec_headers();
    let off = pre.spec_chain().main_anchor_off(batch[0].prev_blockhash);
    crate::chain::lemma_hash_idx_range(hs, batch[0].prev_blockhash);
    crate::chain::lemma_trim_range(hs, off, batch);
}

/// Composes the chain's outcome with the coordinator's side effects when
/// a candidate fork was stored: announcing it and asking for the next
/// request is what [`headers_outcome`] lays out.
#[verifier::rlimit(100)]
#[verifier::spinoff_prover]
proof fn lemma_outcome_fork(
    pre: Node,
    post: Node,
    peer: u64,
    batch: Seq<Header>,
    tip_height: u32,
    tip_hash: BlockHash,
    r: Option<MainThreadMessage>,
)
    requires
        pre.spec_chain().wf(),
        crate::chain::batch_valid(batch, pre.spec_chain().spec_params()),
        pre.spec_chain().main_anchor_off(batch[0].prev_blockhash) >= 0,
        pre.spec_chain().spec_height() + batch.len() <= u32::MAX,
        crate::chain::main_outcome(
            pre.spec_chain(),
            post.spec_chain(),
            batch,
            Ok::<HeaderChainChanges, HeaderSyncError>(
                HeaderChainChanges::ForkAdded { tip_height, tip_hash },
            ),
        ),
        post.spec_chain().spec_anchor() == pre.spec_chain().spec_anchor(),
        is_next_request(post, r),
        post.spec_infos() == pre.spec_infos().push(Info::NewFork { tip_height, tip_hash }),
        same_cf(pre.spec_cf(), post.spec_cf()),
        same_queue(pre.spec_queue(), post.spec_queue()),
        same_book(pre.spec_book(), post.spec_book()),
        post.spec_warnings() == pre.spec_warnings(),
        post.spec_events() == pre.spec_events(),
    ensures
        headers_outcome(pre, post, peer, batch, r),
{
    reveal(crate::chain::main_outcome);
    reveal(headers_outcome);
    reveal(crate::chain::batch_valid);
    let hs = pre.spec_chain().spec_headers();
    let off = pre.spec_chain().main_anchor_off(batch[0].prev_blockhash);
    crate::chain::lemma_hash_idx_range(hs, batch[0].prev_blockhash);
    crate::chain::lemma_trim_range(hs, off, batch);
}

/// Composes the chain's outcome with the coordinator's side effects when
/// a fork replaced the tip: dropping the orphaned hashes, rolling filter
/// state back and asking for the next request is what
/// [`headers_outcome`] lays out.
#[verifier::rlimit(100)]
#[verifier::spinoff_prover]
proof fn lemma_outcome_reorg(
    pre: Node,
    post: Node,
    peer: u64,
    batch: Seq<Header>,
    height: u32,
    hashes_vec: Vec<BlockHash>,
    r: Option<MainThreadMessage>,
)
    requires
        pre.spec_chain().wf(),
        crate::chain::batch_valid(batch, pre.spec_chain().spec_params()),
        pre.spec_chain().main_anchor_off(batch[0].prev_blockhash) >= 0,
        pre.spec_chain().spec_height() + batch.len() <= u32::MAX,
        crate::chain::main_outcome(
            pre.spec_chain(),
            post.spec_chain(),
            batch,
            Ok::<HeaderChainChanges, HeaderSyncError>(
                HeaderChainChanges::Reorg { height, hashes: hashes_vec },
            ),
        ),
        post.spec_chain().spec_anchor() == pre.spec_chain().spec_anchor(),
        is_next_request(post, r),
        pre.spec_cf().spec_anchor_height() == pre.spec_chain().spec_anchor().height,
        reorg_effects_shape(
            pre.spec_queue()@,
            pre.spec_queue().completed(),
            pre.spec_infos(),
            pre.spec_cf().spec_hashes(),
            pre.spec_cf().spec_checked_to(),
            pre.spec_cf().spec_anchor_height(),
            pre.spec_cf().spec_required(),
            pre.spec_cf().spec_tip_header(),
            pre.spec_cf().spec_queue(),
            post,
            pre.spec_chain().spec_height() as u32,
            post.spec_chain().spec_height(),
            height,
            hashes_vec@,
        ),
        same_book(pre.spec_book(), post.spec_book()),
        post.spec_warnings() == pre.spec_warnings(),
        post.spec_events() == pre.spec_events(),
    ensures
        headers_outcome(pre, post, peer, batch, r),
{
    reveal(crate::chain::main_outcome);
    reveal(headers_outcome);
    reveal(crate::chain::batch_valid);
    let hs = pre.spec_chain().spec_headers();
    let off = pre.spec_chain().main_anchor_off(batch[0].prev_blockhash);
    let t = crate::chain::trim_len(hs, off, batch);
    let off2 = off + t;
    let rest = batch.skip(t);
    crate::chain::lemma_hash_idx_range(hs, batch[0].prev_blockhash);
    crate::chain::lemma_trim_range(hs, off, batch);
    if t < batch.len() && crate::chain::junction_ok(
        hs,
        off2,
        batch[t],
        pre.spec_chain().spec_params(),
    ) && off2 < hs.len() && crate::chain::total_work(rest) > crate::chain::total_work(
        hs.skip(off2),
    ) && crate::chain::cps_ok(
        pre.spec_chain().spec_checkpoints(),
        pre.spec_chain().spec_anchor().height,
        hs.take(off2) + rest,
    ) {
        crate::chain::lemma_desc_hashes_len(hs.skip(off2));
        assert(hashes_vec@.len() == hs.len() - off2);
        assert(post.spec_chain().spec_headers().len() == off2 + rest.len());
    }
}

/// The coordinator's decision core./// Composes the chain's outcome with the coordinator's side effects when
/// a batch anchored to the main chain was nevertheless rejected — a bad
/// junction transition or a checkpoint contradiction: banning the peer is
/// what [`headers_outcome`] lays out.
#[verifier::rlimit(100)]
#[verifier::spinoff_prover]
proof fn lemma_outcome_error(
    pre: Node,
    post: Node,
    peer: u64,
    batch: Seq<Header>,
    e: HeaderSyncError,
    r: Option<MainThreadMessage>,
)
    requires
        pre.spec_chain().wf(),
        crate::chain::batch_valid(batch, pre.spec_chain().spec_params()),
        pre.spec_chain().main_anchor_off(batch[0].prev_blockhash) >= 0,
        pre.spec_chain().spec_height() + batch.len() <= u32::MAX,
        crate::chain::main_outcome(
            pre.spec_chain(),
            post.spec_chain(),
            batch,
            Err::<HeaderChainChanges, HeaderSyncError>(e),
        ),
        ban_reply(pre, post, peer, r),
    ensures
        headers_outcome(pre, post, peer, batch, r),
{
    reveal(crate::chain::main_outcome);
    reveal(headers_outcome);
    reveal(crate::chain::batch_valid);
    let hs = pre.spec_chain().spec_headers();
    let off = pre.spec_chain().main_anchor_off(batch[0].prev_blockhash);
    crate::chain::lemma_hash_idx_range(hs, batch[0].prev_blockhash);
    crate::chain::lemma_trim_range(hs, off, batch);
}

/// The coordinator's decision core.
pub struct Node {
    state: NodeState,
    chain: HeaderChain,
    cf: FilterChain,
    queue: BlockQueue,
    book: PeerBook,
    scripts: Vec<Vec<u8>>,
    required_peers: usize,
    best_known_height: Option<u32>,
    infos: Vec<Info>,
    warnings: Vec<Warning>,
    events: Vec<Event>,
}

impl Node {
    /// The current stage.
    pub closed spec fn spec_state(&self) -> NodeState {
        self.state
    }

    /// The header chain.
    pub closed spec fn spec_chain(&self) -> HeaderChain {
        self.chain
    }

    /// The filter chain.
    pub closed spec fn spec_cf(&self) -> FilterChain {
        self.cf
    }

    /// The block queue.
    pub closed spec fn spec_queue(&self) -> BlockQueue {
        self.queue
    }

    /// The address book.
    pub closed spec fn spec_book(&self) -> PeerBook {
        self.book
    }

    /// The watched scripts.
    pub closed spec fn spec_scripts(&self) -> Seq<Vec<u8>> {
        self.scripts@
    }

    /// The best advertised height seen so far.
    pub closed spec fn spec_best_known_height(&self) -> Option<u32> {
        self.best_known_height
    }

    /// The configured peer requirement.
    pub closed spec fn spec_required_peers(&self) -> int {
        self.required_peers as int
    }

    /// The queued information messages.
    pub closed spec fn spec_infos(&self) -> Seq<Info> {
        self.infos@
    }

    /// The queued warnings.
    pub closed spec fn spec_warnings(&self) -> Seq<Warning> {
        self.warnings@
    }

    /// The queued events.
    pub closed spec fn spec_events(&self) -> Seq<Event> {
        self.events@
    }

    /// The standing invariant: the parts are well formed, the filter
    /// chain roots at the header chain's anchor and never outruns it.
    pub open spec fn wf(&self) -> bool {
        &&& self.spec_chain().wf()
        &&& self.spec_queue().wf()
        &&& self.spec_cf().wf()
        &&& self.spec_cf().spec_anchor_height() == self.spec_chain().spec_anchor().height
        &&& self.spec_cf().spec_hashes().len() <= self.spec_chain().spec_headers().len()
    }

    /// Whether the chain has caught up to the best advertised height.
    pub open spec fn spec_headers_synced(&self) -> bool {
        match self.spec_best_known_height() {
            Some(b) => self.spec_chain().spec_height() >= b,
            None => false,
        }
    }

    /// Whether the filter header chain has reached the tip.
    pub open spec fn spec_cf_headers_synced(&self) -> bool {
        self.spec_cf().spec_anchor_height() + self.spec_cf().spec_hashes().len()
            >= self.spec_chain().spec_height()
    }

    /// Whether every committed filter has been fetched and checked.
    pub open spec fn spec_filters_synced(&self) -> bool {
        self.spec_cf().spec_checked_to() == self.spec_cf().spec_hashes().len()
    }

    /// A node rooted at `anchor`, guarded by `checkpoints`, requiring
    /// `required_peers` corroborating peers.
    pub fn new(
        anchor: HeaderCheckpoint,
        checkpoints: Vec<HeaderCheckpoint>,
        params: Params,
        required_peers: usize,
    ) -> (n: Node)
        requires
            forall|i: int|
                0 <= i < checkpoints@.len() ==> (#[trigger] checkpoints@[i]).height > anchor.height,
        ensures
            n.wf(),
            n.spec_state() == NodeState::Behind,
            n.spec_chain().spec_anchor() == anchor,
            n.spec_chain().spec_headers() =~= Seq::<Header>::empty(),
            n.spec_chain().spec_checkpoints() == checkpoints@,
            n.spec_chain().spec_params() == params,
            n.spec_cf().spec_anchor_height() == anchor.height,
            n.spec_cf().spec_required() == required_peers,
            n.spec_cf().spec_hashes() =~= Seq::<crate::types::FilterHash>::empty(),
            n.spec_cf().spec_checked_to() == 0,
            n.spec_cf().spec_queue() =~= Seq::<crate::cf_chain::Attestation>::empty(),
            n.spec_queue()@ =~= Seq::<crate::block_queue::EntryView>::empty(),
            n.spec_book().spec_addrs() =~= Seq::<(u64, AddrEntry)>::empty(),
            n.spec_book().spec_banned() =~= Seq::<u64>::empty(),
            n.spec_scripts() =~= Seq::<Vec<u8>>::empty(),
            n.spec_required_peers() == required_peers,
            n.spec_best_known_height() is None,
            n.spec_infos() =~= Seq::<Info>::empty(),
            n.spec_warnings() =~= Seq::<Warning>::empty(),
            n.spec_events() =~= Seq::<Event>::empty(),
    {
        Node {
            state: NodeState::Behind,
            chain: HeaderChain::new(anchor, checkpoints, params),
            cf: FilterChain::new(anchor.height, required_peers),
            queue: BlockQueue::new(),
            book: PeerBook::new(),
            scripts: Vec::new(),
            required_peers,
            best_known_height: None,
            infos: Vec::new(),
            warnings: Vec::new(),
            events: Vec::new(),
        }
    }

    /// The current stage, for observation.
    pub fn state(&self) -> (r: NodeState)
        ensures
            r == self.spec_state(),
    {
        self.state
    }

    /// The chain's tip height.
    pub fn chain_height(&self) -> (r: u32)
        requires
            self.wf(),
        ensures
            r == self.spec_chain().spec_height(),
    {
        self.chain.height()
    }

    /// The chain's tip hash.
    pub fn tip_hash(&self) -> (r: BlockHash)
        requires
            self.wf(),
        ensures
            r == self.spec_chain().spec_tip_hash(),
    {
        self.chain.tip_hash()
    }

    /// Whether the chain knows `hash`.
    pub fn chain_contains(&self, hash: &BlockHash) -> (r: bool)
        requires
            self.wf(),
        ensures
            r == self.spec_chain().spec_contains(*hash),
    {
        self.chain.contains(hash)
    }

    /// Notes the best chain height any peer has advertised: the stored
    /// best becomes the larger of the old and the new.
    pub fn set_best_known_height(&mut self, height: u32)
        requires
            old(self).wf(),
        ensures
            final(self).wf(),
            final(self).spec_state() == old(self).spec_state(),
            final(self).spec_best_known_height() == Some(
                match old(self).spec_best_known_height() {
                    Some(b) => if height > b {
                        height
                    } else {
                        b
                    },
                    None => height,
                },
            ),
            final(self).spec_chain() == old(self).spec_chain(),
            final(self).spec_cf() == old(self).spec_cf(),
            final(self).spec_queue() == old(self).spec_queue(),
            final(self).spec_book() == old(self).spec_book(),
            final(self).spec_infos() == old(self).spec_infos(),
            final(self).spec_warnings() == old(self).spec_warnings(),
            final(self).spec_events() == old(self).spec_events(),
    {
        match self.best_known_height {
            Some(b) => {
                if height > b {
                    self.best_known_height = Some(height);
                }
            },
            None => {
                self.best_known_height = Some(height);
            },
        }
    }

    /// How many peers the current stage needs: a single peer serves
    /// header sync, the configured number everything after.
    pub fn next_required_peers(&self) -> (r: usize)
        ensures
            self.spec_state() == NodeState::Behind ==> r == 1,
            self.spec_state() != NodeState::Behind ==> r == self.spec_required_peers(),
    {
        match self.state {
            NodeState::Behind => 1,
            _ => self.required_peers,
        }
    }

    /// Answers a peer's version message. A peer below the required
    /// protocol version is disconnected before anything else is sent;
    /// past header sync, a peer without network and compact filter
    /// service is warned about and disconnected too. An accepted peer is
    /// marked tried in the book and receives exactly the feature
    /// signals, the acknowledgement, an address request when wanted, and
    /// the opening headers request with the chain's locators.
    pub fn handle_version(&mut self, peer: u64, version: VersionInfo, needs_peers: bool) -> (r:
        Vec<MainThreadMessage>)
        requires
            old(self).wf(),
        ensures
            final(self).wf(),
            final(self).spec_state() == old(self).spec_state(),
            final(self).spec_chain() == old(self).spec_chain(),
            final(self).spec_cf() == old(self).spec_cf(),
            final(self).spec_queue() == old(self).spec_queue(),
            final(self).spec_infos() == old(self).spec_infos(),
            final(self).spec_events() == old(self).spec_events(),
            version.version < WTXID_VERSION ==> r@.len() == 1 && r@[0] is Disconnect && final(self).spec_book() == old(self).spec_book() && final(self).spec_warnings() == old(self).spec_warnings(),
            version.version >= WTXID_VERSION && old(self).spec_state() != NodeState::Behind && !(
            version.services & crate::messages::SERVICE_NETWORK
                == crate::messages::SERVICE_NETWORK && version.services
                & crate::messages::SERVICE_COMPACT_FILTERS
                == crate::messages::SERVICE_COMPACT_FILTERS) ==> r@.len() == 1 && r@[0]
                is Disconnect && final(self).spec_book() == old(self).spec_book() && final(self).spec_warnings() == old(self).spec_warnings().push(Warning::NoCompactFilters),
            version.version >= WTXID_VERSION && (old(self).spec_state() == NodeState::Behind || (
            version.services & crate::messages::SERVICE_NETWORK
                == crate::messages::SERVICE_NETWORK && version.services
                & crate::messages::SERVICE_COMPACT_FILTERS
                == crate::messages::SERVICE_COMPACT_FILTERS)) ==> ({
                &&& r@.len() == (if needs_peers {
                    5int
                } else {
                    4int
                })
                &&& r@[0] is GetAddrV2
                &&& r@[1] is WtxidRelay
                &&& r@[2] is Verack
                &&& (needs_peers ==> r@[3] is GetAddr)
                &&& (r@[r@.len() - 1] matches MainThreadMessage::GetHeaders { locators } && locators@
                    == crate::chain::spec_locators(old(self).spec_chain()))
                &&& final(self).spec_book().spec_addrs() == old(self).spec_book().spec_addrs()
                &&& final(self).spec_book().spec_banned() == old(self).spec_book().spec_banned()
                &&& final(self).spec_book().spec_trusted() == old(self).spec_book().spec_trusted()
                &&& final(self).spec_book().spec_tried() == old(self).spec_book().spec_tried().push(peer)
                &&& final(self).spec_warnings() == old(self).spec_warnings()
            }),
    {
        if version.version < WTXID_VERSION {
            let mut r: Vec<MainThreadMessage> = Vec::new();
            r.push(MainThreadMessage::Disconnect);
            return r;
        }
        if !(self.state == NodeState::Behind) {
            let has_network = version.services & crate::messages::SERVICE_NETWORK
                == crate::messages::SERVICE_NETWORK;
            let has_filters = version.services & crate::messages::SERVICE_COMPACT_FILTERS
                == crate::messages::SERVICE_COMPACT_FILTERS;
            if !(has_network && has_filters) {
                self.warnings.push(Warning::NoCompactFilters);
                let mut r: Vec<MainThreadMessage> = Vec::new();
                r.push(MainThreadMessage::Disconnect);
                return r;
            }
        }
        self.book.mark_tried(peer);
        let mut r: Vec<MainThreadMessage> = Vec::new();
        r.push(MainThreadMessage::GetAddrV2);
        r.push(MainThreadMessage::WtxidRelay);
        r.push(MainThreadMessage::Verack);
        if needs_peers {
            r.push(MainThreadMessage::GetAddr);
        }
        let locators = self.chain.locators();
        r.push(MainThreadMessage::GetHeaders { locators });
        r
    }

    /// Tries to advance the state machine one step: each stage moves
    /// forward exactly when its guard holds — headers caught up, filter
    /// headers at the tip, filters checked, queue drained — announcing
    /// the change; reaching the final stage announces the sync once. In
    /// the final stage a stale tip queues a warning and disconnects
    /// every peer to look for fresher connections.
    pub fn advance_state(&mut self, stale: bool) -> (r: Option<MainThreadMessage>)
        requires
            old(self).wf(),
        ensures
            final(self).wf(),
            final(self).spec_chain() == old(self).spec_chain(),
            final(self).spec_cf() == old(self).spec_cf(),
            final(self).spec_queue() == old(self).spec_queue(),
            final(self).spec_book() == old(self).spec_book(),
            final(self).spec_scripts() == old(self).spec_scripts(),
            final(self).spec_best_known_height() == old(self).spec_best_known_height(),
            old(self).spec_state() is Behind ==> r is None && (if old(self).spec_headers_synced() {
                final(self).spec_state() == NodeState::HeadersSynced && final(self).spec_infos()
                    == old(self).spec_infos().push(Info::StateChange(NodeState::HeadersSynced))
            } else {
                final(self).spec_state() == NodeState::Behind && final(self).spec_infos() == old(self).spec_infos()
            }),
            old(self).spec_state() is HeadersSynced ==> r is None && (if old(self).spec_cf_headers_synced() {
                final(self).spec_state() == NodeState::FilterHeadersSynced && final(self).spec_infos() == old(self).spec_infos().push(
                    Info::StateChange(NodeState::FilterHeadersSynced),
                )
            } else {
                final(self).spec_state() == NodeState::HeadersSynced && final(self).spec_infos()
                    == old(self).spec_infos()
            }),
            old(self).spec_state() is FilterHeadersSynced ==> r is None && (if old(self).spec_filters_synced() {
                final(self).spec_state() == NodeState::FiltersSynced && final(self).spec_infos()
                    == old(self).spec_infos().push(Info::StateChange(NodeState::FiltersSynced))
            } else {
                final(self).spec_state() == NodeState::FilterHeadersSynced && final(self).spec_infos() == old(self).spec_infos()
            }),
            old(self).spec_state() is FiltersSynced ==> r is None && (if old(self).spec_queue()@.len() == 0 {
                final(self).spec_state() == NodeState::TransactionsSynced && final(self).spec_infos() == old(self).spec_infos().push(
                    Info::StateChange(NodeState::TransactionsSynced),
                ) && final(self).spec_events() == old(self).spec_events().push(
                    Event::Synced {
                        height: old(self).spec_chain().spec_height() as u32,
                        hash: old(self).spec_chain().spec_tip_hash(),
                    },
                )
            } else {
                final(self).spec_state() == NodeState::FiltersSynced && final(self).spec_infos()
                    == old(self).spec_infos() && final(self).spec_events() == old(self).spec_events()
            }),
            !(old(self).spec_state() is FiltersSynced) ==> final(self).spec_events() == old(self).spec_events(),
            old(self).spec_state() is TransactionsSynced ==> final(self).spec_state()
                == NodeState::TransactionsSynced && final(self).spec_infos() == old(self).spec_infos() && (if stale {
                (r matches Some(m) && m is Disconnect) && final(self).spec_warnings() == old(self).spec_warnings().push(Warning::PotentialStaleTip)
            } else {
                r is None && final(self).spec_warnings() == old(self).spec_warnings()
            }),
            !(old(self).spec_state() is TransactionsSynced) ==> final(self).spec_warnings() == old(self).spec_warnings(),
            state_rank(final(self).spec_state()) >= state_rank(old(self).spec_state()),
    {
        match self.state {
            NodeState::Behind => {
                if self.chain.is_synced(self.best_known_height) {
                    self.infos.push(Info::StateChange(NodeState::HeadersSynced));
                    self.state = NodeState::HeadersSynced;
                }
                None
            },
            NodeState::HeadersSynced => {
                if self.cf.is_cf_headers_synced(self.chain.height()) {
                    self.infos.push(Info::StateChange(NodeState::FilterHeadersSynced));
                    self.state = NodeState::FilterHeadersSynced;
                }
                None
            },
            NodeState::FilterHeadersSynced => {
                if self.cf.is_filters_synced() {
                    self.infos.push(Info::StateChange(NodeState::FiltersSynced));
                    self.state = NodeState::FiltersSynced;
                }
                None
            },
            NodeState::FiltersSynced => {
                if self.queue.complete() {
                    self.state = NodeState::TransactionsSynced;
                    let height = self.chain.height();
                    let hash = self.chain.tip_hash();
                    self.infos.push(Info::StateChange(NodeState::TransactionsSynced));
                    self.events.push(Event::Synced { height, hash });
                }
                None
            },
            NodeState::TransactionsSynced => {
                if stale {
                    self.warnings.push(Warning::PotentialStaleTip);
                    Some(MainThreadMessage::Disconnect)
                } else {
                    None
                }
            },
        }
    }

    /// The next request the sync stage calls for: headers until the
    /// chain is caught up, then filter headers, then filters, then
    /// nothing.
    pub fn next_stateful_message(&mut self) -> (r: Option<MainThreadMessage>)
        requires
            old(self).wf(),
        ensures
            final(self).wf(),
            *final(self) == *old(self),
            is_next_request(*old(self), r),
    {
        proof {
            reveal(is_next_request);
        }
        let synced = self.chain.is_synced(self.best_known_height);
        if !synced {
            let locators = self.chain.locators();
            return Some(MainThreadMessage::GetHeaders { locators });
        }
        let height = self.chain.height();
        if !self.cf.is_cf_headers_synced(height) {
            let start_height = self.cf.next_cf_header_height();
            let stop_hash = self.stop_hash_for(start_height);
            return Some(MainThreadMessage::GetFilterHeaders { start_height, stop_hash });
        }
        if !self.cf.is_filters_synced() {
            let start_height = self.cf.next_filter_height();
            let stop_hash = self.stop_hash_for(start_height);
            return Some(MainThreadMessage::GetFilters { start_height, stop_hash });
        }
        None
    }

    /// The block hash a ranged request starting at `start` should stop
    /// at: a window of at most a thousand entries, capped at the tip.
    fn stop_hash_for(&self, start: u32) -> (r: BlockHash)
        requires
            self.wf(),
        ensures
            r == spec_stop_hash(self.spec_chain(), start),
    {
        let height = self.chain.height();
        let stop_height = if start <= u32::MAX - 999 && start + 999 < height {
            start + 999
        } else {
            height
        };
        match self.chain.header_at_height(stop_height) {
            Some(h) => h.block_hash(),
            None => self.chain.tip_hash(),
        }
    }

    /// Applies a headers batch from a peer. An empty batch while behind
    /// is a fault worth disconnecting over; while synced it leads to the
    /// next stateful request. A batch failing validation bans the peer.
    /// A batch anchored to the main chain does exactly what
    /// [`headers_outcome`] lays out, reorganizations included.
    #[verifier::rlimit(100)]
    #[verifier::spinoff_prover]
    pub fn handle_headers(&mut self, peer: u64, headers: Vec<Header>) -> (r: Option<
        MainThreadMessage,
    >)
        requires
            old(self).wf(),
            old(self).spec_chain().spec_height() + headers@.len() <= u32::MAX,
        ensures
            final(self).wf(),
            final(self).spec_state() == old(self).spec_state(),
            final(self).spec_scripts() == old(self).spec_scripts(),
            final(self).spec_best_known_height() == old(self).spec_best_known_height(),
            headers@.len() == 0 && !old(self).spec_headers_synced() ==> (r matches Some(m) && m
                is Disconnect) && sync_untouched(*old(self), *final(self)),
            headers@.len() == 0 && old(self).spec_headers_synced() ==> sync_untouched(
                *old(self),
                *final(self),
            ) && is_next_request(*final(self), r),
            headers@.len() > 0 && !crate::chain::batch_valid(
                headers@,
                old(self).spec_chain().spec_params(),
            ) ==> ban_reply(*old(self), *final(self), peer, r),
            crate::chain::batch_valid(headers@, old(self).spec_chain().spec_params()) && old(self).spec_chain().main_anchor_off(headers@[0].prev_blockhash) >= 0 ==> headers_outcome(
                *old(self),
                *final(self),
                peer,
                headers@,
                r,
            ),
    {
        proof {
            reveal(crate::chain::batch_valid);
        }
        let synced_before = self.chain.is_synced(self.best_known_height);
        let pre_height = self.chain.height();
        match self.chain.sync_chain(headers) {
            Ok(changes) => {
                match changes {
                    HeaderChainChanges::Extended(height) => self.finish_extended(
                        height,
                        peer,
                        Ghost(*old(self)),
                        Ghost(headers@),
                    ),
                    HeaderChainChanges::Reorg { height, hashes } => self.finish_reorg(
                        pre_height,
                        height,
                        hashes,
                        peer,
                        Ghost(*old(self)),
                        Ghost(headers@),
                    ),
                    HeaderChainChanges::ForkAdded { tip_height, tip_hash } => self.finish_fork(
                        tip_height,
                        tip_hash,
                        peer,
                        Ghost(*old(self)),
                        Ghost(headers@),
                    ),
                    HeaderChainChanges::Duplicate => self.finish_duplicate(
                        peer,
                        Ghost(*old(self)),
                        Ghost(headers@),
                    ),
                }
            },
            Err(e) => {
                let ghost e0 = e;
                let r = self.apply_sync_error(e, peer, synced_before);
                proof {
                    if crate::chain::batch_valid(headers@, old(self).spec_chain().spec_params())
                        && old(self).spec_chain().main_anchor_off(headers@[0].prev_blockhash)
                        >= 0 {
                        lemma_outcome_error(*old(self), *self, peer, headers@, e0, r);
                    }
                }
                r
            },
        }
    }

    /// Reacts to a rejected batch: an empty batch while behind is a
    /// disconnect, an empty batch while synced leads to the next request,
    /// and every validation fault bans the peer.
    fn apply_sync_error(&mut self, e: HeaderSyncError, peer: u64, synced_before: bool) -> (r:
        Option<MainThreadMessage>)
        requires
            old(self).wf(),
        ensures
            final(self).wf(),
            final(self).spec_state() == old(self).spec_state(),
            final(self).spec_scripts() == old(self).spec_scripts(),
            final(self).spec_best_known_height() == old(self).spec_best_known_height(),
            final(self).spec_chain() == old(self).spec_chain(),
            e is EmptyMessage && !synced_before ==> (r matches Some(m) && m is Disconnect)
                && sync_untouched(*old(self), *final(self)),
            e is EmptyMessage && synced_before ==> sync_untouched(*old(self), *final(self))
                && is_next_request(*final(self), r),
            !(e is EmptyMessage) ==> ban_reply(*old(self), *final(self), peer, r),
    {
        match e {
            HeaderSyncError::EmptyMessage => {
                if !synced_before {
                    return Some(MainThreadMessage::Disconnect);
                }
                self.next_stateful_message()
            },
            _ => {
                self.warnings.push(Warning::UnexpectedSyncError);
                self.book.ban(peer);
                Some(MainThreadMessage::Disconnect)
            },
        }
    }

    /// Applies a reorganization's side effects: the orphaned hashes
    /// leave the block queue, filter state rolls back to the fork point
    /// — capped at the new tip — and the new height is announced.
    fn apply_reorg_effects(&mut self, pre_height: u32, height: u32, hashes: Vec<BlockHash>)
        requires
            old(self).spec_chain().wf(),
            old(self).spec_queue().wf(),
            old(self).spec_cf().wf(),
            old(self).spec_cf().spec_anchor_height() == old(self).spec_chain().spec_anchor().height,
        ensures
            final(self).wf(),
            final(self).spec_state() == old(self).spec_state(),
            final(self).spec_scripts() == old(self).spec_scripts(),
            final(self).spec_best_known_height() == old(self).spec_best_known_height(),
            final(self).spec_chain() == old(self).spec_chain(),
            same_book(old(self).spec_book(), final(self).spec_book()),
            final(self).spec_warnings() == old(self).spec_warnings(),
            final(self).spec_events() == old(self).spec_events(),
            reorg_effects_shape(
                old(self).spec_queue()@,
                old(self).spec_queue().completed(),
                old(self).spec_infos(),
                old(self).spec_cf().spec_hashes(),
                old(self).spec_cf().spec_checked_to(),
                old(self).spec_cf().spec_anchor_height(),
                old(self).spec_cf().spec_required(),
                old(self).spec_cf().spec_tip_header(),
                old(self).spec_cf().spec_queue(),
                *final(self),
                pre_height,
                old(self).spec_chain().spec_height(),
                height,
                hashes@,
            ),
    {
        proof {
            reveal(reorg_effects_shape);
        }
        self.queue.remove(&hashes);
        let orphans = hashes.len();
        let fork_point = if (pre_height as u64) >= (orphans as u64) {
            pre_height - (orphans as u32)
        } else {
            0
        };
        let cap = self.chain.height();
        let to = if fork_point < cap {
            fork_point
        } else {
            cap
        };
        self.cf.rollback_to(to);
        self.infos.push(Info::NewChainHeight(height));
    }

    /// Announces an extension and asks for the next request.
    #[verifier::rlimit(100)]
    #[verifier::spinoff_prover]
    fn finish_extended(
        &mut self,
        height: u32,
        peer: u64,
        Ghost(pre): Ghost<Node>,
        Ghost(batch): Ghost<Seq<Header>>,
    ) -> (r: Option<MainThreadMessage>)
        requires
            pre.wf(),
            old(self).spec_chain().wf(),
            old(self).spec_queue().wf(),
            old(self).spec_cf().wf(),
            old(self).spec_cf().spec_anchor_height() == old(self).spec_chain().spec_anchor().height,
            batch.len() > 0,
            pre.spec_chain().spec_height() + batch.len() <= u32::MAX,
            old(self).spec_state() == pre.spec_state(),
            old(self).spec_scripts() == pre.spec_scripts(),
            old(self).spec_best_known_height() == pre.spec_best_known_height(),
            old(self).spec_required_peers() == pre.spec_required_peers(),
            same_cf(pre.spec_cf(), old(self).spec_cf()),
            same_queue(pre.spec_queue(), old(self).spec_queue()),
            same_book(pre.spec_book(), old(self).spec_book()),
            old(self).spec_infos() == pre.spec_infos(),
            old(self).spec_warnings() == pre.spec_warnings(),
            old(self).spec_events() == pre.spec_events(),
            old(self).spec_chain().spec_anchor() == pre.spec_chain().spec_anchor(),
            old(self).spec_chain().spec_params() == pre.spec_chain().spec_params(),
            old(self).spec_chain().spec_checkpoints() == pre.spec_chain().spec_checkpoints(),
            old(self).spec_chain().spec_headers().len() >= pre.spec_chain().spec_headers().len(),
            crate::chain::batch_valid(batch, pre.spec_chain().spec_params()) && pre.spec_chain().main_anchor_off(
                batch[0].prev_blockhash,
            ) >= 0 ==> crate::chain::main_outcome(
                pre.spec_chain(),
                old(self).spec_chain(),
                batch,
                Ok::<HeaderChainChanges, HeaderSyncError>(HeaderChainChanges::Extended(height)),
            ),
        ensures
            final(self).wf(),
            final(self).spec_state() == old(self).spec_state(),
            final(self).spec_scripts() == old(self).spec_scripts(),
            final(self).spec_best_known_height() == old(self).spec_best_known_height(),
            crate::chain::batch_valid(batch, pre.spec_chain().spec_params()) && pre.spec_chain().main_anchor_off(
                batch[0].prev_blockhash,
            ) >= 0 ==> headers_outcome(pre, *final(self), peer, batch, r),
    {
        self.infos.push(Info::NewChainHeight(height));
        let r = self.next_stateful_message();
        proof {
            if crate::chain::batch_valid(batch, pre.spec_chain().spec_params())
                && pre.spec_chain().main_anchor_off(batch[0].prev_blockhash) >= 0 {
                lemma_outcome_extended(pre, *self, peer, batch, height, r);
            }
        }
        r
    }

    /// Announces a stored candidate fork and asks for the next request.
    #[verifier::rlimit(100)]
    #[verifier::spinoff_prover]
    fn finish_fork(
        &mut self,
        tip_height: u32,
        tip_hash: BlockHash,
        peer: u64,
        Ghost(pre): Ghost<Node>,
        Ghost(batch): Ghost<Seq<Header>>,
    ) -> (r: Option<MainThreadMessage>)
        requires
            pre.wf(),
            old(self).spec_chain().wf(),
            old(self).spec_queue().wf(),
            old(self).spec_cf().wf(),
            old(self).spec_cf().spec_anchor_height() == old(self).spec_chain().spec_anchor().height,
            batch.len() > 0,
            pre.spec_chain().spec_height() + batch.len() <= u32::MAX,
            old(self).spec_state() == pre.spec_state(),
            old(self).spec_scripts() == pre.spec_scripts(),
            old(self).spec_best_known_height() == pre.spec_best_known_height(),
            old(self).spec_required_peers() == pre.spec_required_peers(),
            same_cf(pre.spec_cf(), old(self).spec_cf()),
            same_queue(pre.spec_queue(), old(self).spec_queue()),
            same_book(pre.spec_book(), old(self).spec_book()),
            old(self).spec_infos() == pre.spec_infos(),
            old(self).spec_warnings() == pre.spec_warnings(),
            old(self).spec_events() == pre.spec_events(),
            old(self).spec_chain().spec_anchor() == pre.spec_chain().spec_anchor(),
            old(self).spec_chain().spec_params() == pre.spec_chain().spec_params(),
            old(self).spec_chain().spec_checkpoints() == pre.spec_chain().spec_checkpoints(),
            old(self).spec_chain().spec_headers() == pre.spec_chain().spec_headers(),
            crate::chain::batch_valid(batch, pre.spec_chain().spec_params()) && pre.spec_chain().main_anchor_off(
                batch[0].prev_blockhash,
            ) >= 0 ==> crate::chain::main_outcome(
                pre.spec_chain(),
                old(self).spec_chain(),
                batch,
                Ok::<HeaderChainChanges, HeaderSyncError>(
                    HeaderChainChanges::ForkAdded { tip_height, tip_hash },
                ),
            ),
        ensures
            final(self).wf(),
            final(self).spec_state() == old(self).spec_state(),
            final(self).spec_scripts() == old(self).spec_scripts(),
            final(self).spec_best_known_height() == old(self).spec_best_known_height(),
            crate::chain::batch_valid(batch, pre.spec_chain().spec_params()) && pre.spec_chain().main_anchor_off(
                batch[0].prev_blockhash,
            ) >= 0 ==> headers_outcome(pre, *final(self), peer, batch, r),
    {
        self.infos.push(Info::NewFork { tip_height, tip_hash });
        let r = self.next_stateful_message();
        proof {
            if crate::chain::batch_valid(batch, pre.spec_chain().spec_params())
                && pre.spec_chain().main_anchor_off(batch[0].prev_blockhash) >= 0 {
                lemma_outcome_fork(pre, *self, peer, batch, tip_height, tip_hash, r);
            }
        }
        r
    }

    /// A repeat changes nothing; the next request follows.
    #[verifier::rlimit(100)]
    #[verifier::spinoff_prover]
    fn finish_duplicate(
        &mut self,
        peer: u64,
        Ghost(pre): Ghost<Node>,
        Ghost(batch): Ghost<Seq<Header>>,
    ) -> (r: Option<MainThreadMessage>)
        requires
            pre.wf(),
            old(self).spec_chain().wf(),
            old(self).spec_queue().wf(),
            old(self).spec_cf().wf(),
            old(self).spec_cf().spec_anchor_height() == old(self).spec_chain().spec_anchor().height,
            batch.len() > 0,
            pre.spec_chain().spec_height() + batch.len() <= u32::MAX,
            old(self).spec_state() == pre.spec_state(),
            old(self).spec_scripts() == pre.spec_scripts(),
            old(self).spec_best_known_height() == pre.spec_best_known_height(),
            old(self).spec_required_peers() == pre.spec_required_peers(),
            same_cf(pre.spec_cf(), old(self).spec_cf()),
            same_queue(pre.spec_queue(), old(self).spec_queue()),
            same_book(pre.spec_book(), old(self).spec_book()),
            old(self).spec_infos() == pre.spec_infos(),
            old(self).spec_warnings() == pre.spec_warnings(),
            old(self).spec_events() == pre.spec_events(),
            old(self).spec_chain().spec_anchor() == pre.spec_chain().spec_anchor(),
            old(self).spec_chain().spec_params() == pre.spec_chain().spec_params(),
            old(self).spec_chain().spec_checkpoints() == pre.spec_chain().spec_checkpoints(),
            old(self).spec_chain().spec_headers() == pre.spec_chain().spec_headers(),
            crate::chain::batch_valid(batch, pre.spec_chain().spec_params()) && pre.spec_chain().main_anchor_off(
                batch[0].prev_blockhash,
            ) >= 0 ==> crate::chain::main_outcome(
                pre.spec_chain(),
                old(self).spec_chain(),
                batch,
                Ok::<HeaderChainChanges, HeaderSyncError>(HeaderChainChanges::Duplicate),
            ),
        ensures
            final(self).wf(),
            final(self).spec_state() == old(self).spec_state(),
            final(self).spec_scripts() == old(self).spec_scripts(),
            final(self).spec_best_known_height() == old(self).spec_best_known_height(),
            crate::chain::batch_valid(batch, pre.spec_chain().spec_params()) && pre.spec_chain().main_anchor_off(
                batch[0].prev_blockhash,
            ) >= 0 ==> headers_outcome(pre, *final(self), peer, batch, r),
    {
        let r = self.next_stateful_message();
        proof {
            if crate::chain::batch_valid(batch, pre.spec_chain().spec_params())
                && pre.spec_chain().main_anchor_off(batch[0].prev_blockhash) >= 0 {
                lemma_outcome_duplicate(pre, *self, peer, batch, r);
            }
        }
        r
    }

    /// Applies a reorganization's side effects and asks for the next
    /// request.
    #[verifier::rlimit(100)]
    #[verifier::spinoff_prover]
    fn finish_reorg(
        &mut self,
        pre_height: u32,
        height: u32,
        hashes: Vec<BlockHash>,
        peer: u64,
        Ghost(pre): Ghost<Node>,
        Ghost(batch): Ghost<Seq<Header>>,
    ) -> (r: Option<MainThreadMessage>)
        requires
            pre.wf(),
            old(self).spec_chain().wf(),
            old(self).spec_queue().wf(),
            old(self).spec_cf().wf(),
            old(self).spec_cf().spec_anchor_height() == old(self).spec_chain().spec_anchor().height,
            batch.len() > 0,
            pre.spec_chain().spec_height() + batch.len() <= u32::MAX,
            old(self).spec_state() == pre.spec_state(),
            old(self).spec_scripts() == pre.spec_scripts(),
            old(self).spec_best_known_height() == pre.spec_best_known_height(),
            old(self).spec_required_peers() == pre.spec_required_peers(),
            same_cf(pre.spec_cf(), old(self).spec_cf()),
            same_queue(pre.spec_queue(), old(self).spec_queue()),
            same_book(pre.spec_book(), old(self).spec_book()),
            old(self).spec_infos() == pre.spec_infos(),
            old(self).spec_warnings() == pre.spec_warnings(),
            old(self).spec_events() == pre.spec_events(),
            old(self).spec_chain().spec_anchor() == pre.spec_chain().spec_anchor(),
            old(self).spec_chain().spec_params() == pre.spec_chain().spec_params(),
            old(self).spec_chain().spec_checkpoints() == pre.spec_chain().spec_checkpoints(),
            pre_height == pre.spec_chain().spec_height(),
            height == old(self).spec_chain().spec_height(),
            crate::chain::batch_valid(batch, pre.spec_chain().spec_params()) && pre.spec_chain().main_anchor_off(
                batch[0].prev_blockhash,
            ) >= 0 ==> crate::chain::main_outcome(
                pre.spec_chain(),
                old(self).spec_chain(),
                batch,
                Ok::<HeaderChainChanges, HeaderSyncError>(
                    HeaderChainChanges::Reorg { height, hashes },
                ),
            ),
        ensures
            final(self).wf(),
            final(self).spec_state() == old(self).spec_state(),
            final(self).spec_scripts() == old(self).spec_scripts(),
            final(self).spec_best_known_height() == old(self).spec_best_known_height(),
            crate::chain::batch_valid(batch, pre.spec_chain().spec_params()) && pre.spec_chain().main_anchor_off(
                batch[0].prev_blockhash,
            ) >= 0 ==> headers_outcome(pre, *final(self), peer, batch, r),
    {
        let ghost hashes0 = hashes;
        self.apply_reorg_effects(pre_height, height, hashes);
        let r = self.next_stateful_message();
        proof {
            if crate::chain::batch_valid(batch, pre.spec_chain().spec_params())
                && pre.spec_chain().main_anchor_off(batch[0].prev_blockhash) >= 0 {
                lemma_outcome_reorg(pre, *self, peer, batch, height, hashes0, r);
            }
        }
        r
    }

    /// Applies a filter headers message.    /// Applies a filter headers message. A hash count reaching past the
    /// tip, an empty message or a broken chain link bans the peer.
    /// Otherwise the peer's claim joins the audit queue: agreement among
    /// enough peers commits the hashes and prompts the next request,
    /// disagreement severs the connection without a ban, and a lone
    /// claim merely waits.
    pub fn handle_cf_headers(&mut self, peer: u64, msg: &CFHeadersMsg) -> (r: Option<
        MainThreadMessage,
    >)
        requires
            old(self).wf(),
        ensures
            final(self).wf(),
            final(self).spec_state() == old(self).spec_state(),
            final(self).spec_chain() == old(self).spec_chain(),
            final(self).spec_queue() == old(self).spec_queue(),
            final(self).spec_events() == old(self).spec_events(),
            final(self).spec_infos() == old(self).spec_infos(),
            old(self).spec_cf().spec_anchor_height() + old(self).spec_cf().spec_hashes().len()
                + msg.filter_hashes@.len() > old(self).spec_chain().spec_height() ==> ban_reply(
                *old(self),
                *final(self),
                peer,
                r,
            ),
            old(self).spec_cf().spec_anchor_height() + old(self).spec_cf().spec_hashes().len()
                + msg.filter_hashes@.len() <= old(self).spec_chain().spec_height() ==> ({
                if msg.filter_hashes@.len() == 0 {
                    ban_reply(*old(self), *final(self), peer, r)
                } else if msg.previous_filter_header != old(self).spec_cf().spec_tip_header() {
                    ban_reply(*old(self), *final(self), peer, r)
                } else {
                    let tip = crate::cf_chain::fold_headers(
                        old(self).spec_cf().spec_tip_header(),
                        msg.filter_hashes@,
                    );
                    let q2 = crate::cf_chain::insert_claim(
                        old(self).spec_cf().spec_queue(),
                        peer,
                        tip,
                    );
                    if !crate::cf_chain::all_claim(q2, tip) {
                        disconnect_reply(*old(self), *final(self), r)
                    } else if crate::cf_chain::count_claims(q2, tip) >= old(self).spec_cf().spec_required() {
                        &&& final(self).spec_cf().spec_hashes() == old(self).spec_cf().spec_hashes() + msg.filter_hashes@
                        &&& final(self).spec_cf().spec_tip_header() == tip
                        &&& final(self).spec_cf().spec_queue() =~= Seq::<
                            crate::cf_chain::Attestation,
                        >::empty()
                        &&& final(self).spec_cf().spec_checked_to() == old(self).spec_cf().spec_checked_to()
                        &&& is_next_request(*final(self), r)
                        &&& final(self).spec_book() == old(self).spec_book()
                        &&& final(self).spec_warnings() == old(self).spec_warnings()
                    } else {
                        &&& final(self).spec_cf().spec_hashes() == old(self).spec_cf().spec_hashes()
                        &&& final(self).spec_cf().spec_tip_header() == old(self).spec_cf().spec_tip_header()
                        &&& final(self).spec_cf().spec_queue() == q2
                        &&& final(self).spec_cf().spec_checked_to() == old(self).spec_cf().spec_checked_to()
                        &&& r is None
                        &&& final(self).spec_book() == old(self).spec_book()
                        &&& final(self).spec_warnings() == old(self).spec_warnings()
                    }
                }
            }),
    {
        let cf_height = self.cf.height();
        let chain_height = self.chain.height();
        proof {
            assert(cf_height <= chain_height);
        }
        let room = chain_height - cf_height;
        if (msg.filter_hashes.len() as u64) > room as u64 {
            self.warnings.push(Warning::UnexpectedSyncError);
            self.book.ban(peer);
            return Some(MainThreadMessage::Disconnect);
        }
        match self.cf.sync_cf_headers(peer, msg) {
            Ok(CFHeaderChanges::AddedToQueue) => None,
            Ok(CFHeaderChanges::Extended) => self.next_stateful_message(),
            Ok(CFHeaderChanges::Conflict) => {
                self.warnings.push(Warning::UnexpectedSyncError);
                Some(MainThreadMessage::Disconnect)
            },
            Err(_) => {
                self.warnings.push(Warning::UnexpectedSyncError);
                self.book.ban(peer);
                Some(MainThreadMessage::Disconnect)
            },
        }
    }

    /// Applies one filter. The block is looked up on the main chain, the
    /// filter checked against its committed hash and matched against the
    /// watched scripts; a match queues the block for the event stream. A
    /// filter that cannot be decoded is a disconnect; an unknown block,
    /// an unexpected height or a wrong hash is a ban. The last filter of
    /// a batch prompts the next filters request.
    #[verifier::rlimit(100)]
    #[verifier::spinoff_prover]
    pub fn handle_filter(&mut self, peer: u64, msg: &CFilterMsg) -> (r: Option<MainThreadMessage>)
        requires
            old(self).wf(),
        ensures
            final(self).wf(),
            final(self).spec_state() == old(self).spec_state(),
            same_chain(old(self).spec_chain(), final(self).spec_chain()),
            final(self).spec_infos() == old(self).spec_infos(),
            final(self).spec_events() == old(self).spec_events(),
            !old(self).spec_chain().spec_contains(msg.block_hash) ==> ban_reply(
                *old(self),
                *final(self),
                peer,
                r,
            ),
            old(self).spec_chain().spec_contains(msg.block_hash) ==> ({
                let height: int = if msg.block_hash == old(self).spec_chain().spec_anchor().hash {
                    old(self).spec_chain().spec_anchor().height as int
                } else {
                    old(self).spec_chain().spec_anchor().height + crate::chain::hash_idx(
                        old(self).spec_chain().spec_headers(),
                        msg.block_hash,
                    ) + 1
                };
                let cf = old(self).spec_cf();
                if !(cf.spec_checked_to() < cf.spec_hashes().len() && height
                    == cf.spec_anchor_height() + cf.spec_checked_to() + 1) {
                    ban_reply(*old(self), *final(self), peer, r)
                } else if crate::hashes::filter_hash_of(msg.filter@)
                    != cf.spec_hashes()[cf.spec_checked_to()] {
                    ban_reply(*old(self), *final(self), peer, r)
                } else if crate::cf_chain::filter_element_count(msg.filter@)
                    * crate::cf_chain::FILTER_M > u64::MAX {
                    disconnect_reply(*old(self), *final(self), r)
                } else {
                    match crate::cf_chain::bip158_match_of(
                        msg.filter@,
                        crate::types::u256_bytes(msg.block_hash),
                        old(self).spec_scripts().map_values(|s: Vec<u8>| s@),
                    ) {
                        Option::None => disconnect_reply(*old(self), *final(self), r),
                        Option::Some(matched) => {
                            &&& final(self).spec_cf().spec_checked_to() == cf.spec_checked_to() + 1
                            &&& final(self).spec_cf().spec_hashes() == cf.spec_hashes()
                            &&& final(self).spec_cf().spec_tip_header() == cf.spec_tip_header()
                            &&& final(self).spec_cf().spec_queue() == cf.spec_queue()
                            &&& same_book(old(self).spec_book(), final(self).spec_book())
                            &&& final(self).spec_warnings() == old(self).spec_warnings()
                            &&& (if matched {
                                let q = old(self).spec_queue()@;
                                let i = crate::block_queue::entry_idx(q, msg.block_hash);
                                if i < 0 {
                                    final(self).spec_queue()@ =~= q.push(
                                        (
                                            msg.block_hash,
                                            seq![crate::block_queue::BlockRecipient::Event],
                                            false,
                                        ),
                                    ) && final(self).spec_queue().completed() == old(self).spec_queue().completed()
                                } else {
                                    final(self).spec_queue()@ =~= q.update(
                                        i,
                                        (
                                            q[i].0,
                                            q[i].1.push(crate::block_queue::BlockRecipient::Event),
                                            q[i].2,
                                        ),
                                    ) && final(self).spec_queue().completed() == old(self).spec_queue().completed()
                                }
                            } else {
                                same_queue(old(self).spec_queue(), final(self).spec_queue())
                            })
                            &&& ({
                                let was_last = final(self).spec_cf().spec_checked_to()
                                    == cf.spec_hashes().len() || final(self).spec_cf().spec_checked_to() % 1000 == 0;
                                if was_last && final(self).spec_cf().spec_checked_to()
                                    != cf.spec_hashes().len() {
                                    r matches Some(m) && m matches MainThreadMessage::GetFilters {
                                        start_height,
                                        stop_hash,
                                    } && start_height == cf.spec_anchor_height() + final(self).spec_cf().spec_checked_to() + 1 && stop_hash
                                        == spec_stop_hash(old(self).spec_chain(), start_height)
                                } else {
                                    r is None
                                }
                            })
                        },
                    }
                }
            }),
    {
        let height = match self.chain.height_of_hash(&msg.block_hash) {
            Some(h) => h,
            None => {
                self.warnings.push(Warning::UnexpectedSyncError);
                self.book.ban(peer);
                return Some(MainThreadMessage::Disconnect);
            },
        };
        proof {
            crate::chain::lemma_hash_idx_range(
                self.spec_chain().spec_headers(),
                msg.block_hash,
            );
            assert(self.spec_chain().spec_contains(msg.block_hash));
            assert(height as int == (if msg.block_hash
                == self.spec_chain().spec_anchor().hash {
                self.spec_chain().spec_anchor().height as int
            } else {
                self.spec_chain().spec_anchor().height + crate::chain::hash_idx(
                    self.spec_chain().spec_headers(),
                    msg.block_hash,
                ) + 1
            }));
        }
        match self.cf.sync_filter(height, &msg.block_hash, &msg.filter, &self.scripts) {
            Ok(check) => self.apply_filter_check(check),
            Err(CFilterSyncError::Filter) => {
                self.warnings.push(Warning::UnexpectedSyncError);
                Some(MainThreadMessage::Disconnect)
            },
            Err(_) => {
                self.warnings.push(Warning::UnexpectedSyncError);
                self.book.ban(peer);
                Some(MainThreadMessage::Disconnect)
            },
        }
    }

    /// Acts on one checked filter: a match queues its block for the
    /// event stream, and the last filter of a batch prompts the next
    /// filters request.
    fn apply_filter_check(&mut self, check: FilterCheck) -> (r: Option<MainThreadMessage>)
        requires
            old(self).wf(),
        ensures
            final(self).wf(),
            final(self).spec_state() == old(self).spec_state(),
            same_chain(old(self).spec_chain(), final(self).spec_chain()),
            same_cf(old(self).spec_cf(), final(self).spec_cf()),
            same_book(old(self).spec_book(), final(self).spec_book()),
            final(self).spec_infos() == old(self).spec_infos(),
            final(self).spec_warnings() == old(self).spec_warnings(),
            final(self).spec_events() == old(self).spec_events(),
            (match check.needs_request {
                Some(h) => {
                    let q = old(self).spec_queue()@;
                    let i = crate::block_queue::entry_idx(q, h);
                    (if i < 0 {
                        final(self).spec_queue()@ =~= q.push(
                            (h, seq![crate::block_queue::BlockRecipient::Event], false),
                        )
                    } else {
                        final(self).spec_queue()@ =~= q.update(
                            i,
                            (q[i].0, q[i].1.push(crate::block_queue::BlockRecipient::Event), q[i].2),
                        )
                    }) && final(self).spec_queue().completed() == old(self).spec_queue().completed()
                },
                None => same_queue(old(self).spec_queue(), final(self).spec_queue()),
            }),
            (if check.was_last_in_batch && old(self).spec_cf().spec_checked_to() != old(self).spec_cf().spec_hashes().len() {
                r matches Some(m) && m matches MainThreadMessage::GetFilters {
                    start_height,
                    stop_hash,
                } && start_height == old(self).spec_cf().spec_anchor_height() + old(self).spec_cf().spec_checked_to() + 1 && stop_hash == spec_stop_hash(
                    old(self).spec_chain(),
                    start_height,
                )
            } else {
                r is None
            }),
    {
        if let Some(hash) = check.needs_request {
            proof {
                crate::block_queue::lemma_entry_idx(self.spec_queue()@, hash);
            }
            self.queue.add(hash, BlockRecipient::Event);
        }
        if check.was_last_in_batch {
            if !self.cf.is_filters_synced() {
                let start_height = self.cf.next_filter_height();
                let stop_hash = self.stop_hash_for(start_height);
                return Some(MainThreadMessage::GetFilters { start_height, stop_hash });
            }
        }
        None
    }

    /// Accepts a block a peer delivered. A block whose hash the chain
    /// does not know, or whose merkle root does not commit to its
    /// transactions, bans the peer. A wanted block leaves the queue and
    /// is delivered to every registered recipient exactly once: each
    /// event recipient gets one event here, and each client ticket is
    /// returned with the height for the runtime to answer. A served or
    /// unknown hash changes nothing.
    pub fn handle_block(&mut self, peer: u64, block: &BlockSummary) -> (r: (
        Option<MainThreadMessage>,
        Vec<(u64, u32)>,
    ))
        requires
            old(self).wf(),
        ensures
            final(self).wf(),
            final(self).spec_state() == old(self).spec_state(),
            same_chain(old(self).spec_chain(), final(self).spec_chain()),
            same_cf(old(self).spec_cf(), final(self).spec_cf()),
            final(self).spec_infos() == old(self).spec_infos(),
            !old(self).spec_chain().spec_contains(block.hash) ==> ban_reply(
                *old(self),
                *final(self),
                peer,
                r.0,
            ) && r.1@.len() == 0,
            old(self).spec_chain().spec_contains(block.hash) && !block.merkle_ok ==> ban_reply(
                *old(self),
                *final(self),
                peer,
                r.0,
            ) && r.1@.len() == 0,
            old(self).spec_chain().spec_contains(block.hash) && block.merkle_ok ==> ({
                let height: u32 = (if block.hash == old(self).spec_chain().spec_anchor().hash {
                    old(self).spec_chain().spec_anchor().height as int
                } else {
                    old(self).spec_chain().spec_anchor().height + crate::chain::hash_idx(
                        old(self).spec_chain().spec_headers(),
                        block.hash,
                    ) + 1
                }) as u32;
                let q = old(self).spec_queue()@;
                let i = crate::block_queue::entry_idx(q, block.hash);
                &&& r.0 is None
                &&& same_book(old(self).spec_book(), final(self).spec_book())
                &&& final(self).spec_warnings() == old(self).spec_warnings()
                &&& (if i >= 0 {
                    final(self).spec_queue()@ =~= q.remove(i) && final(self).spec_queue().completed() =~= old(self).spec_queue().completed().push(
                        block.hash,
                    ) && r.1@ == client_tickets(q[i].1, height) && final(self).spec_events() == old(self).spec_events() + event_deliveries(q[i].1, height, block.hash)
                } else {
                    same_queue(old(self).spec_queue(), final(self).spec_queue()) && r.1@.len() == 0
                        && final(self).spec_events() == old(self).spec_events()
                })
            }),
    {
        let height = match self.chain.height_of_hash(&block.hash) {
            Some(h) => h,
            None => {
                self.warnings.push(Warning::UnexpectedSyncError);
                self.book.ban(peer);
                return (Some(MainThreadMessage::Disconnect), Vec::new());
            },
        };
        proof {
            crate::chain::lemma_hash_idx_range(self.spec_chain().spec_headers(), block.hash);
            assert(self.spec_chain().spec_contains(block.hash));
        }
        if !block.merkle_ok {
            self.warnings.push(Warning::UnexpectedSyncError);
            self.book.ban(peer);
            return (Some(MainThreadMessage::Disconnect), Vec::new());
        }
        let mut tickets: Vec<(u64, u32)> = Vec::new();
        proof {
            crate::block_queue::lemma_entry_idx(self.spec_queue()@, block.hash);
        }
        match self.queue.process_block(&block.hash) {
            ProcessBlockResponse::Accepted { recipients } => {
                let ghost rs = recipients@;
                let n = recipients.len();
                let mut i: usize = 0;
                proof {
                    assert(rs.take(0) =~= Seq::<BlockRecipient>::empty());
                }
                while i < n
                    invariant
                        i <= n,
                        n == recipients@.len(),
                        rs == recipients@,
                        self.wf(),
                        self.spec_state() == old(self).spec_state(),
                        same_chain(old(self).spec_chain(), self.spec_chain()),
                        same_cf(old(self).spec_cf(), self.spec_cf()),
                        same_book(old(self).spec_book(), self.spec_book()),
                        self.spec_warnings() == old(self).spec_warnings(),
                        self.spec_infos() == old(self).spec_infos(),
                        crate::block_queue::entry_idx(old(self).spec_queue()@, block.hash) >= 0,
                        rs == old(self).spec_queue()@[crate::block_queue::entry_idx(
                            old(self).spec_queue()@,
                            block.hash,
                        )].1,
                        self.spec_queue()@ == old(self).spec_queue()@.remove(
                            crate::block_queue::entry_idx(old(self).spec_queue()@, block.hash),
                        ),
                        self.spec_queue().completed() == old(self).spec_queue().completed().push(
                            block.hash,
                        ),
                        tickets@ == client_tickets(rs.take(i as int), height),
                        self.spec_events() == old(self).spec_events() + event_deliveries(
                            rs.take(i as int),
                            height,
                            block.hash,
                        ),
                    decreases n - i,
                {
                    proof {
                        assert(rs.take(i + 1).drop_last() =~= rs.take(i as int));
                        assert(rs.take(i + 1).last() == rs[i as int]);
                    }
                    match recipients[i] {
                        BlockRecipient::Event => {
                            self.events.push(Event::Block { height, hash: block.hash });
                        },
                        BlockRecipient::Client(ticket) => {
                            tickets.push((ticket, height));
                        },
                    }
                    i = i + 1;
                }
                proof {
                    assert(rs.take(n as int) =~= rs);
                }
                (None, tickets)
            },
            ProcessBlockResponse::LateResponse => (None, tickets),
            ProcessBlockResponse::UnknownHash => (None, tickets),
        }
    }

    /// Hands out the next block request once filter headers are in: the
    /// first hash not yet requested is marked in flight and handed to
    /// the runtime for a random peer; earlier stages request nothing.
    pub fn pop_block_queue(&mut self) -> (r: Option<MainThreadMessage>)
        requires
            old(self).wf(),
        ensures
            final(self).wf(),
            final(self).spec_state() == old(self).spec_state(),
            final(self).spec_chain() == old(self).spec_chain(),
            final(self).spec_cf() == old(self).spec_cf(),
            final(self).spec_book() == old(self).spec_book(),
            final(self).spec_infos() == old(self).spec_infos(),
            final(self).spec_warnings() == old(self).spec_warnings(),
            final(self).spec_events() == old(self).spec_events(),
            !(old(self).spec_state() is FilterHeadersSynced || old(self).spec_state()
                is FiltersSynced || old(self).spec_state() is TransactionsSynced) ==> r is None
                && final(self).spec_queue() == old(self).spec_queue(),
            (old(self).spec_state() is FilterHeadersSynced || old(self).spec_state()
                is FiltersSynced || old(self).spec_state() is TransactionsSynced) ==> ({
                let q = old(self).spec_queue()@;
                let fu = BlockQueue::first_unrequested(q);
                if fu >= 0 {
                    (r matches Some(m) && m matches MainThreadMessage::GetBlock(h) && h == q[fu].0)
                        && final(self).spec_queue()@ =~= q.update(fu, (q[fu].0, q[fu].1, true))
                        && final(self).spec_queue().completed() == old(self).spec_queue().completed()
                } else {
                    r is None && final(self).spec_queue()@ == old(self).spec_queue()@ && final(self).spec_queue().completed() == old(self).spec_queue().completed()
                }
            }),
    {
        match self.state {
            NodeState::FilterHeadersSynced | NodeState::FiltersSynced
                | NodeState::TransactionsSynced => {
                match self.queue.pop() {
                    Some(hash) => Some(MainThreadMessage::GetBlock(hash)),
                    None => None,
                }
            },
            _ => None,
        }
    }

    /// Reacts to inventory announcing blocks. Past header sync, any hash
    /// the chain does not know sends the machine back to `Behind` — the
    /// one backward move — restarts the filter audit, and asks for
    /// headers from the chain's locators; known hashes change nothing.
    pub fn handle_inventory_blocks(&mut self, blocks: &Vec<BlockHash>) -> (r: Option<
        MainThreadMessage,
    >)
        requires
            old(self).wf(),
        ensures
            final(self).wf(),
            final(self).spec_chain() == old(self).spec_chain(),
            final(self).spec_queue() == old(self).spec_queue(),
            final(self).spec_book() == old(self).spec_book(),
            final(self).spec_warnings() == old(self).spec_warnings(),
            final(self).spec_events() == old(self).spec_events(),
            old(self).spec_state() == NodeState::Behind ==> r is None && final(self).spec_state()
                == NodeState::Behind && final(self).spec_cf() == old(self).spec_cf() && final(self).spec_infos() == old(self).spec_infos(),
            old(self).spec_state() != NodeState::Behind && (forall|i: int|
                0 <= i < blocks@.len() ==> old(self).spec_chain().spec_contains(
                    #[trigger] blocks@[i],
                )) ==> r is None && final(self).spec_state() == old(self).spec_state() && final(self).spec_cf() == old(self).spec_cf() && final(self).spec_infos() == old(self).spec_infos(),
            old(self).spec_state() != NodeState::Behind && !(forall|i: int|
                0 <= i < blocks@.len() ==> old(self).spec_chain().spec_contains(
                    #[trigger] blocks@[i],
                )) ==> ({
                &&& final(self).spec_state() == NodeState::Behind
                &&& final(self).spec_infos() == old(self).spec_infos().push(
                    Info::StateChange(NodeState::Behind),
                )
                &&& final(self).spec_cf().spec_queue() =~= Seq::<
                    crate::cf_chain::Attestation,
                >::empty()
                &&& final(self).spec_cf().spec_hashes() == old(self).spec_cf().spec_hashes()
                &&& final(self).spec_cf().spec_tip_header() == old(self).spec_cf().spec_tip_header()
                &&& final(self).spec_cf().spec_checked_to() == old(self).spec_cf().spec_checked_to()
                &&& (r matches Some(m) && m matches MainThreadMessage::GetHeaders { locators }
                    && locators@ == crate::chain::spec_locators(old(self).spec_chain()))
            }),
    {
        let n = blocks.len();
        let mut any_unknown = false;
        let mut i: usize = 0;
        while i < n
            invariant
                i <= n,
                n == blocks@.len(),
                self.wf(),
                *self == *old(self),
                any_unknown == !(forall|j: int|
                    0 <= j < i ==> self.spec_chain().spec_contains(#[trigger] blocks@[j])),
            decreases n - i,
        {
            if !self.chain.contains(&blocks[i]) {
                any_unknown = true;
            }
            i = i + 1;
        }
        match self.state {
            NodeState::Behind => None,
            _ => {
                if any_unknown {
                    self.infos.push(Info::StateChange(NodeState::Behind));
                    self.state = NodeState::Behind;
                    self.cf.clear_queue();
                    let locators = self.chain.locators();
                    Some(MainThreadMessage::GetHeaders { locators })
                } else {
                    None
                }
            },
        }
    }

    /// Watches one more script. The set only grows; only a rescan
    /// refetches already-checked filters.
    pub fn add_script(&mut self, script: Vec<u8>)
        requires
            old(self).wf(),
        ensures
            final(self).wf(),
            final(self).spec_state() == old(self).spec_state(),
            final(self).spec_scripts() =~= old(self).spec_scripts().push(script),
    {
        self.scripts.push(script);
    }

    /// Forgets filter progress and refetches every filter against the
    /// current scripts. Meaningful only once filter headers are in; the
    /// machine drops back to exactly `FilterHeadersSynced`, announces the
    /// change, and asks for the first filter again.
    pub fn rescan(&mut self) -> (r: Option<MainThreadMessage>)
        requires
            old(self).wf(),
        ensures
            final(self).wf(),
            final(self).spec_chain() == old(self).spec_chain(),
            final(self).spec_queue() == old(self).spec_queue(),
            final(self).spec_book() == old(self).spec_book(),
            final(self).spec_warnings() == old(self).spec_warnings(),
            final(self).spec_events() == old(self).spec_events(),
            old(self).spec_state() is Behind || old(self).spec_state() is HeadersSynced ==> r
                is None && final(self).spec_state() == old(self).spec_state() && final(self).spec_cf() == old(self).spec_cf() && final(self).spec_infos() == old(self).spec_infos(),
            !(old(self).spec_state() is Behind || old(self).spec_state() is HeadersSynced) ==> ({
                &&& final(self).spec_state() == NodeState::FilterHeadersSynced
                &&& final(self).spec_cf().spec_checked_to() == 0
                &&& final(self).spec_cf().spec_hashes() == old(self).spec_cf().spec_hashes()
                &&& final(self).spec_cf().spec_tip_header() == old(self).spec_cf().spec_tip_header()
                &&& final(self).spec_cf().spec_queue() == old(self).spec_cf().spec_queue()
                &&& final(self).spec_infos() == old(self).spec_infos().push(
                    Info::StateChange(NodeState::FilterHeadersSynced),
                )
                &&& (if old(self).spec_cf().spec_hashes().len() == 0 {
                    r is None
                } else {
                    r matches Some(m) && m matches MainThreadMessage::GetFilters {
                        start_height,
                        stop_hash,
                    } && start_height == old(self).spec_cf().spec_anchor_height() + 1 && stop_hash
                        == spec_stop_hash(old(self).spec_chain(), start_height)
                })
            }),
    {
        match self.state {
            NodeState::Behind => None,
            NodeState::HeadersSynced => None,
            _ => {
                self.cf.clear_filters();
                self.infos.push(Info::StateChange(NodeState::FilterHeadersSynced));
                self.state = NodeState::FilterHeadersSynced;
                if !self.cf.is_filters_synced() {
                    let start_height = self.cf.next_filter_height();
                    let stop_hash = self.stop_hash_for(start_height);
                    Some(MainThreadMessage::GetFilters { start_height, stop_hash })
                } else {
                    None
                }
            },
        }
    }

    /// Records an address in the book, trusted or gossiped.
    pub fn add_peer(&mut self, entry: AddrEntry, trusted: bool) -> (id: u64)
        requires
            old(self).wf(),
        ensures
            final(self).wf(),
            final(self).spec_state() == old(self).spec_state(),
            trusted ==> final(self).spec_book().spec_trusted() =~= old(self).spec_book().spec_trusted().push(id),
            !trusted ==> final(self).spec_book().spec_banned() == old(self).spec_book().spec_banned(),
    {
        if trusted {
            self.book.add_trusted(entry)
        } else {
            self.book.add_gossiped(entry)
        }
    }

    /// Bans a peer in the address book.
    pub fn ban(&mut self, peer: u64)
        requires
            old(self).wf(),
        ensures
            final(self).wf(),
            final(self).spec_state() == old(self).spec_state(),
            !old(self).spec_book().spec_trusted().contains(peer) ==> final(self).spec_book().spec_banned() =~= old(self).spec_book().spec_banned().push(peer),
    {
        self.book.ban(peer);
    }

    /// Draws a fresh address, never a banned one.
    pub fn next_peer(&self) -> (r: Option<(u64, AddrEntry)>)
        ensures
            r matches Some(p) ==> !self.spec_book().spec_banned().contains(p.0),
    {
        self.book.next_peer()
    }

    /// Drains the queued information messages.
    pub fn take_infos(&mut self) -> (r: Vec<Info>)
        requires
            old(self).wf(),
        ensures
            final(self).wf(),
            final(self).spec_state() == old(self).spec_state(),
            r@ == old(self).spec_infos(),
            final(self).spec_infos() =~= Seq::<Info>::empty(),
            final(self).spec_chain() == old(self).spec_chain(),
            final(self).spec_cf() == old(self).spec_cf(),
            final(self).spec_queue() == old(self).spec_queue(),
            final(self).spec_book() == old(self).spec_book(),
    {
        let n = self.infos.len();
        let mut r: Vec<Info> = Vec::new();
        let mut i: usize = 0;
        while i < n
            invariant
                i <= n,
                n == self.infos@.len(),
                self == old(self),
                r@ =~= self.infos@.take(i as int),
            decreases n - i,
        {
            r.push(self.infos[i]);
            proof {
                assert(self.infos@.take(i + 1) =~= self.infos@.take(i as int).push(
                    self.infos@[i as int],
                ));
            }
            i = i + 1;
        }
        proof {
            assert(self.infos@.take(n as int) =~= self.infos@);
        }
        self.infos = Vec::new();
        r
    }

    /// Drains the queued warnings.
    pub fn take_warnings(&mut self) -> (r: Vec<Warning>)
        requires
            old(self).wf(),
        ensures
            final(self).wf(),
            final(self).spec_state() == old(self).spec_state(),
            r@ == old(self).spec_warnings(),
            final(self).spec_warnings() =~= Seq::<Warning>::empty(),
            final(self).spec_chain() == old(self).spec_chain(),
            final(self).spec_cf() == old(self).spec_cf(),
            final(self).spec_queue() == old(self).spec_queue(),
            final(self).spec_book() == old(self).spec_book(),
    {
        let n = self.warnings.len();
        let mut r: Vec<Warning> = Vec::new();
        let mut i: usize = 0;
        while i < n
            invariant
                i <= n,
                n == self.warnings@.len(),
                self == old(self),
                r@ =~= self.warnings@.take(i as int),
            decreases n - i,
        {
            r.push(self.warnings[i]);
            proof {
                assert(self.warnings@.take(i + 1) =~= self.warnings@.take(i as int).push(
                    self.warnings@[i as int],
                ));
            }
            i = i + 1;
        }
        proof {
            assert(self.warnings@.take(n as int) =~= self.warnings@);
        }
        self.warnings = Vec::new();
        r
    }

    /// Drains the queued events.
    pub fn take_events(&mut self) -> (r: Vec<Event>)
        requires
            old(self).wf(),
        ensures
            final(self).wf(),
            final(self).spec_state() == old(self).spec_state(),
            r@ == old(self).spec_events(),
            final(self).spec_events() =~= Seq::<Event>::empty(),
            final(self).spec_chain() == old(self).spec_chain(),
            final(self).spec_cf() == old(self).spec_cf(),
            final(self).spec_queue() == old(self).spec_queue(),
            final(self).spec_book() == old(self).spec_book(),
    {
        let n = self.events.len();
        let mut r: Vec<Event> = Vec::new();
        let mut i: usize = 0;
        while i < n
            invariant
                i <= n,
                n == self.events@.len(),
                self == old(self),
                r@ =~= self.events@.take(i as int),
            decreases n - i,
        {
            r.push(self.events[i]);
            proof {
                assert(self.events@.take(i + 1) =~= self.events@.take(i as int).push(
                    self.events@[i as int],
                ));
            }
            i = i + 1;
        }
        proof {
            assert(self.events@.take(n as int) =~= self.events@);
        }
        self.events = Vec::new();
        r
    }
}

} // verus!
