//! The block request queue: outstanding block downloads addressed by
//! block hash. Any number of recipients may register for one hash; the
//! queue collapses them into a single outstanding network request, and a
//! block that arrives is delivered to every registered recipient at once.
//! Responses for hashes already served or dropped are tolerated as late.
use vstd::prelude::*;

use crate::types::BlockHash;

verus! {

/// Who asked for a block: a client request identified by a ticket the
/// caller chose, or the node's own event stream.
#[derive(Clone, Copy, Debug, PartialEq, Eq, Structural)]
pub enum BlockRecipient {
    /// A client's one-shot request, under the caller's ticket.
    Client(u64),
    /// The node's event stream.
    Event,
}

/// One outstanding hash with everyone waiting on it.
pub struct QueueEntry {
    /// The block hash to download.
    pub hash: BlockHash,
    /// The recipients registered for it, oldest first.
    pub recipients: Vec<BlockRecipient>,
    /// Whether a network request for it is in flight.
    pub requested: bool,
}

/// The ghost image of one entry.
pub type EntryView = (BlockHash, Seq<BlockRecipient>, bool);

/// What processing a block did.
pub enum ProcessBlockResponse {
    /// The block was wanted: every registered recipient receives it.
    Accepted { recipients: Vec<BlockRecipient> },
    /// The hash was served or dropped earlier; nobody is waiting.
    LateResponse,
    /// The hash was never in the queue.
    UnknownHash,
}

/// The position of the first entry for `h`, or -1 when none holds it.
pub open spec fn entry_idx(s: Seq<EntryView>, h: BlockHash) -> int
    decreases s.len(),
{
    if s.len() == 0 {
        -1
    } else if s[0].0 == h {
        0
    } else {
        let sub = entry_idx(s.skip(1), h);
        if sub == -1 {
            -1
        } else {
            sub + 1
        }
    }
}

/// `entry_idx` never returns anything below -1.
proof fn lemma_entry_idx_range(s: Seq<EntryView>, h: BlockHash)
    ensures
        entry_idx(s, h) >= -1,
    decreases s.len(),
{
    if s.len() > 0 && s[0].0 != h {
        lemma_entry_idx_range(s.skip(1), h);
    }
}

/// Before the first entry for `h` every entry misses `h`.
proof fn lemma_entry_idx_miss_before(s: Seq<EntryView>, h: BlockHash, i: int)
    requires
        0 <= i < entry_idx(s, h),
    ensures
        s[i].0 != h,
    decreases s.len(),
{
    lemma_entry_idx_hit(s, h);
    lemma_entry_idx_range(s.skip(1), h);
    if i > 0 {
        lemma_entry_idx_miss_before(s.skip(1), h, i - 1);
        assert(s[i] == s.skip(1)[i - 1]);
    }
}

/// When no entry holds `h`, every entry misses `h`.
proof fn lemma_entry_idx_miss_all(s: Seq<EntryView>, h: BlockHash, i: int)
    requires
        entry_idx(s, h) == -1,
        0 <= i < s.len(),
    ensures
        s[i].0 != h,
    decreases s.len(),
{
    lemma_entry_idx_range(s.skip(1), h);
    if i > 0 {
        lemma_entry_idx_miss_all(s.skip(1), h, i - 1);
        assert(s[i] == s.skip(1)[i - 1]);
    }
}

/// A found index lies in range and holds `h`.
proof fn lemma_entry_idx_hit(s: Seq<EntryView>, h: BlockHash)
    requires
        entry_idx(s, h) >= 0,
    ensures
        entry_idx(s, h) < s.len(),
        s[entry_idx(s, h)].0 == h,
    decreases s.len(),
{
    lemma_entry_idx_range(s.skip(1), h);
    if s.len() > 0 && s[0].0 != h {
        lemma_entry_idx_hit(s.skip(1), h);
        assert(s[entry_idx(s, h)] == s.skip(1)[entry_idx(s, h) - 1]);
    }
}

/// `entry_idx` finds the first entry for `h` and nothing when there is none.
pub proof fn lemma_entry_idx(s: Seq<EntryView>, h: BlockHash)
    ensures
        entry_idx(s, h) == -1 <==> (forall|i: int| 0 <= i < s.len() ==> (#[trigger] s[i]).0 != h),
        entry_idx(s, h) >= 0 ==> entry_idx(s, h) < s.len() && s[entry_idx(s, h)].0 == h && (
        forall|i: int| 0 <= i < entry_idx(s, h) ==> (#[trigger] s[i]).0 != h),
{
    lemma_entry_idx_range(s, h);
    if entry_idx(s, h) == -1 {
        assert forall|i: int| 0 <= i < s.len() implies (#[trigger] s[i]).0 != h by {
            lemma_entry_idx_miss_all(s, h, i);
        }
    } else {
        lemma_entry_idx_hit(s, h);
        assert forall|i: int| 0 <= i < entry_idx(s, h) implies (#[trigger] s[i]).0 != h by {
            lemma_entry_idx_miss_before(s, h, i);
        }
    }
}

/// No two entries hold the same hash.
pub open spec fn distinct_hashes(s: Seq<EntryView>) -> bool {
    forall|i: int, j: int|
        0 <= i < j < s.len() ==> (#[trigger] s[i]).0 != (#[trigger] s[j]).0
}

/// Dropping the one entry for `h` leaves no entry for `h`: together with
/// the contract of `process_block` this is at-most-once delivery — once a
/// block is served, a second copy can only be a late response.
pub proof fn lemma_delivery_at_most_once(s: Seq<EntryView>, h: BlockHash)
    requires
        distinct_hashes(s),
        entry_idx(s, h) >= 0,
    ensures
        entry_idx(s.remove(entry_idx(s, h)), h) == -1,
{
    let i = entry_idx(s, h);
    lemma_entry_idx(s, h);
    let t = s.remove(i);
    assert forall|j: int| 0 <= j < t.len() implies (#[trigger] t[j]).0 != h by {
        if j < i {
            assert(t[j] == s[j]);
        } else {
            assert(t[j] == s[j + 1]);
        }
    }
    lemma_entry_idx(t, h);
}

/// The queue without the entries whose hash is listed.
pub open spec fn without_hashes(q: Seq<EntryView>, hashes: Seq<BlockHash>) -> Seq<EntryView> {
    q.filter(|e: EntryView| !hashes.contains(e.0))
}

/// The block request queue.
pub struct BlockQueue {
    entries: Vec<QueueEntry>,
    completed: Vec<BlockHash>,
}

impl View for BlockQueue {
    type V = Seq<EntryView>;

    closed spec fn view(&self) -> Seq<EntryView> {
        self.entries@.map(|i: int, e: QueueEntry| (e.hash, e.recipients@, e.requested))
    }
}

impl BlockQueue {
    /// The hashes already served or dropped.
    pub closed spec fn completed(&self) -> Seq<BlockHash> {
        self.completed@
    }

    /// No two entries wait on the same hash.
    pub open spec fn wf(&self) -> bool {
        distinct_hashes(self@)
    }

    /// An empty queue.
    pub fn new() -> (q: BlockQueue)
        ensures
            q@ =~= Seq::<EntryView>::empty(),
            q.completed() =~= Seq::<BlockHash>::empty(),
            q.wf(),
    {
        BlockQueue { entries: Vec::new(), completed: Vec::new() }
    }

    /// Looks up the entry holding `hash`.
    fn find(&self, hash: &BlockHash) -> (r: Option<usize>)
        ensures
            r matches Some(i) ==> i == entry_idx(self@, *hash),
            r is None ==> entry_idx(self@, *hash) == -1,
    {
        proof {
            lemma_entry_idx(self@, *hash);
        }
        let n = self.entries.len();
        let mut i: usize = 0;
        while i < n
            invariant
                i <= n,
                n == self@.len(),
                forall|j: int| 0 <= j < i ==> (#[trigger] self@[j]).0 != *hash,
            decreases n - i,
        {
            if self.entries[i].hash == *hash {
                proof {
                    lemma_entry_idx_first(self@, *hash, i as int);
                }
                return Some(i);
            }
            i = i + 1;
        }
        None
    }

    /// Registers `recipient` for `hash`, creating the entry — and with it
    /// the need to request the block — when none exists, and appending to
    /// the waiting list when one does.
    pub fn add(&mut self, hash: BlockHash, recipient: BlockRecipient)
        requires
            old(self).wf(),
        ensures
            final(self).wf(),
            final(self).completed() == old(self).completed(),
            entry_idx(old(self)@, hash) < 0 ==> final(self)@ =~= old(self)@.push(
                (hash, seq![recipient], false),
            ),
            entry_idx(old(self)@, hash) >= 0 ==> {
                let i = entry_idx(old(self)@, hash);
                final(self)@ =~= old(self)@.update(
                    i,
                    (hash, old(self)@[i].1.push(recipient), old(self)@[i].2),
                )
            },
    {
        proof {
            lemma_entry_idx(self@, hash);
        }
        match self.find(&hash) {
            Some(i) => {
                let mut recipients = clone_recipients(&self.entries[i].recipients);
                recipients.push(recipient);
                let e = QueueEntry {
                    hash: self.entries[i].hash,
                    recipients,
                    requested: self.entries[i].requested,
                };
                self.entries[i] = e;
                proof {
                    let k = entry_idx(old(self)@, hash);
                    assert(self@ =~= old(self)@.update(
                        k,
                        (hash, old(self)@[k].1.push(recipient), old(self)@[k].2),
                    ));
                    assert forall|a: int|
                        0 <= a < self@.len() implies (#[trigger] self@[a]).0 == old(
                        self,
                    )@[a].0 by {}
                }
            },
            None => {
                let mut recipients: Vec<BlockRecipient> = Vec::new();
                recipients.push(recipient);
                proof {
                    assert(recipients@ =~= seq![recipient]);
                }
                self.entries.push(QueueEntry { hash, recipients, requested: false });
                proof {
                    assert(self@ =~= old(self)@.push((hash, seq![recipient], false)));
                    assert forall|a: int, b: int|
                        0 <= a < b < self@.len() implies (#[trigger] self@[a]).0 != (
                        #[trigger] self@[b]).0 by {
                        if b == self@.len() - 1 {
                            assert(old(self)@[a].0 != hash);
                        }
                    }
                }
            },
        }
    }

    /// The position of the first entry not yet requested, or -1.
    pub open spec fn first_unrequested(s: Seq<EntryView>) -> int
        decreases s.len(),
    {
        if s.len() == 0 {
            -1
        } else if !s[0].2 {
            0
        } else {
            let sub = Self::first_unrequested(s.skip(1));
            if sub == -1 {
                -1
            } else {
                sub + 1
            }
        }
    }

    /// Finds the first entry not yet requested.
    fn find_unrequested(&self) -> (r: Option<usize>)
        ensures
            r matches Some(i) ==> i == Self::first_unrequested(self@) && i < self@.len()
                && !self@[i as int].2,
            r is None ==> Self::first_unrequested(self@) == -1,
    {
        let n = self.entries.len();
        let mut i: usize = 0;
        while i < n
            invariant
                i <= n,
                n == self@.len(),
                forall|j: int| 0 <= j < i ==> (#[trigger] self@[j]).2,
            decreases n - i,
        {
            if !self.entries[i].requested {
                proof {
                    lemma_first_unrequested_at(self@, i as int);
                }
                return Some(i);
            }
            i = i + 1;
        }
        proof {
            lemma_first_unrequested_none(self@);
        }
        None
    }

    /// Hands out one hash that still needs a network request and marks it
    /// in flight; while it stays in flight the queue never hands it out
    /// again.
    pub fn pop(&mut self) -> (r: Option<BlockHash>)
        requires
            old(self).wf(),
        ensures
            final(self).wf(),
            final(self).completed() == old(self).completed(),
            r is None ==> final(self)@ == old(self)@ && Self::first_unrequested(old(self)@) == -1,
            r matches Some(h) ==> {
                let i = Self::first_unrequested(old(self)@);
                &&& 0 <= i < old(self)@.len()
                &&& h == old(self)@[i].0
                &&& !old(self)@[i].2
                &&& final(self)@ =~= old(self)@.update(i, (old(self)@[i].0, old(self)@[i].1, true))
            },
    {
        match self.find_unrequested() {
            Some(i) => {
                let hash = self.entries[i].hash;
                let e = QueueEntry {
                    hash,
                    recipients: clone_recipients(&self.entries[i].recipients),
                    requested: true,
                };
                self.entries[i] = e;
                proof {
                    let k = Self::first_unrequested(old(self)@);
                    assert(self@ =~= old(self)@.update(
                        k,
                        (old(self)@[k].0, old(self)@[k].1, true),
                    ));
                    assert forall|a: int|
                        0 <= a < self@.len() implies (#[trigger] self@[a]).0 == old(
                        self,
                    )@[a].0 by {}
                }
                Some(hash)
            },
            None => None,
        }
    }

    /// Accepts a block that arrived for `hash`: when an entry waits on it,
    /// the entry leaves the queue and every registered recipient is handed
    /// the block exactly once. A hash served or dropped earlier is a late
    /// response; anything else is unknown.
    pub fn process_block(&mut self, hash: &BlockHash) -> (r: ProcessBlockResponse)
        requires
            old(self).wf(),
        ensures
            final(self).wf(),
            entry_idx(old(self)@, *hash) >= 0 ==> {
                let i = entry_idx(old(self)@, *hash);
                &&& r matches ProcessBlockResponse::Accepted { recipients } && recipients@ == old(
                    self,
                )@[i].1
                &&& final(self)@ =~= old(self)@.remove(i)
                &&& final(self).completed() =~= old(self).completed().push(*hash)
            },
            entry_idx(old(self)@, *hash) < 0 && old(self).completed().contains(*hash) ==> r
                is LateResponse && final(self)@ == old(self)@ && final(self).completed() == old(
                self,
            ).completed(),
            entry_idx(old(self)@, *hash) < 0 && !old(self).completed().contains(*hash) ==> r
                is UnknownHash && final(self)@ == old(self)@ && final(self).completed() == old(
                self,
            ).completed(),
    {
        match self.find(hash) {
            Some(i) => {
                proof {
                    lemma_entry_idx(self@, *hash);
                }
                let entry = self.entries.remove(i);
                self.completed.push(*hash);
                proof {
                    assert(self@ =~= old(self)@.remove(i as int));
                    lemma_remove_distinct(old(self)@, i as int);
                }
                ProcessBlockResponse::Accepted { recipients: entry.recipients }
            },
            None => {
                if self.hash_completed(hash) {
                    ProcessBlockResponse::LateResponse
                } else {
                    ProcessBlockResponse::UnknownHash
                }
            },
        }
    }

    /// Whether `hash` was served or dropped earlier.
    fn hash_completed(&self, hash: &BlockHash) -> (r: bool)
        ensures
            r == self.completed().contains(*hash),
    {
        let n = self.completed.len();
        let mut i: usize = 0;
        while i < n
            invariant
                i <= n,
                n == self.completed().len(),
                forall|j: int| 0 <= j < i ==> self.completed()[j] != *hash,
            decreases n - i,
        {
            if self.completed[i] == *hash {
                return true;
            }
            i = i + 1;
        }
        false
    }

    /// Drops every entry whose hash is in `hashes`; a reorganization calls
    /// this for the orphaned hashes, whose blocks no longer interest anyone.
    pub fn remove(&mut self, hashes: &Vec<BlockHash>)
        requires
            old(self).wf(),
        ensures
            final(self).wf(),
            final(self)@ =~= without_hashes(old(self)@, hashes@),
            final(self).completed() =~= old(self).completed() + hashes@,
    {
        let n = self.entries.len();
        let mut kept: Vec<QueueEntry> = Vec::new();
        let mut i: usize = 0;
        proof {
            assert(old(self)@.take(0).filter(|e: EntryView| !hashes@.contains(e.0)) =~= Seq::<
                EntryView,
            >::empty());
        }
        while i < n
            invariant
                i <= n,
                n == self.entries@.len(),
                self@ == old(self)@,
                self.completed() == old(self).completed(),
                kept@.map(|k: int, e: QueueEntry| (e.hash, e.recipients@, e.requested)) =~= old(
                    self,
                )@.take(i as int).filter(|e: EntryView| !hashes@.contains(e.0)),
            decreases n - i,
        {
            proof {
                reveal(Seq::filter);
                assert(old(self)@.take(i + 1) =~= old(self)@.take(i as int).push(
                    old(self)@[i as int],
                ));
                assert(old(self)@.take(i + 1).drop_last() =~= old(self)@.take(i as int));
                assert(old(self)@.take(i + 1).last() == old(self)@[i as int]);
            }
            let keep = !hash_list_contains(hashes, &self.entries[i].hash);
            if keep {
                let e = QueueEntry {
                    hash: self.entries[i].hash,
                    recipients: clone_recipients(&self.entries[i].recipients),
                    requested: self.entries[i].requested,
                };
                kept.push(e);
            }
            i = i + 1;
        }
        proof {
            assert(old(self)@.take(n as int) =~= old(self)@);
        }
        self.entries = kept;
        let m = hashes.len();
        let mut j: usize = 0;
        while j < m
            invariant
                j <= m,
                m == hashes@.len(),
                self@ == old(self)@.filter(|e: EntryView| !hashes@.contains(e.0)),
                self.completed() =~= old(self).completed() + hashes@.take(j as int),
            decreases m - j,
        {
            self.completed.push(hashes[j]);
            proof {
                assert(hashes@.take(j as int + 1) =~= hashes@.take(j as int).push(hashes@[j as int]));
            }
            j = j + 1;
        }
        proof {
            assert(hashes@.take(m as int) =~= hashes@);
            lemma_filter_distinct(old(self)@, |e: EntryView| !hashes@.contains(e.0));
        }
    }

    /// Whether nothing is queued and nothing is in flight.
    pub fn complete(&self) -> (r: bool)
        ensures
            r == (self@.len() == 0),
    {
        self.entries.is_empty()
    }
}

/// Whether `hashes` holds `h`.
pub fn hash_list_contains(hashes: &Vec<BlockHash>, h: &BlockHash) -> (r: bool)
    ensures
        r == hashes@.contains(*h),
{
    let n = hashes.len();
    let mut i: usize = 0;
    while i < n
        invariant
            i <= n,
            n == hashes@.len(),
            forall|j: int| 0 <= j < i ==> hashes@[j] != *h,
        decreases n - i,
    {
        if hashes[i] == *h {
            return true;
        }
        i = i + 1;
    }
    false
}

/// Copies a recipient list.
fn clone_recipients(v: &Vec<BlockRecipient>) -> (r: Vec<BlockRecipient>)
    ensures
        r@ == v@,
{
    let n = v.len();
    let mut r: Vec<BlockRecipient> = Vec::new();
    let mut i: usize = 0;
    while i < n
        invariant
            i <= n,
            n == v@.len(),
            r@ =~= v@.take(i as int),
        decreases n - i,
    {
        r.push(v[i]);
        proof {
            assert(v@.take(i + 1) =~= v@.take(i as int).push(v@[i as int]));
        }
        i = i + 1;
    }
    proof {
        assert(v@.take(n as int) =~= v@);
    }
    r
}

/// When everything before `i` misses `h` and `s[i]` holds it, `i` is the
/// first index for `h`.
proof fn lemma_entry_idx_first(s: Seq<EntryView>, h: BlockHash, i: int)
    requires
        0 <= i < s.len(),
        s[i].0 == h,
        forall|j: int| 0 <= j < i ==> (#[trigger] s[j]).0 != h,
    ensures
        entry_idx(s, h) == i,
    decreases i,
{
    if i > 0 {
        assert(forall|j: int| 0 <= j < i - 1 ==> (#[trigger] s.skip(1)[j]).0 != h);
        lemma_entry_idx_first(s.skip(1), h, i - 1);
    }
}

/// When everything before `i` is requested and `s[i]` is not, `i` is the
/// first unrequested index.
proof fn lemma_first_unrequested_at(s: Seq<EntryView>, i: int)
    requires
        0 <= i < s.len(),
        !s[i].2,
        forall|j: int| 0 <= j < i ==> (#[trigger] s[j]).2,
    ensures
        BlockQueue::first_unrequested(s) == i,
    decreases i,
{
    if i > 0 {
        assert(forall|j: int| 0 <= j < i - 1 ==> (#[trigger] s.skip(1)[j]).2);
        lemma_first_unrequested_at(s.skip(1), i - 1);
    }
}

/// When every entry is requested there is no first unrequested index.
proof fn lemma_first_unrequested_none(s: Seq<EntryView>)
    requires
        forall|j: int| 0 <= j < s.len() ==> (#[trigger] s[j]).2,
    ensures
        BlockQueue::first_unrequested(s) == -1,
    decreases s.len(),
{
    if s.len() > 0 {
        assert(forall|j: int| 0 <= j < s.len() - 1 ==> (#[trigger] s.skip(1)[j]).2);
        lemma_first_unrequested_none(s.skip(1));
    }
}

/// Removing an entry keeps the hashes distinct.
proof fn lemma_remove_distinct(s: Seq<EntryView>, i: int)
    requires
        distinct_hashes(s),
        0 <= i < s.len(),
    ensures
        distinct_hashes(s.remove(i)),
{
    let t = s.remove(i);
    assert forall|a: int, b: int| 0 <= a < b < t.len() implies (#[trigger] t[a]).0 != (
    #[trigger] t[b]).0 by {
        let sa = if a < i {
            a
        } else {
            a + 1
        };
        let sb = if b < i {
            b
        } else {
            b + 1
        };
        assert(t[a] == s[sa] && t[b] == s[sb]);
    }
}

/// Filtering keeps the hashes distinct.
proof fn lemma_filter_distinct(s: Seq<EntryView>, p: spec_fn(EntryView) -> bool)
    requires
        distinct_hashes(s),
    ensures
        distinct_hashes(s.filter(p)),
    decreases s.len(),
{
    reveal(Seq::filter);
    if s.len() > 0 {
        lemma_filter_distinct(s.drop_last(), p);
        let f = s.drop_last().filter(p);
        if p(s.last()) {
            assert forall|a: int, b: int|
                0 <= a < b < f.push(s.last()).len() implies (#[trigger] f.push(s.last())[a]).0 != (
            #[trigger] f.push(s.last())[b]).0 by {
                if b < f.len() {
                    assert(f[a].0 != f[b].0);
                } else {
                    assert(f.push(s.last())[b] == s.last());
                    lemma_filter_member_of(s.drop_last(), p, a);
                }
            }
        }
    }
}

/// Every element of a filtered sequence comes from the original.
proof fn lemma_filter_member_of(s: Seq<EntryView>, p: spec_fn(EntryView) -> bool, a: int)
    requires
        0 <= a < s.filter(p).len(),
    ensures
        exists|k: int| 0 <= k < s.len() && s[k] == #[trigger] s.filter(p)[a],
    decreases s.len(),
{
    reveal(Seq::filter);
    if s.len() > 0 {
        let f = s.drop_last().filter(p);
        if a < f.len() {
            lemma_filter_member_of(s.drop_last(), p, a);
            let k = choose|k: int| 0 <= k < s.drop_last().len() && s.drop_last()[k] == f[a];
            assert(s[k] == s.filter(p)[a]);
        } else {
            assert(s[s.len() - 1] == s.filter(p)[a]);
        }
    }
}

} // verus!
