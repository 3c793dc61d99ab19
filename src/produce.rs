//! The agent's source chain and the producer workflow, which turns chain elements whose
//! operations have not been produced yet into operations queued for integration.
use vstd::prelude::*;
use crate::encode::{hash_header, hash_op, header_hash, op_hash};
use crate::hash::{HashKind, HoloHash};
use crate::ops::{element_ops, ops_from_element, ops_view};
use crate::queue::{key_view, value_view, IntegrationQueue, IntegrationQueueValue, QueueKey};
use crate::store::ValidationStatus;
use crate::types::{DhtOpV, Element};

verus! {

/// Whether a workflow run finished the work it found, or more is waiting and it should run
/// again at once.
#[derive(Clone, Copy, Debug, PartialEq, Eq, Structural)]
pub enum WorkComplete {
    Complete,
    Incomplete,
}

/// Why an element cannot be appended to a source chain.
#[derive(Clone, Copy, Debug, PartialEq, Eq)]
pub enum ChainError {
    /// The first element must be a root header at sequence 0 naming no previous header;
    /// no later element may be a root header.
    InvalidRoot,
    /// The element does not name the chain head as its previous header.
    PrevMismatch,
    /// The sequence number is not one past the head's.
    InvalidSeq,
    /// The element is older than the head.
    Timestamp,
}

/// Whether element `i` follows element `i - 1`: it names it, comes one sequence number
/// later, and is no older.
pub open spec fn follows(s: Seq<Element>, i: int) -> bool {
    &&& !s[i].header@.is_dna()
    &&& s[i].header.prev_header matches Some(p) && p@ == header_hash(s[i - 1].header@)
    &&& s[i].header.header_seq == s[i - 1].header.header_seq + 1
    &&& s[i].header.timestamp >= s[i - 1].header.timestamp
}

pub open spec fn is_root(e: Element) -> bool {
    e.header@.is_dna() && e.header.header_seq == 0 && e.header.prev_header is None
}

/// An agent's source chain, with a mark for each element whose operations were produced.
pub struct SourceChain {
    pub elements: Vec<Element>,
    pub dht_ops_complete: Vec<bool>,
}

impl SourceChain {
    pub open spec fn well_formed(&self) -> bool {
        &&& self.elements@.len() == self.dht_ops_complete@.len()
        &&& self.elements@.len() > 0 ==> is_root(self.elements@[0])
        &&& forall|i: int| 0 < i < self.elements@.len() ==> follows(self.elements@, i)
    }

    pub fn new() -> (r: SourceChain)
        ensures
            r.well_formed(),
            r.elements@.len() == 0,
    {
        SourceChain { elements: Vec::new(), dht_ops_complete: Vec::new() }
    }

    pub fn len(&self) -> (r: usize)
        ensures
            r == self.elements@.len(),
    {
        self.elements.len()
    }

    /// Appends an element at the head of the chain, its operations not yet produced. The
    /// first element must be a root; each later one must follow the head.
    pub fn append(&mut self, e: Element) -> (r: Result<(), ChainError>)
        requires
            old(self).well_formed(),
        ensures
            final(self).well_formed(),
            r is Ok <==> (if old(self).elements@.len() == 0 {
                is_root(e)
            } else {
                follows(old(self).elements@.push(e), old(self).elements@.len() as int)
            }),
            r is Ok ==> final(self).elements@ == old(self).elements@.push(e)
                && final(self).dht_ops_complete@ == old(self).dht_ops_complete@.push(false),
            r is Err ==> *final(self) == *old(self),
    {
        let n = self.elements.len();
        if n == 0 {
            if !(e.header.is_dna() && e.header.header_seq == 0 && e.header.prev_header.is_none()) {
                return Err(ChainError::InvalidRoot);
            }
        } else {
            let head = &self.elements[n - 1];
            if e.header.is_dna() {
                return Err(ChainError::InvalidRoot);
            }
            let head_hash = hash_header(&head.header);
            match &e.header.prev_header {
                None => {
                    return Err(ChainError::PrevMismatch);
                },
                Some(p) => {
                    if !p.same(&head_hash) {
                        return Err(ChainError::PrevMismatch);
                    }
                },
            }
            if !(head.header.header_seq < u32::MAX && e.header.header_seq
                == head.header.header_seq + 1) {
                return Err(ChainError::InvalidSeq);
            }
            if e.header.timestamp < head.header.timestamp {
                return Err(ChainError::Timestamp);
            }
        }
        self.elements.push(e);
        self.dht_ops_complete.push(false);
        proof {
            assert forall|i: int| 0 < i < self.elements@.len() implies follows(
                self.elements@,
                i,
            ) by {
                if i < n {
                    assert(follows(old(self).elements@, i));
                    assert(self.elements@[i] == old(self).elements@[i]);
                    assert(self.elements@[i - 1] == old(self).elements@[i - 1]);
                }
            }
        }
        Ok(())
    }
}

/// Every non-root header of a well-formed chain comes one sequence number after, and no
/// earlier than, the header it names as previous.
pub proof fn lemma_chain_headers_follow(chain: SourceChain, i: int)
    requires
        chain.well_formed(),
        0 < i < chain.elements@.len(),
    ensures
        chain.elements@[i].header.prev_header matches Some(p) && p@ == header_hash(
            chain.elements@[i - 1].header@,
        ),
        chain.elements@[i].header.header_seq == chain.elements@[i - 1].header.header_seq + 1,
        chain.elements@[i].header.timestamp >= chain.elements@[i - 1].header.timestamp,
{
    assert(follows(chain.elements@, i));
}

/// The op hashes of operations this agent produced.
pub struct AuthoredDhtOps {
    pub hashes: Vec<HoloHash>,
}

impl AuthoredDhtOps {
    pub open spec fn contains(&self, h: (HashKind, Seq<u8>)) -> bool {
        exists|i: int| 0 <= i < self.hashes@.len() && self.hashes@[i]@ == h
    }

    pub fn new() -> (r: AuthoredDhtOps)
        ensures
            r.hashes@.len() == 0,
    {
        AuthoredDhtOps { hashes: Vec::new() }
    }

    pub fn len(&self) -> (r: usize)
        ensures
            r == self.hashes@.len(),
    {
        self.hashes.len()
    }

    pub fn has(&self, h: &HoloHash) -> (r: bool)
        ensures
            r == self.contains(h@),
    {
        let mut i: usize = 0;
        while i < self.hashes.len()
            invariant
                0 <= i <= self.hashes@.len(),
                forall|j: int| 0 <= j < i ==> self.hashes@[j]@ != h@,
            decreases self.hashes@.len() - i,
        {
            if self.hashes[i].same(h) {
                return true;
            }
            i = i + 1;
        }
        false
    }

    /// Records an op hash; one already recorded is not recorded again.
    pub fn put(&mut self, h: HoloHash)
        ensures
            forall|x: (HashKind, Seq<u8>)| #[trigger]
                final(self).contains(x) <==> (old(self).contains(x) || x == h@),
            old(self).contains(h@) ==> final(self).hashes@ == old(self).hashes@,
            !old(self).contains(h@) ==> final(self).hashes@ == old(self).hashes@.push(h),
    {
        if !self.has(&h) {
            self.hashes.push(h);
            proof {
                assert forall|x: (HashKind, Seq<u8>)| #[trigger]
                    self.contains(x) <==> (old(self).contains(x) || x == h@) by {
                    if old(self).contains(x) {
                        let i = choose|i: int|
                            0 <= i < old(self).hashes@.len() && old(self).hashes@[i]@ == x;
                        assert(self.hashes@[i] == old(self).hashes@[i]);
                    }
                    if x == h@ {
                        assert(self.hashes@[self.hashes@.len() - 1] == h);
                    }
                    if self.contains(x) {
                        let i = choose|i: int| 0 <= i < self.hashes@.len() && self.hashes@[i]@ == x;
                        if i < old(self).hashes@.len() {
                            assert(self.hashes@[i] == old(self).hashes@[i]);
                        }
                    }
                }
            }
        }
    }
}

/// Whether `op` is one of the operations of element `i` of the chain.
pub open spec fn op_of_element(chain: SourceChain, i: int, op: DhtOpV) -> bool {
    0 <= i < chain.elements@.len() && element_ops(chain.elements@[i]@).contains(op)
}

/// The operations still to be produced, in production order: those of each element not
/// yet marked produced, element by element along the chain.
pub open spec fn pending_ops(s: Seq<Element>, done: Seq<bool>) -> Seq<DhtOpV>
    decreases s.len(),
{
    if s.len() == 0 || done.len() == 0 {
        seq![]
    } else {
        pending_ops(s.drop_last(), done.drop_last()) + if done.last() {
            seq![]
        } else {
            element_ops(s.last()@)
        }
    }
}

proof fn lemma_pending_step(s: Seq<Element>, d: Seq<bool>, i: int)
    requires
        s.len() == d.len(),
        0 <= i < s.len(),
    ensures
        pending_ops(s.take(i + 1), d.take(i + 1)) == pending_ops(s.take(i), d.take(i)) + if d[i] {
            seq![]
        } else {
            element_ops(s[i]@)
        },
{
    assert(s.take(i + 1).drop_last() =~= s.take(i));
    assert(d.take(i + 1).drop_last() =~= d.take(i));
}

proof fn lemma_pending_len(s: Seq<Element>, d: Seq<bool>, i: int)
    requires
        s.len() == d.len(),
        0 <= i <= s.len(),
    ensures
        pending_ops(s.take(i), d.take(i)).len() <= pending_ops(s, d).len(),
    decreases s.len(),
{
    if i == s.len() {
        assert(s.take(i) =~= s);
        assert(d.take(i) =~= d);
    } else {
        assert(s.take(i) =~= s.drop_last().take(i));
        assert(d.take(i) =~= d.drop_last().take(i));
        lemma_pending_len(s.drop_last(), d.drop_last(), i);
    }
}

/// The timestamp of the `j`-th operation of a run that starts at `now`: `now + j`, held at
/// the largest timestamp once it is reached.
pub open spec fn stamp(now: u64, j: int) -> u64 {
    if now + j <= u64::MAX {
        (now + j) as u64
    } else {
        u64::MAX
    }
}

/// The queue keeps what `q0` had and gains the operations `ps`, the `j`-th with status
/// `Valid` under key (`stamp(now, j)`, op hash).
pub open spec fn queue_grown(
    q: IntegrationQueue,
    q0: IntegrationQueue,
    now: u64,
    ps: Seq<DhtOpV>,
) -> bool {
    &&& forall|k: (u64, Seq<u8>), v: (ValidationStatus, DhtOpV)| #[trigger]
        q.has(k, v) ==> q0.has(k, v) || exists|j: int|
            0 <= j < ps.len() && v == (ValidationStatus::Valid, ps[j]) && k == (
                stamp(now, j),
                op_hash(ps[j]).1,
            )
    &&& forall|k: (u64, Seq<u8>), v: (ValidationStatus, DhtOpV)| #[trigger]
        q0.has(k, v) ==> q.has(k, v)
    &&& forall|j: int|
        0 <= j < ps.len() ==> q.has_key((stamp(now, j), op_hash(#[trigger] ps[j]).1))
}

/// The queue is `q0` followed by the operations `ps`, in order, the `j`-th with status
/// `Valid` under key (`now + j`, op hash).
pub open spec fn queue_appended(
    q: IntegrationQueue,
    q0: IntegrationQueue,
    now: u64,
    ps: Seq<DhtOpV>,
) -> bool {
    &&& q.entries@.len() == q0.entries@.len() + ps.len()
    &&& forall|i: int| 0 <= i < q0.entries@.len() ==> #[trigger] q.entries@[i] == q0.entries@[i]
    &&& forall|j: int|
        0 <= j < ps.len() ==> key_view(#[trigger] q.entries@[q0.entries@.len() + j].0) == (
            stamp(now, j),
            op_hash(ps[j]).1,
        ) && value_view(q.entries@[q0.entries@.len() + j].1) == (ValidationStatus::Valid, ps[j])
}

/// Every key of `q0` is older than `now`, and `n` operations stamped from `now` on do not
/// reach the largest timestamp.
pub open spec fn fresh_run(q0: IntegrationQueue, now: u64, n: int) -> bool {
    &&& forall|i: int| 0 <= i < q0.entries@.len() ==> (#[trigger] q0.entries@[i]).0.timestamp < now
    &&& now + n < u64::MAX
}

/// The authored op hashes are those of `au0` and those of the operations `ps`.
pub open spec fn authored_grown(au: AuthoredDhtOps, au0: AuthoredDhtOps, ps: Seq<DhtOpV>) -> bool {
    forall|h: (HashKind, Seq<u8>)| #[trigger]
        au.contains(h) <==> (au0.contains(h) || exists|j: int|
            0 <= j < ps.len() && h == op_hash(ps[j]))
}

/// What the producer workflow reads and writes.
pub struct ProduceDhtOpsWorkspace {
    pub source_chain: SourceChain,
    pub authored_dht_ops: AuthoredDhtOps,
    pub integration_queue: IntegrationQueue,
}

impl ProduceDhtOpsWorkspace {
    /// The chain and the queue are well formed, and every authored op hash is the hash of
    /// an operation of a chain element.
    pub open spec fn well_formed(&self) -> bool {
        &&& self.source_chain.well_formed()
        &&& self.integration_queue.well_formed()
        &&& forall|h: (HashKind, Seq<u8>)| #[trigger]
            self.authored_dht_ops.contains(h) ==> exists|i: int, op: DhtOpV|
                op_of_element(self.source_chain, i, op) && h == op_hash(op)
    }

    /// A workspace over a chain, with nothing produced yet.
    pub fn new(source_chain: SourceChain) -> (r: ProduceDhtOpsWorkspace)
        requires
            source_chain.well_formed(),
        ensures
            r.well_formed(),
            r.source_chain == source_chain,
            r.authored_dht_ops.hashes@.len() == 0,
            r.integration_queue.entries@.len() == 0,
    {
        ProduceDhtOpsWorkspace {
            source_chain,
            authored_dht_ops: AuthoredDhtOps::new(),
            integration_queue: IntegrationQueue::new(),
        }
    }
}

/// What one run of the producer does, from workspace `a` to workspace `b` at time `now`:
/// the chain keeps its elements and has all of them marked produced; the queue gains the
/// operations of the elements not yet produced, in production order, the `j`-th with status
/// `Valid` under key (`stamp(now, j)`, op hash), so that a run into a queue of older keys
/// appends them in that order; the authored op hashes gain exactly their hashes.
pub open spec fn producer_effect(
    a: ProduceDhtOpsWorkspace,
    b: ProduceDhtOpsWorkspace,
    now: u64,
) -> bool {
    let p = pending_ops(a.source_chain.elements@, a.source_chain.dht_ops_complete@);
    &&& b.well_formed()
    &&& b.source_chain.elements == a.source_chain.elements
    &&& b.source_chain.dht_ops_complete@.len() == a.source_chain.dht_ops_complete@.len()
    &&& forall|i: int|
        0 <= i < b.source_chain.dht_ops_complete@.len() ==> #[trigger] b.source_chain.dht_ops_complete@[i]
    &&& queue_grown(b.integration_queue, a.integration_queue, now, p)
    &&& fresh_run(a.integration_queue, now, p.len() as int) ==> queue_appended(
        b.integration_queue,
        a.integration_queue,
        now,
        p,
    )
    &&& authored_grown(b.authored_dht_ops, a.authored_dht_ops, p)
    &&& (forall|i: int|
        0 <= i < a.source_chain.dht_ops_complete@.len()
            ==> #[trigger] a.source_chain.dht_ops_complete@[i]) ==> {
        &&& b.integration_queue.entries@ == a.integration_queue.entries@
        &&& b.authored_dht_ops.hashes@ == a.authored_dht_ops.hashes@
        &&& b.source_chain.dht_ops_complete@ == a.source_chain.dht_ops_complete@
    }
}

/// The producer workflow: for each chain element whose operations were not produced, in
/// chain order, queues each of its operations for integration as `Valid`, the `j`-th of the
/// run under key (`now + j`, op hash), records its op hash as authored, and marks the
/// element produced.
pub fn produce_dht_ops_workflow(ws: &mut ProduceDhtOpsWorkspace, now: u64) -> (r: WorkComplete)
    requires
        old(ws).well_formed(),
    ensures
        producer_effect(*old(ws), *final(ws), now),
        r == WorkComplete::Complete,
{
    let n = ws.source_chain.elements.len();
    let ghost a = *ws;
    let ghost q0 = a.integration_queue;
    let ghost au0 = a.authored_dht_ops;
    let ghost els = a.source_chain.elements@;
    let ghost done = a.source_chain.dht_ops_complete@;
    let ghost all = pending_ops(els, done);
    let ghost fresh = fresh_run(q0, now, all.len() as int);
    let ghost mut produced: Seq<DhtOpV> = seq![];
    let mut count: u64 = 0;
    proof {
        assert(els.take(0) =~= seq![]);
        assert(done.take(0) =~= seq![]);
    }
    let mut i: usize = 0;
    while i < n
        invariant
            0 <= i <= n,
            n == els.len(),
            els.len() == done.len(),
            a.well_formed(),
            els == a.source_chain.elements@,
            done == a.source_chain.dht_ops_complete@,
            q0 == a.integration_queue,
            au0 == a.authored_dht_ops,
            all == pending_ops(els, done),
            fresh == fresh_run(q0, now, all.len() as int),
            ws.integration_queue.well_formed(),
            ws.source_chain.elements == a.source_chain.elements,
            ws.source_chain.dht_ops_complete@.len() == n,
            forall|j: int| 0 <= j < i ==> #[trigger] ws.source_chain.dht_ops_complete@[j],
            forall|j: int| i <= j < n ==> #[trigger] ws.source_chain.dht_ops_complete@[j] == done[j],
            produced == pending_ops(els.take(i as int), done.take(i as int)),
            produced.len() <= all.len(),
            count == if produced.len() < u64::MAX { produced.len() as int } else { u64::MAX as int },
            forall|j: int|
                0 <= j < produced.len() ==> exists|e: int|
                    0 <= e < n && element_ops(els[e]@).contains(#[trigger] produced[j]),
            queue_grown(ws.integration_queue, q0, now, produced),
            fresh ==> queue_appended(ws.integration_queue, q0, now, produced),
            authored_grown(ws.authored_dht_ops, au0, produced),
            (forall|j: int| 0 <= j < n ==> #[trigger] done[j]) ==> {
                &&& ws.integration_queue.entries@ == q0.entries@
                &&& ws.authored_dht_ops.hashes@ == au0.hashes@
                &&& ws.source_chain.dht_ops_complete@ == done
            },
        decreases n - i,
    {
        proof {
            lemma_pending_step(els, done, i as int);
            lemma_pending_len(els, done, i as int + 1);
        }
        if !ws.source_chain.dht_ops_complete[i] {
            let ops = ops_from_element(&ws.source_chain.elements[i]);
            let ghost eops = element_ops(els[i as int]@);
            let ghost pre = produced;
            let ghost sc0 = ws.source_chain;
            let mut m: usize = 0;
            while m < ops.len()
                invariant
                    0 <= m <= ops@.len(),
                    0 <= i < n,
                    n == els.len(),
                    ops_view(ops@) == eops,
                    ops@.len() == eops.len(),
                    eops == element_ops(els[i as int]@),
                    pre.len() + eops.len() <= all.len(),
                    produced == pre + eops.take(m as int),
                    count == if produced.len() < u64::MAX { produced.len() as int } else { u64::MAX as int },
                    fresh == fresh_run(q0, now, all.len() as int),
                    forall|j: int|
                        0 <= j < produced.len() ==> exists|e: int|
                            0 <= e < n && element_ops(els[e]@).contains(#[trigger] produced[j]),
                    ws.integration_queue.well_formed(),
                    queue_grown(ws.integration_queue, q0, now, produced),
                    fresh ==> queue_appended(ws.integration_queue, q0, now, produced),
                    authored_grown(ws.authored_dht_ops, au0, produced),
                    ws.source_chain == sc0,
                decreases ops@.len() - m,
            {
                let op = ops[m].duplicate();
                let hash = hash_op(&op);
                let ts: u64 = if now <= u64::MAX - count {
                    now + count
                } else {
                    u64::MAX
                };
                let ghost ov = op@;
                let ghost j0 = produced.len() as int;
                let ghost qb = ws.integration_queue;
                let ghost aub = ws.authored_dht_ops;
                assert(ov == eops[m as int]);
                assert(ts == stamp(now, j0));
                proof {
                    if fresh {
                        assert forall|x: int| 0 <= x < qb.entries@.len() implies crate::queue::key_lt(
                            key_view(#[trigger] qb.entries@[x].0),
                            key_view(QueueKey { timestamp: ts, op_hash: hash }),
                        ) by {
                            if x < q0.entries@.len() {
                                assert(qb.entries@[x] == q0.entries@[x]);
                            } else {
                                let jj = x - q0.entries@.len();
                                assert(key_view(qb.entries@[q0.entries@.len() + jj].0).0 == stamp(now, jj));
                            }
                        }
                    }
                }
                ws.integration_queue.put(
                    QueueKey { timestamp: ts, op_hash: hash },
                    IntegrationQueueValue { validation_status: ValidationStatus::Valid, op },
                );
                ws.authored_dht_ops.put(hash);
                proof {
                    let np = produced.push(ov);
                    assert(np == pre + eops.take(m + 1)) by {
                        assert(eops.take(m + 1) =~= eops.take(m as int).push(eops[m as int]));
                    }
                    let q = ws.integration_queue;
                    assert forall|k: (u64, Seq<u8>), v: (ValidationStatus, DhtOpV)| #[trigger]
                        q.has(k, v) implies q0.has(k, v) || exists|j: int|
                            0 <= j < np.len() && v == (ValidationStatus::Valid, np[j]) && k == (
                                stamp(now, j),
                                op_hash(np[j]).1,
                            ) by {
                        if qb.has(k, v) {
                            if !q0.has(k, v) {
                                let j = choose|j: int|
                                    0 <= j < produced.len() && v == (ValidationStatus::Valid, produced[j])
                                        && k == (stamp(now, j), op_hash(produced[j]).1);
                                assert(np[j] == produced[j]);
                            }
                        } else {
                            assert(np[j0] == ov);
                        }
                    }
                    assert forall|j: int| 0 <= j < np.len() implies q.has_key(
                        (stamp(now, j), op_hash(#[trigger] np[j]).1),
                    ) by {
                        if j < j0 {
                            assert(np[j] == produced[j]);
                        }
                    }
                    assert(queue_grown(q, q0, now, np));
                    if fresh {
                        assert(q.entries@.len() == qb.entries@.len() + 1);
                        assert(key_view(q.entries@.last().0) == (ts, hash.bytes@));
                        assert(value_view(q.entries@.last().1) == (ValidationStatus::Valid, ov));
                        assert forall|x: int| 0 <= x < q0.entries@.len() implies #[trigger] q.entries@[x]
                            == q0.entries@[x] by {
                            assert(q.entries@[x] == qb.entries@[x]);
                        }
                        assert forall|j: int| 0 <= j < np.len() implies key_view(
                            #[trigger] q.entries@[q0.entries@.len() + j].0,
                        ) == (stamp(now, j), op_hash(np[j]).1) && value_view(
                            q.entries@[q0.entries@.len() + j].1,
                        ) == (ValidationStatus::Valid, np[j]) by {
                            if j < j0 {
                                assert(np[j] == produced[j]);
                                assert(q.entries@[q0.entries@.len() + j] == qb.entries@[q0.entries@.len() + j]);
                            }
                        }
                        assert(queue_appended(q, q0, now, np));
                    }
                    assert forall|h: (HashKind, Seq<u8>)| #[trigger]
                        ws.authored_dht_ops.contains(h) <==> (au0.contains(h) || exists|j: int|
                            0 <= j < np.len() && h == op_hash(np[j])) by {
                        if exists|j: int| 0 <= j < np.len() && h == op_hash(np[j]) {
                            let j = choose|j: int| 0 <= j < np.len() && h == op_hash(np[j]);
                            if j < j0 {
                                assert(np[j] == produced[j]);
                            }
                        }
                        if aub.contains(h) && !au0.contains(h) {
                            let j = choose|j: int| 0 <= j < produced.len() && h == op_hash(produced[j]);
                            assert(np[j] == produced[j]);
                        }
                        if h == hash@ {
                            assert(np[j0] == ov);
                        }
                    }
                    assert forall|j: int| 0 <= j < np.len() implies exists|e: int|
                        0 <= e < n && element_ops(els[e]@).contains(#[trigger] np[j]) by {
                        if j < j0 {
                            assert(np[j] == produced[j]);
                        } else {
                            assert(eops[m as int] == np[j]);
                            assert(element_ops(els[i as int]@).contains(np[j]));
                        }
                    }
                    produced = np;
                }
                if count < u64::MAX {
                    count = count + 1;
                }
                m = m + 1;
            }
            proof {
                assert(eops.take(eops.len() as int) =~= eops);
            }
            ws.source_chain.dht_ops_complete.set(i, true);
        }
        i = i + 1;
    }
    proof {
        assert(els.take(n as int) =~= els);
        assert(done.take(n as int) =~= done);
        assert forall|h: (HashKind, Seq<u8>)| #[trigger]
            ws.authored_dht_ops.contains(h) implies exists|e: int, op: DhtOpV|
            op_of_element(ws.source_chain, e, op) && h == op_hash(op) by {
            if au0.contains(h) {
                let (e, op) = choose|e: int, op: DhtOpV|
                    op_of_element(a.source_chain, e, op) && h == op_hash(op);
                assert(op_of_element(ws.source_chain, e, op));
            } else {
                let j = choose|j: int| 0 <= j < produced.len() && h == op_hash(produced[j]);
                let e = choose|e: int| 0 <= e < n && element_ops(els[e]@).contains(produced[j]);
                assert(op_of_element(ws.source_chain, e, produced[j]));
            }
        }
    }
    WorkComplete::Complete
}

/// Running the producer a second time, with no new chain element, changes nothing: the
/// queue, the authored op hashes and the chain's marks are as the first run left them.
pub proof fn lemma_producer_idempotent(
    a: ProduceDhtOpsWorkspace,
    b: ProduceDhtOpsWorkspace,
    c: ProduceDhtOpsWorkspace,
    now1: u64,
    now2: u64,
)
    requires
        a.well_formed(),
        producer_effect(a, b, now1),
        producer_effect(b, c, now2),
    ensures
        c.integration_queue.entries@ == b.integration_queue.entries@,
        c.authored_dht_ops.hashes@ == b.authored_dht_ops.hashes@,
        c.source_chain.elements == b.source_chain.elements,
        c.source_chain.dht_ops_complete@ == b.source_chain.dht_ops_complete@,
{
}

/// Every authored op hash, before and after a run of the producer, is the hash of an
/// operation obtained by splitting an element of the agent's own chain.
pub proof fn lemma_authored_ops_from_chain(
    a: ProduceDhtOpsWorkspace,
    b: ProduceDhtOpsWorkspace,
    now: u64,
    h: (HashKind, Seq<u8>),
)
    requires
        a.well_formed(),
        producer_effect(a, b, now),
        b.authored_dht_ops.contains(h),
    ensures
        exists|i: int, op: DhtOpV|
            0 <= i < b.source_chain.elements@.len() && element_ops(
                b.source_chain.elements@[i]@,
            ).contains(op) && h == op_hash(op),
{
    assert(b.well_formed());
}

} // verus!
