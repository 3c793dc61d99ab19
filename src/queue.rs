//! The integration queue: operations waiting for integration, kept in ascending order of
//! their key (timestamp, op hash).
use vstd::prelude::*;
use crate::hash::{
    bytes_lt, compare_hash_bytes, lemma_bytes_lt_asymmetric, lemma_bytes_lt_irreflexive,
    lemma_bytes_lt_total, lemma_bytes_lt_transitive, HoloHash,
};
use crate::store::ValidationStatus;
use crate::types::{DhtOp, DhtOpV};

verus! {

/// The key of an operation in the queue.
#[derive(Clone, Copy, Debug, PartialEq, Eq)]
pub struct QueueKey {
    pub timestamp: u64,
    pub op_hash: HoloHash,
}

/// An operation in the queue and the verdict it carries.
#[derive(Clone, Debug, PartialEq, Eq)]
pub struct IntegrationQueueValue {
    pub validation_status: ValidationStatus,
    pub op: DhtOp,
}

pub open spec fn key_view(k: QueueKey) -> (u64, Seq<u8>) {
    (k.timestamp, k.op_hash.bytes@)
}

pub open spec fn value_view(v: IntegrationQueueValue) -> (ValidationStatus, DhtOpV) {
    (v.validation_status, v.op@)
}

/// The queue order: by timestamp, then by op hash bytes.
pub open spec fn key_lt(a: (u64, Seq<u8>), b: (u64, Seq<u8>)) -> bool {
    a.0 < b.0 || (a.0 == b.0 && bytes_lt(a.1, b.1))
}

pub proof fn lemma_key_lt_transitive(a: (u64, Seq<u8>), b: (u64, Seq<u8>), c: (u64, Seq<u8>))
    requires
        key_lt(a, b),
        key_lt(b, c),
    ensures
        key_lt(a, c),
{
    if a.0 == b.0 && b.0 == c.0 {
        lemma_bytes_lt_transitive(a.1, b.1, c.1);
    }
}

pub proof fn lemma_key_lt_irreflexive(a: (u64, Seq<u8>))
    ensures
        !key_lt(a, a),
{
    lemma_bytes_lt_irreflexive(a.1);
}

/// Compares two keys in queue order: -1, 0 or 1.
pub fn compare_keys(a: &QueueKey, b: &QueueKey) -> (r: i8)
    ensures
        r == 0 <==> key_view(*a) == key_view(*b),
        r < 0 <==> key_lt(key_view(*a), key_view(*b)),
        r > 0 <==> key_lt(key_view(*b), key_view(*a)),
{
    proof {
        lemma_bytes_lt_irreflexive(a.op_hash.bytes@);
        if bytes_lt(a.op_hash.bytes@, b.op_hash.bytes@) {
            lemma_bytes_lt_asymmetric(a.op_hash.bytes@, b.op_hash.bytes@);
        }
    }
    if a.timestamp < b.timestamp {
        -1
    } else if a.timestamp > b.timestamp {
        1
    } else {
        compare_hash_bytes(&a.op_hash, &b.op_hash)
    }
}

/// The integration queue.
pub struct IntegrationQueue {
    pub entries: Vec<(QueueKey, IntegrationQueueValue)>,
}

impl IntegrationQueue {
    /// Keys strictly ascend, so no key occurs twice.
    pub open spec fn well_formed(&self) -> bool {
        forall|i: int, j: int|
            0 <= i < j < self.entries@.len() ==> key_lt(
                key_view(#[trigger] self.entries@[i].0),
                key_view(#[trigger] self.entries@[j].0),
            )
    }

    pub open spec fn has_key(&self, k: (u64, Seq<u8>)) -> bool {
        exists|i: int| 0 <= i < self.entries@.len() && key_view(self.entries@[i].0) == k
    }

    pub open spec fn has(&self, k: (u64, Seq<u8>), v: (ValidationStatus, DhtOpV)) -> bool {
        exists|i: int|
            0 <= i < self.entries@.len() && key_view(self.entries@[i].0) == k && value_view(
                self.entries@[i].1,
            ) == v
    }

    pub fn new() -> (r: IntegrationQueue)
        ensures
            r.well_formed(),
            r.entries@.len() == 0,
    {
        IntegrationQueue { entries: Vec::new() }
    }

    pub fn len(&self) -> (r: usize)
        ensures
            r == self.entries@.len(),
    {
        self.entries.len()
    }

    /// Adds `value` under `key`, in key order. A key already present is left as it is.
    pub fn put(&mut self, key: QueueKey, value: IntegrationQueueValue)
        requires
            old(self).well_formed(),
        ensures
            final(self).well_formed(),
            old(self).has_key(key_view(key)) ==> final(self).entries@ == old(self).entries@,
            !old(self).has_key(key_view(key)) ==> final(self).entries@.len() == old(
                self,
            ).entries@.len() + 1,
            forall|k: (u64, Seq<u8>), v: (ValidationStatus, DhtOpV)|
                #[trigger] final(self).has(k, v) <==> (old(self).has(k, v) || (k == key_view(key)
                    && v == value_view(value) && !old(self).has_key(key_view(key)))),
            forall|k: (u64, Seq<u8>)|
                #[trigger] final(self).has_key(k) <==> (old(self).has_key(k) || k == key_view(
                    key,
                )),
            (forall|i: int|
                0 <= i < old(self).entries@.len() ==> key_lt(
                    key_view(#[trigger] old(self).entries@[i].0),
                    key_view(key),
                )) ==> final(self).entries@ == old(self).entries@.push((key, value)),
    {
        let ghost kv = key_view(key);
        let mut p: usize = 0;
        while p < self.entries.len()
            invariant
                0 <= p <= self.entries@.len(),
                kv == key_view(key),
                forall|j: int| 0 <= j < p ==> key_lt(key_view(#[trigger] self.entries@[j].0), kv),
            ensures
                0 <= p <= self.entries@.len(),
                forall|j: int| 0 <= j < p ==> key_lt(key_view(#[trigger] self.entries@[j].0), kv),
                p < self.entries@.len() ==> !key_lt(key_view(self.entries@[p as int].0), kv),
            decreases self.entries@.len() - p,
        {
            let c = compare_keys(&self.entries[p].0, &key);
            if c >= 0 {
                break;
            }
            assert(key_lt(key_view(self.entries@[p as int].0), kv));
            p = p + 1;
        }
        if p < self.entries.len() && compare_keys(&self.entries[p].0, &key) == 0 {
            proof {
                assert(self.has_key(kv));
                lemma_key_lt_irreflexive(kv);
                assert(!key_lt(key_view(self.entries@[p as int].0), kv));
            }
            return;
        }
        let ghost before = self.entries@;
        proof {
            // the key is absent and every entry from `p` on follows it
            assert forall|j: int| p <= j < before.len() implies key_lt(
                kv,
                key_view(#[trigger] before[j].0),
            ) by {
                let kp = key_view(before[p as int].0);
                lemma_bytes_lt_total(kp.1, kv.1);
                assert(key_lt(kv, kp));
                if j > p {
                    lemma_key_lt_transitive(kv, kp, key_view(before[j].0));
                }
            }
            assert(!self.has_key(kv)) by {
                if self.has_key(kv) {
                    let i = choose|i: int| 0 <= i < before.len() && key_view(before[i].0) == kv;
                    lemma_key_lt_irreflexive(kv);
                    if i < p {
                        assert(key_lt(key_view(before[i].0), kv));
                    } else {
                        assert(key_lt(kv, key_view(before[i].0)));
                    }
                }
            }
        }
        self.entries.insert(p, (key, value));
        proof {
            let after = self.entries@;
            assert(after == before.insert(p as int, (key, value)));
            if forall|i: int| 0 <= i < before.len() ==> key_lt(key_view(#[trigger] before[i].0), kv) {
                if p < before.len() {
                    assert(key_lt(key_view(before[p as int].0), kv));
                }
                assert(after =~= before.push((key, value)));
            }
            assert forall|i: int, j: int| 0 <= i < j < after.len() implies key_lt(
                key_view(#[trigger] after[i].0),
                key_view(#[trigger] after[j].0),
            ) by {
                if j < p {
                } else if j == p {
                } else if i < p {
                    lemma_key_lt_transitive(
                        key_view(before[i].0),
                        kv,
                        key_view(before[j - 1].0),
                    );
                } else if i == p {
                } else {
                }
            }
            assert forall|k: (u64, Seq<u8>), v: (ValidationStatus, DhtOpV)|
                #[trigger] self.has(k, v) <==> (old(self).has(k, v) || (k == kv && v
                    == value_view(value) && !old(self).has_key(kv))) by {
                if self.has(k, v) {
                    let i = choose|i: int|
                        0 <= i < after.len() && key_view(after[i].0) == k && value_view(after[i].1)
                            == v;
                    if i < p {
                        assert(old(self).entries@[i] == after[i]);
                    } else if i > p {
                        assert(old(self).entries@[i - 1] == after[i]);
                    }
                }
                if old(self).has(k, v) {
                    let i = choose|i: int|
                        0 <= i < before.len() && key_view(before[i].0) == k && value_view(
                            before[i].1,
                        ) == v;
                    if i < p {
                        assert(after[i] == before[i]);
                    } else {
                        assert(after[i + 1] == before[i]);
                    }
                }
                if k == kv && v == value_view(value) {
                    assert(after[p as int] == (key, value));
                }
            }
            assert forall|k: (u64, Seq<u8>)| #[trigger]
                self.has_key(k) <==> (old(self).has_key(k) || k == kv) by {
                if self.has_key(k) {
                    let i = choose|i: int| 0 <= i < after.len() && key_view(after[i].0) == k;
                    if i < p {
                        assert(old(self).entries@[i] == after[i]);
                    } else if i > p {
                        assert(old(self).entries@[i - 1] == after[i]);
                    }
                }
                if old(self).has_key(k) {
                    let i = choose|i: int| 0 <= i < before.len() && key_view(before[i].0) == k;
                    if i < p {
                        assert(after[i] == before[i]);
                    } else {
                        assert(after[i + 1] == before[i]);
                    }
                }
                if k == kv {
                    assert(after[p as int] == (key, value));
                }
            }
        }
    }
}

/// Read in key order, the queue's timestamps never decrease.
pub proof fn lemma_queue_timestamps_non_decreasing(q: IntegrationQueue, i: int, j: int)
    requires
        q.well_formed(),
        0 <= i <= j < q.entries@.len(),
    ensures
        q.entries@[i].0.timestamp <= q.entries@[j].0.timestamp,
{
    if i < j {
        assert(key_lt(key_view(q.entries@[i].0), key_view(q.entries@[j].0)));
    }
}

} // verus!
