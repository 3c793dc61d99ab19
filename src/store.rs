//! The operation table: every operation an agent holds, keyed by op hash, with the stage
//! it has reached. The validation limbo, the integration limbo, the vault and the rejected
//! store are views of this one table, so an operation is in exactly one of them.
use vstd::prelude::*;
use crate::encode::{entry_hash, hash_entry, hash_header, header_hash, op_hash};
use crate::hash::{AgentPubKey, HashKind, HoloHash};
use crate::types::{DhtOp, DhtOpKind, EntryV, HeaderV};
use crate::validation::spec_counterfeit_free;

verus! {

/// The verdict of validation.
#[derive(Clone, Copy, Debug, PartialEq, Eq, Structural)]
pub enum ValidationStatus {
    Valid,
    Rejected,
    Abandoned,
}

/// Where an operation stands on its way through validation.
#[derive(Clone, Debug, PartialEq, Eq)]
pub enum ValidationLimboStatus {
    Pending,
    AwaitingSysDeps(HoloHash),
    SysValidated,
    AwaitingAppDeps(Vec<HoloHash>),
    AwaitingIntegration,
}

/// One operation held by the agent.
#[derive(Clone, Debug, PartialEq, Eq)]
pub struct DhtOpRow {
    pub hash: HoloHash,
    pub op: DhtOp,
    pub stage: ValidationLimboStatus,
    pub status: Option<ValidationStatus>,
    pub integrated: bool,
    pub num_tries: u32,
    pub last_try: Option<u64>,
}

impl DhtOpRow {
    pub open spec fn in_validation_limbo(self) -> bool {
        !self.integrated && !(self.stage is AwaitingIntegration)
    }

    pub open spec fn in_integration_limbo(self) -> bool {
        !self.integrated && self.stage is AwaitingIntegration
    }

    pub open spec fn in_vault(self) -> bool {
        self.integrated && self.status == Some(ValidationStatus::Valid)
    }

    pub open spec fn in_rejected(self) -> bool {
        self.integrated && self.status != Some(ValidationStatus::Valid)
    }

    /// A row whose operation counts as held: any row but a rejected one.
    pub open spec fn is_held(self) -> bool {
        !self.in_rejected()
    }

    pub open spec fn well_formed(self) -> bool {
        &&& self.hash@ == op_hash(self.op@)
        &&& (self.stage is AwaitingIntegration <==> self.status is Some)
        &&& (self.integrated ==> self.stage is AwaitingIntegration)
    }
}

/// The first index of `s` at which `p` holds, if any.
pub open spec fn first_match<T>(s: Seq<T>, p: spec_fn(T) -> bool) -> Option<int> {
    if exists|i: int| 0 <= i < s.len() && p(s[i]) {
        Some(choose|i: int| is_first(s, p, i))
    } else {
        None
    }
}

pub open spec fn is_first<T>(s: Seq<T>, p: spec_fn(T) -> bool, i: int) -> bool {
    &&& 0 <= i < s.len()
    &&& p(s[i])
    &&& forall|j: int| 0 <= j < i ==> !p(#[trigger] s[j])
}

pub proof fn lemma_first_exists<T>(s: Seq<T>, p: spec_fn(T) -> bool, k: int)
    requires
        0 <= k < s.len(),
        p(s[k]),
    ensures
        exists|i: int| is_first(s, p, i),
    decreases k,
{
    if exists|j: int| 0 <= j < k && p(s[j]) {
        let j = choose|j: int| 0 <= j < k && p(s[j]);
        lemma_first_exists(s, p, j);
    } else {
        assert(is_first(s, p, k));
    }
}

/// A search that stopped at the first index where `p` holds, or found none, agrees with
/// [`first_match`].
pub proof fn lemma_first_match<T>(s: Seq<T>, p: spec_fn(T) -> bool, r: Option<int>)
    requires
        match r {
            Some(i) => is_first(s, p, i),
            None => forall|j: int| 0 <= j < s.len() ==> !p(#[trigger] s[j]),
        },
    ensures
        first_match(s, p) == r,
{
    if let Some(i) = r {
        lemma_first_exists(s, p, i);
        let k = choose|k: int| is_first(s, p, k);
        assert(k == i) by {
            if k < i {
                assert(!p(s[k]));
            } else if k > i {
                assert(!p(s[i]));
            }
        }
    }
}

pub open spec fn row_has_hash(h: (HashKind, Seq<u8>)) -> spec_fn(DhtOpRow) -> bool {
    |r: DhtOpRow| r.hash@ == h
}

/// A held operation of the given kind whose header has the given hash.
pub open spec fn held_op_for_header(kind: DhtOpKind, h: (HashKind, Seq<u8>)) -> spec_fn(
    DhtOpRow,
) -> bool {
    |r: DhtOpRow| r.is_held() && r.op.kind == kind && header_hash(r.op.header@) == h
}

/// A held `StoreEntry` operation for the entry with the given hash.
pub open spec fn held_store_entry_for(h: (HashKind, Seq<u8>)) -> spec_fn(DhtOpRow) -> bool {
    |r: DhtOpRow|
        r.is_held() && r.op.kind == DhtOpKind::StoreEntry && match r.op.header@.entry_hash() {
            Some(e) => e@ == h,
            None => false,
        }
}

/// The store a row counts in for lookups, in lookup order: 0 the vault, 1 a limbo, 2 the
/// rejected store.
pub open spec fn row_class(r: DhtOpRow) -> u8 {
    if r.in_vault() {
        0
    } else if !r.integrated {
        1
    } else {
        2
    }
}

fn class_of(r: &DhtOpRow) -> (c: u8)
    ensures
        c == row_class(*r),
{
    if r.integrated && matches!(r.status, Some(ValidationStatus::Valid)) {
        0
    } else if !r.integrated {
        1
    } else {
        2
    }
}

/// A row of store `c` whose operation carries a header with the given hash.
pub open spec fn row_with_header(h: (HashKind, Seq<u8>), c: u8) -> spec_fn(DhtOpRow) -> bool {
    |r: DhtOpRow| row_class(r) == c && header_hash(r.op.header@) == h
}

/// A row of store `c` whose operation carries an entry with the given hash.
pub open spec fn row_with_entry(h: (HashKind, Seq<u8>), c: u8) -> spec_fn(DhtOpRow) -> bool {
    |r: DhtOpRow|
        row_class(r) == c && match r.op@.entry {
            Some(e) => entry_hash(e) == h,
            None => false,
        }
}

/// What [`first_match`] finds satisfies its predicate and comes first; when it finds nothing,
/// nothing satisfies the predicate.
pub proof fn lemma_first_match_sound<T>(s: Seq<T>, p: spec_fn(T) -> bool)
    ensures
        first_match(s, p) matches Some(i) ==> is_first(s, p, i),
        first_match(s, p) is None ==> forall|j: int| 0 <= j < s.len() ==> !p(#[trigger] s[j]),
{
    if exists|i: int| 0 <= i < s.len() && p(s[i]) {
        let k = choose|i: int| 0 <= i < s.len() && p(s[i]);
        lemma_first_exists(s, p, k);
    }
}

/// A row whose operation is by the given author.
pub open spec fn row_by_author(a: AgentPubKey) -> spec_fn(DhtOpRow) -> bool {
    |r: DhtOpRow| r.op.header.author == a
}

/// The operation table.
pub struct DhtStore {
    pub rows: Vec<DhtOpRow>,
}

impl DhtStore {
    /// Every row is well formed and no two rows share an op hash.
    pub open spec fn well_formed(&self) -> bool {
        &&& forall|i: int| 0 <= i < self.rows@.len() ==> (#[trigger] self.rows@[i]).well_formed()
        &&& forall|i: int, j: int|
            0 <= i < j < self.rows@.len() ==> (#[trigger] self.rows@[i]).hash@
                != (#[trigger] self.rows@[j]).hash@
    }

    /// Every held operation carries a signature that verifies under its author's
    /// well-formed key.
    pub open spec fn counterfeit_free(&self) -> bool {
        forall|i: int|
            0 <= i < self.rows@.len() ==> spec_counterfeit_free(
                (#[trigger] self.rows@[i]).op.signature,
                self.rows@[i].op.header@,
            )
    }

    pub open spec fn index_of(&self, h: (HashKind, Seq<u8>)) -> Option<int> {
        first_match(self.rows@, row_has_hash(h))
    }

    pub open spec fn contains(&self, h: (HashKind, Seq<u8>)) -> bool {
        exists|i: int| 0 <= i < self.rows@.len() && self.rows@[i].hash@ == h
    }

    /// The header of the first row of store `c` whose operation carries a header with hash
    /// `h`.
    pub open spec fn header_in(&self, h: (HashKind, Seq<u8>), c: u8) -> Option<HeaderV> {
        match first_match(self.rows@, row_with_header(h, c)) {
            Some(i) => Some(self.rows@[i].op.header@),
            None => None,
        }
    }

    /// The header with hash `h`, looked up in the vault, then the limbos, then the rejected
    /// store.
    pub open spec fn header_with_hash(&self, h: (HashKind, Seq<u8>)) -> Option<HeaderV> {
        match self.header_in(h, 0) {
            Some(x) => Some(x),
            None => match self.header_in(h, 1) {
                Some(x) => Some(x),
                None => self.header_in(h, 2),
            },
        }
    }

    /// The entry of the first row of store `c` whose operation carries an entry with hash
    /// `h`.
    pub open spec fn entry_in(&self, h: (HashKind, Seq<u8>), c: u8) -> Option<EntryV> {
        match first_match(self.rows@, row_with_entry(h, c)) {
            Some(i) => self.rows@[i].op@.entry,
            None => None,
        }
    }

    /// The entry with hash `h`, looked up in the same order as headers.
    pub open spec fn entry_with_hash(&self, h: (HashKind, Seq<u8>)) -> Option<EntryV> {
        match self.entry_in(h, 0) {
            Some(x) => Some(x),
            None => match self.entry_in(h, 1) {
                Some(x) => Some(x),
                None => self.entry_in(h, 2),
            },
        }
    }

    pub fn new() -> (r: DhtStore)
        ensures
            r.well_formed(),
            r.counterfeit_free(),
            r.rows@.len() == 0,
    {
        DhtStore { rows: Vec::new() }
    }

    /// The index of the row with op hash `h`.
    pub fn find(&self, h: &HoloHash) -> (r: Option<usize>)
        requires
            self.well_formed(),
        ensures
            r == match self.index_of(h@) {
                Some(i) => Some(i as usize),
                None => None::<usize>,
            },
            r is Some <==> self.contains(h@),
            r matches Some(i) ==> is_first(self.rows@, row_has_hash(h@), i as int),
    {
        let mut i: usize = 0;
        while i < self.rows.len()
            invariant
                0 <= i <= self.rows@.len(),
                forall|j: int| 0 <= j < i ==> !row_has_hash(h@)(#[trigger] self.rows@[j]),
            decreases self.rows@.len() - i,
        {
            if self.rows[i].hash.same(h) {
                proof {
                    lemma_first_match(self.rows@, row_has_hash(h@), Some(i as int));
                }
                return Some(i);
            }
            i = i + 1;
        }
        proof {
            lemma_first_match(self.rows@, row_has_hash(h@), None);
        }
        None
    }

    /// The index of the first held operation of kind `kind` whose header hashes to `h`.
    pub fn find_held_for_header(&self, kind: DhtOpKind, h: &HoloHash) -> (r: Option<usize>)
        ensures
            r == match first_match(self.rows@, held_op_for_header(kind, h@)) {
                Some(i) => Some(i as usize),
                None => None::<usize>,
            },
            r matches Some(i) ==> is_first(self.rows@, held_op_for_header(kind, h@), i as int),
    {
        let mut i: usize = 0;
        while i < self.rows.len()
            invariant
                0 <= i <= self.rows@.len(),
                forall|j: int|
                    0 <= j < i ==> !held_op_for_header(kind, h@)(#[trigger] self.rows@[j]),
            decreases self.rows@.len() - i,
        {
            let row = &self.rows[i];
            let rejected = row.integrated && !matches!(row.status, Some(ValidationStatus::Valid));
            if !rejected && row.op.kind == kind {
                let hh = hash_header(&row.op.header);
                if hh.same(h) {
                    proof {
                        lemma_first_match(self.rows@, held_op_for_header(kind, h@), Some(i as int));
                    }
                    return Some(i);
                }
            }
            i = i + 1;
        }
        proof {
            lemma_first_match(self.rows@, held_op_for_header(kind, h@), None);
        }
        None
    }

    /// The index of the first held `StoreEntry` operation for the entry with hash `h`.
    pub fn find_held_store_entry(&self, h: &HoloHash) -> (r: Option<usize>)
        ensures
            r == match first_match(self.rows@, held_store_entry_for(h@)) {
                Some(i) => Some(i as usize),
                None => None::<usize>,
            },
            r matches Some(i) ==> is_first(self.rows@, held_store_entry_for(h@), i as int),
    {
        let mut i: usize = 0;
        while i < self.rows.len()
            invariant
                0 <= i <= self.rows@.len(),
                forall|j: int| 0 <= j < i ==> !held_store_entry_for(h@)(#[trigger] self.rows@[j]),
            decreases self.rows@.len() - i,
        {
            let row = &self.rows[i];
            let rejected = row.integrated && !matches!(row.status, Some(ValidationStatus::Valid));
            if !rejected && row.op.kind == DhtOpKind::StoreEntry {
                match row.op.header.entry_hash() {
                    Some(eh) => {
                        if eh.same(h) {
                            proof {
                                lemma_first_match(
                                    self.rows@,
                                    held_store_entry_for(h@),
                                    Some(i as int),
                                );
                            }
                            return Some(i);
                        }
                    },
                    None => {},
                }
            }
            i = i + 1;
        }
        proof {
            lemma_first_match(self.rows@, held_store_entry_for(h@), None);
        }
        None
    }

    /// The index of the first row of store `c` whose operation carries a header with hash
    /// `h`.
    pub fn find_header(&self, h: &HoloHash, c: u8) -> (r: Option<usize>)
        ensures
            r == match first_match(self.rows@, row_with_header(h@, c)) {
                Some(i) => Some(i as usize),
                None => None::<usize>,
            },
            r matches Some(i) ==> is_first(self.rows@, row_with_header(h@, c), i as int),
    {
        let mut i: usize = 0;
        while i < self.rows.len()
            invariant
                0 <= i <= self.rows@.len(),
                forall|j: int| 0 <= j < i ==> !row_with_header(h@, c)(#[trigger] self.rows@[j]),
            decreases self.rows@.len() - i,
        {
            let hh = hash_header(&self.rows[i].op.header);
            if class_of(&self.rows[i]) == c && hh.same(h) {
                proof {
                    lemma_first_match(self.rows@, row_with_header(h@, c), Some(i as int));
                }
                return Some(i);
            }
            i = i + 1;
        }
        proof {
            lemma_first_match(self.rows@, row_with_header(h@, c), None);
        }
        None
    }

    /// The index of the first row of store `c` whose operation carries an entry with hash
    /// `h`.
    pub fn find_entry(&self, h: &HoloHash, c: u8) -> (r: Option<usize>)
        ensures
            r == match first_match(self.rows@, row_with_entry(h@, c)) {
                Some(i) => Some(i as usize),
                None => None::<usize>,
            },
            r matches Some(i) ==> is_first(self.rows@, row_with_entry(h@, c), i as int),
    {
        let mut i: usize = 0;
        while i < self.rows.len()
            invariant
                0 <= i <= self.rows@.len(),
                forall|j: int| 0 <= j < i ==> !row_with_entry(h@, c)(#[trigger] self.rows@[j]),
            decreases self.rows@.len() - i,
        {
            match &self.rows[i].op.entry {
                Some(e) => {
                    let eh = hash_entry(e);
                    if class_of(&self.rows[i]) == c && eh.same(h) {
                        proof {
                            lemma_first_match(self.rows@, row_with_entry(h@, c), Some(i as int));
                        }
                        return Some(i);
                    }
                },
                None => {},
            }
            i = i + 1;
        }
        proof {
            lemma_first_match(self.rows@, row_with_entry(h@, c), None);
        }
        None
    }

    /// Whether no operation by `author` is held in any stage.
    pub fn is_chain_empty(&self, author: &AgentPubKey) -> (r: bool)
        ensures
            r == (first_match(self.rows@, row_by_author(*author)) is None),
    {
        let mut i: usize = 0;
        while i < self.rows.len()
            invariant
                0 <= i <= self.rows@.len(),
                forall|j: int| 0 <= j < i ==> !row_by_author(*author)(#[trigger] self.rows@[j]),
            decreases self.rows@.len() - i,
        {
            if self.rows[i].op.header.author.same(author) {
                proof {
                    lemma_first_match(self.rows@, row_by_author(*author), Some(i as int));
                }
                return false;
            }
            i = i + 1;
        }
        proof {
            lemma_first_match(self.rows@, row_by_author(*author), None);
        }
        true
    }

    /// Admits an operation that arrived from the network into the validation limbo with
    /// status `Pending`. An operation already in the table, in any stage, is left as it is.
    /// Returns whether the operation was added.
    pub(crate) fn put_incoming(&mut self, op: DhtOp) -> (r: bool)
        requires
            old(self).well_formed(),
        ensures
            final(self).well_formed(),
            r == !old(self).contains(op_hash(op@)),
            !r ==> final(self).rows@ == old(self).rows@,
            r ==> final(self).rows@ == old(self).rows@.push(
                DhtOpRow {
                    hash: final(self).rows@.last().hash,
                    op,
                    stage: ValidationLimboStatus::Pending,
                    status: None,
                    integrated: false,
                    num_tries: 0,
                    last_try: None,
                },
            ),
            r ==> final(self).rows@.last().hash@ == op_hash(op@),
    {
        let hash = crate::encode::hash_op(&op);
        match self.find(&hash) {
            Some(_) => false,
            None => {
                let row = DhtOpRow {
                    hash,
                    op,
                    stage: ValidationLimboStatus::Pending,
                    status: None,
                    integrated: false,
                    num_tries: 0,
                    last_try: None,
                };
                self.rows.push(row);
                proof {
                    assert forall|i: int, j: int|
                        0 <= i < j < self.rows@.len() implies (#[trigger] self.rows@[i]).hash@
                        != (#[trigger] self.rows@[j]).hash@ by {
                        if j == self.rows@.len() - 1 {
                            assert(old(self).rows@[i].hash@ != hash@);
                        } else {
                            assert(old(self).rows@[i] == self.rows@[i]);
                            assert(old(self).rows@[j] == self.rows@[j]);
                        }
                    }
                    assert forall|i: int| 0 <= i < self.rows@.len() implies (
                    #[trigger] self.rows@[i]).well_formed() by {
                        if i < old(self).rows@.len() {
                            assert(old(self).rows@[i] == self.rows@[i]);
                        }
                    }
                }
                true
            },
        }
    }

    /// Moves the operation with op hash `h` to validation-limbo stage `stage`, counting one
    /// more attempt, made at time `now`. Nothing changes when no row has that hash, or when
    /// the operation is already integrated.
    pub fn put_validation_limbo(&mut self, h: &HoloHash, stage: ValidationLimboStatus, now: u64)
        requires
            old(self).well_formed(),
            !(stage is AwaitingIntegration),
        ensures
            final(self).well_formed(),
            final(self).rows@.len() == old(self).rows@.len(),
            match old(self).index_of(h@) {
                Some(i) => final(self).rows@ == if old(self).rows@[i].integrated {
                    old(self).rows@
                } else {
                    old(self).rows@.update(
                    i,
                    DhtOpRow {
                        stage,
                        status: None,
                        integrated: false,
                        num_tries: if old(self).rows@[i].num_tries < u32::MAX {
                            (old(self).rows@[i].num_tries + 1) as u32
                        } else {
                            u32::MAX
                        },
                        last_try: Some(now),
                        ..old(self).rows@[i]
                    },
                )
                },
                None => final(self).rows@ == old(self).rows@,
            },
    {
        match self.find(h) {
            None => {},
            Some(i) => if !self.rows[i].integrated {
                let mut row = self.rows.remove(i);
                row.stage = stage;
                row.status = None;
                row.integrated = false;
                row.num_tries = if row.num_tries < u32::MAX {
                    row.num_tries + 1
                } else {
                    u32::MAX
                };
                row.last_try = Some(now);
                self.rows.insert(i, row);
                proof {
                    assert(self.rows@ =~= old(self).rows@.update(i as int, row));
                    self.lemma_update_keeps_keys(*old(self), i as int);
                }
            },
        }
    }

    /// Moves the operation with op hash `h` to the integration limbo with verdict `status`.
    /// Nothing changes when no row has that hash, or when the operation is already
    /// integrated.
    pub fn put_integration_limbo(&mut self, h: &HoloHash, status: ValidationStatus)
        requires
            old(self).well_formed(),
        ensures
            final(self).well_formed(),
            final(self).rows@.len() == old(self).rows@.len(),
            match old(self).index_of(h@) {
                Some(i) => final(self).rows@ == if old(self).rows@[i].integrated {
                    old(self).rows@
                } else {
                    old(self).rows@.update(
                    i,
                    DhtOpRow {
                        stage: ValidationLimboStatus::AwaitingIntegration,
                        status: Some(status),
                        integrated: false,
                        ..old(self).rows@[i]
                    },
                )
                },
                None => final(self).rows@ == old(self).rows@,
            },
    {
        match self.find(h) {
            None => {},
            Some(i) => if !self.rows[i].integrated {
                let mut row = self.rows.remove(i);
                row.stage = ValidationLimboStatus::AwaitingIntegration;
                row.status = Some(status);
                row.integrated = false;
                self.rows.insert(i, row);
                proof {
                    assert(self.rows@ =~= old(self).rows@.update(i as int, row));
                    self.lemma_update_keeps_keys(*old(self), i as int);
                }
            },
        }
    }

    /// In a well-formed table, the row found under a row's op hash is that row.
    pub proof fn lemma_index_of_row(&self, i: int)
        requires
            self.well_formed(),
            0 <= i < self.rows@.len(),
        ensures
            self.index_of(self.rows@[i].hash@) == Some(i),
            self.contains(self.rows@[i].hash@),
    {
        assert forall|j: int| 0 <= j < i implies !row_has_hash(self.rows@[i].hash@)(
            #[trigger] self.rows@[j],
        ) by {
            assert(self.rows@[j].hash@ != self.rows@[i].hash@);
        }
        lemma_first_match(self.rows@, row_has_hash(self.rows@[i].hash@), Some(i));
    }

    /// Replacing one well-formed row by one with the same op hash keeps the table well
    /// formed.
    proof fn lemma_update_keeps_keys(&self, prev: DhtStore, i: int)
        requires
            prev.well_formed(),
            0 <= i < prev.rows@.len(),
            self.rows@ == prev.rows@.update(i, self.rows@[i]),
            self.rows@[i].hash == prev.rows@[i].hash,
            self.rows@[i].well_formed(),
        ensures
            self.well_formed(),
    {
        assert forall|a: int, b: int|
            0 <= a < b < self.rows@.len() implies (#[trigger] self.rows@[a]).hash@
            != (#[trigger] self.rows@[b]).hash@ by {
            assert(prev.rows@[a].hash@ != prev.rows@[b].hash@);
        }
        assert forall|a: int| 0 <= a < self.rows@.len() implies (
        #[trigger] self.rows@[a]).well_formed() by {
            if a != i {
                assert(prev.rows@[a] == self.rows@[a]);
            }
        }
    }
}

} // verus!
