//! System validation of one operation against the agent's local stores: the cascade that
//! resolves headers and entries, the dependency holding checks, and the per-kind rules.
use vstd::prelude::*;
use crate::encode::{enc_entry, entry_hash, hash_entry, hash_header, header_hash};
use crate::hash::{AgentPubKey, HashKind, HoloHash};
use crate::ops::{element_ops, public_entry};
use crate::store::{
    first_match, held_op_for_header, held_store_entry_for, is_first,
    lemma_first_match, lemma_first_match_sound, row_class, row_with_entry, row_with_header,
    DhtOpRow,
    DhtStore, ValidationLimboStatus, ValidationStatus,
};
use crate::types::{
    duplicate_opt_entry, opt_entry_view, DhtOp, DhtOpKind, DhtOpV, Element, ElementV, Entry,
    EntryType, EntryV, EntryVisibility, Header,
    HeaderBody, HeaderBodyV, HeaderV,
};
use crate::validation::{
    check_app_entry_def, check_app_entry_type, check_entry_hash, check_entry_size,
    check_entry_type, check_new_entry_header, check_prev_header, check_prev_seq,
    check_prev_timestamp, check_tag_size, check_valid_if_dna, counterfeit_check,
    entry_matches_type, handle_failed, is_new_entry_header, spec_check_app_entry_def,
    spec_check_app_entry_type, spec_check_prev_header, spec_check_valid_if_dna,
    spec_counterfeit_free, spec_handle_failed, spec_update_check, update_check, DnaDef, Outcome,
    PrevHeaderError, ValidationOutcome, MAX_ENTRY_BYTES, MAX_TAG_BYTES,
};

verus! {

/// Two headers by one author at one sequence number.
#[derive(Clone, Copy, Debug, PartialEq, Eq)]
pub struct Fork {
    pub author: AgentPubKey,
    pub header_seq: u32,
}

/// What system validation reads and writes: the operation table, the agent's own
/// elements, the cache of elements fetched from the network, the app's definitions, and the
/// forks found so far.
pub struct SysValidationWorkspace {
    pub store: DhtStore,
    pub authored: Vec<Element>,
    pub cache: Vec<Element>,
    pub dna: DnaDef,
    pub forks: Vec<Fork>,
}

pub open spec fn element_with_header(h: (HashKind, Seq<u8>)) -> spec_fn(Element) -> bool {
    |e: Element| header_hash(e.header@) == h
}

pub open spec fn element_with_entry(h: (HashKind, Seq<u8>)) -> spec_fn(Element) -> bool {
    |e: Element|
        match e@.entry {
            Some(x) => entry_hash(x) == h,
            None => false,
        }
}

/// The first error of two steps run in turn.
pub open spec fn then_check(
    a: Result<(), ValidationOutcome>,
    b: Result<(), ValidationOutcome>,
) -> Result<(), ValidationOutcome> {
    if a is Err {
        a
    } else {
        b
    }
}

pub open spec fn opt_header_view(h: Option<Header>) -> Option<HeaderV> {
    match h {
        Some(x) => Some(x@),
        None => None,
    }
}

fn find_element_with_header(s: &Vec<Element>, h: &HoloHash) -> (r: Option<usize>)
    ensures
        r == match first_match(s@, element_with_header(h@)) {
            Some(i) => Some(i as usize),
            None => None::<usize>,
        },
        r matches Some(i) ==> is_first(s@, element_with_header(h@), i as int),
{
    let mut i: usize = 0;
    while i < s.len()
        invariant
            0 <= i <= s@.len(),
            forall|j: int| 0 <= j < i ==> !element_with_header(h@)(#[trigger] s@[j]),
        decreases s@.len() - i,
    {
        let hh = hash_header(&s[i].header);
        if hh.same(h) {
            proof {
                lemma_first_match(s@, element_with_header(h@), Some(i as int));
            }
            return Some(i);
        }
        i = i + 1;
    }
    proof {
        lemma_first_match(s@, element_with_header(h@), None);
    }
    None
}

fn find_element_with_entry(s: &Vec<Element>, h: &HoloHash) -> (r: Option<usize>)
    ensures
        r == match first_match(s@, element_with_entry(h@)) {
            Some(i) => Some(i as usize),
            None => None::<usize>,
        },
        r matches Some(i) ==> is_first(s@, element_with_entry(h@), i as int),
{
    let mut i: usize = 0;
    while i < s.len()
        invariant
            0 <= i <= s@.len(),
            forall|j: int| 0 <= j < i ==> !element_with_entry(h@)(#[trigger] s@[j]),
        decreases s@.len() - i,
    {
        match &s[i].entry {
            Some(e) => {
                let eh = hash_entry(e);
                if eh.same(h) {
                    proof {
                        lemma_first_match(s@, element_with_entry(h@), Some(i as int));
                    }
                    return Some(i);
                }
            },
            None => {},
        }
        i = i + 1;
    }
    proof {
        lemma_first_match(s@, element_with_entry(h@), None);
    }
    None
}

impl SysValidationWorkspace {
    /// A workspace over the agent's own elements and the app's definitions, with an empty
    /// operation table and cache.
    pub fn new(authored: Vec<Element>, dna: DnaDef) -> (r: SysValidationWorkspace)
        ensures
            r.store.well_formed(),
            r.store.rows@.len() == 0,
            r.authored == authored,
            r.cache@.len() == 0,
            r.dna == dna,
            r.forks@.len() == 0,
    {
        SysValidationWorkspace {
            store: DhtStore::new(),
            authored,
            cache: Vec::new(),
            dna,
            forks: Vec::new(),
        }
    }

    /// Moves the operation with op hash `h` to validation-limbo stage `stage` (see
    /// [`DhtStore::put_validation_limbo`]); an integrated operation is left as it is.
    pub fn put_validation_limbo(&mut self, h: &HoloHash, stage: ValidationLimboStatus, now: u64)
        requires
            old(self).store.well_formed(),
            !(stage is AwaitingIntegration),
        ensures
            final(self).store.well_formed(),
            final(self).authored == old(self).authored,
            final(self).cache == old(self).cache,
            final(self).dna == old(self).dna,
            final(self).forks == old(self).forks,
            match old(self).store.index_of(h@) {
                Some(i) => final(self).store.rows@ == if old(self).store.rows@[i].integrated {
                    old(self).store.rows@
                } else {
                    old(self).store.rows@.update(
                    i,
                    DhtOpRow {
                        stage,
                        status: None,
                        integrated: false,
                        num_tries: if old(self).store.rows@[i].num_tries < u32::MAX {
                            (old(self).store.rows@[i].num_tries + 1) as u32
                        } else {
                            u32::MAX
                        },
                        last_try: Some(now),
                        ..old(self).store.rows@[i]
                    },
                )
                },
                None => final(self).store.rows@ == old(self).store.rows@,
            },
    {
        self.store.put_validation_limbo(h, stage, now);
    }

    /// Moves the operation with op hash `h` to the integration limbo with verdict `status`
    /// (see [`DhtStore::put_integration_limbo`]); an integrated operation is left as it is.
    pub fn put_integration_limbo(&mut self, h: &HoloHash, status: ValidationStatus)
        requires
            old(self).store.well_formed(),
        ensures
            final(self).store.well_formed(),
            final(self).authored == old(self).authored,
            final(self).cache == old(self).cache,
            final(self).dna == old(self).dna,
            final(self).forks == old(self).forks,
            match old(self).store.index_of(h@) {
                Some(i) => final(self).store.rows@ == if old(self).store.rows@[i].integrated {
                    old(self).store.rows@
                } else {
                    old(self).store.rows@.update(
                    i,
                    DhtOpRow {
                        stage: ValidationLimboStatus::AwaitingIntegration,
                        status: Some(status),
                        integrated: false,
                        ..old(self).store.rows@[i]
                    },
                )
                },
                None => final(self).store.rows@ == old(self).store.rows@,
            },
    {
        self.store.put_integration_limbo(h, status);
    }

    /// Whether no operation by `author` is held in any stage.
    pub fn is_chain_empty(&self, author: &AgentPubKey) -> (r: bool)
        ensures
            r == (first_match(self.store.rows@, crate::store::row_by_author(*author)) is None),
    {
        self.store.is_chain_empty(author)
    }

    /// The header with hash `h`, looked up in the authored elements, then the vault, the
    /// limbos and the rejected store of the operation table, then the cache; the first hit
    /// wins.
    pub open spec fn cascade_header(&self, h: (HashKind, Seq<u8>)) -> Option<HeaderV> {
        match first_match(self.authored@, element_with_header(h)) {
            Some(i) => Some(self.authored@[i].header@),
            None => match self.store.header_with_hash(h) {
                Some(x) => Some(x),
                None => match first_match(self.cache@, element_with_header(h)) {
                    Some(i) => Some(self.cache@[i].header@),
                    None => None,
                },
            },
        }
    }

    /// The entry with hash `h`, looked up in the same order as headers.
    pub open spec fn cascade_entry(&self, h: (HashKind, Seq<u8>)) -> Option<EntryV> {
        match first_match(self.authored@, element_with_entry(h)) {
            Some(i) => self.authored@[i]@.entry,
            None => match self.store.entry_with_hash(h) {
                Some(x) => Some(x),
                None => match first_match(self.cache@, element_with_entry(h)) {
                    Some(i) => self.cache@[i]@.entry,
                    None => None,
                },
            },
        }
    }

    pub fn retrieve_header(&self, h: &HoloHash) -> (r: Option<Header>)
        ensures
            opt_header_view(r) == self.cascade_header(h@),
    {
        match find_element_with_header(&self.authored, h) {
            Some(i) => {
                return Some(self.authored[i].header.duplicate());
            },
            None => {},
        }
        let mut c: u8 = 0;
        while c < 3
            invariant
                0 <= c <= 3,
                first_match(self.authored@, element_with_header(h@)) is None,
                forall|k: u8| k < c ==> self.store.header_in(h@, k) is None,
            decreases 3 - c,
        {
            match self.store.find_header(h, c) {
                Some(i) => {
                    return Some(self.store.rows[i].op.header.duplicate());
                },
                None => {},
            }
            c = c + 1;
        }
        match find_element_with_header(&self.cache, h) {
            Some(i) => Some(self.cache[i].header.duplicate()),
            None => None,
        }
    }

    pub fn retrieve_entry(&self, h: &HoloHash) -> (r: Option<Entry>)
        ensures
            opt_entry_view(r) == self.cascade_entry(h@),
    {
        match find_element_with_entry(&self.authored, h) {
            Some(i) => {
                return duplicate_opt_entry(&self.authored[i].entry);
            },
            None => {},
        }
        let mut c: u8 = 0;
        while c < 3
            invariant
                0 <= c <= 3,
                first_match(self.authored@, element_with_entry(h@)) is None,
                forall|k: u8| k < c ==> self.store.entry_in(h@, k) is None,
            decreases 3 - c,
        {
            match self.store.find_entry(h, c) {
                Some(i) => {
                    return duplicate_opt_entry(&self.store.rows[i].op.entry);
                },
                None => {},
            }
            c = c + 1;
        }
        match find_element_with_entry(&self.cache, h) {
            Some(i) => duplicate_opt_entry(&self.cache[i].entry),
            None => None,
        }
    }

    /// Records an element fetched from the network in the cache; the latest write wins.
    pub fn cache_element(&mut self, e: Element)
        ensures
            final(self).cache@ == seq![e] + old(self).cache@,
            final(self).store == old(self).store,
            final(self).authored == old(self).authored,
            final(self).dna == old(self).dna,
            final(self).forks == old(self).forks,
    {
        self.cache.insert(0, e);
    }

    /// The header of the first held operation of `kind` whose header hashes to `h`, or
    /// `NotHoldingDep(h)`.
    pub open spec fn spec_hold_header(&self, kind: DhtOpKind, h: HoloHash) -> Result<
        HeaderV,
        ValidationOutcome,
    > {
        match first_match(self.store.rows@, held_op_for_header(kind, h@)) {
            Some(i) => Ok(self.store.rows@[i].op.header@),
            None => Err(ValidationOutcome::NotHoldingDep(h)),
        }
    }

    /// `Ok` when a `StoreEntry` for the entry with hash `h` is held, else `NotHoldingDep(h)`.
    pub open spec fn spec_hold_any_store_entry(&self, h: HoloHash) -> Result<
        (),
        ValidationOutcome,
    > {
        match first_match(self.store.rows@, held_store_entry_for(h@)) {
            Some(i) => Ok(()),
            None => Err(ValidationOutcome::NotHoldingDep(h)),
        }
    }

    fn check_and_hold(&self, kind: DhtOpKind, h: &HoloHash) -> (r: Result<Header, ValidationOutcome>)
        ensures
            match (r, self.spec_hold_header(kind, *h)) {
                (Ok(x), Ok(y)) => x@ == y,
                (Err(a), Err(b)) => a == b,
                _ => false,
            },
    {
        match self.store.find_held_for_header(kind, h) {
            Some(i) => Ok(self.store.rows[i].op.header.duplicate()),
            None => Err(ValidationOutcome::NotHoldingDep(*h)),
        }
    }

    fn check_and_hold_any_store_entry(&self, h: &HoloHash) -> (r: Result<(), ValidationOutcome>)
        ensures
            r == self.spec_hold_any_store_entry(*h),
    {
        match self.store.find_held_store_entry(h) {
            Some(_) => Ok(()),
            None => Err(ValidationOutcome::NotHoldingDep(*h)),
        }
    }

    /// The checks for a header as a chain element: its link to the previous header, which
    /// must be retrievable, is older or as old, and has the sequence number before it.
    pub open spec fn spec_store_element(&self, h: HeaderV) -> Result<(), ValidationOutcome> {
        if spec_check_prev_header(h) is Err {
            spec_check_prev_header(h)
        } else {
            match h.prev_header {
                None => Ok(()),
                Some(p) => match self.cascade_header(p@) {
                    None => Err(ValidationOutcome::DepMissingFromDht(p)),
                    Some(prev) => if h.timestamp < prev.timestamp {
                        Err(ValidationOutcome::PrevHeaderError(PrevHeaderError::Timestamp))
                    } else if h.header_seq != prev.header_seq + 1 {
                        Err(
                            ValidationOutcome::PrevHeaderError(
                                PrevHeaderError::InvalidSeq(h.header_seq, prev.header_seq),
                            ),
                        )
                    } else {
                        Ok(())
                    },
                },
            }
        }
    }

    pub fn store_element(&self, h: &Header) -> (r: Result<(), ValidationOutcome>)
        ensures
            r == self.spec_store_element(h@),
            r is Ok ==> (h@.prev_header matches Some(p) ==> self.cascade_header(p@) matches Some(
                prev,
            ) && h.header_seq == prev.header_seq + 1 && h.timestamp >= prev.timestamp),
    {
        check_prev_header(h)?;
        match &h.prev_header {
            None => Ok(()),
            Some(p) => match self.retrieve_header(p) {
                None => Err(ValidationOutcome::DepMissingFromDht(*p)),
                Some(prev) => {
                    check_prev_timestamp(h, &prev)?;
                    check_prev_seq(h, &prev)?;
                    Ok(())
                },
            },
        }
    }

    /// The checks for an entry under a header that creates it: the entry is of its type,
    /// an app entry's type is defined, public and stated as such, the entry hashes to the
    /// header's entry hash and is not too large, and an update targets a retrievable header
    /// that created an entry of the same type.
    pub open spec fn spec_store_entry(&self, h: HeaderV, e: EntryV) -> Result<
        (),
        ValidationOutcome,
    > {
        match h.body {
            HeaderBodyV::Create { entry_type, entry_hash: eh } => self.spec_entry_checks(
                entry_type,
                eh,
                e,
            ),
            HeaderBodyV::Update { entry_type, entry_hash: eh, original_header_address, .. } =>
                then_check(
                self.spec_entry_checks(entry_type, eh, e),
                match self.cascade_header(original_header_address@) {
                    None => Err(ValidationOutcome::DepMissingFromDht(original_header_address)),
                    Some(o) => spec_update_check(entry_type, o),
                },
            ),
            _ => Err(ValidationOutcome::NotNewEntry),
        }
    }

    pub open spec fn spec_entry_checks(&self, t: EntryType, eh: HoloHash, e: EntryV) -> Result<
        (),
        ValidationOutcome,
    > {
        if !entry_matches_type(t, e) {
            Err(ValidationOutcome::EntryType)
        } else {
            then_check(
                match t {
                    EntryType::App { id, zome_id, visibility } => match spec_check_app_entry_type(
                        id,
                        zome_id,
                        self.dna,
                    ) {
                        Err(x) => Err(x),
                        Ok(def) => spec_check_app_entry_def(visibility, def),
                    },
                    _ => Ok(()),
                },
                if eh@ != entry_hash(e) {
                    Err(ValidationOutcome::EntryHash)
                } else if enc_entry(e).len() > MAX_ENTRY_BYTES {
                    Err(
                        ValidationOutcome::EntryTooLarge(
                            enc_entry(e).len() as usize,
                            MAX_ENTRY_BYTES,
                        ),
                    )
                } else {
                    Ok(())
                },
            )
        }
    }

    fn entry_checks(&self, t: &EntryType, eh: &HoloHash, e: &Entry) -> (r: Result<
        (),
        ValidationOutcome,
    >)
        ensures
            r == self.spec_entry_checks(*t, *eh, e@),
    {
        check_entry_type(t, e)?;
        match t {
            EntryType::App { id, zome_id, visibility } => {
                let def = check_app_entry_type(*id, *zome_id, &self.dna)?;
                check_app_entry_def(*visibility, &def)?;
            },
            _ => {},
        }
        check_entry_hash(eh, e)?;
        check_entry_size(e)?;
        Ok(())
    }

    pub fn store_entry(&self, h: &Header, e: &Entry) -> (r: Result<(), ValidationOutcome>)
        ensures
            r == self.spec_store_entry(h@, e@),
    {
        match &h.body {
            HeaderBody::Create { entry_type, entry_hash } => self.entry_checks(
                entry_type,
                entry_hash,
                e,
            ),
            HeaderBody::Update { entry_type, entry_hash, original_header_address, .. } => {
                self.entry_checks(entry_type, entry_hash, e)?;
                match self.retrieve_header(original_header_address) {
                    None => Err(ValidationOutcome::DepMissingFromDht(*original_header_address)),
                    Some(o) => update_check(entry_type, &o),
                }
            },
            _ => Err(ValidationOutcome::NotNewEntry),
        }
    }

    /// The checks for an entry carried by an operation, if it carries one.
    pub open spec fn spec_carried_entry(&self, h: HeaderV, e: Option<EntryV>) -> Result<
        (),
        ValidationOutcome,
    > {
        match e {
            None => Ok(()),
            Some(x) => self.spec_store_entry(h, x),
        }
    }

    /// The checks for agent activity: the header's link to the root, a root only at
    /// sequence 0, and the previous header's agent activity held.
    pub open spec fn spec_register_agent_activity(&self, h: HeaderV) -> Result<(), ValidationOutcome> {
        then_check(
            spec_check_prev_header(h),
            then_check(
                spec_check_valid_if_dna(h),
                match h.prev_header {
                    Some(p) => match self.spec_hold_header(DhtOpKind::RegisterAgentActivity, p) {
                        Ok(_) => Ok(()),
                        Err(x) => Err(x),
                    },
                    None => Ok(()),
                },
            ),
        )
    }

    pub fn register_agent_activity(&self, h: &Header) -> (r: Result<(), ValidationOutcome>)
        ensures
            r == self.spec_register_agent_activity(h@),
    {
        check_prev_header(h)?;
        check_valid_if_dna(h)?;
        match &h.prev_header {
            Some(p) => {
                self.check_and_hold(DhtOpKind::RegisterAgentActivity, p)?;
            },
            None => {},
        }
        Ok(())
    }

    /// The checks for an update registered against what it updates: an operation of kind
    /// `held` for the updated header is held, and that header created an entry of the
    /// update's type.
    pub open spec fn spec_register_updated(&self, h: HeaderV, held: DhtOpKind) -> Result<
        (),
        ValidationOutcome,
    > {
        match h.body {
            HeaderBodyV::Update { entry_type, original_header_address, .. } => match self.spec_hold_header(
                held,
                original_header_address,
            ) {
                Ok(o) => spec_update_check(entry_type, o),
                Err(x) => Err(x),
            },
            _ => Err(ValidationOutcome::MalformedOp),
        }
    }

    fn register_updated(&self, h: &Header, held: DhtOpKind) -> (r: Result<(), ValidationOutcome>)
        ensures
            r == self.spec_register_updated(h@, held),
    {
        match &h.body {
            HeaderBody::Update { entry_type, original_header_address, .. } => {
                let original = self.check_and_hold(held, original_header_address)?;
                update_check(entry_type, &original)
            },
            _ => Err(ValidationOutcome::MalformedOp),
        }
    }

    /// An update registered on the entry it updates: that entry's `StoreEntry` is held.
    pub fn register_updated_content(&self, h: &Header) -> (r: Result<(), ValidationOutcome>)
        ensures
            r == self.spec_register_updated(h@, DhtOpKind::StoreEntry),
    {
        self.register_updated(h, DhtOpKind::StoreEntry)
    }

    /// An update registered on the element it updates: that element's `StoreElement` is held.
    pub fn register_updated_element(&self, h: &Header) -> (r: Result<(), ValidationOutcome>)
        ensures
            r == self.spec_register_updated(h@, DhtOpKind::StoreElement),
    {
        self.register_updated(h, DhtOpKind::StoreElement)
    }

    /// The checks for a delete registered against what it deletes: an operation of kind
    /// `held` for the deleted header is held, and that header created an entry.
    pub open spec fn spec_register_deleted(&self, h: HeaderV, held: DhtOpKind) -> Result<
        (),
        ValidationOutcome,
    > {
        match h.body {
            HeaderBodyV::Delete { deletes_address, .. } => match self.spec_hold_header(
                held,
                deletes_address,
            ) {
                Ok(o) => if is_new_entry_header(o) {
                    Ok(())
                } else {
                    Err(ValidationOutcome::NotNewEntry)
                },
                Err(x) => Err(x),
            },
            _ => Err(ValidationOutcome::MalformedOp),
        }
    }

    fn register_deleted(&self, h: &Header, held: DhtOpKind) -> (r: Result<(), ValidationOutcome>)
        ensures
            r == self.spec_register_deleted(h@, held),
    {
        match &h.body {
            HeaderBody::Delete { deletes_address, .. } => {
                let removed = self.check_and_hold(held, deletes_address)?;
                check_new_entry_header(&removed)
            },
            _ => Err(ValidationOutcome::MalformedOp),
        }
    }

    /// A delete registered on the deleted element: its `StoreElement` is held.
    pub fn register_deleted_by(&self, h: &Header) -> (r: Result<(), ValidationOutcome>)
        ensures
            r == self.spec_register_deleted(h@, DhtOpKind::StoreElement),
    {
        self.register_deleted(h, DhtOpKind::StoreElement)
    }

    /// A delete registered on the deleted entry: its `StoreEntry` is held.
    pub fn register_deleted_entry_header(&self, h: &Header) -> (r: Result<(), ValidationOutcome>)
        ensures
            r == self.spec_register_deleted(h@, DhtOpKind::StoreEntry),
    {
        self.register_deleted(h, DhtOpKind::StoreEntry)
    }

    /// The checks for a new link: a `StoreEntry` of the base is held, the target entry is
    /// retrievable, and the tag is not too large.
    pub open spec fn spec_register_add_link(&self, h: HeaderV) -> Result<(), ValidationOutcome> {
        match h.body {
            HeaderBodyV::CreateLink { base_address, target_address, tag, .. } => then_check(
                self.spec_hold_any_store_entry(base_address),
                if self.cascade_entry(target_address@) is None {
                    Err(ValidationOutcome::DepMissingFromDht(target_address))
                } else if tag.len() > MAX_TAG_BYTES {
                    Err(ValidationOutcome::TagTooLarge(tag.len() as usize, MAX_TAG_BYTES))
                } else {
                    Ok(())
                },
            ),
            _ => Err(ValidationOutcome::MalformedOp),
        }
    }

    pub fn register_add_link(&self, h: &Header) -> (r: Result<(), ValidationOutcome>)
        ensures
            r == self.spec_register_add_link(h@),
    {
        match &h.body {
            HeaderBody::CreateLink { base_address, target_address, tag, .. } => {
                self.check_and_hold_any_store_entry(base_address)?;
                if self.retrieve_entry(target_address).is_none() {
                    return Err(ValidationOutcome::DepMissingFromDht(*target_address));
                }
                check_tag_size(tag)
            },
            _ => Err(ValidationOutcome::MalformedOp),
        }
    }

    /// The checks for a link removal: the `RegisterAddLink` of the link is held.
    pub open spec fn spec_register_delete_link(&self, h: HeaderV) -> Result<(), ValidationOutcome> {
        match h.body {
            HeaderBodyV::DeleteLink { link_add_address, .. } => match self.spec_hold_header(
                DhtOpKind::RegisterAddLink,
                link_add_address,
            ) {
                Ok(_) => Ok(()),
                Err(x) => Err(x),
            },
            _ => Err(ValidationOutcome::MalformedOp),
        }
    }

    pub fn register_delete_link(&self, h: &Header) -> (r: Result<(), ValidationOutcome>)
        ensures
            r == self.spec_register_delete_link(h@),
    {
        match &h.body {
            HeaderBody::DeleteLink { link_add_address, .. } => {
                self.check_and_hold(DhtOpKind::RegisterAddLink, link_add_address)?;
                Ok(())
            },
            _ => Err(ValidationOutcome::MalformedOp),
        }
    }

    /// System validation of one operation: the first failed check, or `Ok`.
    pub open spec fn spec_validate_op(&self, op: DhtOpV) -> Result<(), ValidationOutcome> {
        let h = op.header;
        match op.kind {
            DhtOpKind::StoreElement => then_check(
                self.spec_store_element(h),
                self.spec_carried_entry(h, op.entry),
            ),
            DhtOpKind::StoreEntry => match op.entry {
                None => Err(ValidationOutcome::EntryHash),
                Some(e) => then_check(self.spec_store_entry(h, e), self.spec_store_element(h)),
            },
            DhtOpKind::RegisterAgentActivity => then_check(
                self.spec_register_agent_activity(h),
                self.spec_store_element(h),
            ),
            DhtOpKind::RegisterUpdatedContent => then_check(
                self.spec_register_updated(h, DhtOpKind::StoreEntry),
                self.spec_carried_entry(h, op.entry),
            ),
            DhtOpKind::RegisterUpdatedElement => then_check(
                self.spec_register_updated(h, DhtOpKind::StoreElement),
                self.spec_carried_entry(h, op.entry),
            ),
            DhtOpKind::RegisterDeletedBy => self.spec_register_deleted(h, DhtOpKind::StoreElement),
            DhtOpKind::RegisterDeletedEntryHeader => self.spec_register_deleted(
                h,
                DhtOpKind::StoreEntry,
            ),
            DhtOpKind::RegisterAddLink => self.spec_register_add_link(h),
            DhtOpKind::RegisterRemoveLink => self.spec_register_delete_link(h),
        }
    }

    fn carried_entry(&self, h: &Header, e: &Option<Entry>) -> (r: Result<(), ValidationOutcome>)
        ensures
            r == self.spec_carried_entry(h@, opt_entry_view(*e)),
    {
        match e {
            None => Ok(()),
            Some(x) => self.store_entry(h, x),
        }
    }

    /// Runs the checks of system validation that apply to the operation's kind.
    pub fn validate_op_inner(&self, op: &DhtOp) -> (r: Result<(), ValidationOutcome>)
        ensures
            r == self.spec_validate_op(op@),
    {
        let h = &op.header;
        match op.kind {
            DhtOpKind::StoreElement => {
                self.store_element(h)?;
                self.carried_entry(h, &op.entry)
            },
            DhtOpKind::StoreEntry => match &op.entry {
                None => Err(ValidationOutcome::EntryHash),
                Some(e) => {
                    self.store_entry(h, e)?;
                    self.store_element(h)
                },
            },
            DhtOpKind::RegisterAgentActivity => {
                self.register_agent_activity(h)?;
                self.store_element(h)
            },
            DhtOpKind::RegisterUpdatedContent => {
                self.register_updated_content(h)?;
                self.carried_entry(h, &op.entry)
            },
            DhtOpKind::RegisterUpdatedElement => {
                self.register_updated_element(h)?;
                self.carried_entry(h, &op.entry)
            },
            DhtOpKind::RegisterDeletedBy => self.register_deleted_by(h),
            DhtOpKind::RegisterDeletedEntryHeader => self.register_deleted_entry_header(h),
            DhtOpKind::RegisterAddLink => self.register_add_link(h),
            DhtOpKind::RegisterRemoveLink => self.register_delete_link(h),
        }
    }

    /// Direct system validation of an element, as when the agent commits it: the element
    /// must not be counterfeit, must follow its previous header, a public entry must pass
    /// the entry checks, and an update, delete or link must pass the checks registered
    /// against what it refers to. Dependencies are not awaited: a missing one is reported.
    pub open spec fn spec_sys_validate_element(&self, e: ElementV) -> Result<(), ValidationOutcome> {
        let h = e.header;
        if !spec_counterfeit_free(e.signature, h) {
            Err(ValidationOutcome::Counterfeit(e.signature))
        } else {
            then_check(
                self.spec_store_element(h),
                then_check(
                    match public_entry(e) {
                        Some(x) => self.spec_store_entry(h, x),
                        None => Ok(()),
                    },
                    match h.body {
                        HeaderBodyV::Update { .. } => self.spec_register_updated(
                            h,
                            DhtOpKind::StoreEntry,
                        ),
                        HeaderBodyV::Delete { .. } => self.spec_register_deleted(
                            h,
                            DhtOpKind::StoreEntry,
                        ),
                        HeaderBodyV::CreateLink { .. } => self.spec_register_add_link(h),
                        HeaderBodyV::DeleteLink { .. } => self.spec_register_delete_link(h),
                        _ => Ok(()),
                    },
                ),
            )
        }
    }

    pub fn sys_validate_element(&self, e: &Element) -> (r: Result<(), ValidationOutcome>)
        ensures
            r == self.spec_sys_validate_element(e@),
    {
        if !counterfeit_check(&e.signature, &e.header) {
            return Err(ValidationOutcome::Counterfeit(e.signature));
        }
        let h = &e.header;
        self.store_element(h)?;
        match (&e.entry, h.entry_type()) {
            (Some(x), Some(t)) => {
                if t.visibility() == EntryVisibility::Public {
                    self.store_entry(h, x)?;
                }
            },
            _ => {},
        }
        match &h.body {
            HeaderBody::Update { .. } => self.register_updated_content(h),
            HeaderBody::Delete { .. } => self.register_deleted_entry_header(h),
            HeaderBody::CreateLink { .. } => self.register_add_link(h),
            HeaderBody::DeleteLink { .. } => self.register_delete_link(h),
            _ => Ok(()),
        }
    }

    /// The outcome of system validation for an operation.
    pub open spec fn spec_outcome(&self, op: DhtOpV) -> Outcome {
        match self.spec_validate_op(op) {
            Ok(_) => if op.kind == DhtOpKind::RegisterAgentActivity {
                Outcome::SkipAppValidation
            } else {
                Outcome::Accepted
            },
            Err(e) => spec_handle_failed(e),
        }
    }

    /// Validates an operation and decides its outcome: accepted (agent activity skips app
    /// validation), or what [`handle_failed`] makes of the first failed check.
    pub fn validate_op(&self, op: &DhtOp) -> (r: Outcome)
        ensures
            r == self.spec_outcome(op@),
    {
        match self.validate_op_inner(op) {
            Ok(_) => {
                if op.kind == DhtOpKind::RegisterAgentActivity {
                    Outcome::SkipAppValidation
                } else {
                    Outcome::Accepted
                }
            },
            Err(e) => handle_failed(e),
        }
    }
}

/// Splitting an element into operations and holding them gives the element back: when the
/// table holds only operations of element `e`, its `StoreElement` among them, and nothing
/// else is at hand, the cascade finds `e`'s header under its hash and `e`'s public entry under
/// the entry's hash.
pub proof fn lemma_element_round_trip(ws: SysValidationWorkspace, e: ElementV)
    requires
        ws.authored@.len() == 0,
        ws.cache@.len() == 0,
        forall|i: int|
            0 <= i < ws.store.rows@.len() ==> element_ops(e).contains(
                #[trigger] ws.store.rows@[i].op@,
            ),
        exists|i: int|
            0 <= i < ws.store.rows@.len() && ws.store.rows@[i].op@ == element_ops(e)[0],
    ensures
        ws.cascade_header(header_hash(e.header)) == Some(e.header),
        public_entry(e) matches Some(x) ==> ws.cascade_entry(entry_hash(x)) == Some(x),
{
    let rows = ws.store.rows@;
    let ops = element_ops(e);
    let hh = header_hash(e.header);
    lemma_first_match(ws.authored@, element_with_header(hh), None);
    assert forall|i: int| 0 <= i < rows.len() implies (#[trigger] rows[i]).op.header@ == e.header
        && (rows[i].op@.entry is None || rows[i].op@.entry == public_entry(e)) by {
        assert(ops.contains(rows[i].op@));
        let k = choose|k: int| 0 <= k < ops.len() && ops[k] == rows[i].op@;
    }
    let s = choose|i: int| 0 <= i < rows.len() && rows[i].op@ == ops[0];
    lemma_first_match_sound(rows, row_with_header(hh, 0));
    lemma_first_match_sound(rows, row_with_header(hh, 1));
    lemma_first_match_sound(rows, row_with_header(hh, 2));
    assert(row_with_header(hh, row_class(rows[s]))(rows[s]));
    if let Some(x) = public_entry(e) {
        let eh = entry_hash(x);
        lemma_first_match(ws.authored@, element_with_entry(eh), None);
        assert(row_with_entry(eh, row_class(rows[s]))(rows[s]));
        lemma_first_match_sound(rows, row_with_entry(eh, 0));
        lemma_first_match_sound(rows, row_with_entry(eh, 1));
        lemma_first_match_sound(rows, row_with_entry(eh, 2));
    }
}

} // verus!
