//! Entries, headers, elements and DHT operations, with their mathematical views.
use vstd::prelude::*;
use crate::hash::{AgentPubKey, HoloHash, Signature};

verus! {

/// Whether an entry may be gossiped.
#[derive(Clone, Copy, Debug, PartialEq, Eq, Structural)]
pub enum EntryVisibility {
    Public,
    Private,
}

/// The type of an entry, as named by the header that creates it.
#[derive(Clone, Copy, Debug, PartialEq, Eq, Structural)]
pub enum EntryType {
    AgentPubKey,
    App { id: u8, zome_id: u8, visibility: EntryVisibility },
    CapClaim,
    CapGrant,
}

impl EntryType {
    /// Agent keys are public; capability grants and claims are private; an app entry
    /// type says its own visibility.
    pub open spec fn spec_visibility(self) -> EntryVisibility {
        match self {
            EntryType::AgentPubKey => EntryVisibility::Public,
            EntryType::App { visibility, .. } => visibility,
            EntryType::CapClaim => EntryVisibility::Private,
            EntryType::CapGrant => EntryVisibility::Private,
        }
    }

    pub fn visibility(&self) -> (r: EntryVisibility)
        ensures
            r == self.spec_visibility(),
    {
        match self {
            EntryType::AgentPubKey => EntryVisibility::Public,
            EntryType::App { visibility, .. } => *visibility,
            EntryType::CapClaim => EntryVisibility::Private,
            EntryType::CapGrant => EntryVisibility::Private,
        }
    }
}

/// An entry: an agent key, or an opaque payload of the app or of a capability.
#[derive(Clone, Debug, PartialEq, Eq)]
pub enum Entry {
    Agent(AgentPubKey),
    App(Vec<u8>),
    CapClaim(Vec<u8>),
    CapGrant(Vec<u8>),
}

/// The mathematical value of an [`Entry`].
pub enum EntryV {
    Agent(AgentPubKey),
    App(Seq<u8>),
    CapClaim(Seq<u8>),
    CapGrant(Seq<u8>),
}

impl View for Entry {
    type V = EntryV;

    open spec fn view(&self) -> EntryV {
        match self {
            Entry::Agent(k) => EntryV::Agent(*k),
            Entry::App(b) => EntryV::App(b@),
            Entry::CapClaim(b) => EntryV::CapClaim(b@),
            Entry::CapGrant(b) => EntryV::CapGrant(b@),
        }
    }
}

impl Entry {
    /// A copy with the same value.
    pub fn duplicate(&self) -> (r: Entry)
        ensures
            r@ == self@,
    {
        match self {
            Entry::Agent(k) => Entry::Agent(*k),
            Entry::App(b) => Entry::App(b.clone()),
            Entry::CapClaim(b) => Entry::CapClaim(b.clone()),
            Entry::CapGrant(b) => Entry::CapGrant(b.clone()),
        }
    }
}

/// What a header records, by variant.
#[derive(Clone, Debug, PartialEq, Eq)]
pub enum HeaderBody {
    Dna { dna_hash: HoloHash },
    AgentValidationPkg,
    Create { entry_type: EntryType, entry_hash: HoloHash },
    Update {
        entry_type: EntryType,
        entry_hash: HoloHash,
        original_header_address: HoloHash,
        original_entry_address: HoloHash,
    },
    Delete { deletes_address: HoloHash, deletes_entry_address: HoloHash },
    CreateLink { base_address: HoloHash, target_address: HoloHash, zome_id: u8, tag: Vec<u8> },
    DeleteLink { link_add_address: HoloHash, base_address: HoloHash },
}

/// The mathematical value of a [`HeaderBody`].
pub enum HeaderBodyV {
    Dna { dna_hash: HoloHash },
    AgentValidationPkg,
    Create { entry_type: EntryType, entry_hash: HoloHash },
    Update {
        entry_type: EntryType,
        entry_hash: HoloHash,
        original_header_address: HoloHash,
        original_entry_address: HoloHash,
    },
    Delete { deletes_address: HoloHash, deletes_entry_address: HoloHash },
    CreateLink { base_address: HoloHash, target_address: HoloHash, zome_id: u8, tag: Seq<u8> },
    DeleteLink { link_add_address: HoloHash, base_address: HoloHash },
}

impl View for HeaderBody {
    type V = HeaderBodyV;

    open spec fn view(&self) -> HeaderBodyV {
        match self {
            HeaderBody::Dna { dna_hash } => HeaderBodyV::Dna { dna_hash: *dna_hash },
            HeaderBody::AgentValidationPkg => HeaderBodyV::AgentValidationPkg,
            HeaderBody::Create { entry_type, entry_hash } => HeaderBodyV::Create {
                entry_type: *entry_type,
                entry_hash: *entry_hash,
            },
            HeaderBody::Update {
                entry_type,
                entry_hash,
                original_header_address,
                original_entry_address,
            } => HeaderBodyV::Update {
                entry_type: *entry_type,
                entry_hash: *entry_hash,
                original_header_address: *original_header_address,
                original_entry_address: *original_entry_address,
            },
            HeaderBody::Delete { deletes_address, deletes_entry_address } => HeaderBodyV::Delete {
                deletes_address: *deletes_address,
                deletes_entry_address: *deletes_entry_address,
            },
            HeaderBody::CreateLink { base_address, target_address, zome_id, tag } =>
                HeaderBodyV::CreateLink {
                base_address: *base_address,
                target_address: *target_address,
                zome_id: *zome_id,
                tag: tag@,
            },
            HeaderBody::DeleteLink { link_add_address, base_address } => HeaderBodyV::DeleteLink {
                link_add_address: *link_add_address,
                base_address: *base_address,
            },
        }
    }
}

impl HeaderBody {
    pub fn duplicate(&self) -> (r: HeaderBody)
        ensures
            r@ == self@,
    {
        match self {
            HeaderBody::Dna { dna_hash } => HeaderBody::Dna { dna_hash: *dna_hash },
            HeaderBody::AgentValidationPkg => HeaderBody::AgentValidationPkg,
            HeaderBody::Create { entry_type, entry_hash } => HeaderBody::Create {
                entry_type: *entry_type,
                entry_hash: *entry_hash,
            },
            HeaderBody::Update {
                entry_type,
                entry_hash,
                original_header_address,
                original_entry_address,
            } => HeaderBody::Update {
                entry_type: *entry_type,
                entry_hash: *entry_hash,
                original_header_address: *original_header_address,
                original_entry_address: *original_entry_address,
            },
            HeaderBody::Delete { deletes_address, deletes_entry_address } => HeaderBody::Delete {
                deletes_address: *deletes_address,
                deletes_entry_address: *deletes_entry_address,
            },
            HeaderBody::CreateLink { base_address, target_address, zome_id, tag } =>
                HeaderBody::CreateLink {
                base_address: *base_address,
                target_address: *target_address,
                zome_id: *zome_id,
                tag: tag.clone(),
            },
            HeaderBody::DeleteLink { link_add_address, base_address } => HeaderBody::DeleteLink {
                link_add_address: *link_add_address,
                base_address: *base_address,
            },
        }
    }
}

/// A record on an agent's source chain. The root (`Dna`) header has no previous header;
/// every other header names the one before it.
#[derive(Clone, Debug, PartialEq, Eq)]
pub struct Header {
    pub author: AgentPubKey,
    pub timestamp: u64,
    pub header_seq: u32,
    pub prev_header: Option<HoloHash>,
    pub body: HeaderBody,
}

/// The mathematical value of a [`Header`].
pub struct HeaderV {
    pub author: AgentPubKey,
    pub timestamp: u64,
    pub header_seq: u32,
    pub prev_header: Option<HoloHash>,
    pub body: HeaderBodyV,
}

impl View for Header {
    type V = HeaderV;

    open spec fn view(&self) -> HeaderV {
        HeaderV {
            author: self.author,
            timestamp: self.timestamp,
            header_seq: self.header_seq,
            prev_header: self.prev_header,
            body: self.body@,
        }
    }
}

impl HeaderV {
    /// The type of the entry this header creates, for `Create` and `Update`.
    pub open spec fn entry_type(self) -> Option<EntryType> {
        match self.body {
            HeaderBodyV::Create { entry_type, .. } => Some(entry_type),
            HeaderBodyV::Update { entry_type, .. } => Some(entry_type),
            _ => None,
        }
    }

    /// The hash of the entry this header creates, for `Create` and `Update`.
    pub open spec fn entry_hash(self) -> Option<HoloHash> {
        match self.body {
            HeaderBodyV::Create { entry_hash, .. } => Some(entry_hash),
            HeaderBodyV::Update { entry_hash, .. } => Some(entry_hash),
            _ => None,
        }
    }

    pub open spec fn is_dna(self) -> bool {
        self.body is Dna
    }
}

impl Header {
    pub fn duplicate(&self) -> (r: Header)
        ensures
            r@ == self@,
    {
        Header {
            author: self.author,
            timestamp: self.timestamp,
            header_seq: self.header_seq,
            prev_header: self.prev_header,
            body: self.body.duplicate(),
        }
    }

    pub fn entry_type(&self) -> (r: Option<EntryType>)
        ensures
            r == self@.entry_type(),
    {
        match &self.body {
            HeaderBody::Create { entry_type, .. } => Some(*entry_type),
            HeaderBody::Update { entry_type, .. } => Some(*entry_type),
            _ => None,
        }
    }

    pub fn entry_hash(&self) -> (r: Option<HoloHash>)
        ensures
            r == self@.entry_hash(),
    {
        match &self.body {
            HeaderBody::Create { entry_hash, .. } => Some(*entry_hash),
            HeaderBody::Update { entry_hash, .. } => Some(*entry_hash),
            _ => None,
        }
    }

    pub fn is_dna(&self) -> (r: bool)
        ensures
            r == self@.is_dna(),
    {
        match &self.body {
            HeaderBody::Dna { .. } => true,
            _ => false,
        }
    }
}

/// A signed header with the entry it creates, if that entry is at hand.
#[derive(Clone, Debug, PartialEq, Eq)]
pub struct Element {
    pub signature: Signature,
    pub header: Header,
    pub entry: Option<Entry>,
}

/// The mathematical value of an [`Element`].
pub struct ElementV {
    pub signature: Signature,
    pub header: HeaderV,
    pub entry: Option<EntryV>,
}

pub open spec fn opt_entry_view(e: Option<Entry>) -> Option<EntryV> {
    match e {
        Some(x) => Some(x@),
        None => None,
    }
}

pub fn duplicate_opt_entry(e: &Option<Entry>) -> (r: Option<Entry>)
    ensures
        opt_entry_view(r) == opt_entry_view(*e),
{
    match e {
        Some(x) => Some(x.duplicate()),
        None => None,
    }
}

impl View for Element {
    type V = ElementV;

    open spec fn view(&self) -> ElementV {
        ElementV {
            signature: self.signature,
            header: self.header@,
            entry: opt_entry_view(self.entry),
        }
    }
}

/// The kinds of DHT operation, each routed to a different neighbourhood.
#[derive(Clone, Copy, Debug, PartialEq, Eq, Structural)]
pub enum DhtOpKind {
    StoreElement,
    StoreEntry,
    RegisterAgentActivity,
    RegisterUpdatedContent,
    RegisterUpdatedElement,
    RegisterDeletedBy,
    RegisterDeletedEntryHeader,
    RegisterAddLink,
    RegisterRemoveLink,
}

/// A DHT operation: its kind, the signed header it carries and, for the kinds that carry
/// one, the entry.
#[derive(Clone, Debug, PartialEq, Eq)]
pub struct DhtOp {
    pub kind: DhtOpKind,
    pub signature: Signature,
    pub header: Header,
    pub entry: Option<Entry>,
}

/// The mathematical value of a [`DhtOp`].
pub struct DhtOpV {
    pub kind: DhtOpKind,
    pub signature: Signature,
    pub header: HeaderV,
    pub entry: Option<EntryV>,
}

impl View for DhtOp {
    type V = DhtOpV;

    open spec fn view(&self) -> DhtOpV {
        DhtOpV {
            kind: self.kind,
            signature: self.signature,
            header: self.header@,
            entry: opt_entry_view(self.entry),
        }
    }
}

impl DhtOp {
    pub fn duplicate(&self) -> (r: DhtOp)
        ensures
            r@ == self@,
    {
        DhtOp {
            kind: self.kind,
            signature: self.signature,
            header: self.header.duplicate(),
            entry: duplicate_opt_entry(&self.entry),
        }
    }
}

} // verus!
