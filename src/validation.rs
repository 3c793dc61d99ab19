//! The structural and cryptographic checks of system validation, the outcomes they
//! produce, and the rule that maps a failed check to what becomes of the operation.
use vstd::prelude::*;
use crate::encode::{enc_entry, enc_header, entry_bytes, entry_hash, hash_entry, header_bytes};
use crate::hash::{ed25519_accepts, ed25519_key_decodes, HoloHash, Signature};
use crate::types::{Entry, EntryType, EntryV, EntryVisibility, Header, HeaderV};

verus! {

/// The largest entry, in canonical bytes, that validation accepts.
pub const MAX_ENTRY_BYTES: usize = 16000000;

/// The largest link tag, in bytes, that validation accepts.
pub const MAX_TAG_BYTES: usize = 400;

/// Why a header does not follow on from the previous one.
#[derive(Clone, Copy, Debug, PartialEq, Eq)]
pub enum PrevHeaderError {
    /// The previous header is not held yet.
    MissingMeta(HoloHash),
    /// A root header that is not at the root, or a non-root header at the root.
    InvalidRoot,
    /// A non-root header that names no previous header.
    MissingPrev,
    /// The header is older than the previous one.
    Timestamp,
    /// The sequence number does not follow the previous one's: (this, previous).
    InvalidSeq(u32, u32),
}

/// The result of a failed check.
#[derive(Clone, Copy, Debug, PartialEq, Eq)]
pub enum ValidationOutcome {
    Counterfeit(Signature),
    DepMissingFromDht(HoloHash),
    EntryDefId(u8),
    EntryHash,
    EntryTooLarge(usize, usize),
    EntryType,
    EntryVisibility,
    TagTooLarge(usize, usize),
    NotCreateLink(HoloHash),
    NotNewEntry,
    NotHoldingDep(HoloHash),
    PrevHeaderError(PrevHeaderError),
    PrivateEntry,
    UpdateTypeMismatch(EntryType, EntryType),
    VerifySignature,
    ZomeId(u8),
    /// The operation's header is not of the variant its kind carries.
    MalformedOp,
}

/// What system validation decides for an operation.
#[derive(Clone, Copy, Debug, PartialEq, Eq)]
pub enum Outcome {
    Accepted,
    SkipAppValidation,
    AwaitingOpDep(HoloHash),
    MissingDhtDep,
    Rejected,
}

pub open spec fn spec_handle_failed(e: ValidationOutcome) -> Outcome {
    match e {
        ValidationOutcome::DepMissingFromDht(_) => Outcome::MissingDhtDep,
        ValidationOutcome::NotHoldingDep(h) => Outcome::AwaitingOpDep(h),
        ValidationOutcome::PrevHeaderError(PrevHeaderError::MissingMeta(h)) => Outcome::AwaitingOpDep(
            h,
        ),
        _ => Outcome::Rejected,
    }
}

/// What becomes of an operation that failed a check: a dependency missing from the DHT
/// sends it back to `Pending`, one that should be held but is not makes it await that
/// operation, and every other failure rejects it. Counterfeits never reach here.
pub fn handle_failed(e: ValidationOutcome) -> (r: Outcome)
    requires
        !(e is Counterfeit),
    ensures
        r == spec_handle_failed(e),
{
    match e {
        ValidationOutcome::Counterfeit(_) => Outcome::Rejected,
        ValidationOutcome::DepMissingFromDht(_) => Outcome::MissingDhtDep,
        ValidationOutcome::EntryDefId(_) => Outcome::Rejected,
        ValidationOutcome::EntryHash => Outcome::Rejected,
        ValidationOutcome::EntryTooLarge(_, _) => Outcome::Rejected,
        ValidationOutcome::EntryType => Outcome::Rejected,
        ValidationOutcome::EntryVisibility => Outcome::Rejected,
        ValidationOutcome::TagTooLarge(_, _) => Outcome::Rejected,
        ValidationOutcome::NotCreateLink(_) => Outcome::Rejected,
        ValidationOutcome::NotNewEntry => Outcome::Rejected,
        ValidationOutcome::NotHoldingDep(dep) => Outcome::AwaitingOpDep(dep),
        ValidationOutcome::PrevHeaderError(PrevHeaderError::MissingMeta(dep)) => {
            Outcome::AwaitingOpDep(dep)
        },
        ValidationOutcome::PrevHeaderError(_) => Outcome::Rejected,
        ValidationOutcome::PrivateEntry => Outcome::Rejected,
        ValidationOutcome::UpdateTypeMismatch(_, _) => Outcome::Rejected,
        ValidationOutcome::VerifySignature => Outcome::Rejected,
        ValidationOutcome::ZomeId(_) => Outcome::Rejected,
        ValidationOutcome::MalformedOp => Outcome::Rejected,
    }
}

/// Whether the signature is the author's over the header's canonical bytes, and the
/// author's key is well formed.
pub open spec fn spec_counterfeit_free(sig: Signature, h: HeaderV) -> bool {
    ed25519_accepts(h.author.key@, enc_header(h), sig.bytes@) && ed25519_key_decodes(
        h.author.key@,
    )
}

/// The admission check before the validation limbo: true when the header's signature verifies under
/// its author's key and that key is well formed. An operation that fails it is dropped.
pub fn counterfeit_check(sig: &Signature, h: &Header) -> (r: bool)
    ensures
        r == spec_counterfeit_free(*sig, h@),
{
    let bytes = header_bytes(h);
    h.author.verifies(bytes.as_slice(), sig) && h.author.is_well_formed()
}

pub open spec fn spec_check_prev_header(h: HeaderV) -> Result<(), ValidationOutcome> {
    if h.is_dna() {
        if h.prev_header is None {
            Ok(())
        } else {
            Err(ValidationOutcome::PrevHeaderError(PrevHeaderError::InvalidRoot))
        }
    } else if h.header_seq == 0 {
        Err(ValidationOutcome::PrevHeaderError(PrevHeaderError::InvalidRoot))
    } else if h.prev_header is None {
        Err(ValidationOutcome::PrevHeaderError(PrevHeaderError::MissingPrev))
    } else {
        Ok(())
    }
}

/// A root header names no previous header; any other header sits past the root and
/// names its previous header.
pub fn check_prev_header(h: &Header) -> (r: Result<(), ValidationOutcome>)
    ensures
        r == spec_check_prev_header(h@),
{
    if h.is_dna() {
        if h.prev_header.is_none() {
            Ok(())
        } else {
            Err(ValidationOutcome::PrevHeaderError(PrevHeaderError::InvalidRoot))
        }
    } else if h.header_seq == 0 {
        Err(ValidationOutcome::PrevHeaderError(PrevHeaderError::InvalidRoot))
    } else if h.prev_header.is_none() {
        Err(ValidationOutcome::PrevHeaderError(PrevHeaderError::MissingPrev))
    } else {
        Ok(())
    }
}

pub open spec fn spec_check_valid_if_dna(h: HeaderV) -> Result<(), ValidationOutcome> {
    if h.is_dna() && h.header_seq != 0 {
        Err(ValidationOutcome::PrevHeaderError(PrevHeaderError::InvalidRoot))
    } else {
        Ok(())
    }
}

/// A root header is legal only at sequence number 0.
pub fn check_valid_if_dna(h: &Header) -> (r: Result<(), ValidationOutcome>)
    ensures
        r == spec_check_valid_if_dna(h@),
{
    if h.is_dna() && h.header_seq != 0 {
        Err(ValidationOutcome::PrevHeaderError(PrevHeaderError::InvalidRoot))
    } else {
        Ok(())
    }
}

/// A header is no older than the previous one.
pub fn check_prev_timestamp(h: &Header, prev: &Header) -> (r: Result<(), ValidationOutcome>)
    ensures
        r is Ok <==> h.timestamp >= prev.timestamp,
        r is Err ==> r == Err::<(), _>(
            ValidationOutcome::PrevHeaderError(PrevHeaderError::Timestamp),
        ),
{
    if h.timestamp >= prev.timestamp {
        Ok(())
    } else {
        Err(ValidationOutcome::PrevHeaderError(PrevHeaderError::Timestamp))
    }
}

/// A header's sequence number is one more than the previous one's.
pub fn check_prev_seq(h: &Header, prev: &Header) -> (r: Result<(), ValidationOutcome>)
    ensures
        r is Ok <==> h.header_seq == prev.header_seq + 1,
        r is Err ==> r == Err::<(), _>(
            ValidationOutcome::PrevHeaderError(
                PrevHeaderError::InvalidSeq(h.header_seq, prev.header_seq),
            ),
        ),
{
    if prev.header_seq < u32::MAX && h.header_seq == prev.header_seq + 1 {
        Ok(())
    } else {
        Err(
            ValidationOutcome::PrevHeaderError(
                PrevHeaderError::InvalidSeq(h.header_seq, prev.header_seq),
            ),
        )
    }
}

pub open spec fn entry_matches_type(t: EntryType, e: EntryV) -> bool {
    match (t, e) {
        (EntryType::AgentPubKey, EntryV::Agent(_)) => true,
        (EntryType::App { .. }, EntryV::App(_)) => true,
        (EntryType::CapClaim, EntryV::CapClaim(_)) => true,
        (EntryType::CapGrant, EntryV::CapGrant(_)) => true,
        _ => false,
    }
}

/// The entry is of the variant its type names.
pub fn check_entry_type(t: &EntryType, e: &Entry) -> (r: Result<(), ValidationOutcome>)
    ensures
        r == if entry_matches_type(*t, e@) {
            Ok(())
        } else {
            Err(ValidationOutcome::EntryType)
        },
{
    let ok = match (t, e) {
        (EntryType::AgentPubKey, Entry::Agent(_)) => true,
        (EntryType::App { .. }, Entry::App(_)) => true,
        (EntryType::CapClaim, Entry::CapClaim(_)) => true,
        (EntryType::CapGrant, Entry::CapGrant(_)) => true,
        _ => false,
    };
    if ok {
        Ok(())
    } else {
        Err(ValidationOutcome::EntryType)
    }
}

/// The entry hashes to the hash its header names.
pub fn check_entry_hash(h: &HoloHash, e: &Entry) -> (r: Result<(), ValidationOutcome>)
    ensures
        r == if h@ == entry_hash(e@) {
            Ok(())
        } else {
            Err(ValidationOutcome::EntryHash)
        },
{
    let actual = hash_entry(e);
    if actual.same(h) {
        Ok(())
    } else {
        Err(ValidationOutcome::EntryHash)
    }
}

/// The entry's canonical bytes are at most [`MAX_ENTRY_BYTES`] long.
pub fn check_entry_size(e: &Entry) -> (r: Result<(), ValidationOutcome>)
    ensures
        r == if enc_entry(e@).len() <= MAX_ENTRY_BYTES {
            Ok(())
        } else {
            Err(ValidationOutcome::EntryTooLarge(enc_entry(e@).len() as usize, MAX_ENTRY_BYTES))
        },
{
    let bytes = entry_bytes(e);
    if bytes.len() <= MAX_ENTRY_BYTES {
        Ok(())
    } else {
        Err(ValidationOutcome::EntryTooLarge(bytes.len(), MAX_ENTRY_BYTES))
    }
}

/// A link tag is at most [`MAX_TAG_BYTES`] long.
pub fn check_tag_size(tag: &Vec<u8>) -> (r: Result<(), ValidationOutcome>)
    ensures
        r == if tag@.len() <= MAX_TAG_BYTES {
            Ok(())
        } else {
            Err(ValidationOutcome::TagTooLarge(tag@.len() as usize, MAX_TAG_BYTES))
        },
{
    if tag.len() <= MAX_TAG_BYTES {
        Ok(())
    } else {
        Err(ValidationOutcome::TagTooLarge(tag.len(), MAX_TAG_BYTES))
    }
}

pub open spec fn is_new_entry_header(h: HeaderV) -> bool {
    h.body is Create || h.body is Update
}

/// The header creates an entry (`Create` or `Update`).
pub fn check_new_entry_header(h: &Header) -> (r: Result<(), ValidationOutcome>)
    ensures
        r == if is_new_entry_header(h@) {
            Ok(())
        } else {
            Err(ValidationOutcome::NotNewEntry)
        },
{
    match h.entry_type() {
        Some(_) => Ok(()),
        None => Err(ValidationOutcome::NotNewEntry),
    }
}

pub open spec fn spec_update_check(update_type: EntryType, original: HeaderV) -> Result<
    (),
    ValidationOutcome,
> {
    match original.entry_type() {
        None => Err(ValidationOutcome::NotNewEntry),
        Some(t) => if t == update_type {
            Ok(())
        } else {
            Err(ValidationOutcome::UpdateTypeMismatch(t, update_type))
        },
    }
}

/// An update targets a header that created an entry of the same type.
pub fn update_check(update_type: &EntryType, original: &Header) -> (r: Result<(), ValidationOutcome>)
    ensures
        r == spec_update_check(*update_type, original@),
{
    match original.entry_type() {
        None => Err(ValidationOutcome::NotNewEntry),
        Some(t) => {
            if t == *update_type {
                Ok(())
            } else {
                Err(ValidationOutcome::UpdateTypeMismatch(t, *update_type))
            }
        },
    }
}

/// The definition of one entry type of a zome.
#[derive(Clone, Copy, Debug, PartialEq, Eq)]
pub struct EntryDef {
    pub visibility: EntryVisibility,
}

/// The entry types one zome defines, indexed by entry-def id.
#[derive(Clone, Debug, PartialEq, Eq)]
pub struct ZomeDef {
    pub entry_defs: Vec<EntryDef>,
}

/// The zomes of the app, indexed by zome id.
#[derive(Clone, Debug, PartialEq, Eq)]
pub struct DnaDef {
    pub zomes: Vec<ZomeDef>,
}

pub open spec fn spec_check_app_entry_type(id: u8, zome_id: u8, dna: DnaDef) -> Result<
    EntryDef,
    ValidationOutcome,
> {
    if zome_id >= dna.zomes@.len() {
        Err(ValidationOutcome::ZomeId(zome_id))
    } else if id >= dna.zomes@[zome_id as int].entry_defs@.len() {
        Err(ValidationOutcome::EntryDefId(id))
    } else {
        Ok(dna.zomes@[zome_id as int].entry_defs@[id as int])
    }
}

/// Resolves an app entry type against the app's definitions.
pub fn check_app_entry_type(id: u8, zome_id: u8, dna: &DnaDef) -> (r: Result<
    EntryDef,
    ValidationOutcome,
>)
    ensures
        r == spec_check_app_entry_type(id, zome_id, *dna),
{
    if zome_id as usize >= dna.zomes.len() {
        return Err(ValidationOutcome::ZomeId(zome_id));
    }
    let zome = &dna.zomes[zome_id as usize];
    if id as usize >= zome.entry_defs.len() {
        return Err(ValidationOutcome::EntryDefId(id));
    }
    Ok(zome.entry_defs[id as usize])
}

pub open spec fn spec_check_app_entry_def(
    visibility: EntryVisibility,
    def: EntryDef,
) -> Result<(), ValidationOutcome> {
    if def.visibility == EntryVisibility::Private {
        Err(ValidationOutcome::PrivateEntry)
    } else if def.visibility != visibility {
        Err(ValidationOutcome::EntryVisibility)
    } else {
        Ok(())
    }
}

/// A private definition is never published, whatever the header states; a public one must
/// be stated as public by the header.
pub fn check_app_entry_def(visibility: EntryVisibility, def: &EntryDef) -> (r: Result<
    (),
    ValidationOutcome,
>)
    ensures
        r == spec_check_app_entry_def(visibility, *def),
{
    if def.visibility == EntryVisibility::Private {
        Err(ValidationOutcome::PrivateEntry)
    } else if def.visibility != visibility {
        Err(ValidationOutcome::EntryVisibility)
    } else {
        Ok(())
    }
}

} // verus!
