//! Canonical byte encodings of headers, entries and operations, and the hashes taken of
//! them.
use vstd::prelude::*;
use crate::hash::{blake2b_512, AgentPubKey, HashKind, HoloHash};
use crate::types::{
    DhtOp, DhtOpKind, DhtOpV, Entry, EntryType, EntryV, EntryVisibility, Header, HeaderBody,
    HeaderBodyV, HeaderV,
};

verus! {

pub open spec fn enc_u64(x: u64) -> Seq<u8> {
    seq![
        (x >> 56u64) as u8,
        (x >> 48u64) as u8,
        (x >> 40u64) as u8,
        (x >> 32u64) as u8,
        (x >> 24u64) as u8,
        (x >> 16u64) as u8,
        (x >> 8u64) as u8,
        x as u8,
    ]
}

pub open spec fn enc_u32(x: u32) -> Seq<u8> {
    seq![(x >> 24u32) as u8, (x >> 16u32) as u8, (x >> 8u32) as u8, x as u8]
}

/// A byte string, preceded by its length.
pub open spec fn enc_bytes(b: Seq<u8>) -> Seq<u8> {
    enc_u64(b.len() as u64) + b
}

pub open spec fn kind_tag(k: HashKind) -> u8 {
    match k {
        HashKind::Entry => 0,
        HashKind::Header => 1,
        HashKind::DhtOp => 2,
        HashKind::Dna => 3,
    }
}

pub open spec fn enc_hash(h: HoloHash) -> Seq<u8> {
    seq![kind_tag(h.kind)] + h.bytes@
}

pub open spec fn enc_opt_hash(h: Option<HoloHash>) -> Seq<u8> {
    match h {
        None => seq![0u8],
        Some(x) => seq![1u8] + enc_hash(x),
    }
}

pub open spec fn enc_entry_type(t: EntryType) -> Seq<u8> {
    match t {
        EntryType::AgentPubKey => seq![0u8],
        EntryType::App { id, zome_id, visibility } => seq![
            1u8,
            id,
            zome_id,
            if visibility == EntryVisibility::Public { 0u8 } else { 1u8 },
        ],
        EntryType::CapClaim => seq![2u8],
        EntryType::CapGrant => seq![3u8],
    }
}

pub open spec fn enc_body(b: HeaderBodyV) -> Seq<u8> {
    match b {
        HeaderBodyV::Dna { dna_hash } => seq![0u8] + enc_hash(dna_hash),
        HeaderBodyV::AgentValidationPkg => seq![1u8],
        HeaderBodyV::Create { entry_type, entry_hash } => seq![2u8] + enc_entry_type(entry_type)
            + enc_hash(entry_hash),
        HeaderBodyV::Update {
            entry_type,
            entry_hash,
            original_header_address,
            original_entry_address,
        } => seq![3u8] + enc_entry_type(entry_type) + enc_hash(entry_hash) + enc_hash(
            original_header_address,
        ) + enc_hash(original_entry_address),
        HeaderBodyV::Delete { deletes_address, deletes_entry_address } => seq![4u8] + enc_hash(
            deletes_address,
        ) + enc_hash(deletes_entry_address),
        HeaderBodyV::CreateLink { base_address, target_address, zome_id, tag } => seq![5u8]
            + enc_hash(base_address) + enc_hash(target_address) + seq![zome_id] + enc_bytes(tag),
        HeaderBodyV::DeleteLink { link_add_address, base_address } => seq![6u8] + enc_hash(
            link_add_address,
        ) + enc_hash(base_address),
    }
}

/// The canonical bytes of a header: the bytes its author signs and its hash is taken of.
pub open spec fn enc_header(h: HeaderV) -> Seq<u8> {
    h.author.key@ + enc_u64(h.timestamp) + enc_u32(h.header_seq) + enc_opt_hash(h.prev_header)
        + enc_body(h.body)
}

pub open spec fn enc_entry(e: EntryV) -> Seq<u8> {
    match e {
        EntryV::Agent(k) => seq![0u8] + k.key@,
        EntryV::App(b) => seq![1u8] + enc_bytes(b),
        EntryV::CapClaim(b) => seq![2u8] + enc_bytes(b),
        EntryV::CapGrant(b) => seq![3u8] + enc_bytes(b),
    }
}

pub open spec fn op_kind_tag(k: DhtOpKind) -> u8 {
    match k {
        DhtOpKind::StoreElement => 0,
        DhtOpKind::StoreEntry => 1,
        DhtOpKind::RegisterAgentActivity => 2,
        DhtOpKind::RegisterUpdatedContent => 3,
        DhtOpKind::RegisterUpdatedElement => 4,
        DhtOpKind::RegisterDeletedBy => 5,
        DhtOpKind::RegisterDeletedEntryHeader => 6,
        DhtOpKind::RegisterAddLink => 7,
        DhtOpKind::RegisterRemoveLink => 8,
    }
}

/// The canonical bytes of an operation: its discriminator, its header and the entry it
/// carries. The signature is not part of it.
pub open spec fn enc_op(op: DhtOpV) -> Seq<u8> {
    seq![op_kind_tag(op.kind)] + enc_header(op.header) + match op.entry {
        None => seq![0u8],
        Some(e) => seq![1u8] + enc_entry(e),
    }
}

pub open spec fn header_hash(h: HeaderV) -> (HashKind, Seq<u8>) {
    (HashKind::Header, blake2b_512(enc_header(h)))
}

pub open spec fn entry_hash(e: EntryV) -> (HashKind, Seq<u8>) {
    (HashKind::Entry, blake2b_512(enc_entry(e)))
}

/// The op hash: the key of an operation in every store.
pub open spec fn op_hash(op: DhtOpV) -> (HashKind, Seq<u8>) {
    (HashKind::DhtOp, blake2b_512(enc_op(op)))
}

fn push_u64(out: &mut Vec<u8>, x: u64)
    ensures
        final(out)@ == old(out)@ + enc_u64(x),
{
    out.push((x >> 56u64) as u8);
    out.push((x >> 48u64) as u8);
    out.push((x >> 40u64) as u8);
    out.push((x >> 32u64) as u8);
    out.push((x >> 24u64) as u8);
    out.push((x >> 16u64) as u8);
    out.push((x >> 8u64) as u8);
    out.push(x as u8);
    assert(out@ =~= old(out)@ + enc_u64(x));
}

fn push_u32(out: &mut Vec<u8>, x: u32)
    ensures
        final(out)@ == old(out)@ + enc_u32(x),
{
    out.push((x >> 24u32) as u8);
    out.push((x >> 16u32) as u8);
    out.push((x >> 8u32) as u8);
    out.push(x as u8);
    assert(out@ =~= old(out)@ + enc_u32(x));
}

fn push_raw(out: &mut Vec<u8>, b: &[u8])
    ensures
        final(out)@ == old(out)@ + b@,
{
    let mut i: usize = 0;
    while i < b.len()
        invariant
            0 <= i <= b@.len(),
            out@ == old(out)@ + b@.subrange(0, i as int),
        decreases b@.len() - i,
    {
        out.push(b[i]);
        assert(b@.subrange(0, i + 1) =~= b@.subrange(0, i as int).push(b@[i as int]));
        i = i + 1;
    }
    assert(b@.subrange(0, b@.len() as int) =~= b@);
}

fn push_bytes(out: &mut Vec<u8>, b: &[u8])
    ensures
        final(out)@ == old(out)@ + enc_bytes(b@),
{
    push_u64(out, b.len() as u64);
    push_raw(out, b);
    assert(out@ =~= old(out)@ + enc_bytes(b@));
}

fn push_hash(out: &mut Vec<u8>, h: &HoloHash)
    ensures
        final(out)@ == old(out)@ + enc_hash(*h),
{
    let tag: u8 = match h.kind {
        HashKind::Entry => 0,
        HashKind::Header => 1,
        HashKind::DhtOp => 2,
        HashKind::Dna => 3,
    };
    out.push(tag);
    push_raw(out, &h.bytes);
    assert(out@ =~= old(out)@ + enc_hash(*h));
}

fn push_opt_hash(out: &mut Vec<u8>, h: &Option<HoloHash>)
    ensures
        final(out)@ == old(out)@ + enc_opt_hash(*h),
{
    match h {
        None => {
            out.push(0u8);
            assert(out@ =~= old(out)@ + enc_opt_hash(*h));
        },
        Some(x) => {
            out.push(1u8);
            push_hash(out, x);
            assert(out@ =~= old(out)@ + enc_opt_hash(*h));
        },
    }
}

fn push_entry_type(out: &mut Vec<u8>, t: &EntryType)
    ensures
        final(out)@ == old(out)@ + enc_entry_type(*t),
{
    match t {
        EntryType::AgentPubKey => out.push(0u8),
        EntryType::App { id, zome_id, visibility } => {
            out.push(1u8);
            out.push(*id);
            out.push(*zome_id);
            out.push(
                match visibility {
                    EntryVisibility::Public => 0u8,
                    EntryVisibility::Private => 1u8,
                },
            );
        },
        EntryType::CapClaim => out.push(2u8),
        EntryType::CapGrant => out.push(3u8),
    }
    assert(out@ =~= old(out)@ + enc_entry_type(*t));
}

fn push_body(out: &mut Vec<u8>, b: &HeaderBody)
    ensures
        final(out)@ == old(out)@ + enc_body(b@),
{
    match b {
        HeaderBody::Dna { dna_hash } => {
            out.push(0u8);
            push_hash(out, dna_hash);
        },
        HeaderBody::AgentValidationPkg => {
            out.push(1u8);
        },
        HeaderBody::Create { entry_type, entry_hash } => {
            out.push(2u8);
            push_entry_type(out, entry_type);
            push_hash(out, entry_hash);
        },
        HeaderBody::Update {
            entry_type,
            entry_hash,
            original_header_address,
            original_entry_address,
        } => {
            out.push(3u8);
            push_entry_type(out, entry_type);
            push_hash(out, entry_hash);
            push_hash(out, original_header_address);
            push_hash(out, original_entry_address);
        },
        HeaderBody::Delete { deletes_address, deletes_entry_address } => {
            out.push(4u8);
            push_hash(out, deletes_address);
            push_hash(out, deletes_entry_address);
        },
        HeaderBody::CreateLink { base_address, target_address, zome_id, tag } => {
            out.push(5u8);
            push_hash(out, base_address);
            push_hash(out, target_address);
            out.push(*zome_id);
            push_bytes(out, tag.as_slice());
        },
        HeaderBody::DeleteLink { link_add_address, base_address } => {
            out.push(6u8);
            push_hash(out, link_add_address);
            push_hash(out, base_address);
        },
    }
    assert(out@ =~= old(out)@ + enc_body(b@));
}

fn push_header(out: &mut Vec<u8>, h: &Header)
    ensures
        final(out)@ == old(out)@ + enc_header(h@),
{
    push_raw(out, &h.author.key);
    push_u64(out, h.timestamp);
    push_u32(out, h.header_seq);
    push_opt_hash(out, &h.prev_header);
    push_body(out, &h.body);
    assert(out@ =~= old(out)@ + enc_header(h@));
}

fn push_entry(out: &mut Vec<u8>, e: &Entry)
    ensures
        final(out)@ == old(out)@ + enc_entry(e@),
{
    match e {
        Entry::Agent(k) => {
            out.push(0u8);
            push_raw(out, &k.key);
        },
        Entry::App(b) => {
            out.push(1u8);
            push_bytes(out, b.as_slice());
        },
        Entry::CapClaim(b) => {
            out.push(2u8);
            push_bytes(out, b.as_slice());
        },
        Entry::CapGrant(b) => {
            out.push(3u8);
            push_bytes(out, b.as_slice());
        },
    }
    assert(out@ =~= old(out)@ + enc_entry(e@));
}

/// The canonical bytes of a header.
pub fn header_bytes(h: &Header) -> (r: Vec<u8>)
    ensures
        r@ == enc_header(h@),
{
    let mut out: Vec<u8> = Vec::new();
    push_header(&mut out, h);
    assert(out@ =~= enc_header(h@));
    out
}

/// The canonical bytes of an entry.
pub fn entry_bytes(e: &Entry) -> (r: Vec<u8>)
    ensures
        r@ == enc_entry(e@),
{
    let mut out: Vec<u8> = Vec::new();
    push_entry(&mut out, e);
    assert(out@ =~= enc_entry(e@));
    out
}

/// The canonical bytes of an operation.
pub fn op_bytes(op: &DhtOp) -> (r: Vec<u8>)
    ensures
        r@ == enc_op(op@),
{
    let mut out: Vec<u8> = Vec::new();
    let tag: u8 = match op.kind {
        DhtOpKind::StoreElement => 0,
        DhtOpKind::StoreEntry => 1,
        DhtOpKind::RegisterAgentActivity => 2,
        DhtOpKind::RegisterUpdatedContent => 3,
        DhtOpKind::RegisterUpdatedElement => 4,
        DhtOpKind::RegisterDeletedBy => 5,
        DhtOpKind::RegisterDeletedEntryHeader => 6,
        DhtOpKind::RegisterAddLink => 7,
        DhtOpKind::RegisterRemoveLink => 8,
    };
    out.push(tag);
    push_header(&mut out, &op.header);
    match &op.entry {
        None => out.push(0u8),
        Some(e) => {
            out.push(1u8);
            push_entry(&mut out, e);
        },
    }
    assert(out@ =~= enc_op(op@));
    out
}

/// The hash of a header.
pub fn hash_header(h: &Header) -> (r: HoloHash)
    ensures
        r@ == header_hash(h@),
{
    let bytes = header_bytes(h);
    HoloHash::of_content(HashKind::Header, bytes.as_slice())
}

/// The hash of an entry.
pub fn hash_entry(e: &Entry) -> (r: HoloHash)
    ensures
        r@ == entry_hash(e@),
{
    let bytes = entry_bytes(e);
    HoloHash::of_content(HashKind::Entry, bytes.as_slice())
}

/// The op hash of an operation.
pub fn hash_op(op: &DhtOp) -> (r: HoloHash)
    ensures
        r@ == op_hash(op@),
{
    let bytes = op_bytes(op);
    HoloHash::of_content(HashKind::DhtOp, bytes.as_slice())
}

} // verus!
