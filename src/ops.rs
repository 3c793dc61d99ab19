//! Decomposition of a source-chain element into the DHT operations it produces.
use vstd::prelude::*;
use crate::types::{
    DhtOp, DhtOpKind, DhtOpV, Element, ElementV, EntryV, EntryVisibility, HeaderBody, HeaderBodyV,
    duplicate_opt_entry,
};

verus! {

/// The entry an element may publish: its entry when the header creates a public entry,
/// otherwise none.
pub open spec fn public_entry(e: ElementV) -> Option<EntryV> {
    match e.header.entry_type() {
        Some(t) => if t.spec_visibility() == EntryVisibility::Public {
            e.entry
        } else {
            None
        },
        None => None,
    }
}

pub open spec fn op_of(kind: DhtOpKind, e: ElementV, entry: Option<EntryV>) -> DhtOpV {
    DhtOpV { kind, signature: e.signature, header: e.header, entry }
}

/// The operations of an element, in order: `StoreElement` (with the public entry, if any)
/// and `RegisterAgentActivity` for every header, then `StoreEntry` when a public entry is
/// at hand, and the kinds that the header's variant adds.
pub open spec fn element_ops(e: ElementV) -> Seq<DhtOpV> {
    let v = public_entry(e);
    let base = seq![
        op_of(DhtOpKind::StoreElement, e, v),
        op_of(DhtOpKind::RegisterAgentActivity, e, None),
    ];
    let with_entry = if v is Some {
        base.push(op_of(DhtOpKind::StoreEntry, e, v))
    } else {
        base
    };
    match e.header.body {
        HeaderBodyV::Create { .. } => with_entry,
        HeaderBodyV::Update { .. } => with_entry + seq![
            op_of(DhtOpKind::RegisterUpdatedContent, e, v),
            op_of(DhtOpKind::RegisterUpdatedElement, e, v),
        ],
        HeaderBodyV::Delete { .. } => base + seq![
            op_of(DhtOpKind::RegisterDeletedBy, e, None),
            op_of(DhtOpKind::RegisterDeletedEntryHeader, e, None),
        ],
        HeaderBodyV::CreateLink { .. } => base.push(op_of(DhtOpKind::RegisterAddLink, e, None)),
        HeaderBodyV::DeleteLink { .. } => base.push(op_of(DhtOpKind::RegisterRemoveLink, e, None)),
        _ => base,
    }
}

pub open spec fn ops_view(s: Seq<DhtOp>) -> Seq<DhtOpV> {
    s.map_values(|o: DhtOp| o@)
}

fn make_op(kind: DhtOpKind, e: &Element, with_entry: bool) -> (r: DhtOp)
    ensures
        r@ == op_of(kind, e@, if with_entry { public_entry(e@) } else { None }),
{
    let entry = if with_entry {
        match e.header.entry_type() {
            Some(t) => match t.visibility() {
                EntryVisibility::Public => duplicate_opt_entry(&e.entry),
                EntryVisibility::Private => None,
            },
            None => None,
        }
    } else {
        None
    };
    DhtOp { kind, signature: e.signature, header: e.header.duplicate(), entry }
}

/// Splits an element into its operations (see [`element_ops`]). The result depends on the
/// element alone.
pub fn ops_from_element(e: &Element) -> (r: Vec<DhtOp>)
    ensures
        ops_view(r@) == element_ops(e@),
{
    let mut ops: Vec<DhtOp> = Vec::new();
    ops.push(make_op(DhtOpKind::StoreElement, e, true));
    ops.push(make_op(DhtOpKind::RegisterAgentActivity, e, false));
    let has_public_entry = match e.header.entry_type() {
        Some(t) => match t.visibility() {
            EntryVisibility::Public => e.entry.is_some(),
            EntryVisibility::Private => false,
        },
        None => false,
    };
    assert(has_public_entry == public_entry(e@) is Some);
    match &e.header.body {
        HeaderBody::Create { .. } => {
            if has_public_entry {
                ops.push(make_op(DhtOpKind::StoreEntry, e, true));
            }
        },
        HeaderBody::Update { .. } => {
            if has_public_entry {
                ops.push(make_op(DhtOpKind::StoreEntry, e, true));
            }
            ops.push(make_op(DhtOpKind::RegisterUpdatedContent, e, true));
            ops.push(make_op(DhtOpKind::RegisterUpdatedElement, e, true));
        },
        HeaderBody::Delete { .. } => {
            ops.push(make_op(DhtOpKind::RegisterDeletedBy, e, false));
            ops.push(make_op(DhtOpKind::RegisterDeletedEntryHeader, e, false));
        },
        HeaderBody::CreateLink { .. } => {
            ops.push(make_op(DhtOpKind::RegisterAddLink, e, false));
        },
        HeaderBody::DeleteLink { .. } => {
            ops.push(make_op(DhtOpKind::RegisterRemoveLink, e, false));
        },
        _ => {},
    }
    assert(ops_view(ops@) =~= element_ops(e@));
    ops
}

/// Every element yields a `StoreElement`; an element whose header creates a public entry
/// that is at hand also yields a `StoreEntry` carrying it; an element whose entry is private
/// yields no `StoreEntry`, and its `StoreElement` carries no entry.
pub proof fn lemma_public_and_private_entries(e: ElementV)
    ensures
        element_ops(e)[0].kind == DhtOpKind::StoreElement,
        element_ops(e)[0].header == e.header,
        public_entry(e) is Some ==> exists|j: int|
            0 <= j < element_ops(e).len() && element_ops(e)[j].kind == DhtOpKind::StoreEntry
                && element_ops(e)[j].entry == e.entry,
        (e.header.entry_type() matches Some(t) && t.spec_visibility() == EntryVisibility::Private)
            ==> element_ops(e)[0].entry is None && forall|j: int|
            0 <= j < element_ops(e).len() ==> (#[trigger] element_ops(e)[j]).kind
                != DhtOpKind::StoreEntry,
{
    if public_entry(e) is Some {
        assert(element_ops(e)[2].kind == DhtOpKind::StoreEntry);
    }
}

} // verus!
