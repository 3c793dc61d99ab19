use dht_pipeline::encode::{hash_entry, hash_header, hash_op, header_bytes};
use dht_pipeline::hash::{AgentPubKey, HashKind, HoloHash, Signature};
use dht_pipeline::ops::ops_from_element;
use dht_pipeline::produce::{
    produce_dht_ops_workflow, ChainError, ProduceDhtOpsWorkspace, SourceChain, WorkComplete,
};
use dht_pipeline::queue::{IntegrationQueue, IntegrationQueueValue, QueueKey};
use dht_pipeline::store::{DhtStore, ValidationLimboStatus, ValidationStatus};
use dht_pipeline::sys_validation::{Fork, SysValidationWorkspace};
use dht_pipeline::types::{
    DhtOp, DhtOpKind, Element, Entry, EntryType, EntryVisibility, Header, HeaderBody,
};
use dht_pipeline::validation::{
    check_app_entry_def, check_app_entry_type, check_entry_hash, check_entry_size,
    check_entry_type, check_new_entry_header, check_prev_header, check_prev_seq,
    check_prev_timestamp, check_tag_size, check_valid_if_dna, counterfeit_check, handle_failed,
    update_check, DnaDef, EntryDef, Outcome, PrevHeaderError, ValidationOutcome, ZomeDef,
    MAX_ENTRY_BYTES, MAX_TAG_BYTES,
};
use dht_pipeline::workflow::{
    apply_app_validation, backoff_window, integrate_dht_ops_workflow, receive_op,
    sys_validation_workflow, AppValidationResult, RetryPolicy,
};
use ed25519_dalek::{Signer, SigningKey};

fn signing_key(seed: u8) -> SigningKey {
    SigningKey::from_bytes(&[seed; 32])
}

fn agent_of(key: &SigningKey) -> AgentPubKey {
    AgentPubKey { key: key.verifying_key().to_bytes() }
}

fn sign(key: &SigningKey, header: &Header) -> Signature {
    let bytes = header_bytes(header);
    Signature { bytes: key.sign(&bytes).to_bytes() }
}

fn element(key: &SigningKey, header: Header, entry: Option<Entry>) -> Element {
    let signature = sign(key, &header);
    Element { signature, header, entry }
}

fn fake_hash(kind: HashKind, seed: u8) -> HoloHash {
    HoloHash { kind, bytes: [seed; 64] }
}

fn header(key: &SigningKey, seq: u32, ts: u64, prev: Option<HoloHash>, body: HeaderBody) -> Header {
    Header { author: agent_of(key), timestamp: ts, header_seq: seq, prev_header: prev, body }
}

fn app_type(visibility: EntryVisibility) -> EntryType {
    EntryType::App { id: 0, zome_id: 0, visibility }
}

fn dna_def() -> DnaDef {
    DnaDef {
        zomes: vec![ZomeDef {
            entry_defs: vec![
                EntryDef { visibility: EntryVisibility::Public },
                EntryDef { visibility: EntryVisibility::Private },
            ],
        }],
    }
}

/// A chain with the three genesis elements: the DNA root, the agent validation package and
/// the agent key entry.
fn fake_genesis(key: &SigningKey, chain: &mut SourceChain) {
    let dna = header(key, 0, 1, None, HeaderBody::Dna { dna_hash: fake_hash(HashKind::Dna, 7) });
    let dna_hash = hash_header(&dna);
    chain.append(element(key, dna, None)).unwrap();
    let avp = header(key, 1, 2, Some(dna_hash), HeaderBody::AgentValidationPkg);
    let avp_hash = hash_header(&avp);
    chain.append(element(key, avp, None)).unwrap();
    let agent_entry = Entry::Agent(agent_of(key));
    let create = header(
        key,
        2,
        3,
        Some(avp_hash),
        HeaderBody::Create { entry_type: EntryType::AgentPubKey, entry_hash: hash_entry(&agent_entry) },
    );
    chain.append(element(key, create, Some(agent_entry))).unwrap();
}

fn put_fix_entry(key: &SigningKey, chain: &mut SourceChain, visibility: EntryVisibility, n: u8) -> Vec<DhtOp> {
    let head = &chain.elements[chain.elements.len() - 1].header;
    let prev = hash_header(head);
    let seq = head.header_seq + 1;
    let ts = head.timestamp + 1;
    let entry = Entry::App(vec![n, seq as u8, 42]);
    let create = header(
        key,
        seq,
        ts,
        Some(prev),
        HeaderBody::Create { entry_type: app_type(visibility), entry_hash: hash_entry(&entry) },
    );
    let e = element(key, create, Some(entry));
    let ops = ops_from_element(&e);
    chain.append(e).unwrap();
    ops
}

#[test]
fn elements_produce_ops() {
    let key = signing_key(1);
    let mut source_chain = SourceChain::new();
    fake_genesis(&key, &mut source_chain);
    let mut all_ops: Vec<Vec<DhtOp>> = Vec::new();
    for e in source_chain.elements.iter() {
        all_ops.push(ops_from_element(e));
    }
    for n in 0..10u8 {
        all_ops.push(put_fix_entry(&key, &mut source_chain, EntryVisibility::Public, n));
        all_ops.push(put_fix_entry(&key, &mut source_chain, EntryVisibility::Private, n));
    }
    let expected: Vec<DhtOp> = all_ops.into_iter().flatten().collect();

    let mut workspace = ProduceDhtOpsWorkspace::new(source_chain);
    let complete = produce_dht_ops_workflow(&mut workspace, 1000);
    assert!(matches!(complete, WorkComplete::Complete));

    let mut times = Vec::new();
    let mut results = Vec::new();
    for (k, v) in workspace.integration_queue.entries.iter() {
        times.push(k.timestamp);
        assert!(matches!(v.validation_status, ValidationStatus::Valid));
        results.push(v.op.clone());
    }
    // the integration queue is ordered by time
    times.into_iter().fold(None, |last, time| {
        if let Some(lt) = last {
            assert!(lt <= time);
        }
        Some(time)
    });

    let mut authored_results: Vec<HoloHash> = workspace.authored_dht_ops.hashes.clone();

    // check we got all the operations, in chain order
    assert_eq!(results, expected);

    let mut results_hashed: Vec<HoloHash> = results.iter().map(hash_op).collect();
    results_hashed.sort_by(|a, b| a.bytes.cmp(&b.bytes));
    authored_results.sort_by(|a, b| a.bytes.cmp(&b.bytes));
    assert_eq!(results_hashed, authored_results);
    let last_count = results_hashed.len();

    // a second run adds nothing
    let complete = produce_dht_ops_workflow(&mut workspace, 2000);
    assert!(matches!(complete, WorkComplete::Complete));
    let count = workspace.integration_queue.entries.len();
    let authored_count = workspace.authored_dht_ops.hashes.len();
    assert_eq!(last_count, count);
    assert_eq!(last_count, authored_count);
}

#[test]
fn private_entries_publish_headers_only() {
    let key = signing_key(2);
    let mut chain = SourceChain::new();
    fake_genesis(&key, &mut chain);
    let public_ops = put_fix_entry(&key, &mut chain, EntryVisibility::Public, 1);
    let private_ops = put_fix_entry(&key, &mut chain, EntryVisibility::Private, 2);
    let kinds = |ops: &Vec<DhtOp>| ops.iter().map(|o| o.kind).collect::<Vec<_>>();
    assert_eq!(
        kinds(&public_ops),
        vec![DhtOpKind::StoreElement, DhtOpKind::RegisterAgentActivity, DhtOpKind::StoreEntry]
    );
    assert!(public_ops[0].entry.is_some());
    assert_eq!(kinds(&private_ops), vec![DhtOpKind::StoreElement, DhtOpKind::RegisterAgentActivity]);
    assert!(private_ops[0].entry.is_none());

    let mut ws = ProduceDhtOpsWorkspace::new(chain);
    produce_dht_ops_workflow(&mut ws, 5);
    let store_entries = ws
        .integration_queue
        .entries
        .iter()
        .filter(|(_, v)| v.op.kind == DhtOpKind::StoreEntry)
        .count();
    // the agent key entry and the public app entry
    assert_eq!(store_entries, 2);
    // 2 + 2 + 3 genesis ops, 3 public, 2 private
    assert_eq!(ws.integration_queue.entries.len(), 12);
}

#[test]
fn producer_marks_elements_complete_and_is_idempotent() {
    let key = signing_key(3);
    let mut chain = SourceChain::new();
    fake_genesis(&key, &mut chain);
    let mut ws = ProduceDhtOpsWorkspace::new(chain);
    produce_dht_ops_workflow(&mut ws, 10);
    assert!(ws.source_chain.dht_ops_complete.iter().all(|c| *c));
    let queue_before = ws.integration_queue.entries.clone();
    let authored_before = ws.authored_dht_ops.hashes.clone();
    produce_dht_ops_workflow(&mut ws, 20);
    assert_eq!(ws.integration_queue.entries, queue_before);
    assert_eq!(ws.authored_dht_ops.hashes, authored_before);
    for (j, (k, _)) in ws.integration_queue.entries.iter().enumerate() {
        assert_eq!(k.timestamp, 10 + j as u64);
    }
}

#[test]
fn decomposition_by_header_variant() {
    let key = signing_key(4);
    let base = fake_hash(HashKind::Entry, 1);
    let prev = fake_hash(HashKind::Header, 2);
    let entry = Entry::App(vec![1, 2, 3]);
    let update = header(
        &key,
        3,
        9,
        Some(prev),
        HeaderBody::Update {
            entry_type: app_type(EntryVisibility::Public),
            entry_hash: hash_entry(&entry),
            original_header_address: fake_hash(HashKind::Header, 3),
            original_entry_address: base,
        },
    );
    let ops = ops_from_element(&element(&key, update, Some(entry)));
    let kinds: Vec<DhtOpKind> = ops.iter().map(|o| o.kind).collect();
    assert_eq!(
        kinds,
        vec![
            DhtOpKind::StoreElement,
            DhtOpKind::RegisterAgentActivity,
            DhtOpKind::StoreEntry,
            DhtOpKind::RegisterUpdatedContent,
            DhtOpKind::RegisterUpdatedElement,
        ]
    );
    let delete = header(
        &key,
        4,
        10,
        Some(prev),
        HeaderBody::Delete { deletes_address: prev, deletes_entry_address: base },
    );
    let kinds: Vec<DhtOpKind> =
        ops_from_element(&element(&key, delete, None)).iter().map(|o| o.kind).collect();
    assert_eq!(
        kinds,
        vec![
            DhtOpKind::StoreElement,
            DhtOpKind::RegisterAgentActivity,
            DhtOpKind::RegisterDeletedBy,
            DhtOpKind::RegisterDeletedEntryHeader,
        ]
    );
    let link = header(
        &key,
        5,
        11,
        Some(prev),
        HeaderBody::CreateLink { base_address: base, target_address: base, zome_id: 0, tag: vec![1] },
    );
    let link_ops = ops_from_element(&element(&key, link.clone(), None));
    assert_eq!(link_ops.len(), 3);
    assert_eq!(link_ops[2].kind, DhtOpKind::RegisterAddLink);
    let unlink = header(
        &key,
        6,
        12,
        Some(prev),
        HeaderBody::DeleteLink { link_add_address: hash_header(&link), base_address: base },
    );
    let unlink_ops = ops_from_element(&element(&key, unlink, None));
    assert_eq!(unlink_ops[2].kind, DhtOpKind::RegisterRemoveLink);
    // a create whose entry is not at hand yields no StoreEntry
    let create = header(
        &key,
        7,
        13,
        Some(prev),
        HeaderBody::Create { entry_type: app_type(EntryVisibility::Public), entry_hash: base },
    );
    assert_eq!(ops_from_element(&element(&key, create, None)).len(), 2);
}

#[test]
fn decomposition_is_deterministic_and_hashes_differ_by_kind() {
    let key = signing_key(5);
    let mut chain = SourceChain::new();
    fake_genesis(&key, &mut chain);
    let e = &chain.elements[2];
    let a = ops_from_element(e);
    let b = ops_from_element(e);
    assert_eq!(a, b);
    let ha: Vec<HoloHash> = a.iter().map(hash_op).collect();
    let hb: Vec<HoloHash> = b.iter().map(hash_op).collect();
    assert_eq!(ha, hb);
    assert_ne!(ha[0], ha[1]);
    assert_ne!(ha[1], ha[2]);
    assert_eq!(ha[0].kind, HashKind::DhtOp);
    // the hash is not the encoding handed back
    let bytes = header_bytes(&e.header);
    let hh = hash_header(&e.header);
    assert_eq!(hh.kind, HashKind::Header);
    assert_ne!(hh.bytes.to_vec(), bytes[..64].to_vec());
    assert_eq!(hh.bytes.to_vec(), blake2b_simd::blake2b(&bytes).as_bytes().to_vec());
}

#[test]
fn chain_append_rules() {
    let key = signing_key(6);
    let mut chain = SourceChain::new();
    let not_root = header(&key, 1, 1, Some(fake_hash(HashKind::Header, 1)), HeaderBody::AgentValidationPkg);
    assert_eq!(chain.append(element(&key, not_root, None)), Err(ChainError::InvalidRoot));
    fake_genesis(&key, &mut chain);
    let head = hash_header(&chain.elements[2].header);
    let wrong_prev = header(&key, 3, 5, Some(fake_hash(HashKind::Header, 9)), HeaderBody::AgentValidationPkg);
    assert_eq!(chain.append(element(&key, wrong_prev, None)), Err(ChainError::PrevMismatch));
    let wrong_seq = header(&key, 4, 5, Some(head), HeaderBody::AgentValidationPkg);
    assert_eq!(chain.append(element(&key, wrong_seq, None)), Err(ChainError::InvalidSeq));
    let older = header(&key, 3, 1, Some(head), HeaderBody::AgentValidationPkg);
    assert_eq!(chain.append(element(&key, older, None)), Err(ChainError::Timestamp));
    let second_root = header(&key, 3, 5, Some(head), HeaderBody::Dna { dna_hash: fake_hash(HashKind::Dna, 1) });
    assert_eq!(chain.append(element(&key, second_root, None)), Err(ChainError::InvalidRoot));
    let good = header(&key, 3, 5, Some(head), HeaderBody::AgentValidationPkg);
    assert_eq!(chain.append(element(&key, good, None)), Ok(()));
    assert_eq!(chain.len(), 4);
    for i in 1..chain.elements.len() {
        let h = &chain.elements[i].header;
        let p = &chain.elements[i - 1].header;
        assert_eq!(h.header_seq, p.header_seq + 1);
        assert!(h.timestamp >= p.timestamp);
        assert_eq!(h.prev_header, Some(hash_header(p)));
    }
}

#[test]
fn queue_orders_by_time_then_hash_and_ignores_repeats() {
    let key = signing_key(7);
    let mut chain = SourceChain::new();
    fake_genesis(&key, &mut chain);
    let op = ops_from_element(&chain.elements[0]).remove(0);
    let mut q = IntegrationQueue::new();
    let value = |op: &DhtOp| IntegrationQueueValue { validation_status: ValidationStatus::Valid, op: op.clone() };
    q.put(QueueKey { timestamp: 5, op_hash: fake_hash(HashKind::DhtOp, 9) }, value(&op));
    q.put(QueueKey { timestamp: 3, op_hash: fake_hash(HashKind::DhtOp, 1) }, value(&op));
    q.put(QueueKey { timestamp: 5, op_hash: fake_hash(HashKind::DhtOp, 2) }, value(&op));
    q.put(
        QueueKey { timestamp: 5, op_hash: fake_hash(HashKind::DhtOp, 2) },
        IntegrationQueueValue { validation_status: ValidationStatus::Rejected, op: op.clone() },
    );
    assert_eq!(q.len(), 3);
    let keys: Vec<(u64, u8)> = q.entries.iter().map(|(k, _)| (k.timestamp, k.op_hash.bytes[0])).collect();
    assert_eq!(keys, vec![(3, 1), (5, 2), (5, 9)]);
    assert_eq!(q.entries[1].1.validation_status, ValidationStatus::Valid);
}

#[test]
fn handle_failed_maps_every_failure() {
    let h = fake_hash(HashKind::Header, 3);
    assert_eq!(handle_failed(ValidationOutcome::DepMissingFromDht(h)), Outcome::MissingDhtDep);
    assert_eq!(handle_failed(ValidationOutcome::NotHoldingDep(h)), Outcome::AwaitingOpDep(h));
    assert_eq!(
        handle_failed(ValidationOutcome::PrevHeaderError(PrevHeaderError::MissingMeta(h))),
        Outcome::AwaitingOpDep(h)
    );
    let rejected = vec![
        ValidationOutcome::PrevHeaderError(PrevHeaderError::InvalidRoot),
        ValidationOutcome::PrevHeaderError(PrevHeaderError::MissingPrev),
        ValidationOutcome::PrevHeaderError(PrevHeaderError::Timestamp),
        ValidationOutcome::PrevHeaderError(PrevHeaderError::InvalidSeq(3, 1)),
        ValidationOutcome::EntryDefId(1),
        ValidationOutcome::EntryHash,
        ValidationOutcome::EntryType,
        ValidationOutcome::EntryVisibility,
        ValidationOutcome::EntryTooLarge(2, 1),
        ValidationOutcome::TagTooLarge(2, 1),
        ValidationOutcome::NotNewEntry,
        ValidationOutcome::NotCreateLink(h),
        ValidationOutcome::PrivateEntry,
        ValidationOutcome::UpdateTypeMismatch(EntryType::CapClaim, EntryType::CapGrant),
        ValidationOutcome::VerifySignature,
        ValidationOutcome::ZomeId(2),
        ValidationOutcome::MalformedOp,
    ];
    for e in rejected {
        assert_eq!(handle_failed(e), Outcome::Rejected);
    }
}

#[test]
fn structural_checks_report_each_failure() {
    let key = signing_key(8);
    let prev_hash = fake_hash(HashKind::Header, 1);
    let dna_body = HeaderBody::Dna { dna_hash: fake_hash(HashKind::Dna, 1) };
    let root = header(&key, 0, 1, None, dna_body.clone());
    assert_eq!(check_prev_header(&root), Ok(()));
    assert_eq!(check_valid_if_dna(&root), Ok(()));
    let root_with_prev = header(&key, 0, 1, Some(prev_hash), dna_body.clone());
    assert_eq!(
        check_prev_header(&root_with_prev),
        Err(ValidationOutcome::PrevHeaderError(PrevHeaderError::InvalidRoot))
    );
    let late_root = header(&key, 4, 1, None, dna_body);
    assert_eq!(
        check_valid_if_dna(&late_root),
        Err(ValidationOutcome::PrevHeaderError(PrevHeaderError::InvalidRoot))
    );
    let orphan = header(&key, 2, 1, None, HeaderBody::AgentValidationPkg);
    assert_eq!(
        check_prev_header(&orphan),
        Err(ValidationOutcome::PrevHeaderError(PrevHeaderError::MissingPrev))
    );
    let at_zero = header(&key, 0, 1, Some(prev_hash), HeaderBody::AgentValidationPkg);
    assert_eq!(
        check_prev_header(&at_zero),
        Err(ValidationOutcome::PrevHeaderError(PrevHeaderError::InvalidRoot))
    );
    let p = header(&key, 1, 10, Some(prev_hash), HeaderBody::AgentValidationPkg);
    let next = header(&key, 2, 10, Some(prev_hash), HeaderBody::AgentValidationPkg);
    let skip = header(&key, 3, 11, Some(prev_hash), HeaderBody::AgentValidationPkg);
    let older = header(&key, 2, 9, Some(prev_hash), HeaderBody::AgentValidationPkg);
    assert_eq!(check_prev_seq(&next, &p), Ok(()));
    assert_eq!(check_prev_timestamp(&next, &p), Ok(()));
    assert_eq!(
        check_prev_seq(&skip, &p),
        Err(ValidationOutcome::PrevHeaderError(PrevHeaderError::InvalidSeq(3, 1)))
    );
    assert_eq!(
        check_prev_timestamp(&older, &p),
        Err(ValidationOutcome::PrevHeaderError(PrevHeaderError::Timestamp))
    );

    let entry = Entry::App(vec![9; 10]);
    assert_eq!(check_entry_type(&app_type(EntryVisibility::Public), &entry), Ok(()));
    assert_eq!(check_entry_type(&EntryType::CapGrant, &entry), Err(ValidationOutcome::EntryType));
    assert_eq!(check_entry_hash(&hash_entry(&entry), &entry), Ok(()));
    assert_eq!(check_entry_hash(&fake_hash(HashKind::Entry, 0), &entry), Err(ValidationOutcome::EntryHash));
    assert_eq!(check_entry_size(&entry), Ok(()));
    let big = Entry::App(vec![0; MAX_ENTRY_BYTES]);
    // tag byte and eight length bytes come on top of the payload
    assert_eq!(
        check_entry_size(&big),
        Err(ValidationOutcome::EntryTooLarge(MAX_ENTRY_BYTES + 9, MAX_ENTRY_BYTES))
    );
    assert_eq!(check_tag_size(&vec![0; MAX_TAG_BYTES]), Ok(()));
    assert_eq!(
        check_tag_size(&vec![0; MAX_TAG_BYTES + 1]),
        Err(ValidationOutcome::TagTooLarge(401, 400))
    );
    assert_eq!(check_new_entry_header(&p), Err(ValidationOutcome::NotNewEntry));

    let dna = dna_def();
    assert_eq!(check_app_entry_type(0, 1, &dna), Err(ValidationOutcome::ZomeId(1)));
    assert_eq!(check_app_entry_type(2, 0, &dna), Err(ValidationOutcome::EntryDefId(2)));
    let public_def = check_app_entry_type(0, 0, &dna).unwrap();
    let private_def = check_app_entry_type(1, 0, &dna).unwrap();
    assert_eq!(check_app_entry_def(EntryVisibility::Public, &public_def), Ok(()));
    assert_eq!(
        check_app_entry_def(EntryVisibility::Public, &private_def),
        Err(ValidationOutcome::PrivateEntry)
    );
    assert_eq!(
        check_app_entry_def(EntryVisibility::Private, &private_def),
        Err(ValidationOutcome::PrivateEntry)
    );
    assert_eq!(
        check_app_entry_def(EntryVisibility::Private, &public_def),
        Err(ValidationOutcome::EntryVisibility)
    );

    let original = header(
        &key,
        1,
        1,
        Some(prev_hash),
        HeaderBody::Create { entry_type: EntryType::CapClaim, entry_hash: fake_hash(HashKind::Entry, 1) },
    );
    assert_eq!(update_check(&EntryType::CapClaim, &original), Ok(()));
    assert_eq!(
        update_check(&EntryType::CapGrant, &original),
        Err(ValidationOutcome::UpdateTypeMismatch(EntryType::CapClaim, EntryType::CapGrant))
    );
    assert_eq!(update_check(&EntryType::CapClaim, &p), Err(ValidationOutcome::NotNewEntry));
}

#[test]
fn backoff_doubles_up_to_the_cap() {
    let p = RetryPolicy { base: 10, max: 100 };
    assert_eq!(backoff_window(&p, 0), 10);
    assert_eq!(backoff_window(&p, 1), 20);
    assert_eq!(backoff_window(&p, 3), 80);
    assert_eq!(backoff_window(&p, 4), 100);
    assert_eq!(backoff_window(&p, 40), 100);
    let huge = RetryPolicy { base: u64::MAX / 2 + 1, max: u64::MAX };
    assert_eq!(backoff_window(&huge, 1), u64::MAX);
}

/// A DNA root and one public app entry created on it, by `key`.
fn base_fixture(key: &SigningKey, payload: u8) -> (Element, Element) {
    let dna = header(key, 0, 1, None, HeaderBody::Dna { dna_hash: fake_hash(HashKind::Dna, 3) });
    let dna_el = element(key, dna.clone(), None);
    let entry = Entry::App(vec![payload; 4]);
    let create = header(
        key,
        1,
        2,
        Some(hash_header(&dna)),
        HeaderBody::Create { entry_type: app_type(EntryVisibility::Public), entry_hash: hash_entry(&entry) },
    );
    (dna_el, element(key, create, Some(entry)))
}

fn workspace_with_cache(cache: Vec<Element>) -> SysValidationWorkspace {
    SysValidationWorkspace {
        store: DhtStore::new(),
        authored: Vec::new(),
        cache,
        dna: dna_def(),
        forks: Vec::new(),
    }
}

fn link_op(key: &SigningKey, base: HoloHash, target: HoloHash, tag: Vec<u8>, prev: HoloHash) -> DhtOp {
    let link = header(
        key,
        2,
        3,
        Some(prev),
        HeaderBody::CreateLink { base_address: base, target_address: target, zome_id: 0, tag },
    );
    let e = element(key, link, None);
    ops_from_element(&e).into_iter().find(|o| o.kind == DhtOpKind::RegisterAddLink).unwrap()
}

fn store_entry_op(e: &Element) -> DhtOp {
    ops_from_element(e).into_iter().find(|o| o.kind == DhtOpKind::StoreEntry).unwrap()
}

#[test]
fn counterfeit_op_is_dropped() {
    let key = signing_key(9);
    let other = signing_key(10);
    let (dna_el, base_el) = base_fixture(&key, 1);
    let mut op = ops_from_element(&base_el).remove(0);
    assert!(counterfeit_check(&op.signature, &op.header));
    // signed by someone else
    op.signature = sign(&other, &op.header);
    assert!(!counterfeit_check(&op.signature, &op.header));
    let mut ws = workspace_with_cache(vec![dna_el]);
    assert!(!receive_op(&mut ws.store, op.clone()));
    assert!(ws.store.rows.is_empty());
    // a malformed author key is refused as well
    let mut bad_author = op.clone();
    bad_author.header.author = AgentPubKey { key: [2; 32] };
    bad_author.signature = sign(&key, &bad_author.header);
    assert!(!receive_op(&mut ws.store, bad_author));
    sys_validation_workflow(&mut ws, 100, &RetryPolicy { base: 1, max: 10 });
    integrate_dht_ops_workflow(&mut ws.store, &mut IntegrationQueue::new());
    assert!(ws.store.rows.is_empty());
}

#[test]
fn resubmitting_held_op_changes_nothing() {
    let key = signing_key(11);
    let (dna_el, base_el) = base_fixture(&key, 2);
    let mut ws = workspace_with_cache(vec![dna_el]);
    let op = ops_from_element(&base_el).remove(0);
    assert!(receive_op(&mut ws.store, op.clone()));
    assert_eq!(ws.store.rows[0].stage, ValidationLimboStatus::Pending);
    sys_validation_workflow(&mut ws, 100, &RetryPolicy { base: 1, max: 10 });
    assert_eq!(ws.store.rows[0].stage, ValidationLimboStatus::SysValidated);
    apply_app_validation(&mut ws.store, &hash_op(&op), AppValidationResult::Valid, 101);
    integrate_dht_ops_workflow(&mut ws.store, &mut IntegrationQueue::new());
    assert!(ws.store.rows[0].integrated);
    let before = ws.store.rows.clone();
    assert!(!receive_op(&mut ws.store, op));
    assert_eq!(ws.store.rows, before);
}

#[test]
fn missing_dep_reentry() {
    let key = signing_key(12);
    let (dna_el, base_el) = base_fixture(&key, 3);
    let (_, target_el) = base_fixture(&key, 4);
    let base_hash = hash_entry(base_el.entry.as_ref().unwrap());
    let target_hash = hash_entry(target_el.entry.as_ref().unwrap());
    let mut ws = workspace_with_cache(vec![dna_el.clone(), target_el]);
    let link = link_op(&key, base_hash, target_hash, vec![1, 2], hash_header(&base_el.header));
    assert!(receive_op(&mut ws.store, link.clone()));
    let policy = RetryPolicy { base: 1000, max: 100000 };
    let missing = sys_validation_workflow(&mut ws, 10, &policy);
    assert_eq!(missing, vec![base_hash]);
    assert_eq!(ws.store.rows[0].stage, ValidationLimboStatus::AwaitingSysDeps(base_hash));
    assert_eq!(ws.store.rows[0].num_tries, 1);
    assert_eq!(ws.store.rows[0].last_try, Some(10));
    // within the backoff nothing is retried
    sys_validation_workflow(&mut ws, 20, &policy);
    assert_eq!(ws.store.rows[0].num_tries, 1);
    // the base arrives and releases the link
    assert!(receive_op(&mut ws.store, store_entry_op(&base_el)));
    assert_eq!(ws.store.rows[0].stage, ValidationLimboStatus::Pending);
    assert_eq!(ws.store.rows[0].last_try, None);
    let missing = sys_validation_workflow(&mut ws, 30, &policy);
    assert!(missing.is_empty());
    assert_eq!(ws.store.rows[0].stage, ValidationLimboStatus::SysValidated);
    assert_eq!(ws.store.rows[1].stage, ValidationLimboStatus::SysValidated);
}

#[test]
fn missing_target_goes_back_to_pending() {
    let key = signing_key(13);
    let (dna_el, base_el) = base_fixture(&key, 5);
    let base_hash = hash_entry(base_el.entry.as_ref().unwrap());
    let mut ws = workspace_with_cache(vec![dna_el]);
    assert!(receive_op(&mut ws.store, store_entry_op(&base_el)));
    let link = link_op(&key, base_hash, fake_hash(HashKind::Entry, 77), vec![], hash_header(&base_el.header));
    assert!(receive_op(&mut ws.store, link));
    sys_validation_workflow(&mut ws, 10, &RetryPolicy { base: 1, max: 1 });
    assert_eq!(ws.store.rows[1].stage, ValidationLimboStatus::Pending);
    assert_eq!(ws.store.rows[1].num_tries, 1);
}

#[test]
fn fork_detection() {
    let key = signing_key(14);
    let dna = header(&key, 0, 1, None, HeaderBody::Dna { dna_hash: fake_hash(HashKind::Dna, 5) });
    let dna_hash = hash_header(&dna);
    let mut ws = workspace_with_cache(vec![element(&key, dna, None)]);
    let a = header(&key, 1, 2, Some(dna_hash), HeaderBody::AgentValidationPkg);
    let b = header(&key, 1, 3, Some(dna_hash), HeaderBody::AgentValidationPkg);
    assert_ne!(hash_header(&a), hash_header(&b));
    let op_a = ops_from_element(&element(&key, a, None)).remove(0);
    let op_b = ops_from_element(&element(&key, b, None)).remove(0);
    assert!(receive_op(&mut ws.store, op_a));
    assert!(receive_op(&mut ws.store, op_b));
    sys_validation_workflow(&mut ws, 50, &RetryPolicy { base: 1, max: 1 });
    assert_eq!(ws.store.rows[0].stage, ValidationLimboStatus::SysValidated);
    assert_eq!(ws.store.rows[1].stage, ValidationLimboStatus::SysValidated);
    let fork = Fork { author: agent_of(&key), header_seq: 1 };
    assert_eq!(ws.forks, vec![fork, fork]);
}

#[test]
fn oversize_tag_rejection() {
    let key = signing_key(15);
    let (dna_el, base_el) = base_fixture(&key, 6);
    let base_hash = hash_entry(base_el.entry.as_ref().unwrap());
    let mut ws = workspace_with_cache(vec![dna_el, base_el.clone()]);
    assert!(receive_op(&mut ws.store, store_entry_op(&base_el)));
    let link = link_op(&key, base_hash, base_hash, vec![7; MAX_TAG_BYTES + 1], hash_header(&base_el.header));
    assert!(receive_op(&mut ws.store, link));
    let missing = sys_validation_workflow(&mut ws, 10, &RetryPolicy { base: 1, max: 1 });
    assert!(missing.is_empty());
    assert_eq!(ws.store.rows[1].stage, ValidationLimboStatus::AwaitingIntegration);
    assert_eq!(ws.store.rows[1].status, Some(ValidationStatus::Rejected));
    assert!(!ws.store.rows[1].integrated);
    integrate_dht_ops_workflow(&mut ws.store, &mut IntegrationQueue::new());
    assert!(ws.store.rows[1].integrated);
    assert_eq!(ws.store.rows[1].status, Some(ValidationStatus::Rejected));
    // a tag of the largest size passes
    let ok_link = link_op(&key, base_hash, base_hash, vec![7; MAX_TAG_BYTES], hash_header(&base_el.header));
    assert!(receive_op(&mut ws.store, ok_link));
    sys_validation_workflow(&mut ws, 20, &RetryPolicy { base: 1, max: 1 });
    assert_eq!(ws.store.rows[2].stage, ValidationLimboStatus::SysValidated);
}

#[test]
fn agent_activity_skips_app_validation() {
    let key = signing_key(16);
    let dna = header(&key, 0, 1, None, HeaderBody::Dna { dna_hash: fake_hash(HashKind::Dna, 6) });
    let dna_el = element(&key, dna, None);
    let ops = ops_from_element(&dna_el);
    let mut ws = workspace_with_cache(Vec::new());
    assert!(receive_op(&mut ws.store, ops[1].clone()));
    sys_validation_workflow(&mut ws, 1, &RetryPolicy { base: 1, max: 1 });
    assert_eq!(ws.store.rows[0].stage, ValidationLimboStatus::AwaitingIntegration);
    assert_eq!(ws.store.rows[0].status, Some(ValidationStatus::Valid));
    integrate_dht_ops_workflow(&mut ws.store, &mut IntegrationQueue::new());
    assert!(ws.store.rows[0].integrated);
}

#[test]
fn app_validation_results_move_ops() {
    let key = signing_key(17);
    let (dna_el, base_el) = base_fixture(&key, 7);
    let (_, other_el) = base_fixture(&key, 8);
    let mut ws = workspace_with_cache(vec![dna_el]);
    let a = ops_from_element(&base_el).remove(0);
    let b = ops_from_element(&other_el).remove(0);
    assert!(receive_op(&mut ws.store, a.clone()));
    assert!(receive_op(&mut ws.store, b.clone()));
    sys_validation_workflow(&mut ws, 5, &RetryPolicy { base: 1, max: 1 });
    let dep = fake_hash(HashKind::Entry, 4);
    apply_app_validation(&mut ws.store, &hash_op(&a), AppValidationResult::Invalid, 6);
    apply_app_validation(&mut ws.store, &hash_op(&b), AppValidationResult::UnresolvedDependencies(vec![dep]), 6);
    assert_eq!(ws.store.rows[0].status, Some(ValidationStatus::Rejected));
    assert_eq!(ws.store.rows[1].stage, ValidationLimboStatus::AwaitingAppDeps(vec![dep]));
    assert_eq!(ws.store.rows[1].num_tries, 2);
    // a row no longer awaiting app validation is left alone
    apply_app_validation(&mut ws.store, &hash_op(&a), AppValidationResult::Valid, 7);
    assert_eq!(ws.store.rows[0].status, Some(ValidationStatus::Rejected));
}

#[test]
fn integration_takes_the_authored_queue() {
    let key = signing_key(18);
    let mut chain = SourceChain::new();
    fake_genesis(&key, &mut chain);
    let mut produced = ProduceDhtOpsWorkspace::new(chain);
    produce_dht_ops_workflow(&mut produced, 7);
    let n = produced.integration_queue.len();
    let mut store = DhtStore::new();
    integrate_dht_ops_workflow(&mut store, &mut produced.integration_queue);
    assert_eq!(produced.integration_queue.len(), 0);
    assert_eq!(store.rows.len(), n);
    assert!(store.rows.iter().all(|r| r.integrated && r.status == Some(ValidationStatus::Valid)));
    for h in produced.authored_dht_ops.hashes.iter() {
        assert!(store.find(h).is_some());
    }
}

#[test]
fn cascade_prefers_authored_then_table_then_cache() {
    let key = signing_key(19);
    let (dna_el, base_el) = base_fixture(&key, 9);
    let mut ws = workspace_with_cache(vec![dna_el.clone()]);
    let h = hash_header(&base_el.header);
    assert_eq!(ws.retrieve_header(&h), None);
    ws.cache_element(base_el.clone());
    assert_eq!(ws.retrieve_header(&h), Some(base_el.header.clone()));
    let eh = hash_entry(base_el.entry.as_ref().unwrap());
    assert_eq!(ws.retrieve_entry(&eh), base_el.entry.clone());
    assert_eq!(ws.retrieve_header(&hash_header(&dna_el.header)), Some(dna_el.header.clone()));
    assert_eq!(ws.retrieve_entry(&fake_hash(HashKind::Entry, 1)), None);
}

#[test]
fn sys_validate_element_checks_a_committed_element() {
    let key = signing_key(20);
    let other = signing_key(21);
    let (dna_el, base_el) = base_fixture(&key, 10);
    let ws = SysValidationWorkspace::new(vec![dna_el.clone()], dna_def());
    assert_eq!(ws.sys_validate_element(&base_el), Ok(()));
    // a forged signature
    let mut forged = base_el.clone();
    forged.signature = sign(&other, &forged.header);
    assert_eq!(
        ws.sys_validate_element(&forged),
        Err(ValidationOutcome::Counterfeit(forged.signature))
    );
    // an entry that does not hash to the header's entry hash
    let mut wrong_entry = base_el.clone();
    wrong_entry.entry = Some(Entry::App(vec![0]));
    assert_eq!(ws.sys_validate_element(&wrong_entry), Err(ValidationOutcome::EntryHash));
    // a link whose base is not held is reported at once
    let base_hash = hash_entry(base_el.entry.as_ref().unwrap());
    let link = header(
        &key,
        2,
        3,
        Some(hash_header(&base_el.header)),
        HeaderBody::CreateLink { base_address: base_hash, target_address: base_hash, zome_id: 0, tag: vec![] },
    );
    let mut ws2 = SysValidationWorkspace::new(vec![dna_el, base_el.clone()], dna_def());
    assert_eq!(
        ws2.sys_validate_element(&element(&key, link.clone(), None)),
        Err(ValidationOutcome::NotHoldingDep(base_hash))
    );
    assert!(receive_op(&mut ws2.store, store_entry_op(&base_el)));
    assert_eq!(ws2.sys_validate_element(&element(&key, link, None)), Ok(()));
    // the previous header must be retrievable
    let lone = SysValidationWorkspace::new(Vec::new(), dna_def());
    assert_eq!(
        lone.sys_validate_element(&base_el),
        Err(ValidationOutcome::DepMissingFromDht(hash_header(&dna_fixture_header(&key))))
    );
}

fn dna_fixture_header(key: &SigningKey) -> Header {
    header(key, 0, 1, None, HeaderBody::Dna { dna_hash: fake_hash(HashKind::Dna, 3) })
}

#[test]
fn workspace_limbo_moves_and_chain_emptiness() {
    let key = signing_key(22);
    let (dna_el, base_el) = base_fixture(&key, 11);
    let mut ws = SysValidationWorkspace::new(Vec::new(), dna_def());
    assert!(ws.is_chain_empty(&agent_of(&key)));
    let op = ops_from_element(&base_el).remove(0);
    assert!(receive_op(&mut ws.store, op.clone()));
    assert!(!ws.is_chain_empty(&agent_of(&key)));
    assert!(ws.is_chain_empty(&agent_of(&signing_key(23))));
    let h = hash_op(&op);
    ws.put_validation_limbo(&h, ValidationLimboStatus::SysValidated, 40);
    assert_eq!(ws.store.rows[0].stage, ValidationLimboStatus::SysValidated);
    assert_eq!(ws.store.rows[0].last_try, Some(40));
    ws.put_integration_limbo(&h, ValidationStatus::Abandoned);
    assert_eq!(ws.store.rows[0].stage, ValidationLimboStatus::AwaitingIntegration);
    assert_eq!(ws.store.rows[0].status, Some(ValidationStatus::Abandoned));
    // an unknown hash changes nothing
    let before = ws.store.rows.clone();
    ws.put_integration_limbo(&hash_op(&ops_from_element(&dna_el).remove(0)), ValidationStatus::Valid);
    assert_eq!(ws.store.rows, before);
}

#[test]
fn repeated_requests_within_the_window_are_coalesced() {
    let mut sender = dht_pipeline::workflow::IncomingDhtOpSender::new(10);
    let a = fake_hash(HashKind::Entry, 1);
    let b = fake_hash(HashKind::Entry, 2);
    assert!(sender.send_missing(&a, 100));
    assert!(!sender.send_missing(&a, 105));
    assert!(sender.send_missing(&b, 105));
    assert!(!sender.send_missing(&a, 109));
    assert!(sender.send_missing(&a, 110));
    assert_eq!(sender.requests.len(), 3);
}

#[test]
fn element_round_trip_through_integration() {
    let key = signing_key(24);
    let (_, base_el) = base_fixture(&key, 12);
    let mut q = IntegrationQueue::new();
    for op in ops_from_element(&base_el) {
        let h = hash_op(&op);
        q.put(QueueKey { timestamp: 1, op_hash: h }, IntegrationQueueValue { validation_status: ValidationStatus::Valid, op });
    }
    let mut ws = SysValidationWorkspace::new(Vec::new(), dna_def());
    integrate_dht_ops_workflow(&mut ws.store, &mut q);
    assert_eq!(ws.store.rows.len(), 3);
    assert_eq!(ws.retrieve_header(&hash_header(&base_el.header)), Some(base_el.header.clone()));
    let eh = hash_entry(base_el.entry.as_ref().unwrap());
    assert_eq!(ws.retrieve_entry(&eh), base_el.entry.clone());
}

#[test]
fn integration_drops_counterfeit_queue_entries() {
    let key = signing_key(25);
    let other = signing_key(26);
    let (dna_el, base_el) = base_fixture(&key, 13);
    let good = ops_from_element(&dna_el).remove(0);
    let mut bad = ops_from_element(&base_el).remove(0);
    bad.signature = sign(&other, &bad.header);
    let mut q = IntegrationQueue::new();
    for op in [good.clone(), bad.clone()] {
        let h = hash_op(&op);
        q.put(QueueKey { timestamp: 1, op_hash: h }, IntegrationQueueValue { validation_status: ValidationStatus::Valid, op });
    }
    let mut store = DhtStore::new();
    integrate_dht_ops_workflow(&mut store, &mut q);
    assert_eq!(store.rows.len(), 1);
    assert_eq!(store.rows[0].op, good);
    assert!(store.find(&hash_op(&bad)).is_none());
}

#[test]
fn limbo_moves_leave_integrated_ops_alone() {
    let key = signing_key(27);
    let (dna_el, base_el) = base_fixture(&key, 14);
    let mut ws = SysValidationWorkspace::new(Vec::new(), dna_def());
    ws.cache_element(dna_el);
    let op = ops_from_element(&base_el).remove(0);
    let h = hash_op(&op);
    assert!(receive_op(&mut ws.store, op));
    sys_validation_workflow(&mut ws, 5, &RetryPolicy { base: 1, max: 1 });
    ws.put_integration_limbo(&h, ValidationStatus::Valid);
    integrate_dht_ops_workflow(&mut ws.store, &mut IntegrationQueue::new());
    assert!(ws.store.rows[0].integrated);
    let before = ws.store.rows.clone();
    ws.put_validation_limbo(&h, ValidationLimboStatus::Pending, 9);
    assert_eq!(ws.store.rows, before);
    ws.put_integration_limbo(&h, ValidationStatus::Rejected);
    assert_eq!(ws.store.rows, before);
    ws.store.put_validation_limbo(&h, ValidationLimboStatus::SysValidated, 9);
    ws.store.put_integration_limbo(&h, ValidationStatus::Valid);
    assert_eq!(ws.store.rows, before);
}

#[test]
fn private_definition_rejects_a_published_entry() {
    let key = signing_key(28);
    let dna = header(&key, 0, 1, None, HeaderBody::Dna { dna_hash: fake_hash(HashKind::Dna, 3) });
    let dna_el = element(&key, dna.clone(), None);
    // the header claims public, but entry-def 1 is private
    let entry = Entry::App(vec![5; 4]);
    let create = header(
        &key,
        1,
        2,
        Some(hash_header(&dna)),
        HeaderBody::Create {
            entry_type: EntryType::App { id: 1, zome_id: 0, visibility: EntryVisibility::Public },
            entry_hash: hash_entry(&entry),
        },
    );
    let e = element(&key, create, Some(entry));
    let ws = SysValidationWorkspace::new(vec![dna_el], dna_def());
    assert_eq!(ws.sys_validate_element(&e), Err(ValidationOutcome::PrivateEntry));
    assert_eq!(ws.store_entry(&e.header, e.entry.as_ref().unwrap()), Err(ValidationOutcome::PrivateEntry));
}

#[test]
fn table_lookup_prefers_the_vault() {
    let key = signing_key(29);
    let (dna_el, base_el) = base_fixture(&key, 15);
    let mut ws = SysValidationWorkspace::new(Vec::new(), dna_def());
    ws.cache_element(dna_el);
    let ops = ops_from_element(&base_el);
    // the StoreEntry waits in a limbo, the StoreElement is integrated
    assert!(receive_op(&mut ws.store, ops[2].clone()));
    assert!(receive_op(&mut ws.store, ops[0].clone()));
    ws.put_integration_limbo(&hash_op(&ops[0]), ValidationStatus::Valid);
    integrate_dht_ops_workflow(&mut ws.store, &mut IntegrationQueue::new());
    assert!(!ws.store.rows[0].integrated && ws.store.rows[1].integrated);
    let hh = hash_header(&base_el.header);
    assert_eq!(ws.store.find_header(&hh, 0), Some(1));
    assert_eq!(ws.store.find_header(&hh, 1), Some(0));
    assert_eq!(ws.store.find_header(&hh, 2), None);
    assert_eq!(ws.retrieve_header(&hh), Some(base_el.header.clone()));
}
