//! The pipeline's workflow steps over the operation table: admission of incoming
//! operations through the counterfeit check, the system-validation run with its retry policy,
//! the reaction to app validation, and integration.
use vstd::prelude::*;
use crate::encode::{hash_header, header_hash, op_hash};
use crate::hash::HoloHash;
use crate::queue::IntegrationQueue;
use crate::store::{
    first_match, lemma_first_match, DhtOpRow, DhtStore, ValidationLimboStatus, ValidationStatus,
};
use crate::sys_validation::{Fork, SysValidationWorkspace};
use crate::types::{DhtOp, DhtOpKind, DhtOpV, HeaderV};
use crate::validation::{counterfeit_check, spec_counterfeit_free, Outcome};

verus! {

/// How long an operation waits before system validation tries it again.
#[derive(Clone, Copy, Debug, PartialEq, Eq)]
pub struct RetryPolicy {
    pub base: u64,
    pub max: u64,
}

/// The wait after `tries` attempts: `min(base * 2^tries, max)`.
pub open spec fn backoff(p: RetryPolicy, tries: nat) -> int
    decreases tries,
{
    if tries == 0 {
        if p.base <= p.max {
            p.base as int
        } else {
            p.max as int
        }
    } else {
        let w = 2 * backoff(p, (tries - 1) as nat);
        if w <= p.max {
            w
        } else {
            p.max as int
        }
    }
}

proof fn lemma_backoff_bounds(p: RetryPolicy, tries: nat)
    ensures
        0 <= backoff(p, tries) <= p.max,
    decreases tries,
{
    if tries > 0 {
        lemma_backoff_bounds(p, (tries - 1) as nat);
    }
}

/// The wait after `tries` attempts under policy `p`.
pub fn backoff_window(p: &RetryPolicy, tries: u32) -> (r: u64)
    ensures
        r == backoff(*p, tries as nat),
{
    let mut w: u64 = if p.base <= p.max {
        p.base
    } else {
        p.max
    };
    let mut k: u32 = 0;
    while k < tries
        invariant
            0 <= k <= tries,
            w == backoff(*p, k as nat),
            w <= p.max,
        decreases tries - k,
    {
        proof {
            lemma_backoff_bounds(*p, k as nat);
        }
        if w > p.max / 2 {
            w = p.max;
        } else {
            w = 2 * w;
        }
        k = k + 1;
    }
    w
}

/// Whether system validation takes up a row at time `now`: the operation waits in the
/// validation limbo as `Pending` or for a dependency, and its backoff has run out.
pub open spec fn is_ready(row: DhtOpRow, now: u64, p: RetryPolicy) -> bool {
    &&& row.in_validation_limbo()
    &&& (row.stage is Pending || row.stage is AwaitingSysDeps)
    &&& match row.last_try {
        None => true,
        Some(t) => now >= t + backoff(p, row.num_tries as nat),
    }
}

pub fn ready(row: &DhtOpRow, now: u64, p: &RetryPolicy) -> (r: bool)
    ensures
        r == is_ready(*row, now, *p),
{
    if row.integrated {
        return false;
    }
    match row.stage {
        ValidationLimboStatus::Pending | ValidationLimboStatus::AwaitingSysDeps(_) => {},
        _ => {
            return false;
        },
    }
    match row.last_try {
        None => true,
        Some(t) => {
            let w = backoff_window(p, row.num_tries);
            now >= t && now - t >= w
        },
    }
}

/// The row moved to validation-limbo stage `stage`, one more attempt made at `now`.
pub open spec fn limbo_step(row: DhtOpRow, stage: ValidationLimboStatus, now: u64) -> DhtOpRow {
    DhtOpRow {
        stage,
        status: None,
        integrated: false,
        num_tries: if row.num_tries < u32::MAX {
            (row.num_tries + 1) as u32
        } else {
            u32::MAX
        },
        last_try: Some(now),
        ..row
    }
}

/// The row moved to the integration limbo with verdict `s`.
pub open spec fn to_integration(row: DhtOpRow, s: ValidationStatus) -> DhtOpRow {
    DhtOpRow {
        stage: ValidationLimboStatus::AwaitingIntegration,
        status: Some(s),
        integrated: false,
        ..row
    }
}

/// Where an outcome of system validation sends a row: accepted operations await app
/// validation, agent activity goes straight to integration as valid, an operation missing a
/// held dependency awaits it, one missing from the DHT goes back to `Pending`, and a
/// rejected one goes to integration as rejected.
pub open spec fn after_outcome(row: DhtOpRow, o: Outcome, now: u64) -> DhtOpRow {
    match o {
        Outcome::Accepted => limbo_step(row, ValidationLimboStatus::SysValidated, now),
        Outcome::SkipAppValidation => to_integration(row, ValidationStatus::Valid),
        Outcome::AwaitingOpDep(h) => limbo_step(row, ValidationLimboStatus::AwaitingSysDeps(h), now),
        Outcome::MissingDhtDep => limbo_step(row, ValidationLimboStatus::Pending, now),
        Outcome::Rejected => to_integration(row, ValidationStatus::Rejected),
    }
}

/// Another header by the same author at the same sequence number.
pub open spec fn forks_with(h: HeaderV) -> spec_fn(DhtOpRow) -> bool {
    |r: DhtOpRow|
        r.op.header.author == h.author && r.op.header.header_seq == h.header_seq && header_hash(
            r.op.header@,
        ) != header_hash(h)
}

/// Whether the operation table holds a header that forks the chain at `h`.
pub open spec fn has_fork(store: DhtStore, h: HeaderV) -> bool {
    first_match(store.rows@, forks_with(h)) is Some
}

/// Whether an accepted chain-element or agent-activity operation forks its author's chain.
pub open spec fn records_fork(ws: SysValidationWorkspace, row: DhtOpRow) -> bool {
    &&& (row.op.kind == DhtOpKind::StoreElement || row.op.kind
        == DhtOpKind::RegisterAgentActivity)
    &&& (ws.spec_outcome(row.op@) == Outcome::Accepted || ws.spec_outcome(row.op@)
        == Outcome::SkipAppValidation)
    &&& has_fork(ws.store, row.op.header@)
}

pub open spec fn fork_of(row: DhtOpRow) -> Fork {
    Fork { author: row.op.header.author, header_seq: row.op.header.header_seq }
}

impl SysValidationWorkspace {
    /// Whether another header by the same author at the same sequence number is held: the
    /// author's chain has forked there.
    pub fn check_chain_rollback(&self, h: &crate::types::Header) -> (r: bool)
        ensures
            r == has_fork(self.store, h@),
    {
        let own = hash_header(h);
        let rows = &self.store.rows;
        let mut i: usize = 0;
        while i < rows.len()
            invariant
                0 <= i <= rows@.len(),
                *rows == self.store.rows,
                own@ == header_hash(h@),
                forall|j: int| 0 <= j < i ==> !forks_with(h@)(#[trigger] rows@[j]),
            decreases rows@.len() - i,
        {
            let other = &rows[i].op.header;
            if other.header_seq == h.header_seq && other.author.same(&h.author) {
                let oh = hash_header(other);
                if !oh.same(&own) {
                    proof {
                        assert(forks_with(h@)(rows@[i as int]));
                        lemma_first_match(rows@, forks_with(h@), Some(i as int));
                    }
                    return true;
                }
            }
            i = i + 1;
        }
        proof {
            lemma_first_match(rows@, forks_with(h@), None);
        }
        false
    }
}

/// Decides, against one snapshot of the workspace, the outcome of every row ready at `now`,
/// and whether it records a fork.
fn decide_ready_rows(ws: &SysValidationWorkspace, now: u64, policy: &RetryPolicy) -> (r: (
    Vec<Option<Outcome>>,
    Vec<bool>,
))
    ensures
        r.0@.len() == ws.store.rows@.len(),
        r.1@.len() == ws.store.rows@.len(),
        forall|j: int|
            0 <= j < ws.store.rows@.len() ==> #[trigger] r.0@[j] == if is_ready(ws.store.rows@[j], now, *policy) {
                Some(ws.spec_outcome(ws.store.rows@[j].op@))
            } else {
                None::<Outcome>
            },
        forall|j: int|
            0 <= j < ws.store.rows@.len() ==> #[trigger] r.1@[j] == (is_ready(ws.store.rows@[j], now, *policy)
                && records_fork(*ws, ws.store.rows@[j])),
{
    let ghost w0 = *ws;
    let n = ws.store.rows.len();
    let mut decisions: Vec<Option<Outcome>> = Vec::new();
    let mut forked: Vec<bool> = Vec::new();
    let mut i: usize = 0;
    while i < n
        invariant
            0 <= i <= n,
            n == w0.store.rows@.len(),
            w0 == *ws,
                        decisions@.len() == i,
            forked@.len() == i,
            forall|j: int|
                0 <= j < i ==> #[trigger] decisions@[j] == if is_ready(w0.store.rows@[j], now, *policy) {
                    Some(w0.spec_outcome(w0.store.rows@[j].op@))
                } else {
                    None::<Outcome>
                },
            forall|j: int|
                0 <= j < i ==> #[trigger] forked@[j] == (is_ready(w0.store.rows@[j], now, *policy)
                    && records_fork(w0, w0.store.rows@[j])),
        decreases n - i,
    {
        let row = &ws.store.rows[i];
        if ready(row, now, policy) {
            let o = ws.validate_op(&row.op);
            let chain_op = row.op.kind == DhtOpKind::StoreElement || row.op.kind
                == DhtOpKind::RegisterAgentActivity;
            let passed = match o {
                Outcome::Accepted | Outcome::SkipAppValidation => true,
                _ => false,
            };
            let fork = chain_op && passed && ws.check_chain_rollback(&row.op.header);
            decisions.push(Some(o));
            forked.push(fork);
        } else {
            decisions.push(None);
            forked.push(false);
        }
        i = i + 1;
    }
    (decisions, forked)
}

/// The forks that one run records, in row order: one for each ready row that records a
/// fork.
pub open spec fn new_forks(
    ws: SysValidationWorkspace,
    rows: Seq<DhtOpRow>,
    now: u64,
    p: RetryPolicy,
) -> Seq<Fork>
    decreases rows.len(),
{
    if rows.len() == 0 {
        seq![]
    } else {
        new_forks(ws, rows.drop_last(), now, p) + if is_ready(rows.last(), now, p) && records_fork(
            ws,
            rows.last(),
        ) {
            seq![fork_of(rows.last())]
        } else {
            seq![]
        }
    }
}

/// The dependencies that one run finds missing, in row order: one for each ready row whose
/// outcome awaits a held operation.
pub open spec fn missing_deps(
    ws: SysValidationWorkspace,
    rows: Seq<DhtOpRow>,
    now: u64,
    p: RetryPolicy,
) -> Seq<HoloHash>
    decreases rows.len(),
{
    if rows.len() == 0 {
        seq![]
    } else {
        missing_deps(ws, rows.drop_last(), now, p) + if is_ready(rows.last(), now, p) {
            match ws.spec_outcome(rows.last().op@) {
                Outcome::AwaitingOpDep(h) => seq![h],
                _ => seq![],
            }
        } else {
            seq![]
        }
    }
}

/// Moves row `i` as outcome `o` says, records its fork if `fork`, and returns the
/// dependency the row now awaits, if any.
fn apply_decision(ws: &mut SysValidationWorkspace, i: usize, o: Outcome, fork: bool, now: u64) -> (r:
    Option<HoloHash>)
    requires
        old(ws).store.well_formed(),
        i < old(ws).store.rows@.len(),
        !old(ws).store.rows@[i as int].integrated,
    ensures
        final(ws).store.well_formed(),
        final(ws).authored == old(ws).authored,
        final(ws).cache == old(ws).cache,
        final(ws).dna == old(ws).dna,
        final(ws).store.rows@ == old(ws).store.rows@.update(
            i as int,
            after_outcome(old(ws).store.rows@[i as int], o, now),
        ),
        final(ws).forks@ == if fork {
            old(ws).forks@.push(fork_of(old(ws).store.rows@[i as int]))
        } else {
            old(ws).forks@
        },
        r == match o {
            Outcome::AwaitingOpDep(h) => Some(h),
            _ => None::<HoloHash>,
        },
{
    let hash = ws.store.rows[i].hash;
    let f = Fork {
        author: ws.store.rows[i].op.header.author,
        header_seq: ws.store.rows[i].op.header.header_seq,
    };
    proof {
        ws.store.lemma_index_of_row(i as int);
    }
    let r = match o {
        Outcome::Accepted => {
            ws.store.put_validation_limbo(&hash, ValidationLimboStatus::SysValidated, now);
            None
        },
        Outcome::SkipAppValidation => {
            ws.store.put_integration_limbo(&hash, ValidationStatus::Valid);
            None
        },
        Outcome::AwaitingOpDep(dep) => {
            ws.store.put_validation_limbo(&hash, ValidationLimboStatus::AwaitingSysDeps(dep), now);
            Some(dep)
        },
        Outcome::MissingDhtDep => {
            ws.store.put_validation_limbo(&hash, ValidationLimboStatus::Pending, now);
            None
        },
        Outcome::Rejected => {
            ws.store.put_integration_limbo(&hash, ValidationStatus::Rejected);
            None
        },
    };
    if fork {
        ws.forks.push(f);
    }
    r
}

/// The system-validation workflow. Reading one snapshot of the workspace, it validates
/// every row that is ready at `now` and moves it as its outcome says; an accepted
/// chain-element or agent-activity operation that forks its author's chain is recorded as a
/// fork. Returns the hashes of the held dependencies that operations now await, for the
/// incoming-operation sender to fetch.
pub fn sys_validation_workflow(
    ws: &mut SysValidationWorkspace,
    now: u64,
    policy: &RetryPolicy,
) -> (r: Vec<HoloHash>)
    requires
        old(ws).store.well_formed(),
    ensures
        final(ws).store.well_formed(),
        final(ws).authored == old(ws).authored,
        final(ws).cache == old(ws).cache,
        final(ws).dna == old(ws).dna,
        final(ws).store.rows@.len() == old(ws).store.rows@.len(),
        forall|i: int|
            0 <= i < old(ws).store.rows@.len() ==> #[trigger] final(ws).store.rows@[i] == if is_ready(
                old(ws).store.rows@[i],
                now,
                *policy,
            ) {
                after_outcome(
                    old(ws).store.rows@[i],
                    old(ws).spec_outcome(old(ws).store.rows@[i].op@),
                    now,
                )
            } else {
                old(ws).store.rows@[i]
            },
        final(ws).forks@ == old(ws).forks@ + new_forks(*old(ws), old(ws).store.rows@, now, *policy),
        r@ == missing_deps(*old(ws), old(ws).store.rows@, now, *policy),
        old(ws).store.counterfeit_free() ==> final(ws).store.counterfeit_free(),
{
    let ghost w0 = *ws;
    let n = ws.store.rows.len();
    let (decisions, forked) = decide_ready_rows(ws, now, policy);
    let mut missing: Vec<HoloHash> = Vec::new();
    let mut i: usize = 0;
    while i < n
        invariant
            0 <= i <= n,
            n == w0.store.rows@.len(),
            decisions@.len() == n,
            forked@.len() == n,
            ws.store.well_formed(),
            ws.store.rows@.len() == n,
            ws.authored == w0.authored,
            ws.cache == w0.cache,
            ws.dna == w0.dna,
            forall|j: int|
                0 <= j < n ==> #[trigger] decisions@[j] == if is_ready(w0.store.rows@[j], now, *policy) {
                    Some(w0.spec_outcome(w0.store.rows@[j].op@))
                } else {
                    None::<Outcome>
                },
            forall|j: int|
                0 <= j < n ==> #[trigger] forked@[j] == (is_ready(w0.store.rows@[j], now, *policy)
                    && records_fork(w0, w0.store.rows@[j])),
            forall|j: int|
                0 <= j < n ==> #[trigger] ws.store.rows@[j] == if j < i && decisions@[j] is Some {
                    after_outcome(w0.store.rows@[j], decisions@[j]->Some_0, now)
                } else {
                    w0.store.rows@[j]
                },
            ws.forks@ == w0.forks@ + new_forks(w0, w0.store.rows@.take(i as int), now, *policy),
            missing@ == missing_deps(w0, w0.store.rows@.take(i as int), now, *policy),
        decreases n - i,
    {
        let ghost before = ws.store.rows@;
        proof {
            assert(w0.store.rows@.take(i + 1).drop_last() =~= w0.store.rows@.take(i as int));
            assert(w0.store.rows@.take(i + 1).last() == w0.store.rows@[i as int]);
        }
        match decisions[i] {
            None => {},
            Some(o) => {
                assert(ws.store.rows@[i as int] == w0.store.rows@[i as int]);
                let dep = apply_decision(ws, i, o, forked[i], now);
                match dep {
                    Some(h) => missing.push(h),
                    None => {},
                }
            },
        }
        proof {
            assert forall|j: int|
                0 <= j < n implies #[trigger] ws.store.rows@[j] == if j < i + 1
                && decisions@[j] is Some {
                after_outcome(w0.store.rows@[j], decisions@[j]->Some_0, now)
            } else {
                w0.store.rows@[j]
            } by {
                if j != i {
                    assert(ws.store.rows@[j] == before[j]);
                }
            }
            assert(ws.forks@ =~= w0.forks@ + new_forks(w0, w0.store.rows@.take(i + 1), now, *policy));
            assert(missing@ =~= missing_deps(w0, w0.store.rows@.take(i + 1), now, *policy));
        }
        i = i + 1;
    }
    proof {
        assert(w0.store.rows@.take(n as int) =~= w0.store.rows@);
        if w0.store.counterfeit_free() {
            assert forall|j: int| 0 <= j < ws.store.rows@.len() implies spec_counterfeit_free(
                (#[trigger] ws.store.rows@[j]).op.signature,
                ws.store.rows@[j].op.header@,
            ) by {
                assert(ws.store.rows@[j].op == w0.store.rows@[j].op);
            }
        }
    }
    missing
}

/// Whether an operation satisfies a dependency on hash `d`: its header or the entry its
/// header creates has that hash.
pub open spec fn satisfies(op: DhtOpV, d: HoloHash) -> bool {
    d@ == header_hash(op.header) || (op.header.entry_hash() matches Some(e) && e@ == d@)
}

/// The row back in `Pending`, with no backoff to wait out.
pub open spec fn released(row: DhtOpRow) -> DhtOpRow {
    DhtOpRow { stage: ValidationLimboStatus::Pending, last_try: None, ..row }
}

pub open spec fn awaits_satisfied(row: DhtOpRow, op: DhtOpV) -> bool {
    &&& !row.integrated
    &&& row.stage matches ValidationLimboStatus::AwaitingSysDeps(d) && satisfies(op, d)
}

/// The incoming-operation receiver. An operation whose header signature does not verify
/// under its author's key, or whose author key is malformed, is dropped. An operation the
/// table already holds, in any stage, changes nothing. Any other operation enters the
/// validation limbo as `Pending`, and the operations that awaited it are released back to
/// `Pending` with no backoff. Returns whether the operation was added.
pub fn receive_op(store: &mut DhtStore, op: DhtOp) -> (r: bool)
    requires
        old(store).well_formed(),
    ensures
        final(store).well_formed(),
        r == (spec_counterfeit_free(op.signature, op.header@) && !old(store).contains(
            op_hash(op@),
        )),
        !r ==> final(store).rows@ == old(store).rows@,
        r ==> final(store).rows@.len() == old(store).rows@.len() + 1,
        r ==> final(store).rows@.last().op@ == op@ && final(store).rows@.last().stage
            == ValidationLimboStatus::Pending && final(store).rows@.last().in_validation_limbo(),
        old(store).counterfeit_free() ==> final(store).counterfeit_free(),
        r ==> forall|i: int|
            0 <= i < old(store).rows@.len() ==> #[trigger] final(store).rows@[i] == if awaits_satisfied(
                old(store).rows@[i],
                op@,
            ) {
                released(old(store).rows@[i])
            } else {
                old(store).rows@[i]
            },
{
    if !counterfeit_check(&op.signature, &op.header) {
        return false;
    }
    let header_h = hash_header(&op.header);
    let entry_h = op.header.entry_hash();
    let ghost opv = op@;
    let ghost sig = op.signature;
    let ghost hv = op.header@;
    let added = store.put_incoming(op);
    if !added {
        return false;
    }
    let n = store.rows.len() - 1;
    let ghost s0 = store.rows@;
    let mut i: usize = 0;
    while i < n
        invariant
            0 <= i <= n,
            n + 1 == store.rows@.len(),
            s0.len() == n + 1,
            header_h@ == header_hash(opv.header),
            entry_h == opv.header.entry_hash(),
            store.well_formed(),
            store.rows@[n as int] == s0[n as int],
            forall|j: int|
                0 <= j < n ==> #[trigger] store.rows@[j] == if j < i && awaits_satisfied(
                    s0[j],
                    opv,
                ) {
                    released(s0[j])
                } else {
                    s0[j]
                },
        decreases n - i,
    {
        let release = match &store.rows[i].stage {
            ValidationLimboStatus::AwaitingSysDeps(d) => {
                !store.rows[i].integrated && (d.same(&header_h) || match &entry_h {
                    Some(e) => d.same(e),
                    None => false,
                })
            },
            _ => false,
        };
        if release {
            let ghost before = store.rows@;
            let mut row = store.rows.remove(i);
            row.stage = ValidationLimboStatus::Pending;
            row.last_try = None;
            store.rows.insert(i, row);
            proof {
                assert(store.rows@ =~= before.update(i as int, row));
                assert(row.well_formed());
                assert forall|a: int, b: int|
                    0 <= a < b < store.rows@.len() implies (#[trigger] store.rows@[a]).hash@
                    != (#[trigger] store.rows@[b]).hash@ by {
                    assert(before[a].hash@ != before[b].hash@);
                }
                assert forall|a: int| 0 <= a < store.rows@.len() implies (
                #[trigger] store.rows@[a]).well_formed() by {
                    if a != i {
                        assert(before[a] == store.rows@[a]);
                    }
                }
            }
        }
        i = i + 1;
    }
    proof {
        if old(store).counterfeit_free() {
            assert forall|j: int| 0 <= j < store.rows@.len() implies spec_counterfeit_free(
                (#[trigger] store.rows@[j]).op.signature,
                store.rows@[j].op.header@,
            ) by {
                if j < n {
                    assert(s0[j] == old(store).rows@[j]);
                    assert(store.rows@[j].op == s0[j].op);
                } else {
                    assert(store.rows@[j] == s0[n as int]);
                    assert(s0[n as int].op.signature == sig && s0[n as int].op.header@ == hv);
                }
            }
        }
    }
    true
}

/// The requests for missing operations made so far, each with the time it was made, and
/// the window within which a repeated request for the same hash is coalesced.
pub struct IncomingDhtOpSender {
    pub requests: Vec<(HoloHash, u64)>,
    pub window: u64,
}

/// Whether a request made at `t` still covers time `now`.
pub open spec fn within_window(t: u64, now: u64, window: u64) -> bool {
    t <= now && now < t + window
}

impl IncomingDhtOpSender {
    pub open spec fn recently_requested(&self, h: HoloHash, now: u64) -> bool {
        exists|i: int|
            0 <= i < self.requests@.len() && self.requests@[i].0@ == h@ && within_window(
                self.requests@[i].1,
                now,
                self.window,
            )
    }

    pub fn new(window: u64) -> (r: IncomingDhtOpSender)
        ensures
            r.requests@.len() == 0,
            r.window == window,
    {
        IncomingDhtOpSender { requests: Vec::new(), window }
    }

    /// Asks for the operation behind a missing dependency `h` at time `now`. A hash asked for
    /// within the window is not asked for again. Returns whether a fetch should go out; when
    /// it should, the request is recorded.
    pub fn send_missing(&mut self, h: &HoloHash, now: u64) -> (r: bool)
        ensures
            r == !old(self).recently_requested(*h, now),
            r ==> final(self).requests@ == old(self).requests@.push((*h, now)),
            !r ==> final(self).requests@ == old(self).requests@,
            final(self).window == old(self).window,
    {
        let mut i: usize = 0;
        while i < self.requests.len()
            invariant
                0 <= i <= self.requests@.len(),
                forall|j: int|
                    0 <= j < i ==> !(#[trigger] self.requests@[j].0@ == h@ && within_window(
                        self.requests@[j].1,
                        now,
                        self.window,
                    )),
            decreases self.requests@.len() - i,
        {
            let (rh, t) = self.requests[i];
            if rh.same(h) && t <= now && now - t < self.window {
                return false;
            }
            i = i + 1;
        }
        self.requests.push((*h, now));
        true
    }
}

/// What integration makes of a row: one in the integration limbo becomes integrated,
/// into the vault when valid and into the rejected store otherwise.
pub open spec fn integrated_row(row: DhtOpRow) -> DhtOpRow {
    if row.in_integration_limbo() {
        DhtOpRow { integrated: true, ..row }
    } else {
        row
    }
}

/// A row made from an authored operation taken off the integration queue.
pub open spec fn queued_row(row: DhtOpRow, status: ValidationStatus, op: DhtOpV) -> bool {
    &&& spec_counterfeit_free(op.signature, op.header)
    &&& row.op@ == op
    &&& row.integrated
    &&& row.status == Some(status)
    &&& row.stage is AwaitingIntegration
}

/// Whether a row was made from an operation of the queue.
pub open spec fn from_queue(q: IntegrationQueue, row: DhtOpRow) -> bool {
    exists|k: int|
        0 <= k < q.entries@.len() && #[trigger] queued_row(
            row,
            q.entries@[k].1.validation_status,
            q.entries@[k].1.op@,
        )
}

/// The integration workflow. Every row in the integration limbo is integrated; then every
/// authored operation in the queue, in key order, is integrated with its status, unless the
/// table already holds it or its signature does not verify. The queue is left empty.
pub fn integrate_dht_ops_workflow(store: &mut DhtStore, queue: &mut IntegrationQueue)
    requires
        old(store).well_formed(),
    ensures
        final(store).well_formed(),
        final(queue).entries@.len() == 0,
        final(store).rows@.len() >= old(store).rows@.len(),
        forall|i: int|
            0 <= i < old(store).rows@.len() ==> #[trigger] final(store).rows@[i] == integrated_row(
                old(store).rows@[i],
            ),
        forall|i: int|
            old(store).rows@.len() <= i < final(store).rows@.len() ==> from_queue(
                *old(queue),
                #[trigger] final(store).rows@[i],
            ),
        forall|k: int|
            0 <= k < old(queue).entries@.len() && spec_counterfeit_free(
                old(queue).entries@[k].1.op.signature,
                old(queue).entries@[k].1.op.header@,
            ) ==> #[trigger] final(store).contains(op_hash(old(queue).entries@[k].1.op@)),
        old(store).counterfeit_free() ==> final(store).counterfeit_free(),
{
    let n = store.rows.len();
    let mut i: usize = 0;
    while i < n
        invariant
            0 <= i <= n,
            n == old(store).rows@.len(),
            store.rows@.len() == n,
            store.well_formed(),
            forall|j: int|
                0 <= j < n ==> #[trigger] store.rows@[j] == if j < i {
                    integrated_row(old(store).rows@[j])
                } else {
                    old(store).rows@[j]
                },
        decreases n - i,
    {
        let in_limbo = !store.rows[i].integrated && match store.rows[i].stage {
            ValidationLimboStatus::AwaitingIntegration => true,
            _ => false,
        };
        if in_limbo {
            let ghost before = store.rows@;
            let mut row = store.rows.remove(i);
            row.integrated = true;
            store.rows.insert(i, row);
            proof {
                assert(store.rows@ =~= before.update(i as int, row));
                assert forall|a: int, b: int|
                    0 <= a < b < store.rows@.len() implies (#[trigger] store.rows@[a]).hash@
                    != (#[trigger] store.rows@[b]).hash@ by {
                    assert(before[a].hash@ != before[b].hash@);
                }
                assert forall|a: int| 0 <= a < store.rows@.len() implies (
                #[trigger] store.rows@[a]).well_formed() by {
                    if a != i {
                        assert(before[a] == store.rows@[a]);
                    }
                }
            }
        }
        i = i + 1;
    }
    let mut entries: Vec<(crate::queue::QueueKey, crate::queue::IntegrationQueueValue)> = Vec::new();
    std::mem::swap(&mut entries, &mut queue.entries);
    let ghost q = old(queue).entries@;
    assert(entries@ == q);
    let mut k: usize = 0;
    let ghost mut src: Seq<int> = seq![];
    while k < entries.len()
        invariant
            n == old(store).rows@.len(),
            store.well_formed(),
            store.rows@.len() >= n,
            queue.entries@.len() == 0,
            entries@ == q,
            0 <= k <= q.len(),
            forall|j: int|
                0 <= j < n ==> #[trigger] store.rows@[j] == integrated_row(old(store).rows@[j]),
            store.rows@.len() == n + src.len(),
            forall|t: int|
                0 <= t < src.len() ==> 0 <= #[trigger] src[t] < q.len() && queued_row(
                    store.rows@[n + t],
                    q[src[t]].1.validation_status,
                    q[src[t]].1.op@,
                ),
            forall|x: int|
                0 <= x < k && spec_counterfeit_free(q[x].1.op.signature, q[x].1.op.header@)
                    ==> #[trigger] store.contains(op_hash(q[x].1.op@)),
        decreases q.len() - k,
    {
        let value = &entries[k].1;
        let hash = crate::encode::hash_op(&value.op);
        let ghost opv = value.op@;
        let ghost st = value.validation_status;
        let ghost before = store.rows@;
        let ghost s0 = *store;
        assert(opv == q[k as int].1.op@ && st == q[k as int].1.validation_status);
        let genuine = counterfeit_check(&value.op.signature, &value.op.header);
        if genuine && store.find(&hash).is_none() {
            let row = DhtOpRow {
                hash,
                op: value.op.duplicate(),
                stage: ValidationLimboStatus::AwaitingIntegration,
                status: Some(value.validation_status),
                integrated: true,
                num_tries: 0,
                last_try: None,
            };
            store.rows.push(row);
            proof {
                assert forall|a: int, b: int|
                    0 <= a < b < store.rows@.len() implies (#[trigger] store.rows@[a]).hash@
                    != (#[trigger] store.rows@[b]).hash@ by {
                    if b == store.rows@.len() - 1 {
                        assert(before[a].hash@ != hash@);
                    } else {
                        assert(before[a].hash@ != before[b].hash@);
                    }
                }
                assert forall|a: int| 0 <= a < store.rows@.len() implies (
                #[trigger] store.rows@[a]).well_formed() by {
                    if a < before.len() {
                        assert(before[a] == store.rows@[a]);
                    }
                }
                src = src.push(k as int);
                assert forall|t: int| 0 <= t < src.len() implies 0 <= #[trigger] src[t] < q.len()
                    && queued_row(
                    store.rows@[n + t],
                    q[src[t]].1.validation_status,
                    q[src[t]].1.op@,
                ) by {
                    if t < src.len() - 1 {
                        assert(store.rows@[n + t] == before[n + t]);
                    }
                }
                assert(store.rows@[store.rows@.len() - 1].hash@ == op_hash(opv));
                assert forall|x: int|
                    0 <= x < k + 1 && spec_counterfeit_free(q[x].1.op.signature, q[x].1.op.header@)
                    implies #[trigger] store.contains(op_hash(q[x].1.op@)) by {
                    if x < k {
                        assert(s0.contains(op_hash(q[x].1.op@)));
                        let y = choose|y: int| 0 <= y < before.len() && before[y].hash@ == op_hash(q[x].1.op@);
                        assert(store.rows@[y] == before[y]);
                    } else {
                        assert(store.rows@[store.rows@.len() - 1].hash@ == op_hash(q[x].1.op@));
                    }
                }
            }
        }
        k = k + 1;
    }
    proof {
        assert forall|i: int|
            old(store).rows@.len() <= i < store.rows@.len() implies from_queue(
                *old(queue),
                #[trigger] store.rows@[i],
            ) by {
            let t = i - n;
            let x = src[t];
            assert(0 <= x < q.len());
            assert(queued_row(
                store.rows@[i],
                old(queue).entries@[x].1.validation_status,
                old(queue).entries@[x].1.op@,
            ));
        }
        if old(store).counterfeit_free() {
            assert forall|i: int| 0 <= i < store.rows@.len() implies spec_counterfeit_free(
                (#[trigger] store.rows@[i]).op.signature,
                store.rows@[i].op.header@,
            ) by {
                if i < n {
                    assert(store.rows@[i].op == old(store).rows@[i].op);
                } else {
                    let x = src[i - n];
                    assert(queued_row(store.rows@[i], q[x].1.validation_status, q[x].1.op@));
                }
            }
        }
    }
}

/// What app validation returned for an operation.
#[derive(Clone, Debug, PartialEq, Eq)]
pub enum AppValidationResult {
    Valid,
    Invalid,
    UnresolvedDependencies(Vec<HoloHash>),
}

/// Records app validation's verdict on the operation with op hash `h`, if it awaits one
/// (system-validated, or awaiting app dependencies): valid and invalid operations go to
/// integration as valid and rejected; unresolved dependencies make it await them, one
/// attempt more, made at `now`. Any other row, or a hash not held, changes nothing.
pub fn apply_app_validation(store: &mut DhtStore, h: &HoloHash, result: AppValidationResult, now: u64)
    requires
        old(store).well_formed(),
    ensures
        final(store).well_formed(),
        final(store).rows@.len() == old(store).rows@.len(),
        match old(store).index_of(h@) {
            Some(i) => if old(store).rows@[i].in_validation_limbo() && (old(store).rows@[i].stage
                is SysValidated || old(store).rows@[i].stage is AwaitingAppDeps) {
                final(store).rows@ == old(store).rows@.update(
                    i,
                    match result {
                        AppValidationResult::Valid => to_integration(
                            old(store).rows@[i],
                            ValidationStatus::Valid,
                        ),
                        AppValidationResult::Invalid => to_integration(
                            old(store).rows@[i],
                            ValidationStatus::Rejected,
                        ),
                        AppValidationResult::UnresolvedDependencies(deps) => limbo_step(
                            old(store).rows@[i],
                            ValidationLimboStatus::AwaitingAppDeps(deps),
                            now,
                        ),
                    },
                )
            } else {
                final(store).rows@ == old(store).rows@
            },
            None => final(store).rows@ == old(store).rows@,
        },
        old(store).counterfeit_free() ==> final(store).counterfeit_free(),
{
    let i = match store.find(h) {
        None => {
            return;
        },
        Some(i) => i,
    };
    let awaiting = !store.rows[i].integrated && match store.rows[i].stage {
        ValidationLimboStatus::SysValidated | ValidationLimboStatus::AwaitingAppDeps(_) => true,
        _ => false,
    };
    if !awaiting {
        return;
    }
    match result {
        AppValidationResult::Valid => store.put_integration_limbo(h, ValidationStatus::Valid),
        AppValidationResult::Invalid => store.put_integration_limbo(h, ValidationStatus::Rejected),
        AppValidationResult::UnresolvedDependencies(deps) => store.put_validation_limbo(
            h,
            ValidationLimboStatus::AwaitingAppDeps(deps),
            now,
        ),
    }
    proof {
        if old(store).counterfeit_free() {
            assert forall|j: int| 0 <= j < store.rows@.len() implies spec_counterfeit_free(
                (#[trigger] store.rows@[j]).op.signature,
                store.rows@[j].op.header@,
            ) by {
                assert(store.rows@[j].op == old(store).rows@[j].op);
            }
        }
    }
}

/// An operation rejected by system validation sits in the integration limbo as rejected,
/// and integration puts it in the rejected store, never in the vault.
pub proof fn lemma_rejected_never_in_vault(row: DhtOpRow, now: u64)
    ensures
        after_outcome(row, Outcome::Rejected, now).in_integration_limbo(),
        after_outcome(row, Outcome::Rejected, now).status == Some(ValidationStatus::Rejected),
        !after_outcome(row, Outcome::Rejected, now).in_vault(),
        integrated_row(after_outcome(row, Outcome::Rejected, now)).in_rejected(),
        !integrated_row(after_outcome(row, Outcome::Rejected, now)).in_vault(),
{
}

/// In a table kept by this library's steps from an empty one, no operation in the
/// validation limbo, the integration limbo, the vault or the rejected store is counterfeit:
/// every step above keeps [`DhtStore::counterfeit_free`], and this is what it says of a row.
pub proof fn lemma_no_counterfeit_held(store: DhtStore, i: int)
    requires
        store.counterfeit_free(),
        0 <= i < store.rows@.len(),
    ensures
        spec_counterfeit_free(store.rows@[i].op.signature, store.rows@[i].op.header@),
        store.rows@[i].in_validation_limbo() || store.rows@[i].in_integration_limbo()
            || store.rows@[i].in_vault() || store.rows@[i].in_rejected(),
{
}

/// A chain element whose previous header is retrievable but which does not come one
/// sequence number after it, or is older than it, is rejected: system validation sends it to
/// the integration limbo as rejected, never on towards the vault as valid.
pub proof fn lemma_broken_chain_link_rejected(ws: SysValidationWorkspace, row: DhtOpRow, now: u64)
    requires
        row.op.kind == DhtOpKind::StoreElement,
        !row.op.header@.is_dna(),
        row.op.header.header_seq > 0,
        row.op.header.prev_header matches Some(p) && ws.cascade_header(p@) matches Some(prev) && (
        row.op.header.header_seq != prev.header_seq + 1 || row.op.header.timestamp
            < prev.timestamp),
    ensures
        ws.spec_outcome(row.op@) == Outcome::Rejected,
        after_outcome(row, ws.spec_outcome(row.op@), now).in_integration_limbo(),
        after_outcome(row, ws.spec_outcome(row.op@), now).status == Some(ValidationStatus::Rejected),
{
}

/// A chain element that passes validation while another header by its author at its
/// sequence number is held is still accepted, and the run records the fork.
pub proof fn lemma_fork_recorded_not_rejected(ws: SysValidationWorkspace, row: DhtOpRow)
    requires
        row.op.kind == DhtOpKind::StoreElement,
        ws.spec_validate_op(row.op@) is Ok,
        has_fork(ws.store, row.op.header@),
    ensures
        ws.spec_outcome(row.op@) == Outcome::Accepted,
        records_fork(ws, row),
{
}

/// A new link whose base is held and whose target is retrievable, but whose tag is longer
/// than the largest allowed, is rejected.
pub proof fn lemma_oversize_tag_rejected(ws: SysValidationWorkspace, row: DhtOpRow, now: u64)
    requires
        row.op.kind == DhtOpKind::RegisterAddLink,
        row.op.header.body matches crate::types::HeaderBody::CreateLink {
            base_address,
            target_address,
            tag,
            ..
        } && ws.spec_hold_any_store_entry(base_address) is Ok && ws.cascade_entry(
            target_address@,
        ) is Some && tag@.len() > crate::validation::MAX_TAG_BYTES,
    ensures
        ws.spec_outcome(row.op@) == Outcome::Rejected,
        after_outcome(row, ws.spec_outcome(row.op@), now).status == Some(ValidationStatus::Rejected),
{
}

} // verus!
