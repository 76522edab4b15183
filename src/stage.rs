use vstd::prelude::*;
use crate::backstage::{CreatedLease, Lease, LeaseView};

verus! {

/// What the local registry holds for a key.
#[derive(Clone, Copy, Debug, PartialEq, Eq, Structural)]
pub enum EntryState {
    /// A mailbox runtime that is built, started or not: its start gate
    /// decides who starts it.
    Live,
    /// A runtime whose queues are closed and whose loop has ended.
    Stopped,
}

/// What a lookup of a key does next.
#[derive(Clone, Copy, Debug, PartialEq, Eq, Structural)]
pub enum Action {
    /// No local entry: ask the lease authority for the key's lease.
    AskAuthority,
    /// Take the entry's start gate if it is still free and then start the
    /// runtime; either way return the entry's handle.
    Activate,
    /// The entry's runtime has ended: remove the entry.
    Discard,
    /// The key has no live owner: take this node's claim lock for the key
    /// and ask the authority again while holding it.
    Reserve,
    /// Holding the claim lock, the key still has no owner: claim it with
    /// this node's location, then release the lock.
    Claim,
    /// Holding the claim lock, the key is still persisted: claim it, rebuild
    /// the actor from its stored state, then release the lock.
    Rehydrate,
    /// A stopped runtime was removed: take the claim lock and claim the key
    /// afresh for the runtime that replaces it, then release the lock.
    Reclaim,
    /// This node owns the key: insert a fresh entry unless one is there.
    InsertFresh,
    /// Look the key up again.
    Retry,
    /// Another node owns the key: forward calls to its location.
    Proxy,
}

pub open spec fn entry_action(found: Option<EntryState>) -> Action {
    match found {
        None => Action::AskAuthority,
        Some(EntryState::Live) => Action::Activate,
        Some(EntryState::Stopped) => Action::Discard,
    }
}

/// The step after the authority's answer, asked without the claim lock.
pub open spec fn lease_action(l: LeaseView) -> Action {
    match l {
        LeaseView::Empty(_) => Action::Reserve,
        LeaseView::Stored(_, _) => Action::Reserve,
        LeaseView::Local(_) => Action::InsertFresh,
        LeaseView::Remote(_, _) => Action::Proxy,
    }
}

/// The step after the authority's answer, asked while holding the claim lock.
pub open spec fn reserved_lease_action(l: LeaseView) -> Action {
    match l {
        LeaseView::Empty(_) => Action::Claim,
        LeaseView::Stored(_, _) => Action::Rehydrate,
        LeaseView::Local(_) => Action::InsertFresh,
        LeaseView::Remote(_, _) => Action::Proxy,
    }
}

/// The step after a claim: the claimant's lease decides.
pub open spec fn claimed_action(l: LeaseView) -> Action {
    match l {
        LeaseView::Remote(_, _) => Action::Proxy,
        _ => Action::InsertFresh,
    }
}

pub open spec fn insert_action(inserted: bool, existing: EntryState) -> Action {
    if inserted {
        Action::Retry
    } else {
        entry_action(Some(existing))
    }
}

/// The caller that removed the stopped entry claims the key afresh; one
/// that found it already gone looks again.
pub open spec fn discard_action(removed: bool) -> Action {
    if removed {
        Action::Reclaim
    } else {
        Action::Retry
    }
}

/// The first step of a lookup, from what the local registry holds for the key.
pub fn on_entry(found: Option<EntryState>) -> (r: Action)
    ensures
        r == entry_action(found),
{
    match found {
        None => Action::AskAuthority,
        Some(EntryState::Live) => Action::Activate,
        Some(EntryState::Stopped) => Action::Discard,
    }
}

/// The step that follows the authority's answer for a key with no local
/// entry, asked without the claim lock.
pub fn on_lease(lease: &Lease) -> (r: Action)
    ensures
        r == lease_action(lease@),
{
    match lease {
        Lease::Empty(_) => Action::Reserve,
        Lease::Stored(_) => Action::Reserve,
        Lease::Created(CreatedLease::Local(_)) => Action::InsertFresh,
        Lease::Created(CreatedLease::Remote(_)) => Action::Proxy,
    }
}

/// The step that follows the authority's answer, asked while holding the
/// key's claim lock.
pub fn on_reserved_lease(lease: &Lease) -> (r: Action)
    ensures
        r == reserved_lease_action(lease@),
{
    match lease {
        Lease::Empty(_) => Action::Claim,
        Lease::Stored(_) => Action::Rehydrate,
        Lease::Created(CreatedLease::Local(_)) => Action::InsertFresh,
        Lease::Created(CreatedLease::Remote(_)) => Action::Proxy,
    }
}

/// The step that follows a claim, whichever node won it.
pub fn on_claimed(created: &CreatedLease) -> (r: Action)
    ensures
        r == claimed_action(created@),
{
    match created {
        CreatedLease::Local(_) => Action::InsertFresh,
        CreatedLease::Remote(_) => Action::Proxy,
    }
}

/// The step that follows an insert-if-absent of a fresh entry: a retry
/// where it went in, else the entry that was there first.
pub fn on_insert(inserted: bool, existing: EntryState) -> (r: Action)
    ensures
        r == insert_action(inserted, existing),
{
    if inserted {
        Action::Retry
    } else {
        on_entry(Some(existing))
    }
}

/// The step that follows a remove-if-stopped of the key's entry.
pub fn on_discard(removed: bool) -> (r: Action)
    ensures
        r == discard_action(removed),
{
    if removed {
        Action::Reclaim
    } else {
        Action::Retry
    }
}

// A model of many callers resolving one key at once on one node. Each step
// of a caller is one atomic operation on shared state: a read or an
// insert-if-absent on the local registry, a compare-and-set on the start
// gate, taking the key's claim lock, or one call to the lease authority.

/// The local entry of the key: which runtime it is, and whether its gate was taken.
pub struct SlotModel {
    pub id: nat,
    pub started: bool,
}

/// The state that the callers share.
pub struct KeyModel {
    /// Whether the authority records this node as the key's owner.
    pub owned: bool,
    /// Whether some caller holds this node's claim lock for the key.
    pub locked: bool,
    /// The local entry of the key.
    pub slot: Option<SlotModel>,
    /// The identity that the next fresh entry gets.
    pub next_id: nat,
    /// How many times a runtime was started.
    pub activations: nat,
    /// How many claims the authority has received.
    pub claims: nat,
}

/// Where one caller stands.
pub enum CallerModel {
    Lookup,
    Ask,
    /// Waiting for the claim lock.
    Reserve,
    /// Holding the claim lock, about to ask the authority.
    AskLocked,
    /// Holding the claim lock, about to claim.
    Claim,
    Insert,
    Gate,
    /// Returned the handle of the runtime with this identity.
    Done(nat),
}

pub open spec fn after_action(a: Action) -> CallerModel {
    match a {
        Action::AskAuthority => CallerModel::Ask,
        Action::Activate => CallerModel::Gate,
        Action::Reserve => CallerModel::Reserve,
        Action::Claim => CallerModel::Claim,
        Action::InsertFresh => CallerModel::Insert,
        _ => CallerModel::Lookup,
    }
}

/// The lease that the authority hands this node.
pub open spec fn model_lease(w: KeyModel) -> LeaseView {
    if w.owned {
        LeaseView::Local(arbitrary())
    } else {
        LeaseView::Empty(arbitrary())
    }
}

/// One atomic step of a caller at `pc`.
pub open spec fn caller_step(w: KeyModel, pc: CallerModel) -> (KeyModel, CallerModel) {
    match pc {
        CallerModel::Lookup => {
            let found = match w.slot {
                Some(_) => Some(EntryState::Live),
                None => None,
            };
            (w, after_action(entry_action(found)))
        },
        CallerModel::Ask => (w, after_action(lease_action(model_lease(w)))),
        CallerModel::Reserve => if w.locked {
            (w, pc)
        } else {
            (KeyModel { locked: true, ..w }, CallerModel::AskLocked)
        },
        CallerModel::AskLocked => {
            let next = after_action(reserved_lease_action(model_lease(w)));
            if next is Claim {
                (w, next)
            } else {
                (KeyModel { locked: false, ..w }, next)
            }
        },
        CallerModel::Claim => {
            let w1 = KeyModel { owned: true, locked: false, claims: w.claims + 1, ..w };
            (w1, after_action(claimed_action(LeaseView::Local(arbitrary()))))
        },
        CallerModel::Insert => match w.slot {
            None => {
                let w1 = KeyModel {
                    slot: Some(SlotModel { id: w.next_id, started: false }),
                    next_id: w.next_id + 1,
                    ..w
                };
                (w1, after_action(insert_action(true, EntryState::Live)))
            },
            Some(_) => (w, after_action(insert_action(false, EntryState::Live))),
        },
        CallerModel::Gate => match w.slot {
            Some(s) => {
                let w1 = if s.started {
                    w
                } else {
                    KeyModel {
                        slot: Some(SlotModel { started: true, ..s }),
                        activations: w.activations + 1,
                        ..w
                    }
                };
                (w1, CallerModel::Done(s.id))
            },
            None => (w, CallerModel::Gate),
        },
        CallerModel::Done(id) => (w, pc),
    }
}

/// Runs the callers in the order that `schedule` names them; a name that
/// is no caller is skipped.
pub open spec fn run(w: KeyModel, pcs: Seq<CallerModel>, schedule: Seq<int>) -> (KeyModel, Seq<CallerModel>)
    decreases schedule.len(),
{
    if schedule.len() == 0 {
        (w, pcs)
    } else {
        let i = schedule[0];
        if 0 <= i < pcs.len() {
            let (w1, pc1) = caller_step(w, pcs[i]);
            run(w1, pcs.update(i, pc1), schedule.drop_first())
        } else {
            run(w, pcs, schedule.drop_first())
        }
    }
}

pub open spec fn holds_lock(pc: CallerModel) -> bool {
    pc is AskLocked || pc is Claim
}

pub open spec fn caller_inv(w: KeyModel, pc: CallerModel) -> bool {
    match pc {
        CallerModel::Gate => w.slot is Some,
        CallerModel::Done(id) => w.slot matches Some(s) && s.id == id && s.started,
        CallerModel::Claim => w.locked && !w.owned,
        CallerModel::AskLocked => w.locked,
        CallerModel::Insert => w.owned,
        _ => true,
    }
}

pub open spec fn model_inv(w: KeyModel, pcs: Seq<CallerModel>) -> bool {
    &&& w.activations == (match w.slot {
        Some(s) => if s.started {
            1nat
        } else {
            0nat
        },
        None => 0nat,
    })
    &&& w.claims == (if w.owned {
        1nat
    } else {
        0nat
    })
    &&& w.slot is Some ==> w.owned
    &&& forall|i: int| 0 <= i < pcs.len() ==> caller_inv(w, #[trigger] pcs[i])
    &&& forall|i: int, j: int|
        0 <= i < pcs.len() && 0 <= j < pcs.len() && holds_lock(#[trigger] pcs[i]) && holds_lock(
            #[trigger] pcs[j],
        ) ==> i == j
}

proof fn lemma_step_inv(w: KeyModel, pcs: Seq<CallerModel>, i: int)
    requires
        model_inv(w, pcs),
        0 <= i < pcs.len(),
    ensures
        model_inv(caller_step(w, pcs[i]).0, pcs.update(i, caller_step(w, pcs[i]).1)),
        w.slot matches Some(s) ==> caller_step(w, pcs[i]).0.slot matches Some(t) && t.id == s.id,
{
    let (w1, pc1) = caller_step(w, pcs[i]);
    let pcs1 = pcs.update(i, pc1);
    assert forall|j: int| 0 <= j < pcs1.len() implies caller_inv(w1, #[trigger] pcs1[j]) by {
        if j != i {
            assert(pcs1[j] == pcs[j]);
            assert(caller_inv(w, pcs[j]));
            if holds_lock(pcs[i]) && holds_lock(pcs[j]) {
                assert(false);
            }
            if pcs[i] is Reserve && !w.locked && holds_lock(pcs[j]) {
                assert(false);
            }
        }
    }
    assert forall|j: int, k: int|
        0 <= j < pcs1.len() && 0 <= k < pcs1.len() && holds_lock(#[trigger] pcs1[j]) && holds_lock(
            #[trigger] pcs1[k],
        ) implies j == k by {
        if j != i {
            assert(pcs1[j] == pcs[j]);
        }
        if k != i {
            assert(pcs1[k] == pcs[k]);
        }
        if j == i && k != i && pcs[i] is Reserve {
            assert(caller_inv(w, pcs[k]));
        }
        if k == i && j != i && pcs[i] is Reserve {
            assert(caller_inv(w, pcs[j]));
        }
    }
}

proof fn lemma_run_inv(w: KeyModel, pcs: Seq<CallerModel>, schedule: Seq<int>)
    requires
        model_inv(w, pcs),
    ensures
        model_inv(run(w, pcs, schedule).0, run(w, pcs, schedule).1),
        run(w, pcs, schedule).1.len() == pcs.len(),
        w.slot matches Some(s) ==> run(w, pcs, schedule).0.slot matches Some(t) && t.id == s.id,
    decreases schedule.len(),
{
    if schedule.len() > 0 {
        let i = schedule[0];
        if 0 <= i < pcs.len() {
            let (w1, pc1) = caller_step(w, pcs[i]);
            lemma_step_inv(w, pcs, i);
            lemma_run_inv(w1, pcs.update(i, pc1), schedule.drop_first());
        } else {
            lemma_run_inv(w, pcs, schedule.drop_first());
        }
    }
}

/// However the steps of any number of concurrent lookups of one key
/// interleave, starting before any entry exists and with no owner recorded:
/// the authority receives at most one claim and at most one runtime is
/// started; every caller that has returned holds the handle of that one
/// started runtime; and once any caller has returned, exactly one claim was
/// made and exactly one runtime was started.
pub proof fn lemma_at_most_one_activation(n: nat, schedule: Seq<int>)
    ensures
        ({
            let w0 = KeyModel { owned: false, locked: false, slot: None, next_id: 0, activations: 0, claims: 0 };
            let (w, pcs) = run(w0, Seq::new(n, |i: int| CallerModel::Lookup), schedule);
            &&& w.activations <= 1
            &&& w.claims <= 1
            &&& pcs.len() == n
            &&& forall|i: int, j: int|
                0 <= i < n && 0 <= j < n && pcs[i] is Done && pcs[j] is Done ==> pcs[i] == pcs[j]
            &&& (exists|i: int| 0 <= i < n && pcs[i] is Done) ==> w.activations == 1 && w.claims == 1
        }),
{
    let w0 = KeyModel { owned: false, locked: false, slot: None, next_id: 0, activations: 0, claims: 0 };
    let pcs0 = Seq::new(n, |i: int| CallerModel::Lookup);
    assert(model_inv(w0, pcs0));
    lemma_run_inv(w0, pcs0, schedule);
    let (w, pcs) = run(w0, pcs0, schedule);
    assert forall|i: int, j: int|
        0 <= i < n && 0 <= j < n && pcs[i] is Done && pcs[j] is Done implies pcs[i] == pcs[j] by {
        assert(caller_inv(w, pcs[i]));
        assert(caller_inv(w, pcs[j]));
    }
    if exists|i: int| 0 <= i < n && pcs[i] is Done {
        let i = choose|i: int| 0 <= i < n && pcs[i] is Done;
        assert(caller_inv(w, pcs[i]));
    }
}

} // verus!
