use vstd::prelude::*;
use crate::data::{ActorBlob, BlobView, KeyBlob};
use crate::transport::{Location, LocationView};

verus! {

/// No owner is recorded for the key.
pub struct EmptyLease {
    pub key: KeyBlob,
}

/// This node controls the key's actor.
pub struct LocalLease {
    pub key: KeyBlob,
}

/// Another node, at `location`, controls the key's actor.
pub struct RemoteLease {
    pub key: KeyBlob,
    pub location: Location,
}

/// The key's actor is persisted, with its state in `actor_data`, and no live
/// node owns it.
pub struct StoredLease {
    pub key: KeyBlob,
    pub actor_data: ActorBlob,
}

/// Ownership that was just established, here or on another node.
pub enum CreatedLease {
    Local(LocalLease),
    Remote(RemoteLease),
}

/// A snapshot of the ownership of one key.
pub enum Lease {
    Empty(EmptyLease),
    Created(CreatedLease),
    Stored(StoredLease),
}

/// The mathematical value of a lease.
pub enum LeaseView {
    Empty(BlobView),
    Local(BlobView),
    Remote(BlobView, LocationView),
    Stored(BlobView, BlobView),
}

impl View for CreatedLease {
    type V = LeaseView;

    open spec fn view(&self) -> LeaseView {
        match self {
            CreatedLease::Local(l) => LeaseView::Local(l.key@),
            CreatedLease::Remote(r) => LeaseView::Remote(r.key@, r.location@),
        }
    }
}

impl View for Lease {
    type V = LeaseView;

    open spec fn view(&self) -> LeaseView {
        match self {
            Lease::Empty(e) => LeaseView::Empty(e.key@),
            Lease::Created(c) => c@,
            Lease::Stored(s) => LeaseView::Stored(s.key@, s.actor_data@),
        }
    }
}

/// Builds a lease authority for a node.
pub trait BackstageBuilder {
}

/// What the authority records for one key: its controlling node, if any,
/// and the last actor state that it was given, if any.
pub struct RecordView {
    pub owner: Option<LocationView>,
    pub actor: Option<BlobView>,
}

/// The record of `k` in `m`; a key never seen has neither owner nor state.
pub open spec fn record_of(m: Map<BlobView, RecordView>, k: BlobView) -> RecordView {
    if m.contains_key(k) {
        m[k]
    } else {
        RecordView { owner: None, actor: None }
    }
}

/// The lease that a node at `asker` is given for a key with record `rec`.
pub open spec fn lease_for(rec: RecordView, k: BlobView, asker: LocationView) -> LeaseView {
    match rec.owner {
        Some(o) => if o == asker {
            LeaseView::Local(k)
        } else {
            LeaseView::Remote(k, o)
        },
        None => match rec.actor {
            Some(a) => LeaseView::Stored(k, a),
            None => LeaseView::Empty(k),
        },
    }
}

/// A claim of `k` by the node at `claimant`: where no live node owns the
/// key, the claimant becomes its owner; the result is the lease that the
/// claimant then holds.
pub open spec fn claim(m: Map<BlobView, RecordView>, k: BlobView, claimant: LocationView) -> (
    Map<BlobView, RecordView>,
    LeaseView,
) {
    let rec = record_of(m, k);
    match rec.owner {
        None => (
            m.insert(k, RecordView { owner: Some(claimant), actor: rec.actor }),
            LeaseView::Local(k),
        ),
        Some(o) => (m, lease_for(rec, k, claimant)),
    }
}

/// The leases that a run of claims of `k`, one by each of `claimants` in
/// turn, hands out.
pub open spec fn claims(m: Map<BlobView, RecordView>, k: BlobView, claimants: Seq<LocationView>) -> Seq<
    LeaseView,
>
    decreases claimants.len(),
{
    if claimants.len() == 0 {
        seq![]
    } else {
        let (m1, l) = claim(m, k, claimants[0]);
        seq![l] + claims(m1, k, claimants.drop_first())
    }
}

/// Claims of a key that no live node owns, made by distinct nodes in any
/// order, hand out exactly one local lease, to the first claimant; every
/// other claimant is told that the first one owns the key.
pub proof fn lemma_claim_exclusive(m: Map<BlobView, RecordView>, k: BlobView, claimants: Seq<LocationView>)
    requires
        record_of(m, k).owner is None,
        claimants.len() > 0,
        forall|i: int, j: int| 0 <= i < j < claimants.len() ==> claimants[i] != claimants[j],
    ensures
        claims(m, k, claimants).len() == claimants.len(),
        claims(m, k, claimants)[0] == LeaseView::Local(k),
        forall|i: int| 1 <= i < claimants.len() ==> claims(m, k, claimants)[i] == LeaseView::Remote(k, claimants[0]),
{
    let (m1, l) = claim(m, k, claimants[0]);
    lemma_claims_held(m1, k, claimants[0], claimants.drop_first());
}

proof fn lemma_claims_held(m: Map<BlobView, RecordView>, k: BlobView, owner: LocationView, rest: Seq<LocationView>)
    requires
        record_of(m, k).owner == Some(owner),
        forall|i: int| 0 <= i < rest.len() ==> rest[i] != owner,
    ensures
        claims(m, k, rest).len() == rest.len(),
        forall|i: int| 0 <= i < rest.len() ==> claims(m, k, rest)[i] == LeaseView::Remote(k, owner),
    decreases rest.len(),
{
    if rest.len() > 0 {
        lemma_claims_held(m, k, owner, rest.drop_first());
        let c = claims(m, k, rest);
        assert forall|i: int| 0 <= i < rest.len() implies c[i] == LeaseView::Remote(k, owner) by {
            if i > 0 {
                assert(c[i] == claims(m, k, rest.drop_first())[i - 1]);
            }
        }
    }
}

/// The map that a list of (key, record) entries with distinct keys stands for.
pub open spec fn entries_map(s: Seq<(BlobView, RecordView)>) -> Map<BlobView, RecordView>
    decreases s.len(),
{
    if s.len() == 0 {
        Map::empty()
    } else {
        entries_map(s.drop_last()).insert(s.last().0, s.last().1)
    }
}

pub open spec fn distinct_keys(s: Seq<(BlobView, RecordView)>) -> bool {
    forall|i: int, j: int| 0 <= i < j < s.len() ==> s[i].0 != s[j].0
}

proof fn lemma_entries_absent(s: Seq<(BlobView, RecordView)>, k: BlobView)
    requires
        forall|i: int| 0 <= i < s.len() ==> s[i].0 != k,
    ensures
        !entries_map(s).contains_key(k),
    decreases s.len(),
{
    if s.len() > 0 {
        lemma_entries_absent(s.drop_last(), k);
    }
}

proof fn lemma_entries_index(s: Seq<(BlobView, RecordView)>, i: int)
    requires
        distinct_keys(s),
        0 <= i < s.len(),
    ensures
        entries_map(s).contains_key(s[i].0),
        entries_map(s)[s[i].0] == s[i].1,
    decreases s.len(),
{
    if i < s.len() - 1 {
        lemma_entries_index(s.drop_last(), i);
    }
}

proof fn lemma_entries_update(s: Seq<(BlobView, RecordView)>, i: int, r: RecordView)
    requires
        distinct_keys(s),
        0 <= i < s.len(),
    ensures
        entries_map(s.update(i, (s[i].0, r))) == entries_map(s).insert(s[i].0, r),
    decreases s.len(),
{
    let t = s.update(i, (s[i].0, r));
    if i == s.len() - 1 {
        assert(t.drop_last() =~= s.drop_last());
        if s.len() > 1 {
            lemma_entries_absent(s.drop_last(), s[i].0);
        }
        assert(entries_map(t) =~= entries_map(s).insert(s[i].0, r));
    } else {
        assert(t.drop_last() =~= s.drop_last().update(i, (s[i].0, r)));
        lemma_entries_update(s.drop_last(), i, r);
        assert(entries_map(t) =~= entries_map(s).insert(s[i].0, r));
    }
}

/// One key's record, as the registry holds it.
struct Record {
    key: KeyBlob,
    owner: Option<Location>,
    actor: Option<ActorBlob>,
}

impl Record {
    spec fn entry(&self) -> (BlobView, RecordView) {
        (self.key@, RecordView { owner: opt_location_view(self.owner), actor: opt_blob_view(self.actor) })
    }
}

pub open spec fn opt_location_view(l: Option<Location>) -> Option<LocationView> {
    match l {
        Some(x) => Some(x@),
        None => None,
    }
}

pub open spec fn opt_blob_view(a: Option<ActorBlob>) -> Option<BlobView> {
    match a {
        Some(x) => Some(x@),
        None => None,
    }
}

fn copy_location(l: &Option<Location>) -> (r: Option<Location>)
    ensures
        opt_location_view(r) == opt_location_view(*l),
{
    match l {
        Some(x) => Some(x.clone()),
        None => None,
    }
}

fn copy_actor(a: &Option<ActorBlob>) -> (r: Option<ActorBlob>)
    ensures
        opt_blob_view(r) == opt_blob_view(*a),
{
    match a {
        Some(x) => Some(x.clone()),
        None => None,
    }
}

/// A lease authority held in memory: the ownership record of every key that
/// it has seen. Each method is one atomic step of the authority.
pub struct LeaseRegistry {
    records: Vec<Record>,
}

impl LeaseRegistry {
    spec fn entries(&self) -> Seq<(BlobView, RecordView)> {
        self.records@.map_values(|r: Record| r.entry())
    }

    /// The records of the keys, by key.
    pub closed spec fn view(&self) -> Map<BlobView, RecordView> {
        entries_map(self.entries())
    }

    /// The records hold each key once.
    pub closed spec fn wf(&self) -> bool {
        distinct_keys(self.entries())
    }

    /// An authority that has seen no key.
    pub fn new() -> (r: LeaseRegistry)
        ensures
            r.wf(),
            r.view() == Map::<BlobView, RecordView>::empty(),
    {
        let r = LeaseRegistry { records: Vec::new() };
        assert(r.entries() =~= Seq::<(BlobView, RecordView)>::empty());
        r
    }

    fn find(&self, key: &KeyBlob) -> (r: Option<usize>)
        requires
            self.wf(),
        ensures
            match r {
                Some(i) => i < self.records@.len() && self.records@[i as int].key@ == key@
                    && self.view().contains_key(key@) && self.view()[key@] == self.entries()[i as int].1,
                None => !self.view().contains_key(key@),
            },
    {
        let mut i: usize = 0;
        while i < self.records.len()
            invariant
                self.wf(),
                0 <= i <= self.records@.len(),
                forall|j: int| 0 <= j < i ==> self.entries()[j].0 != key@,
            decreases self.records@.len() - i,
        {
            if self.records[i].key.same_key(key) {
                proof {
                    lemma_entries_index(self.entries(), i as int);
                }
                return Some(i);
            }
            i = i + 1;
        }
        proof {
            lemma_entries_absent(self.entries(), key@);
        }
        None
    }

    /// The current record of `key`, copied out.
    fn read(&self, key: &KeyBlob) -> (r: (Option<Location>, Option<ActorBlob>))
        requires
            self.wf(),
        ensures
            opt_location_view(r.0) == record_of(self.view(), key@).owner,
            opt_blob_view(r.1) == record_of(self.view(), key@).actor,
    {
        match self.find(key) {
            Some(i) => (copy_location(&self.records[i].owner), copy_actor(&self.records[i].actor)),
            None => (None, None),
        }
    }

    /// Sets the record of `key`.
    fn put(&mut self, key: &KeyBlob, owner: Option<Location>, actor: Option<ActorBlob>)
        requires
            old(self).wf(),
        ensures
            final(self).wf(),
            final(self).view() == old(self).view().insert(
                key@,
                RecordView { owner: opt_location_view(owner), actor: opt_blob_view(actor) },
            ),
    {
        let ghost rv = RecordView { owner: opt_location_view(owner), actor: opt_blob_view(actor) };
        match self.find(key) {
            Some(i) => {
                let ghost before = self.entries();
                let k = self.records[i].key.clone();
                self.records.set(i, Record { key: k, owner, actor });
                proof {
                    assert(self.entries() =~= before.update(i as int, (before[i as int].0, rv)));
                    lemma_entries_update(before, i as int, rv);
                }
            },
            None => {
                let ghost before = self.entries();
                let k = key.clone();
                self.records.push(Record { key: k, owner, actor });
                proof {
                    assert(self.entries() =~= before.push((key@, rv)));
                    assert(self.entries().drop_last() =~= before);
                    assert forall|j: int| 0 <= j < before.len() implies before[j].0 != key@ by {
                        if before[j].0 == key@ {
                            lemma_entries_index(before, j);
                        }
                    }
                }
            },
        }
    }

    /// The lease of `key` as seen from the node at `asker`.
    pub fn get_actor(&self, key: KeyBlob, asker: &Location) -> (r: Lease)
        requires
            self.wf(),
        ensures
            r@ == lease_for(record_of(self.view(), key@), key@, asker@),
    {
        let (owner, actor) = self.read(&key);
        match owner {
            Some(o) => if o == *asker {
                Lease::Created(CreatedLease::Local(LocalLease { key }))
            } else {
                Lease::Created(CreatedLease::Remote(RemoteLease { key, location: o }))
            },
            None => match actor {
                Some(a) => Lease::Stored(StoredLease { key, actor_data: a }),
                None => Lease::Empty(EmptyLease { key }),
            },
        }
    }

    /// Claims the key of `empty` for the node at `location`. The claim takes
    /// effect only where no live node owns the key; either way the result is
    /// the lease that the claimant then holds.
    pub fn set_actor(&mut self, empty: EmptyLease, location: Location) -> (r: CreatedLease)
        requires
            old(self).wf(),
        ensures
            final(self).wf(),
            (final(self).view(), r@) == claim(old(self).view(), empty.key@, location@),
    {
        let key = empty.key;
        let (owner, actor) = self.read(&key);
        match owner {
            None => {
                let mine = location.clone();
                self.put(&key, Some(mine), actor);
                CreatedLease::Local(LocalLease { key })
            },
            Some(o) => if o == location {
                CreatedLease::Local(LocalLease { key })
            } else {
                CreatedLease::Remote(RemoteLease { key, location: o })
            },
        }
    }

    /// Records `actor` as the latest state of a key that a node controls; a
    /// key without owner is left as it is.
    pub fn update_actor(&mut self, actor: &ActorBlob, lease: LocalLease) -> (r: LocalLease)
        requires
            old(self).wf(),
        ensures
            final(self).wf(),
            r.key@ == lease.key@,
            final(self).view() == if record_of(old(self).view(), lease.key@).owner is Some {
                old(self).view().insert(
                    lease.key@,
                    RecordView { owner: record_of(old(self).view(), lease.key@).owner, actor: Some(actor@) },
                )
            } else {
                old(self).view()
            },
    {
        let (owner, _) = self.read(&lease.key);
        if owner.is_some() {
            self.put(&lease.key, owner, Some(actor.clone()));
        }
        lease
    }

    /// Persists `actor` as the state of a locally controlled key and releases
    /// its ownership.
    pub fn store_local_actor(&mut self, actor: &ActorBlob, lease: LocalLease) -> (r: StoredLease)
        requires
            old(self).wf(),
        ensures
            final(self).wf(),
            final(self).view() == old(self).view().insert(
                lease.key@,
                RecordView { owner: None, actor: Some(actor@) },
            ),
            r.key@ == lease.key@ && r.actor_data@ == actor@,
    {
        self.put(&lease.key, None, Some(actor.clone()));
        StoredLease { key: lease.key, actor_data: actor.clone() }
    }

    /// Releases the ownership of a key that another node controls and keeps
    /// the last state recorded for it; `None`, with nothing changed, where no
    /// state was ever recorded.
    pub fn store_remote_actor(&mut self, lease: RemoteLease) -> (r: Option<StoredLease>)
        requires
            old(self).wf(),
        ensures
            final(self).wf(),
            match record_of(old(self).view(), lease.key@).actor {
                Some(a) => {
                    &&& final(self).view() == old(self).view().insert(
                        lease.key@,
                        RecordView { owner: None, actor: Some(a) },
                    )
                    &&& r matches Some(s) && s.key@ == lease.key@ && s.actor_data@ == a
                },
                None => final(self).view() == old(self).view() && r is None,
            },
    {
        let (_, actor) = self.read(&lease.key);
        match actor {
            Some(a) => {
                let kept = a.clone();
                self.put(&lease.key, None, Some(kept));
                Some(StoredLease { key: lease.key, actor_data: a })
            },
            None => None,
        }
    }

    /// Forgets a locally controlled key: it has neither owner nor state.
    pub fn delete_local_actor(&mut self, lease: LocalLease) -> (r: EmptyLease)
        requires
            old(self).wf(),
        ensures
            final(self).wf(),
            final(self).view() == old(self).view().insert(lease.key@, RecordView { owner: None, actor: None }),
            r.key@ == lease.key@,
    {
        self.put(&lease.key, None, None);
        EmptyLease { key: lease.key }
    }

    /// Forgets a key that another node controls: it has neither owner nor state.
    pub fn delete_remote_actor(&mut self, lease: RemoteLease) -> (r: EmptyLease)
        requires
            old(self).wf(),
        ensures
            final(self).wf(),
            final(self).view() == old(self).view().insert(lease.key@, RecordView { owner: None, actor: None }),
            r.key@ == lease.key@,
    {
        self.put(&lease.key, None, None);
        EmptyLease { key: lease.key }
    }
}

} // verus!
