//! The nexus as it lives in memory, and how it settles on the metadata that
//! its children hold.
//!
//! When a nexus is reopened, each child may hold a different snapshot of its
//! state, or a snapshot of another nexus, or none. The copies of another
//! nexus are put aside, the latest of the others is taken as the truth, and
//! every child that it does not record as open is closed and removed.
//! Where two copies are equally late, the one of the child that comes first
//! in the list is taken.

use crate::envelope::{envelope, max_payload_len, Buffer};
use crate::metadata;
use crate::metadata::{
    encoded, Child, ChildView, Error, Metadata, MetadataView, NexusView, State, Timestamp,
};
use vstd::prelude::*;
use vstd::std_specs::convert::FromSpecImpl;

verus! {

/// The state of a nexus.
#[derive(Debug, Clone, Copy, PartialEq, Eq, Structural)]
pub enum NexusState {
    /// Being created or opened.
    Init,
    /// Closed.
    Closed,
    /// Open and serving I/O.
    Open,
    /// Its set of children is being changed.
    Reconfiguring,
    /// On its way to shutdown.
    ShuttingDown,
    /// Shut down.
    Shutdown,
}

/// The state of a child of a nexus.
#[derive(Debug, Clone, Copy, PartialEq, Eq, Structural)]
pub enum ChildState {
    /// Being created or opened.
    Init,
    /// Its configuration does not fit the nexus.
    ConfigInvalid,
    /// Open and in use.
    Open,
    /// Being destroyed.
    Destroying,
    /// Closed.
    Closed,
    /// Failed.
    Faulted,
}

/// The state that is persisted for a nexus in state `src`. What is still in
/// the making, or changing, or going down, is persisted as dirty.
pub open spec fn persisted_nexus_state(src: NexusState) -> State {
    match src {
        NexusState::Init => State::Dirty,
        NexusState::Closed => State::Closed,
        NexusState::Open => State::Open,
        NexusState::Reconfiguring => State::Dirty,
        NexusState::ShuttingDown => State::Dirty,
        NexusState::Shutdown => State::Closed,
    }
}

/// The state that is persisted for a child in state `src`.
pub open spec fn persisted_child_state(src: ChildState) -> State {
    match src {
        ChildState::Init => State::Dirty,
        ChildState::ConfigInvalid => State::Dirty,
        ChildState::Open => State::Open,
        ChildState::Destroying => State::Dirty,
        ChildState::Closed => State::Closed,
        ChildState::Faulted => State::Faulted,
    }
}

impl From<NexusState> for State {
    fn from(src: NexusState) -> (state: State) {
        match src {
            NexusState::Init => State::Dirty,
            NexusState::Closed => State::Closed,
            NexusState::Open => State::Open,
            NexusState::Reconfiguring => State::Dirty,
            NexusState::ShuttingDown => State::Dirty,
            NexusState::Shutdown => State::Closed,
        }
    }
}

impl FromSpecImpl<NexusState> for State {
    open spec fn obeys_from_spec() -> bool {
        true
    }

    open spec fn from_spec(src: NexusState) -> State {
        persisted_nexus_state(src)
    }
}

impl From<ChildState> for State {
    fn from(src: ChildState) -> (state: State) {
        match src {
            ChildState::Init => State::Dirty,
            ChildState::ConfigInvalid => State::Dirty,
            ChildState::Open => State::Open,
            ChildState::Destroying => State::Dirty,
            ChildState::Closed => State::Closed,
            ChildState::Faulted => State::Faulted,
        }
    }
}

impl FromSpecImpl<ChildState> for State {
    open spec fn obeys_from_spec() -> bool {
        true
    }

    open spec fn from_spec(src: ChildState) -> State {
        persisted_child_state(src)
    }
}

/// The device behind a child.
#[derive(Debug, Clone, PartialEq, Eq)]
pub struct ChildDevice {
    pub device_name: String,
    pub uuid: String,
}

/// A child of a nexus.
#[derive(Debug, Clone, PartialEq, Eq)]
pub struct NexusChild {
    pub name: String,
    pub state: ChildState,
    /// The device, while the child has one.
    pub device: Option<ChildDevice>,
}

/// A nexus with its children, in their order.
#[derive(Debug, Clone, PartialEq, Eq)]
pub struct Nexus {
    pub name: String,
    pub uuid: String,
    pub bdev_uuid: String,
    /// The size that was asked for, in bytes.
    pub req_size: u64,
    pub state: NexusState,
    pub children: Vec<NexusChild>,
}

/// The metadata that was found on a child.
#[derive(Debug, Clone, PartialEq, Eq)]
pub struct MetadataCopy {
    /// The child's name.
    pub child: String,
    pub meta: Metadata,
}

impl NexusChild {
    /// The record of the child at the time `timestamp`.
    pub open spec fn record_at(self, timestamp: Timestamp) -> ChildView {
        ChildView {
            timestamp,
            state: persisted_child_state(self.state),
            name: self.name@,
            device_name: match self.device {
                Some(d) => Some(d.device_name@),
                None => None,
            },
            device_uuid: match self.device {
                Some(d) => Some(d.uuid@),
                None => None,
            },
        }
    }

    /// The child is open.
    pub open spec fn healthy(self) -> bool {
        self.state == ChildState::Open
    }

    /// The child takes a copy of the metadata: it has a device and is
    /// healthy.
    pub open spec fn takes_metadata(self) -> bool {
        self.device is Some && self.healthy()
    }

    /// Tells whether the child is open.
    pub fn is_healthy(&self) -> (healthy: bool)
        ensures
            healthy == self.healthy(),
    {
        self.state == ChildState::Open
    }

    /// Tells whether a copy of the metadata is to be written to the child.
    pub fn writes_metadata(&self) -> (takes: bool)
        ensures
            takes == self.takes_metadata(),
    {
        self.device.is_some() && self.is_healthy()
    }

    /// Makes the record of the child at the time `timestamp`.
    pub fn snapshot(&self, timestamp: Timestamp) -> (record: Child)
        ensures
            record@ == self.record_at(timestamp),
    {
        let (device_name, device_uuid) = match &self.device {
            Some(d) => (Some(d.device_name.clone()), Some(d.uuid.clone())),
            None => (None, None),
        };
        Child { timestamp, state: State::from(self.state), name: self.name.clone(), device_name, device_uuid }
    }

    /// Tells whether the child has a device.
    pub fn has_device(&self) -> (has: bool)
        ensures
            has == self.device is Some,
    {
        self.device.is_some()
    }

    /// What a read of the child's metadata comes to: the record that was
    /// read. No metadata where the child has no device, or where the read
    /// failed, for whatever reason: a child that cannot be read does not
    /// keep the nexus from going by the others.
    pub fn read_metadata(&self, outcome: Result<Metadata, Error>) -> (copy: MetadataCopy)
        ensures
            copy.child@ == self.name@,
            copy.meta@ == match outcome {
                Ok(m) => if self.device is Some {
                    m@
                } else {
                    MetadataView::Absent
                },
                Err(_) => MetadataView::Absent,
            },
    {
        let meta = match outcome {
            Ok(md) => if self.device.is_some() {
                md
            } else {
                Metadata::Absent
            },
            Err(_) => Metadata::Absent,
        };
        MetadataCopy { child: self.name.clone(), meta }
    }
}

/// The current time from `chrono::Utc::now`, as the seconds since 1970 and
/// the nanoseconds into the second that chrono gives for it. Nothing is
/// known of the value. chrono reads the system clock and expects it not to
/// be set before 1970.
#[verifier::external_body]
fn utc_now() -> (now: Timestamp) {
    let now = chrono::Utc::now();
    Timestamp { secs: now.timestamp(), nanos: now.timestamp_subsec_nanos() }
}

/// The views of the metadata of the copies.
pub open spec fn copy_views(copies: Seq<MetadataCopy>) -> Seq<MetadataView> {
    copies.map_values(|c: MetadataCopy| c.meta@)
}

/// The copy holds a record of the nexus with these two UUIDs.
pub open spec fn is_candidate(meta: MetadataView, nexus_uuid: Seq<char>, bdev_uuid: Seq<char>) -> bool {
    meta matches MetadataView::V1(nexus) && nexus.nexus_uuid == nexus_uuid && nexus.bdev_uuid
        == bdev_uuid
}

/// The copy at `at` is the one to go by: it is a record of the nexus with
/// these two UUIDs, no other such record is later, and those before it are
/// earlier.
pub open spec fn is_latest(
    copies: Seq<MetadataView>,
    at: int,
    nexus_uuid: Seq<char>,
    bdev_uuid: Seq<char>,
) -> bool {
    &&& 0 <= at < copies.len()
    &&& is_candidate(copies[at], nexus_uuid, bdev_uuid)
    &&& forall|j: int|
        0 <= j < copies.len() && is_candidate(#[trigger] copies[j], nexus_uuid, bdev_uuid)
            ==> !copies[j]->V1_0.timestamp.later_than(copies[at]->V1_0.timestamp)
    &&& forall|j: int|
        0 <= j < at && is_candidate(#[trigger] copies[j], nexus_uuid, bdev_uuid)
            ==> copies[at]->V1_0.timestamp.later_than(copies[j]->V1_0.timestamp)
}

/// At most one copy is the one to go by.
pub proof fn lemma_latest_is_unique(
    copies: Seq<MetadataView>,
    a: int,
    b: int,
    nexus_uuid: Seq<char>,
    bdev_uuid: Seq<char>,
)
    requires
        is_latest(copies, a, nexus_uuid, bdev_uuid),
        is_latest(copies, b, nexus_uuid, bdev_uuid),
    ensures
        a == b,
{
    if a < b {
        assert(is_candidate(copies[a], nexus_uuid, bdev_uuid));
    } else if b < a {
        assert(is_candidate(copies[b], nexus_uuid, bdev_uuid));
    }
}

/// A copy that is no record of this nexus is never the one to go by, and
/// with or without it the same copy is.
pub proof fn lemma_foreign_copy_is_ignored(
    copies: Seq<MetadataView>,
    foreign: int,
    at: int,
    nexus_uuid: Seq<char>,
    bdev_uuid: Seq<char>,
)
    requires
        0 <= foreign < copies.len(),
        !is_candidate(copies[foreign], nexus_uuid, bdev_uuid),
    ensures
        !is_latest(copies, foreign, nexus_uuid, bdev_uuid),
        at < foreign ==> (is_latest(copies, at, nexus_uuid, bdev_uuid) <==> is_latest(
            copies.remove(foreign),
            at,
            nexus_uuid,
            bdev_uuid,
        )),
        at > foreign ==> (is_latest(copies, at, nexus_uuid, bdev_uuid) <==> is_latest(
            copies.remove(foreign),
            at - 1,
            nexus_uuid,
            bdev_uuid,
        )),
{
    let rest = copies.remove(foreign);
    let to = if at < foreign {
        at
    } else {
        at - 1
    };
    assert forall|j: int| 0 <= j < rest.len() implies #[trigger] rest[j] == copies[if j < foreign {
        j
    } else {
        j + 1
    }] by {}
    if at != foreign && 0 <= at < copies.len() {
        assert(rest[to] == copies[at]);
        if is_latest(copies, at, nexus_uuid, bdev_uuid) {
            assert forall|j: int|
                0 <= j < rest.len() && is_candidate(
                    #[trigger] rest[j],
                    nexus_uuid,
                    bdev_uuid,
                ) implies !rest[j]->V1_0.timestamp.later_than(rest[to]->V1_0.timestamp) by {
                let k = if j < foreign {
                    j
                } else {
                    j + 1
                };
                assert(is_candidate(copies[k], nexus_uuid, bdev_uuid));
            }
            assert forall|j: int|
                0 <= j < to && is_candidate(
                    #[trigger] rest[j],
                    nexus_uuid,
                    bdev_uuid,
                ) implies rest[to]->V1_0.timestamp.later_than(rest[j]->V1_0.timestamp) by {
                let k = if j < foreign {
                    j
                } else {
                    j + 1
                };
                assert(is_candidate(copies[k], nexus_uuid, bdev_uuid));
            }
        }
        if is_latest(rest, to, nexus_uuid, bdev_uuid) {
            assert forall|k: int|
                0 <= k < copies.len() && is_candidate(
                    #[trigger] copies[k],
                    nexus_uuid,
                    bdev_uuid,
                ) implies !copies[k]->V1_0.timestamp.later_than(copies[at]->V1_0.timestamp) by {
                let j = if k < foreign {
                    k
                } else {
                    k - 1
                };
                assert(rest[j] == copies[k]);
                assert(is_candidate(rest[j], nexus_uuid, bdev_uuid));
            }
            assert forall|k: int|
                0 <= k < at && is_candidate(
                    #[trigger] copies[k],
                    nexus_uuid,
                    bdev_uuid,
                ) implies copies[at]->V1_0.timestamp.later_than(copies[k]->V1_0.timestamp) by {
                let j = if k < foreign {
                    k
                } else {
                    k - 1
                };
                assert(rest[j] == copies[k]);
                assert(is_candidate(rest[j], nexus_uuid, bdev_uuid));
            }
        }
    }
}

/// The record holds a child of this name in another state than open.
pub open spec fn names_unopened(record: NexusView, name: Seq<char>) -> bool {
    exists|i: int|
        0 <= i < record.children.len() && (#[trigger] record.children[i]).name == name
            && record.children[i].state != State::Open
}

/// Tells whether the record holds a child of this name in another state
/// than open.
pub fn is_named_unopened(record: &metadata::Nexus, name: &String) -> (found: bool)
    ensures
        found == names_unopened(record@, name@),
{
    let mut i: usize = 0;
    while i < record.children.len()
        invariant
            i <= record.children.len(),
            forall|k: int|
                0 <= k < i ==> !((#[trigger] record@.children[k]).name == name@
                    && record@.children[k].state != State::Open),
        decreases record.children.len() - i,
    {
        let child = &record.children[i];
        if child.name == *name && child.state != State::Open {
            proof {
                assert(record@.children[i as int] == child@);
            }
            return true;
        }
        proof {
            assert(record@.children[i as int] == child@);
        }
        i += 1;
    }
    false
}

/// The children at `targets` are those that take a copy of the metadata,
/// each once and in their order.
pub open spec fn are_write_targets(children: Seq<NexusChild>, targets: Seq<usize>) -> bool {
    &&& forall|k: int|
        0 <= k < targets.len() ==> (#[trigger] targets[k]) < children.len()
            && children[targets[k] as int].takes_metadata()
    &&& forall|k: int, l: int| 0 <= k < l < targets.len() ==> targets[k] < targets[l]
    &&& forall|i: int|
        0 <= i < children.len() && (#[trigger] children[i]).takes_metadata() ==> targets.contains(
            i as usize,
        )
}

/// Filtering one element more of a sequence keeps it or drops it.
proof fn lemma_filter_next<A>(s: Seq<A>, k: int, pred: spec_fn(A) -> bool)
    requires
        0 <= k < s.len(),
    ensures
        s.take(k + 1).filter(pred) == if pred(s[k]) {
            s.take(k).filter(pred).push(s[k])
        } else {
            s.take(k).filter(pred)
        },
{
    reveal(Seq::filter);
    assert(s.take(k + 1).drop_last() =~= s.take(k));
}

impl Nexus {
    /// The record of the nexus at the time `timestamp`: its state and that
    /// of every child, as they are persisted.
    pub open spec fn record_at(self, timestamp: Timestamp) -> NexusView {
        NexusView {
            timestamp,
            state: persisted_nexus_state(self.state),
            name: self.name@,
            nexus_uuid: self.uuid@,
            bdev_uuid: self.bdev_uuid@,
            requested_size: self.req_size,
            children: self.children@.map_values(|c: NexusChild| c.record_at(timestamp)),
        }
    }

    /// The record to go by among the copies, if there is one.
    pub open spec fn selected(self, copies: Seq<MetadataCopy>) -> Option<NexusView> {
        if exists|at: int| is_latest(copy_views(copies), at, self.uuid@, self.bdev_uuid@) {
            let at = choose|at: int| is_latest(copy_views(copies), at, self.uuid@, self.bdev_uuid@);
            Some(copy_views(copies)[at]->V1_0)
        } else {
            None
        }
    }

    /// The child is not to be trusted: the record to go by holds it in
    /// another state than open.
    pub open spec fn distrusts(self, copies: Seq<MetadataCopy>, child: NexusChild) -> bool {
        self.selected(copies) matches Some(record) && names_unopened(record, child.name@)
    }

    /// Makes the record of the nexus at the time `timestamp`.
    pub fn snapshot(&self, timestamp: Timestamp) -> (record: metadata::Nexus)
        ensures
            record@ == self.record_at(timestamp),
    {
        let mut children: Vec<Child> = Vec::new();
        let mut i: usize = 0;
        while i < self.children.len()
            invariant
                i <= self.children.len(),
                children.len() == i,
                forall|k: int|
                    0 <= k < i ==> (#[trigger] children@[k])@ == self.children@[k].record_at(
                        timestamp,
                    ),
            decreases self.children.len() - i,
        {
            children.push(self.children[i].snapshot(timestamp));
            i += 1;
        }
        let record = metadata::Nexus {
            timestamp,
            state: State::from(self.state),
            name: self.name.clone(),
            nexus_uuid: self.uuid.clone(),
            bdev_uuid: self.bdev_uuid.clone(),
            requested_size: self.req_size,
            children,
        };
        proof {
            assert(record@.children =~= self.record_at(timestamp).children);
        }
        record
    }

    /// Makes the record of the nexus as it is now. The record and all its
    /// children carry one timestamp, the current time.
    pub fn current_metadata(&self) -> (record: metadata::Nexus)
        ensures
            record@ == self.record_at(record.timestamp),
    {
        let timestamp = utc_now();
        self.snapshot(timestamp)
    }

    /// Picks the copy to go by: among the records of this nexus the latest
    /// one, and of several that are equally late the first. `None` where no
    /// copy is a record of this nexus.
    pub fn select_latest(&self, copies: &Vec<MetadataCopy>) -> (found: Option<usize>)
        ensures
            match found {
                Some(at) => is_latest(copy_views(copies@), at as int, self.uuid@, self.bdev_uuid@),
                None => forall|j: int|
                    0 <= j < copies.len() ==> !is_candidate(
                        #[trigger] copy_views(copies@)[j],
                        self.uuid@,
                        self.bdev_uuid@,
                    ),
            },
            self.selected(copies@) == match found {
                Some(at) => Some(copies@[at as int].meta@->V1_0),
                None => None,
            },
    {
        let ghost views = copy_views(copies@);
        let mut best: Option<usize> = None;
        let mut i: usize = 0;
        while i < copies.len()
            invariant
                i <= copies.len(),
                views == copy_views(copies@),
                match best {
                    Some(at) => at < i && is_latest(
                        views.take(i as int),
                        at as int,
                        self.uuid@,
                        self.bdev_uuid@,
                    ),
                    None => forall|j: int|
                        0 <= j < i ==> !is_candidate(#[trigger] views[j], self.uuid@, self.bdev_uuid@),
                },
            decreases copies.len() - i,
        {
            let ghost before = views.take(i as int);
            let ghost after = views.take(i + 1);
            proof {
                assert(forall|j: int| 0 <= j < i ==> before[j] == views[j] && after[j] == views[j]);
                assert(after[i as int] == views[i as int]);
            }
            match &copies[i].meta {
                Metadata::V1(nexus) => {
                    if nexus.nexus_uuid == self.uuid && nexus.bdev_uuid == self.bdev_uuid {
                        match best {
                            Some(at) => {
                                let held = match &copies[at].meta {
                                    Metadata::V1(n) => n.timestamp,
                                    Metadata::Absent => nexus.timestamp,
                                };
                                if nexus.timestamp.is_later_than(&held) {
                                    proof {
                                        lemma_later_than_steps(views, at as int, i as int);
                                    }
                                    best = Some(i);
                                }
                            },
                            None => {
                                best = Some(i);
                            },
                        }
                    }
                },
                Metadata::Absent => {},
            }
            i += 1;
        }
        proof {
            assert(views.take(copies.len() as int) =~= views);
            match best {
                Some(at) => {
                    assert(is_latest(views, at as int, self.uuid@, self.bdev_uuid@));
                    let chosen = choose|k: int| is_latest(views, k, self.uuid@, self.bdev_uuid@);
                    lemma_latest_is_unique(views, at as int, chosen, self.uuid@, self.bdev_uuid@);
                },
                None => {
                    assert forall|k: int| !is_latest(views, k, self.uuid@, self.bdev_uuid@) by {
                        if 0 <= k < views.len() {
                            assert(!is_candidate(views[k], self.uuid@, self.bdev_uuid@));
                        }
                    }
                },
            }
        }
        best
    }

    /// Settles on the metadata that the children hold, as it was read from
    /// them into `md_copies`. The children that the record to go by holds in
    /// another state than open leave the nexus and are handed back, to be
    /// closed; the others stay, and all keep their order. Where no copy is a
    /// record of this nexus, nothing changes.
    pub fn validate_children_metadata(&mut self, md_copies: &Vec<MetadataCopy>) -> (closed: Vec<
        NexusChild,
    >)
        requires
            old(self).state == NexusState::Init,
        ensures
            final(self).name == old(self).name,
            final(self).uuid == old(self).uuid,
            final(self).bdev_uuid == old(self).bdev_uuid,
            final(self).req_size == old(self).req_size,
            final(self).state == old(self).state,
            final(self).children@ == old(self).children@.filter(
                |c: NexusChild| !old(self).distrusts(md_copies@, c),
            ),
            closed@ == old(self).children@.filter(
                |c: NexusChild| old(self).distrusts(md_copies@, c),
            ),
            forall|i: int|
                0 <= i < final(self).children@.len() ==> !old(self).distrusts(
                    md_copies@,
                    #[trigger] final(self).children@[i],
                ),
            forall|i: int|
                0 <= i < closed@.len() ==> old(self).distrusts(md_copies@, #[trigger] closed@[i]),
            final(self).children@.len() + closed@.len() == old(self).children@.len(),
            old(self).selected(md_copies@) is None ==> closed@.len() == 0,
    {
        let ghost before = *self;
        let ghost orig = self.children@;
        let ghost leaves = |c: NexusChild| before.distrusts(md_copies@, c);
        let ghost stays = |c: NexusChild| !before.distrusts(md_copies@, c);
        let mut closed: Vec<NexusChild> = Vec::new();
        let at = match self.select_latest(md_copies) {
            Some(at) => at,
            None => {
                proof {
                    lemma_filter_all(orig, stays);
                    lemma_filter_none(orig, leaves);
                }
                return closed;
            },
        };
        let md_nex = match &md_copies[at].meta {
            Metadata::V1(md_nex) => md_nex,
            Metadata::Absent => {
                proof {
                    assert(copy_views(md_copies@)[at as int] is V1);
                }
                return closed;
            },
        };
        let mut i: usize = 0;
        while i < self.children.len()
            invariant
                self.name == before.name,
                self.uuid == before.uuid,
                self.bdev_uuid == before.bdev_uuid,
                self.req_size == before.req_size,
                self.state == before.state,
                before.children@ == orig,
                before.selected(md_copies@) == Some(md_nex@),
                leaves == |c: NexusChild| before.distrusts(md_copies@, c),
                stays == |c: NexusChild| !before.distrusts(md_copies@, c),
                i + closed.len() <= orig.len(),
                i <= self.children.len(),
                self.children@.len() + closed.len() == orig.len(),
                self.children@.take(i as int) == orig.take(i + closed.len()).filter(stays),
                self.children@.skip(i as int) == orig.skip(i + closed.len()),
                closed@ == orig.take(i + closed.len()).filter(leaves),
            decreases self.children.len() - i,
        {
            let ghost k = i + closed.len();
            proof {
                lemma_filter_next(orig, k, stays);
                lemma_filter_next(orig, k, leaves);
                assert(self.children@[i as int] == self.children@.skip(i as int)[0]);
                assert(orig.skip(k)[0] == orig[k]);
            }
            if is_named_unopened(md_nex, &self.children[i].name) {
                let ghost children = self.children@;
                let child = self.children.remove(i);
                closed.push(child);
                proof {
                    assert(self.children@.take(i as int) =~= children.take(i as int));
                    assert(self.children@.skip(i as int) =~= children.skip(i as int).skip(1));
                    assert(orig.skip(k).skip(1) =~= orig.skip(k + 1));
                }
            } else {
                proof {
                    assert(self.children@.take(i + 1) =~= self.children@.take(i as int).push(
                        self.children@[i as int],
                    ));
                    assert(self.children@.skip(i as int).skip(1) =~= self.children@.skip(i + 1));
                    assert(orig.skip(k).skip(1) =~= orig.skip(k + 1));
                }
                i += 1;
            }
        }
        proof {
            assert(self.children@.take(i as int) =~= self.children@);
            assert(orig.take(orig.len() as int) =~= orig);
            assert forall|i: int| 0 <= i < self.children@.len() implies stays(
                #[trigger] self.children@[i],
            ) by {
                orig.lemma_filter_pred(stays, i);
            }
            assert forall|i: int| 0 <= i < closed@.len() implies leaves(#[trigger] closed@[i]) by {
                orig.lemma_filter_pred(leaves, i);
            }
        }
        closed
    }

    /// Says to which children a copy of the metadata is to be written:
    /// those that have a device and are healthy, in their order.
    pub fn write_targets(&self) -> (targets: Vec<usize>)
        ensures
            are_write_targets(self.children@, targets@),
    {
        let mut targets: Vec<usize> = Vec::new();
        let mut i: usize = 0;
        while i < self.children.len()
            invariant
                i <= self.children.len(),
                are_write_targets(self.children@.take(i as int), targets@),
            decreases self.children.len() - i,
        {
            let ghost before = targets@;
            let ghost done = self.children@.take(i as int);
            let ghost next = self.children@.take(i + 1);
            proof {
                assert(forall|j: int| 0 <= j < i ==> next[j] == done[j]);
            }
            if self.children[i].writes_metadata() {
                targets.push(i);
                proof {
                    assert(targets@[before.len() as int] == i);
                    assert forall|j: int|
                        0 <= j < next.len() && (#[trigger] next[j]).takes_metadata() implies targets@.contains(
                        j as usize,
                    ) by {
                        if j < i {
                            assert(done[j].takes_metadata());
                            let w = choose|w: int| 0 <= w < before.len() && before[w] == j as usize;
                            assert(targets@[w] == j as usize);
                        }
                    }
                }
            }
            i += 1;
        }
        proof {
            assert(self.children@.take(self.children.len() as int) =~= self.children@);
        }
        targets
    }

    /// Makes the envelope of the record of the nexus at the time
    /// `timestamp`, and says to which children it is to be written. Fails
    /// with `EncodeFailed` where the record cannot be encoded or is too long
    /// for an envelope.
    pub fn write_metadata_at(&self, timestamp: Timestamp) -> (plan: Result<
        (Buffer, Vec<usize>),
        Error,
    >)
        ensures
            match plan {
                Ok((buffer, targets)) => {
                    &&& encoded(MetadataView::V1(self.record_at(timestamp))) matches Some(payload)
                        && payload.len() <= max_payload_len() && buffer@ == envelope(payload)
                    &&& are_write_targets(self.children@, targets@)
                },
                Err(e) => e == Error::EncodeFailed && (encoded(
                    MetadataView::V1(self.record_at(timestamp)),
                ) matches Some(payload) ==> payload.len() > max_payload_len()),
            },
    {
        let md = Metadata::V1(self.snapshot(timestamp));
        match Buffer::from_meta(&md) {
            Ok(buffer) => Ok((buffer, self.write_targets())),
            Err(e) => Err(e),
        }
    }

    /// Captures the current nexus metadata in an envelope, and says to
    /// which children it is to be written. Whatever the time is, the outcome
    /// is that of `write_metadata_at` for it: it fails with `EncodeFailed`,
    /// and only where at some time the record cannot be encoded or is too
    /// long for an envelope.
    pub fn write_metadata(&self) -> (plan: Result<(Buffer, Vec<usize>), Error>)
        ensures
            match plan {
                Ok((buffer, targets)) => {
                    &&& exists|timestamp: Timestamp|
                        (#[trigger] encoded(MetadataView::V1(self.record_at(timestamp))))
                            matches Some(payload) && payload.len() <= max_payload_len()
                            && buffer@ == envelope(payload)
                    &&& are_write_targets(self.children@, targets@)
                },
                Err(e) => e == Error::EncodeFailed && exists|timestamp: Timestamp|
                    !((#[trigger] encoded(MetadataView::V1(self.record_at(timestamp))))
                        matches Some(payload) && payload.len() <= max_payload_len()),
            },
    {
        let timestamp = utc_now();
        self.write_metadata_at(timestamp)
    }
}

/// A filter that every element passes keeps the sequence.
proof fn lemma_filter_all<A>(s: Seq<A>, pred: spec_fn(A) -> bool)
    requires
        forall|i: int| 0 <= i < s.len() ==> pred(#[trigger] s[i]),
    ensures
        s.filter(pred) == s,
    decreases s.len(),
{
    reveal(Seq::filter);
    if s.len() > 0 {
        lemma_filter_all(s.drop_last(), pred);
        assert(s.drop_last().push(s.last()) =~= s);
    }
}

/// A filter that no element passes leaves nothing.
proof fn lemma_filter_none<A>(s: Seq<A>, pred: spec_fn(A) -> bool)
    requires
        forall|i: int| 0 <= i < s.len() ==> !pred(#[trigger] s[i]),
    ensures
        s.filter(pred) == Seq::<A>::empty(),
    decreases s.len(),
{
    reveal(Seq::filter);
    if s.len() > 0 {
        lemma_filter_none(s.drop_last(), pred);
    }
}


/// A copy that is later than the latest so far is later than all that the
/// latest so far was later than.
proof fn lemma_later_than_steps(views: Seq<MetadataView>, at: int, next: int)
    requires
        0 <= at < next < views.len(),
        views[at] is V1,
        views[next] is V1,
        views[next]->V1_0.timestamp.later_than(views[at]->V1_0.timestamp),
    ensures
        forall|t: Timestamp|
            !t.later_than(views[at]->V1_0.timestamp) ==> !#[trigger] t.later_than(
                views[next]->V1_0.timestamp,
            ),
        forall|t: Timestamp|
            views[at]->V1_0.timestamp.later_than(t) ==> #[trigger] views[next]->V1_0.timestamp.later_than(t),
{
}

} // verus!
