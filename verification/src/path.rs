//! Paths of a multipath connection: their status, the events that the
//! connection reports about them, and status changes scheduled for a run.

use vstd::prelude::*;
use crate::addr::FourTuple;
use crate::addr::SocketAddress;

verus! {

/// The hint that an endpoint gives about a path.
#[derive(Clone, Copy, Debug, PartialEq, Eq, Structural)]
pub enum PathStatus {
    /// Keep the path in reserve.
    Standby,
    /// Use the path.
    Available,
    /// The path can no longer be used.
    Broken,
    /// A status this tool has no name for, by its number.
    Other(u64),
}

/// The number of the status "standby".
pub const STATUS_STANDBY: u64 = 1;

/// The number of the status "available".
pub const STATUS_AVAILABLE: u64 = 2;

/// The number of the status "broken".
pub const STATUS_BROKEN: u64 = 7;

impl PathStatus {
    /// The status with the number `code`.
    pub open spec fn spec_from_code(code: u64) -> PathStatus {
        if code == STATUS_STANDBY {
            PathStatus::Standby
        } else if code == STATUS_AVAILABLE {
            PathStatus::Available
        } else if code == STATUS_BROKEN {
            PathStatus::Broken
        } else {
            PathStatus::Other(code)
        }
    }

    /// The number of the status.
    pub open spec fn spec_code(self) -> u64 {
        match self {
            PathStatus::Standby => STATUS_STANDBY,
            PathStatus::Available => STATUS_AVAILABLE,
            PathStatus::Broken => STATUS_BROKEN,
            PathStatus::Other(code) => code,
        }
    }

    /// The status with the number `code`.
    pub fn from_code(code: u64) -> (r: PathStatus)
        ensures
            r == Self::spec_from_code(code),
    {
        if code == STATUS_STANDBY {
            PathStatus::Standby
        } else if code == STATUS_AVAILABLE {
            PathStatus::Available
        } else if code == STATUS_BROKEN {
            PathStatus::Broken
        } else {
            PathStatus::Other(code)
        }
    }

    /// The number of the status.
    pub fn code(&self) -> (r: u64)
        ensures
            r == self.spec_code(),
    {
        match self {
            PathStatus::Standby => STATUS_STANDBY,
            PathStatus::Available => STATUS_AVAILABLE,
            PathStatus::Broken => STATUS_BROKEN,
            PathStatus::Other(code) => *code,
        }
    }
}

/// Every number names a status, and that status has this number.
pub proof fn lemma_status_code_round_trip(code: u64)
    ensures
        PathStatus::spec_from_code(code).spec_code() == code,
{
}

/// What a connection reports about a path.
#[derive(Clone, Copy, Debug, PartialEq, Eq, Structural)]
pub enum PathEvent {
    /// The peer was seen on a path that was not known.
    New(SocketAddress, SocketAddress),
    /// The path was validated.
    Validated(SocketAddress, SocketAddress),
    /// The validation of the path failed.
    FailedValidation(SocketAddress, SocketAddress),
    /// The path was closed.
    Closed(SocketAddress, SocketAddress),
    /// The peer used a source connection ID a second time.
    ReusedSourceConnectionId,
    /// The peer moved the connection to this path.
    PeerMigrated(SocketAddress, SocketAddress),
    /// The peer asks for this status on this path.
    PeerPathStatus(SocketAddress, SocketAddress, PathStatus),
}

/// What an endpoint does about a path event.
#[derive(Clone, Copy, Debug, PartialEq, Eq, Structural)]
pub enum PathAction {
    /// Nothing but a log line.
    Log,
    /// Start the validation of the path.
    Probe(SocketAddress, SocketAddress),
    /// Mark the path active.
    SetActive(SocketAddress, SocketAddress),
    /// Set the status of the path without telling the peer.
    SetStatus(SocketAddress, SocketAddress, PathStatus),
}

/// Whether an event can reach a client: new paths and migrations are seen
/// by servers only.
pub open spec fn spec_client_event(event: PathEvent) -> bool {
    !(event is New) && !(event is PeerMigrated)
}

/// What a client does about `event`: a validated path becomes active,
/// everything else is noted.
pub open spec fn spec_client_path_action(event: PathEvent) -> PathAction {
    match event {
        PathEvent::Validated(local, peer) => PathAction::SetActive(local, peer),
        _ => PathAction::Log,
    }
}

/// What a server does about `event`: a new path is probed at once, a
/// validated path becomes active if multipath is on, a status the peer asks
/// for is set, everything else is noted.
pub open spec fn spec_server_path_action(event: PathEvent, multipath: bool) -> PathAction {
    match event {
        PathEvent::New(local, peer) => PathAction::Probe(local, peer),
        PathEvent::Validated(local, peer) => if multipath {
            PathAction::SetActive(local, peer)
        } else {
            PathAction::Log
        },
        PathEvent::PeerPathStatus(local, peer, status) => PathAction::SetStatus(local, peer, status),
        _ => PathAction::Log,
    }
}

/// What a client does about a path event.
pub fn client_path_action(event: &PathEvent) -> (r: PathAction)
    requires
        spec_client_event(*event),
    ensures
        r == spec_client_path_action(*event),
{
    match event {
        PathEvent::Validated(local, peer) => PathAction::SetActive(*local, *peer),
        _ => PathAction::Log,
    }
}

/// What a server does about a path event, with multipath on or off.
pub fn server_path_action(event: &PathEvent, multipath: bool) -> (r: PathAction)
    ensures
        r == spec_server_path_action(*event, multipath),
{
    match event {
        PathEvent::New(local, peer) => PathAction::Probe(*local, *peer),
        PathEvent::Validated(local, peer) => {
            if multipath {
                PathAction::SetActive(*local, *peer)
            } else {
                PathAction::Log
            }
        },
        PathEvent::PeerPathStatus(local, peer, status) => PathAction::SetStatus(
            *local,
            *peer,
            *status,
        ),
        _ => PathAction::Log,
    }
}

/// A status that was set on a path.
#[derive(Clone, Copy, Debug, PartialEq, Eq, Structural)]
pub struct StatusEntry {
    pub tuple: FourTuple,
    pub status: PathStatus,
}

/// The status that was last set on the path `tuple`, if one was set.
pub open spec fn spec_status_of(entries: Seq<StatusEntry>, tuple: FourTuple) -> Option<PathStatus>
    decreases entries.len(),
{
    if entries.len() == 0 {
        None
    } else if entries.last().tuple == tuple {
        Some(entries.last().status)
    } else {
        spec_status_of(entries.drop_last(), tuple)
    }
}

/// Putting a status in the place of the last entry for a path changes the
/// status of that path and of no other.
pub proof fn lemma_status_after_update(entries: Seq<StatusEntry>, i: int, entry: StatusEntry, other: FourTuple)
    requires
        0 <= i < entries.len(),
        entries[i].tuple == entry.tuple,
        forall|j: int| i < j < entries.len() ==> (#[trigger] entries[j]).tuple != entry.tuple,
    ensures
        spec_status_of(entries.update(i, entry), other) == if other == entry.tuple {
            Some(entry.status)
        } else {
            spec_status_of(entries, other)
        },
    decreases entries.len(),
{
    let after = entries.update(i, entry);
    if i == entries.len() - 1 {
        assert(after.drop_last() =~= entries.drop_last());
    } else {
        assert(after.drop_last() =~= entries.drop_last().update(i, entry));
        assert(after.last() == entries.last());
        assert(entries[entries.len() - 1].tuple != entry.tuple);
        assert forall|j: int| i < j < entries.drop_last().len() implies (
        #[trigger] entries.drop_last()[j]).tuple != entry.tuple by {
            assert(entries[j].tuple != entry.tuple);
        }
        lemma_status_after_update(entries.drop_last(), i, entry, other);
    }
}

/// The statuses that were set on the paths of a connection, one entry for
/// each path.
#[derive(Debug)]
pub struct StatusBook {
    entries: Vec<StatusEntry>,
}

impl StatusBook {
    /// The statuses in the order in which they were set.
    pub closed spec fn spec_entries(&self) -> Seq<StatusEntry> {
        self.entries@
    }

    /// The status of the path `tuple`, if one was set.
    pub open spec fn spec_status(&self, tuple: FourTuple) -> Option<PathStatus> {
        spec_status_of(self.spec_entries(), tuple)
    }

    /// A book without a status.
    pub fn new() -> (r: StatusBook)
        ensures
            r.spec_entries() == Seq::<StatusEntry>::empty(),
    {
        StatusBook { entries: Vec::new() }
    }

    /// How many paths have a status on record.
    pub fn len(&self) -> (r: usize)
        ensures
            r == self.spec_entries().len(),
    {
        self.entries.len()
    }

    /// The position of the last entry for `tuple`.
    fn position(&self, tuple: &FourTuple) -> (r: Option<usize>)
        ensures
            r is Some <==> spec_status_of(self.entries@, *tuple) is Some,
            r matches Some(i) ==> i < self.entries@.len() && self.entries@[i as int].tuple == *tuple
                && forall|j: int| i < j < self.entries@.len() ==> (#[trigger] self.entries@[j]).tuple
                != *tuple,
            r is None ==> forall|j: int|
                0 <= j < self.entries@.len() ==> (#[trigger] self.entries@[j]).tuple != *tuple,
    {
        let mut i: usize = self.entries.len();
        assert(self.entries@.take(i as int) =~= self.entries@);
        while i > 0
            invariant
                i <= self.entries@.len(),
                spec_status_of(self.entries@, *tuple) == spec_status_of(
                    self.entries@.take(i as int),
                    *tuple,
                ),
                forall|j: int| i <= j < self.entries@.len() ==> (#[trigger] self.entries@[j]).tuple
                    != *tuple,
            decreases i,
        {
            let ghost front = self.entries@.take(i as int);
            i = i - 1;
            assert(front.drop_last() =~= self.entries@.take(i as int));
            assert(front.last() == self.entries@[i as int]);
            if self.entries[i].tuple == *tuple {
                return Some(i);
            }
        }
        assert(self.entries@.take(0) =~= Seq::<StatusEntry>::empty());
        None
    }

    /// Notes that `status` was set on the path `tuple`: in place of the
    /// status that was noted for the path before, or as a new entry if none
    /// was. The book holds one more entry only for a path it did not know.
    pub fn set(&mut self, tuple: FourTuple, status: PathStatus)
        ensures
            final(self).spec_status(tuple) == Some(status),
            forall|other: FourTuple|
                other != tuple ==> #[trigger] final(self).spec_status(other) == old(self).spec_status(
                    other,
                ),
            final(self).spec_entries().len() == old(self).spec_entries().len() + if old(self).spec_status(tuple) is None {
                1nat
            } else {
                0nat
            },
    {
        let ghost before = self.entries@;
        let entry = StatusEntry { tuple, status };
        match self.position(&tuple) {
            Some(i) => {
                self.entries.set(i, entry);
                proof {
                    assert forall|other: FourTuple| true implies spec_status_of(
                        before.update(i as int, entry),
                        other,
                    ) == if other == tuple {
                        Some(status)
                    } else {
                        #[trigger] spec_status_of(before, other)
                    } by {
                        lemma_status_after_update(before, i as int, entry, other);
                    }
                }
            },
            None => {
                self.entries.push(entry);
                assert(self.entries@.drop_last() =~= before);
            },
        }
    }

    /// The status that was last set on the path `tuple`.
    pub fn status(&self, tuple: &FourTuple) -> (r: Option<PathStatus>)
        ensures
            r == self.spec_status(*tuple),
    {
        let mut i: usize = self.entries.len();
        assert(self.entries@.take(i as int) =~= self.entries@);
        while i > 0
            invariant
                i <= self.entries@.len(),
                spec_status_of(self.entries@, *tuple) == spec_status_of(
                    self.entries@.take(i as int),
                    *tuple,
                ),
            decreases i,
        {
            let ghost front = self.entries@.take(i as int);
            i = i - 1;
            assert(front.drop_last() =~= self.entries@.take(i as int));
            assert(front.last() == self.entries@[i as int]);
            if self.entries[i].tuple == *tuple {
                return Some(self.entries[i].status);
            }
        }
        assert(self.entries@.take(0) =~= Seq::<StatusEntry>::empty());
        None
    }

    /// Whether the path `tuple` was given up as broken.
    pub fn is_broken(&self, tuple: &FourTuple) -> (r: bool)
        ensures
            r == (self.spec_status(*tuple) == Some(PathStatus::Broken)),
    {
        match self.status(tuple) {
            Some(PathStatus::Broken) => true,
            _ => false,
        }
    }
}

} // verus!
