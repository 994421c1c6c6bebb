//! Status changes of paths that take effect at set times into a run.

use vstd::prelude::*;
use crate::addr::SocketAddress;
use crate::path::PathStatus;
use crate::time::TimeSpan;

verus! {

/// A status for a path, to be set once `delay` has passed since the start
/// of the test.
#[derive(Clone, Copy, Debug, PartialEq, Eq, Structural)]
pub struct PathStatusUpdate {
    pub delay: TimeSpan,
    pub path_id: usize,
    pub status: PathStatus,
}

/// A status to set on the path between two addresses, and to tell the peer.
#[derive(Clone, Copy, Debug, PartialEq, Eq, Structural)]
pub struct PathStatusChange {
    pub local_addr: SocketAddress,
    pub peer_addr: SocketAddress,
    pub status: PathStatus,
}

/// An update names the path `path_id`, which does not exist.
#[derive(Clone, Copy, Debug, PartialEq, Eq, Structural)]
pub struct NoSuchPath {
    pub path_id: usize,
}

/// Whether `u` is due when `elapsed` nanoseconds have passed.
pub open spec fn spec_is_due(u: PathStatusUpdate, elapsed: nat) -> bool {
    elapsed >= u.delay.as_nanos()
}

/// How many of the updates are due.
pub open spec fn spec_due_count(us: Seq<PathStatusUpdate>, elapsed: nat) -> nat
    decreases us.len(),
{
    if us.len() == 0 {
        0
    } else {
        spec_due_count(us.drop_last(), elapsed) + if spec_is_due(us.last(), elapsed) {
            1nat
        } else {
            0nat
        }
    }
}

/// The change that `u` asks for on paths between the given addresses.
pub open spec fn spec_change(
    u: PathStatusUpdate,
    local_addrs: Seq<SocketAddress>,
    peer_addrs: Seq<SocketAddress>,
) -> PathStatusChange {
    PathStatusChange {
        local_addr: local_addrs[u.path_id as int],
        peer_addr: peer_addrs[u.path_id as int],
        status: u.status,
    }
}

/// The changes of the updates that are due, in the order of the updates.
pub open spec fn spec_due_changes(
    us: Seq<PathStatusUpdate>,
    local_addrs: Seq<SocketAddress>,
    peer_addrs: Seq<SocketAddress>,
    elapsed: nat,
) -> Seq<PathStatusChange>
    decreases us.len(),
{
    if us.len() == 0 {
        Seq::empty()
    } else {
        let front = spec_due_changes(us.drop_last(), local_addrs, peer_addrs, elapsed);
        if spec_is_due(us.last(), elapsed) {
            front.push(spec_change(us.last(), local_addrs, peer_addrs))
        } else {
            front
        }
    }
}

/// The updates that stay when `applied` tells, for each due update in
/// order, whether its change took effect: those that are not due, and those
/// whose change did not take effect.
pub open spec fn spec_settled(us: Seq<PathStatusUpdate>, elapsed: nat, applied: Seq<bool>) -> Seq<
    PathStatusUpdate,
>
    decreases us.len(),
{
    if us.len() == 0 {
        Seq::empty()
    } else {
        let front = spec_settled(us.drop_last(), elapsed, applied);
        let rank = spec_due_count(us.drop_last(), elapsed) as int;
        if spec_is_due(us.last(), elapsed) && rank < applied.len() && applied[rank] {
            front
        } else {
            front.push(us.last())
        }
    }
}

/// Every update names a path that exists.
pub open spec fn spec_paths_exist(us: Seq<PathStatusUpdate>, paths: nat) -> bool {
    forall|i: int| 0 <= i < us.len() ==> (#[trigger] us[i]).path_id < paths
}

/// The status changes that are still to come in a run.
#[derive(Debug)]
pub struct PathStatusUpdater {
    start: TimeSpan,
    local_addrs: Vec<SocketAddress>,
    peer_addrs: Vec<SocketAddress>,
    updates: Vec<PathStatusUpdate>,
}

impl PathStatusUpdater {
    /// The reading of the clock at the start of the test.
    pub closed spec fn spec_start(&self) -> nat {
        self.start.as_nanos()
    }

    /// The local address of each path.
    pub closed spec fn spec_local_addrs(&self) -> Seq<SocketAddress> {
        self.local_addrs@
    }

    /// The peer address of each path.
    pub closed spec fn spec_peer_addrs(&self) -> Seq<SocketAddress> {
        self.peer_addrs@
    }

    /// The updates that are still to come.
    pub closed spec fn spec_updates(&self) -> Seq<PathStatusUpdate> {
        self.updates@
    }

    /// The time that has passed at `now` since the start of the test.
    pub open spec fn spec_elapsed(&self, now: nat) -> nat {
        if now >= self.spec_start() {
            (now - self.spec_start()) as nat
        } else {
            0
        }
    }

    /// Each path has a local and a peer address, and every update names a
    /// path that exists.
    pub open spec fn wf(&self) -> bool {
        &&& self.spec_local_addrs().len() == self.spec_peer_addrs().len()
        &&& spec_paths_exist(self.spec_updates(), self.spec_local_addrs().len())
    }

    /// The updater of a test that started at `start` on the paths between
    /// `local_addrs` and `peer_addrs`, index by index. Fails on the first
    /// update that names a path that does not exist.
    pub fn new(
        start: TimeSpan,
        local_addrs: Vec<SocketAddress>,
        peer_addrs: Vec<SocketAddress>,
        updates: Vec<PathStatusUpdate>,
    ) -> (r: Result<PathStatusUpdater, NoSuchPath>)
        requires
            local_addrs@.len() == peer_addrs@.len(),
        ensures
            r is Ok <==> spec_paths_exist(updates@, local_addrs@.len()),
            r matches Ok(u) ==> u.wf() && u.spec_start() == start.as_nanos()
                && u.spec_local_addrs() == local_addrs@ && u.spec_peer_addrs() == peer_addrs@
                && u.spec_updates() == updates@,
            r matches Err(e) ==> exists|i: int|
                0 <= i < updates@.len() && (#[trigger] updates@[i]).path_id == e.path_id
                    && e.path_id >= local_addrs@.len() && spec_paths_exist(
                    updates@.take(i),
                    local_addrs@.len(),
                ),
    {
        let mut i: usize = 0;
        while i < updates.len()
            invariant
                i <= updates@.len(),
                spec_paths_exist(updates@.take(i as int), local_addrs@.len()),
            decreases updates@.len() - i,
        {
            if updates[i].path_id >= local_addrs.len() {
                assert(updates@[i as int].path_id >= local_addrs@.len());
                return Err(NoSuchPath { path_id: updates[i].path_id });
            }
            assert forall|j: int| 0 <= j < i + 1 implies (#[trigger] updates@.take(i + 1)[j]).path_id
                < local_addrs@.len() by {
                if j < i {
                    assert(updates@.take(i as int)[j].path_id < local_addrs@.len());
                }
            }
            i = i + 1;
        }
        assert(updates@.take(i as int) =~= updates@);
        Ok(PathStatusUpdater { start, local_addrs, peer_addrs, updates })
    }

    /// How many updates are still to come.
    pub fn pending(&self) -> (r: usize)
        ensures
            r == self.spec_updates().len(),
    {
        self.updates.len()
    }

    /// The changes that are due at `now`, in the order of their updates. A
    /// change is due once its delay has passed since the start of the test.
    pub fn check(&self, now: TimeSpan) -> (r: Vec<PathStatusChange>)
        requires
            self.wf(),
        ensures
            r@ == spec_due_changes(
                self.spec_updates(),
                self.spec_local_addrs(),
                self.spec_peer_addrs(),
                self.spec_elapsed(now.as_nanos()),
            ),
            r@.len() == spec_due_count(self.spec_updates(), self.spec_elapsed(now.as_nanos())),
    {
        let elapsed: TimeSpan = now.saturating_sub(self.start);
        let ghost e = self.spec_elapsed(now.as_nanos());
        let mut due: Vec<PathStatusChange> = Vec::new();
        let mut i: usize = 0;
        while i < self.updates.len()
            invariant
                i <= self.updates@.len(),
                self.wf(),
                elapsed.as_nanos() == e,
                due@ == spec_due_changes(
                    self.updates@.take(i as int),
                    self.local_addrs@,
                    self.peer_addrs@,
                    e,
                ),
                due@.len() == spec_due_count(self.updates@.take(i as int), e),
            decreases self.updates@.len() - i,
        {
            let u: PathStatusUpdate = self.updates[i];
            assert(self.updates@.take(i + 1).drop_last() =~= self.updates@.take(i as int));
            assert(self.updates@.take(i + 1).last() == u);
            if elapsed.ge(&u.delay) {
                assert(self.spec_updates()[i as int].path_id < self.local_addrs@.len());
                due.push(
                    PathStatusChange {
                        local_addr: self.local_addrs[u.path_id],
                        peer_addr: self.peer_addrs[u.path_id],
                        status: u.status,
                    },
                );
            }
            i = i + 1;
        }
        assert(self.updates@.take(i as int) =~= self.updates@);
        due
    }

    /// Drops the updates whose changes took effect. `applied` tells, for
    /// each change that `check` returned for `now`, in order, whether it
    /// took effect; a change that is not told of counts as failed. Updates
    /// that are not due, and those whose change failed, stay for a later
    /// attempt.
    pub fn settle(&mut self, now: TimeSpan, applied: &[bool])
        requires
            old(self).wf(),
        ensures
            final(self).wf(),
            final(self).spec_start() == old(self).spec_start(),
            final(self).spec_local_addrs() == old(self).spec_local_addrs(),
            final(self).spec_peer_addrs() == old(self).spec_peer_addrs(),
            final(self).spec_updates() == spec_settled(
                old(self).spec_updates(),
                old(self).spec_elapsed(now.as_nanos()),
                applied@,
            ),
    {
        let elapsed: TimeSpan = now.saturating_sub(self.start);
        let ghost e = self.spec_elapsed(now.as_nanos());
        let ghost us = self.updates@;
        let ghost paths = self.local_addrs@.len();
        let mut kept: Vec<PathStatusUpdate> = Vec::new();
        let mut rank: usize = 0;
        let mut i: usize = 0;
        while i < self.updates.len()
            invariant
                i <= us.len(),
                self.updates@ == us,
                spec_paths_exist(us, paths),
                elapsed.as_nanos() == e,
                rank == spec_due_count(us.take(i as int), e),
                rank <= i,
                kept@ == spec_settled(us.take(i as int), e, applied@),
                spec_paths_exist(kept@, paths),
            decreases us.len() - i,
        {
            let u: PathStatusUpdate = self.updates[i];
            assert(us.take(i + 1).drop_last() =~= us.take(i as int));
            assert(us.take(i + 1).last() == u);
            assert(us[i as int].path_id < paths);
            let due: bool = elapsed.ge(&u.delay);
            let gone: bool = due && rank < applied.len() && applied[rank];
            if !gone {
                let ghost before = kept@;
                kept.push(u);
                assert forall|j: int| 0 <= j < kept@.len() implies (#[trigger] kept@[j]).path_id
                    < paths by {
                    if j < before.len() {
                        assert(before[j].path_id < paths);
                    }
                }
            }
            if due {
                rank = rank + 1;
            }
            i = i + 1;
        }
        assert(us.take(i as int) =~= us);
        self.updates = kept;
    }
}

/// Whether `change` is the change of one of the updates that are due.
pub open spec fn spec_from_due(
    us: Seq<PathStatusUpdate>,
    local_addrs: Seq<SocketAddress>,
    peer_addrs: Seq<SocketAddress>,
    elapsed: nat,
    change: PathStatusChange,
) -> bool {
    exists|i: int|
        0 <= i < us.len() && spec_is_due(#[trigger] us[i], elapsed) && change == spec_change(
            us[i],
            local_addrs,
            peer_addrs,
        )
}

/// A change is handed out only for an update whose delay has passed: the
/// changes that are due are as many as the due updates, and each is the
/// change of an update that is due.
pub proof fn lemma_due_changes_are_due(
    us: Seq<PathStatusUpdate>,
    local_addrs: Seq<SocketAddress>,
    peer_addrs: Seq<SocketAddress>,
    elapsed: nat,
)
    ensures
        spec_due_changes(us, local_addrs, peer_addrs, elapsed).len() == spec_due_count(us, elapsed),
        forall|k: int|
            0 <= k < spec_due_changes(us, local_addrs, peer_addrs, elapsed).len() ==> spec_from_due(
                us,
                local_addrs,
                peer_addrs,
                elapsed,
                #[trigger] spec_due_changes(us, local_addrs, peer_addrs, elapsed)[k],
            ),
    decreases us.len(),
{
    if us.len() > 0 {
        let front = us.drop_last();
        lemma_due_changes_are_due(front, local_addrs, peer_addrs, elapsed);
        let all = spec_due_changes(us, local_addrs, peer_addrs, elapsed);
        let before = spec_due_changes(front, local_addrs, peer_addrs, elapsed);
        assert forall|k: int| 0 <= k < all.len() implies spec_from_due(
            us,
            local_addrs,
            peer_addrs,
            elapsed,
            #[trigger] all[k],
        ) by {
            if k < before.len() {
                assert(spec_from_due(front, local_addrs, peer_addrs, elapsed, before[k]));
                let i = choose|i: int|
                    0 <= i < front.len() && spec_is_due(#[trigger] front[i], elapsed) && before[k]
                        == spec_change(front[i], local_addrs, peer_addrs);
                assert(us[i] == front[i]);
            } else {
                assert(spec_is_due(us[us.len() - 1], elapsed));
            }
        }
    }
}

/// An update leaves the list only when it is due: every update that is not
/// due stays, whatever is told of the changes.
pub proof fn lemma_settle_keeps_early_updates(
    us: Seq<PathStatusUpdate>,
    elapsed: nat,
    applied: Seq<bool>,
)
    requires
        forall|i: int| 0 <= i < us.len() ==> !spec_is_due(#[trigger] us[i], elapsed),
    ensures
        spec_settled(us, elapsed, applied) == us,
    decreases us.len(),
{
    if us.len() > 0 {
        let front = us.drop_last();
        assert forall|i: int| 0 <= i < front.len() implies !spec_is_due(
            #[trigger] front[i],
            elapsed,
        ) by {
            assert(front[i] == us[i]);
        }
        lemma_settle_keeps_early_updates(front, elapsed, applied);
        assert(!spec_is_due(us[us.len() - 1], elapsed));
        assert(front.push(us.last()) =~= us);
    } else {
        assert(us =~= Seq::<PathStatusUpdate>::empty());
    }
}

} // verus!
