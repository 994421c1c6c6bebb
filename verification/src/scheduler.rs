//! The choice of the path that the next packet goes out on.

use vstd::prelude::*;
use crate::addr::SocketAddress;
use crate::cli::SchedulerOpts;

verus! {

/// What a scheduler knows of a path when it chooses.
#[derive(Clone, Copy, Debug, PartialEq, Eq, Structural)]
pub struct PathInfo {
    pub local_addr: SocketAddress,
    pub peer_addr: SocketAddress,
    /// Whether the path is validated and in use.
    pub active: bool,
    /// Whether the path was given up as broken.
    pub broken: bool,
    /// Bytes that the congestion window still admits.
    pub cwnd_available: usize,
    /// The smoothed round-trip time in nanoseconds.
    pub rtt: u64,
    /// Bytes that were sent and not yet acknowledged.
    pub bytes_in_flight: usize,
    /// The bandwidth-delay product of the path in bytes.
    pub bdp: usize,
}

/// The bandwidth-delay product of a path that delivers `delivery_rate`
/// bytes per second with a round-trip time of `rtt` nanoseconds, in bytes.
pub open spec fn spec_bdp(delivery_rate: u64, rtt: u64) -> nat {
    (delivery_rate as nat * rtt as nat) / 1_000_000_000
}

/// What is in flight on a path whose congestion window of `cwnd` bytes
/// still admits `cwnd_available` bytes.
pub open spec fn spec_in_flight(cwnd: usize, cwnd_available: usize) -> nat {
    if cwnd >= cwnd_available {
        (cwnd - cwnd_available) as nat
    } else {
        0
    }
}

/// What a scheduler knows of a path, from what the connection reports of
/// it: the round-trip time in full nanoseconds, capped at what fits; what is
/// in flight; the bandwidth-delay product, capped at what fits.
pub fn path_info(
    local_addr: SocketAddress,
    peer_addr: SocketAddress,
    active: bool,
    broken: bool,
    cwnd: usize,
    cwnd_available: usize,
    rtt: crate::time::TimeSpan,
    delivery_rate: u64,
) -> (r: PathInfo)
    ensures
        r.local_addr == local_addr,
        r.peer_addr == peer_addr,
        r.active == active,
        r.broken == broken,
        r.cwnd_available == cwnd_available,
        r.rtt == if rtt.as_nanos() <= u64::MAX {
            rtt.as_nanos()
        } else {
            u64::MAX as nat
        },
        r.bytes_in_flight == spec_in_flight(cwnd, cwnd_available),
        r.bdp == if spec_bdp(delivery_rate, r.rtt) <= usize::MAX {
            spec_bdp(delivery_rate, r.rtt)
        } else {
            usize::MAX as nat
        },
{
    let nanos: u128 = rtt.total_nanos();
    let rtt_nanos: u64 = if nanos <= u64::MAX as u128 { nanos as u64 } else { u64::MAX };
    assert(delivery_rate as nat * rtt_nanos as nat <= 0xffff_ffff_ffff_ffff * 0xffff_ffff_ffff_ffff)
        by (nonlinear_arith)
        requires
            delivery_rate <= 0xffff_ffff_ffff_ffff,
            rtt_nanos <= 0xffff_ffff_ffff_ffff,
    ;
    let product: u128 = (delivery_rate as u128) * (rtt_nanos as u128);
    let bdp: u128 = product / 1_000_000_000;
    PathInfo {
        local_addr,
        peer_addr,
        active,
        broken,
        cwnd_available,
        rtt: rtt_nanos,
        bytes_in_flight: if cwnd >= cwnd_available { cwnd - cwnd_available } else { 0 },
        bdp: if bdp <= usize::MAX as u128 { bdp as usize } else { usize::MAX },
    }
}

/// What the connection is told with a chosen path: the path whose pacing
/// budget the packet is charged to.
#[derive(Clone, Copy, Debug, PartialEq, Eq, Structural)]
pub struct SendInstructions {
    pub path_id: usize,
}

/// The path to send on next.
#[derive(Clone, Copy, Debug, PartialEq, Eq, Structural)]
pub struct Scheduled {
    pub local_addr: SocketAddress,
    pub peer_addr: SocketAddress,
    pub instructions: SendInstructions,
}

/// Whether a path may be sent on: it is active, not broken, and its
/// congestion window admits something.
pub open spec fn spec_eligible(p: PathInfo) -> bool {
    p.active && !p.broken && p.cwnd_available > 0
}

/// Whether a path could carry traffic if its congestion window admitted it.
pub open spec fn spec_usable(p: PathInfo) -> bool {
    p.active && !p.broken
}

/// Whether path `i` comes before path `j` by round-trip time, the lower
/// index first among equals.
pub open spec fn spec_before(paths: Seq<PathInfo>, i: int, j: int) -> bool {
    paths[i].rtt < paths[j].rtt || (paths[i].rtt == paths[j].rtt && i <= j)
}

/// Whether `i` is the eligible path with the lowest round-trip time.
pub open spec fn spec_is_min_rtt(paths: Seq<PathInfo>, i: int) -> bool {
    &&& 0 <= i < paths.len()
    &&& spec_eligible(paths[i])
    &&& forall|j: int|
        0 <= j < paths.len() && spec_eligible(#[trigger] paths[j]) ==> spec_before(paths, i, j)
}

/// Whether `i` is the usable path with the lowest round-trip time.
pub open spec fn spec_is_fastest(paths: Seq<PathInfo>, i: int) -> bool {
    &&& 0 <= i < paths.len()
    &&& spec_usable(paths[i])
    &&& forall|j: int|
        0 <= j < paths.len() && spec_usable(#[trigger] paths[j]) ==> spec_before(paths, i, j)
}

/// Whether sending on path `i` cannot hold up the fastest usable path: `i`
/// is that path, or what is in flight on that path falls short of the
/// bandwidth-delay product of `i`.
pub open spec fn spec_harmless(paths: Seq<PathInfo>, i: int) -> bool {
    forall|f: int|
        #![trigger spec_is_fastest(paths, f)]
        spec_is_fastest(paths, f) ==> f == i || paths[f].bytes_in_flight < paths[i].bdp
}

/// Whether a path may be sent on without holding up the fastest one.
pub open spec fn spec_blest_eligible(paths: Seq<PathInfo>, i: int) -> bool {
    spec_eligible(paths[i]) && spec_harmless(paths, i)
}

/// Whether `i` is the path with the lowest round-trip time among those that
/// may be sent on without holding up the fastest one.
pub open spec fn spec_is_blest(paths: Seq<PathInfo>, i: int) -> bool {
    &&& 0 <= i < paths.len()
    &&& spec_blest_eligible(paths, i)
    &&& forall|j: int|
        #![trigger spec_blest_eligible(paths, j)]
        0 <= j < paths.len() && spec_blest_eligible(paths, j) ==> spec_before(paths, i, j)
}

/// The first eligible path at or after position `from` and before `to`.
pub open spec fn spec_first_eligible(paths: Seq<PathInfo>, from: int, to: int) -> Option<int>
    decreases to - from,
{
    if from >= to || from < 0 || to > paths.len() {
        None
    } else if spec_eligible(paths[from]) {
        Some(from)
    } else {
        spec_first_eligible(paths, from + 1, to)
    }
}

/// The eligible path whose turn it is when the paths from `cursor` on go
/// first and those before it follow.
pub open spec fn spec_round_robin(paths: Seq<PathInfo>, cursor: int) -> Option<int> {
    let start = if 0 <= cursor < paths.len() {
        cursor
    } else {
        0
    };
    match spec_first_eligible(paths, start, paths.len() as int) {
        Some(i) => Some(i),
        None => spec_first_eligible(paths, 0, start),
    }
}

/// Whether a path may be sent on.
pub fn eligible(p: &PathInfo) -> (r: bool)
    ensures
        r == spec_eligible(*p),
{
    p.active && !p.broken && p.cwnd_available > 0
}

/// The eligible path with the lowest round-trip time, the lowest index
/// first among equals.
pub fn min_rtt(paths: &[PathInfo]) -> (r: Option<usize>)
    ensures
        r matches Some(i) ==> spec_is_min_rtt(paths@, i as int),
        r is None ==> forall|j: int| 0 <= j < paths@.len() ==> !spec_eligible(#[trigger] paths@[j]),
{
    let mut best: Option<usize> = None;
    let mut i: usize = 0;
    while i < paths.len()
        invariant
            i <= paths@.len(),
            best matches Some(b) ==> b < i && spec_eligible(paths@[b as int]) && forall|j: int|
                0 <= j < i && spec_eligible(#[trigger] paths@[j]) ==> spec_before(
                    paths@,
                    b as int,
                    j,
                ),
            best is None ==> forall|j: int| 0 <= j < i ==> !spec_eligible(#[trigger] paths@[j]),
        decreases paths@.len() - i,
    {
        if eligible(&paths[i]) {
            match best {
                None => {
                    best = Some(i);
                },
                Some(b) => {
                    if paths[i].rtt < paths[b].rtt {
                        best = Some(i);
                    }
                },
            }
        }
        i = i + 1;
    }
    best
}

/// The usable path with the lowest round-trip time.
fn fastest(paths: &[PathInfo]) -> (r: Option<usize>)
    ensures
        r matches Some(i) ==> spec_is_fastest(paths@, i as int),
        r is None ==> forall|j: int| 0 <= j < paths@.len() ==> !spec_usable(#[trigger] paths@[j]),
{
    let mut best: Option<usize> = None;
    let mut i: usize = 0;
    while i < paths.len()
        invariant
            i <= paths@.len(),
            best matches Some(b) ==> b < i && spec_usable(paths@[b as int]) && forall|j: int|
                0 <= j < i && spec_usable(#[trigger] paths@[j]) ==> spec_before(paths@, b as int, j),
            best is None ==> forall|j: int| 0 <= j < i ==> !spec_usable(#[trigger] paths@[j]),
        decreases paths@.len() - i,
    {
        if paths[i].active && !paths[i].broken {
            match best {
                None => {
                    best = Some(i);
                },
                Some(b) => {
                    if paths[i].rtt < paths[b].rtt {
                        best = Some(i);
                    }
                },
            }
        }
        i = i + 1;
    }
    best
}

/// There is at most one fastest usable path.
proof fn lemma_fastest_unique(paths: Seq<PathInfo>, a: int, b: int)
    requires
        spec_is_fastest(paths, a),
        spec_is_fastest(paths, b),
    ensures
        a == b,
{
    assert(spec_before(paths, a, b));
    assert(spec_before(paths, b, a));
}

/// The path with the lowest round-trip time among those that may be sent
/// on without holding up the fastest usable path.
pub fn blest(paths: &[PathInfo]) -> (r: Option<usize>)
    ensures
        r matches Some(i) ==> spec_is_blest(paths@, i as int),
        r is None ==> forall|j: int|
            #![trigger spec_blest_eligible(paths@, j)]
            0 <= j < paths@.len() ==> !spec_blest_eligible(paths@, j),
{
    let lead: Option<usize> = fastest(paths);
    let mut best: Option<usize> = None;
    let mut i: usize = 0;
    while i < paths.len()
        invariant
            i <= paths@.len(),
            lead matches Some(f) ==> spec_is_fastest(paths@, f as int),
            lead is None ==> forall|j: int| 0 <= j < paths@.len() ==> !spec_usable(#[trigger] paths@[j]),
            best matches Some(b) ==> b < i && spec_blest_eligible(paths@, b as int) && forall|
                j: int,
            |
                #![trigger spec_blest_eligible(paths@, j)]
                0 <= j < i && spec_blest_eligible(paths@, j) ==> spec_before(paths@, b as int, j),
            best is None ==> forall|j: int|
                #![trigger spec_blest_eligible(paths@, j)]
                0 <= j < i ==> !spec_blest_eligible(paths@, j),
        decreases paths@.len() - i,
    {
        let harmless: bool = match lead {
            Some(f) => f == i || paths[f].bytes_in_flight < paths[i].bdp,
            None => true,
        };
        proof {
            match lead {
                Some(f) => {
                    if harmless {
                        assert forall|g: int|
                            #![trigger spec_is_fastest(paths@, g)]
                            spec_is_fastest(paths@, g) implies g == i || paths@[g].bytes_in_flight
                            < paths@[i as int].bdp by {
                            lemma_fastest_unique(paths@, g, f as int);
                        }
                    } else {
                        assert(spec_is_fastest(paths@, f as int));
                    }
                },
                None => {
                    assert forall|g: int|
                        #![trigger spec_is_fastest(paths@, g)]
                        spec_is_fastest(paths@, g) implies g == i || paths@[g].bytes_in_flight
                        < paths@[i as int].bdp by {
                        assert(spec_usable(paths@[g]));
                    }
                },
            }
            assert(harmless == spec_harmless(paths@, i as int));
        }
        if eligible(&paths[i]) && harmless {
            match best {
                None => {
                    best = Some(i);
                },
                Some(b) => {
                    if paths[i].rtt < paths[b].rtt {
                        best = Some(i);
                    }
                },
            }
        }
        i = i + 1;
    }
    best
}

/// The first eligible path at or after position `from` and before `to`.
fn first_eligible(paths: &[PathInfo], from: usize, to: usize) -> (r: Option<usize>)
    requires
        from <= to <= paths@.len(),
    ensures
        r is Some <==> spec_first_eligible(paths@, from as int, to as int) is Some,
        r matches Some(i) ==> Some(i as int) == spec_first_eligible(paths@, from as int, to as int)
            && from <= i < to,
{
    let mut i: usize = from;
    while i < to
        invariant
            from <= i <= to <= paths@.len(),
            spec_first_eligible(paths@, from as int, to as int) == spec_first_eligible(
                paths@,
                i as int,
                to as int,
            ),
        decreases to - i,
    {
        if eligible(&paths[i]) {
            return Some(i);
        }
        i = i + 1;
    }
    None
}

/// The eligible path whose turn it is when the paths from `cursor` on go
/// first and those before it follow.
pub fn round_robin(paths: &[PathInfo], cursor: usize) -> (r: Option<usize>)
    ensures
        r is Some <==> spec_round_robin(paths@, cursor as int) is Some,
        r matches Some(i) ==> Some(i as int) == spec_round_robin(paths@, cursor as int) && i
            < paths@.len(),
{
    let start: usize = if cursor < paths.len() { cursor } else { 0 };
    match first_eligible(paths, start, paths.len()) {
        Some(i) => Some(i),
        None => first_eligible(paths, 0, start),
    }
}

/// How often each path was chosen, by the index of the path.
pub open spec fn spec_counted(decisions: Seq<u64>, i: int) -> Seq<u64> {
    let padded = if i < decisions.len() {
        decisions
    } else {
        decisions + Seq::new((i + 1 - decisions.len()) as nat, |k: int| 0u64)
    };
    padded.update(
        i,
        if padded[i] < u64::MAX {
            (padded[i] + 1) as u64
        } else {
            padded[i]
        },
    )
}

/// A scheduler: a strategy, whose turn it is, and how often each path was
/// chosen since the counts were last taken.
#[derive(Debug)]
pub struct Scheduler {
    strategy: SchedulerOpts,
    cursor: usize,
    decisions: Vec<u64>,
}

impl Scheduler {
    /// The strategy of the scheduler.
    pub closed spec fn spec_strategy(&self) -> SchedulerOpts {
        self.strategy
    }

    /// The position from which round robin looks for the next path.
    pub closed spec fn spec_cursor(&self) -> usize {
        self.cursor
    }

    /// How often each path was chosen since the counts were last taken.
    pub closed spec fn spec_decisions(&self) -> Seq<u64> {
        self.decisions@
    }

    /// The path that the strategy chooses among `paths`.
    pub open spec fn spec_chooses(&self, paths: Seq<PathInfo>, i: int) -> bool {
        match self.spec_strategy() {
            SchedulerOpts::MinRTT => spec_is_min_rtt(paths, i),
            SchedulerOpts::Blest => spec_is_blest(paths, i),
            SchedulerOpts::RoundRobin => spec_round_robin(paths, self.spec_cursor() as int) == Some(i),
        }
    }

    /// Whether the strategy finds no path to send on among `paths`.
    pub open spec fn spec_chooses_none(&self, paths: Seq<PathInfo>) -> bool {
        match self.spec_strategy() {
            SchedulerOpts::MinRTT => forall|j: int|
                0 <= j < paths.len() ==> !spec_eligible(#[trigger] paths[j]),
            SchedulerOpts::Blest => forall|j: int|
                #![trigger spec_blest_eligible(paths, j)]
                0 <= j < paths.len() ==> !spec_blest_eligible(paths, j),
            SchedulerOpts::RoundRobin => spec_round_robin(paths, self.spec_cursor() as int) is None,
        }
    }

    /// A scheduler with the given strategy that has chosen nothing yet.
    pub fn new(strategy: SchedulerOpts) -> (r: Scheduler)
        ensures
            r.spec_strategy() == strategy,
            r.spec_cursor() == 0,
            r.spec_decisions() == Seq::<u64>::empty(),
    {
        Scheduler { strategy, cursor: 0, decisions: Vec::new() }
    }

    /// Counts one choice of path `i`.
    fn count(&mut self, i: usize)
        requires
            i < usize::MAX,
        ensures
            final(self).decisions@ == spec_counted(old(self).decisions@, i as int),
            final(self).strategy == old(self).strategy,
            final(self).cursor == old(self).cursor,
    {
        let ghost before = self.decisions@;
        while self.decisions.len() <= i
            invariant
                self.strategy == old(self).strategy,
                self.cursor == old(self).cursor,
                before.len() <= self.decisions@.len() <= if before.len() > i + 1 {
                    before.len()
                } else {
                    (i + 1) as nat
                },
                forall|k: int| 0 <= k < before.len() ==> self.decisions@[k] == before[k],
                forall|k: int| before.len() <= k < self.decisions@.len() ==> self.decisions@[k] == 0,
            decreases i + 1 - self.decisions@.len(),
        {
            self.decisions.push(0);
        }
        let ghost padded = self.decisions@;
        let seen: u64 = self.decisions[i];
        if seen < u64::MAX {
            self.decisions.set(i, seen + 1);
        }
        proof {
            let want = if i < before.len() {
                before
            } else {
                before + Seq::new((i + 1 - before.len()) as nat, |k: int| 0u64)
            };
            assert(padded =~= want);
            assert(self.decisions@ =~= spec_counted(before, i as int));
        }
    }

    /// The path to send on next among `paths`, if the strategy finds one;
    /// a choice is counted, and round robin moves on behind it.
    pub fn get_best_path(&mut self, paths: &[PathInfo]) -> (r: Option<Scheduled>)
        ensures
            final(self).spec_strategy() == old(self).spec_strategy(),
            r is None ==> old(self).spec_chooses_none(paths@) && final(self).spec_cursor() == old(self).spec_cursor() && final(self).spec_decisions() == old(self).spec_decisions(),
            r matches Some(s) ==> {
                &&& 0 <= s.instructions.path_id < paths@.len()
                &&& old(self).spec_chooses(paths@, s.instructions.path_id as int)
                &&& s.local_addr == paths@[s.instructions.path_id as int].local_addr
                &&& s.peer_addr == paths@[s.instructions.path_id as int].peer_addr
                &&& final(self).spec_decisions() == spec_counted(
                    old(self).spec_decisions(),
                    s.instructions.path_id as int,
                )
                &&& final(self).spec_cursor() == if old(self).spec_strategy()
                    == SchedulerOpts::RoundRobin {
                    (s.instructions.path_id + 1) as usize
                } else {
                    old(self).spec_cursor()
                }
            },
    {
        // The number of paths fits in `usize`, and so does every index below.
        let n: usize = paths.len();
        let choice: Option<usize> = match self.strategy {
            SchedulerOpts::MinRTT => min_rtt(paths),
            SchedulerOpts::Blest => blest(paths),
            SchedulerOpts::RoundRobin => round_robin(paths, self.cursor),
        };
        match choice {
            None => None,
            Some(i) => {
                assert(i < n);
                self.count(i);
                match self.strategy {
                    SchedulerOpts::RoundRobin => {
                        self.cursor = i + 1;
                    },
                    _ => {},
                }
                Some(
                    Scheduled {
                        local_addr: paths[i].local_addr,
                        peer_addr: paths[i].peer_addr,
                        instructions: SendInstructions { path_id: i },
                    },
                )
            },
        }
    }

    /// Hands out how often each path was chosen since the last call, and
    /// starts counting anew.
    pub fn pop_scheduling_decisions(&mut self) -> (r: Vec<u64>)
        ensures
            r@ == old(self).spec_decisions(),
            final(self).spec_decisions() == Seq::<u64>::empty(),
            final(self).spec_strategy() == old(self).spec_strategy(),
            final(self).spec_cursor() == old(self).spec_cursor(),
    {
        let mut taken: Vec<u64> = Vec::new();
        std::mem::swap(&mut taken, &mut self.decisions);
        taken
    }
}

/// The path that a strategy chooses can be sent on.
pub proof fn lemma_choice_is_eligible(paths: Seq<PathInfo>, i: int, cursor: int)
    ensures
        spec_is_min_rtt(paths, i) ==> spec_eligible(paths[i]),
        spec_is_blest(paths, i) ==> spec_eligible(paths[i]),
        spec_round_robin(paths, cursor) == Some(i) ==> 0 <= i < paths.len() && spec_eligible(
            paths[i],
        ),
{
    let start = if 0 <= cursor < paths.len() {
        cursor
    } else {
        0
    };
    if spec_round_robin(paths, cursor) == Some(i) {
        lemma_first_eligible(paths, start, paths.len() as int);
        lemma_first_eligible(paths, 0, start);
    }
}

/// What the search for the first eligible path finds is eligible, lies in
/// the range that was searched, and has no eligible path before it there.
pub proof fn lemma_first_eligible(paths: Seq<PathInfo>, from: int, to: int)
    ensures
        spec_first_eligible(paths, from, to) matches Some(i) ==> from <= i < to && 0 <= i
            < paths.len() && spec_eligible(paths[i]) && forall|j: int|
            from <= j < i ==> !spec_eligible(#[trigger] paths[j]),
        spec_first_eligible(paths, from, to) is None && 0 <= from && to <= paths.len() ==> forall|
            j: int,
        | from <= j < to ==> !spec_eligible(#[trigger] paths[j]),
    decreases to - from,
{
    if !(from >= to || from < 0 || to > paths.len()) && !spec_eligible(paths[from]) {
        lemma_first_eligible(paths, from + 1, to);
    }
}

} // verus!
