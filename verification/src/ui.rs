//! The figures behind the status lines: what changed since the last line,
//! per path and in total.

use vstd::prelude::*;
use crate::addr::FourTuple;
use crate::time::TimeSpan;

verus! {

/// The time between two status lines, in nanoseconds.
pub const UPDATE_FREQ_NANOS: u64 = 1_000_000_000;

/// The largest window that a status line shows, in its unit.
pub const MAX_SHOWN_WINDOW: u64 = 999;

/// The counters of one path.
#[derive(Clone, Copy, Debug, PartialEq, Eq, Structural)]
pub struct PathStats {
    pub sent: usize,
    pub recv: usize,
    pub sent_bytes: u64,
    pub recv_bytes: u64,
    pub lost: usize,
    pub lost_spurious: usize,
}

impl PathStats {
    /// Counters that have counted nothing.
    pub fn new() -> (r: PathStats)
        ensures
            r == spec_no_stats(),
    {
        PathStats { sent: 0, recv: 0, sent_bytes: 0, recv_bytes: 0, lost: 0, lost_spurious: 0 }
    }
}

/// Counters that have counted nothing.
pub open spec fn spec_no_stats() -> PathStats {
    PathStats { sent: 0, recv: 0, sent_bytes: 0, recv_bytes: 0, lost: 0, lost_spurious: 0 }
}

/// The counters of a connection.
#[derive(Clone, Copy, Debug, PartialEq, Eq, Structural)]
pub struct ConnStats {
    pub sent: usize,
    pub recv: usize,
    pub sent_bytes: u64,
    pub recv_bytes: u64,
    pub lost: usize,
}

/// What a connection reports about one path.
#[derive(Clone, Copy, Debug, PartialEq, Eq, Structural)]
pub struct PathSample {
    pub tuple: FourTuple,
    pub stats: PathStats,
    /// Bytes that the congestion window still admits.
    pub cwnd_available: usize,
}

/// The unit that a figure is shown in.
#[derive(Clone, Copy, Debug, PartialEq, Eq, Structural)]
pub enum Unit {
    /// As it is.
    One,
    /// In thousands.
    Kilo,
    /// In millions.
    Mega,
}

impl Unit {
    /// The letter of the unit.
    pub fn symbol(&self) -> (r: &'static str)
        ensures
            r@ == match *self {
                Unit::One => " "@,
                Unit::Kilo => "K"@,
                Unit::Mega => "M"@,
            },
    {
        match self {
            Unit::One => " ",
            Unit::Kilo => "K",
            Unit::Mega => "M",
        }
    }
}

/// A figure in the largest unit that it fills: the value in that unit,
/// rounded down, and the unit.
pub open spec fn spec_scaled(v: u64) -> (u64, Unit) {
    if v >= 1_000_000 {
        ((v / 1_000_000) as u64, Unit::Mega)
    } else if v >= 1_000 {
        ((v / 1_000) as u64, Unit::Kilo)
    } else {
        (v, Unit::One)
    }
}

/// Scales a figure to the largest unit that it fills.
pub fn scaled(v: u64) -> (r: (u64, Unit))
    ensures
        r == spec_scaled(v),
{
    if v >= 1_000_000 {
        (v / 1_000_000, Unit::Mega)
    } else if v >= 1_000 {
        (v / 1_000, Unit::Kilo)
    } else {
        (v, Unit::One)
    }
}

/// Scales a figure to the largest unit that it fills, with the letter of
/// the unit: `M` for millions, `K` for thousands, a blank otherwise.
pub fn fmt_unit(v: u64) -> (r: (u64, &'static str))
    ensures
        r.0 == spec_scaled(v).0,
        r.1@ == match spec_scaled(v).1 {
            Unit::One => " "@,
            Unit::Kilo => "K"@,
            Unit::Mega => "M"@,
        },
{
    let (value, unit) = scaled(v);
    (value, unit.symbol())
}

/// The word for the direction of a test.
pub fn direction_label(client_sending: bool) -> (r: &'static str)
    ensures
        r@ == if client_sending {
            "uplink"@
        } else {
            "downlink"@
        },
{
    if client_sending {
        "uplink"
    } else {
        "downlink"
    }
}

/// The word for the kind of a test on `local_addrs` local addresses.
pub fn test_type_label(local_addrs: usize) -> (r: &'static str)
    ensures
        r@ == if local_addrs > 1 {
            "MP"@
        } else {
            "SP"@
        },
{
    if local_addrs > 1 {
        "MP"
    } else {
        "SP"
    }
}

/// The arrow between the two addresses of a path.
pub fn arrow_label(client_sending: bool) -> (r: &'static str)
    ensures
        r@ == if client_sending {
            "->"@
        } else {
            "<-"@
        },
{
    if client_sending {
        "->"
    } else {
        "<-"
    }
}

/// The heading of the first column of the summary.
pub fn summary_label(client_sending: bool) -> (r: &'static str)
    ensures
        r@ == if client_sending {
            "Snt"@
        } else {
            "Rcv"@
        },
{
    if client_sending {
        "Snt"
    } else {
        "Rcv"
    }
}

/// What the first lines of a test tell.
#[derive(Debug)]
pub struct TestHeader {
    /// `uplink` or `downlink`.
    pub direction: &'static str,
    /// `MP` for a test on several paths, `SP` otherwise.
    pub test_type: &'static str,
    /// The arrow between the two addresses of a path.
    pub arrow: &'static str,
    pub duration: TimeSpan,
    /// How many paths are listed: those that have both addresses.
    pub paths: usize,
}

/// What the first lines of the test `tc` tell.
pub fn new_test(tc: &crate::protocol::TestConfig) -> (r: TestHeader)
    ensures
        r.direction@ == if tc.client_sending {
            "uplink"@
        } else {
            "downlink"@
        },
        r.test_type@ == if tc.local_addrs@.len() > 1 {
            "MP"@
        } else {
            "SP"@
        },
        r.arrow@ == if tc.client_sending {
            "->"@
        } else {
            "<-"@
        },
        r.duration == tc.duration,
        r.paths == if tc.local_addrs@.len() <= tc.peer_addrs@.len() {
            tc.local_addrs@.len()
        } else {
            tc.peer_addrs@.len()
        },
{
    TestHeader {
        direction: direction_label(tc.client_sending),
        test_type: test_type_label(tc.local_addrs.len()),
        arrow: arrow_label(tc.client_sending),
        duration: tc.duration,
        paths: if tc.local_addrs.len() <= tc.peer_addrs.len() {
            tc.local_addrs.len()
        } else {
            tc.peer_addrs.len()
        },
    }
}

/// `now - then`, or nothing when the counter went back.
pub open spec fn spec_delta(now: nat, then: nat) -> nat {
    if now >= then {
        (now - then) as nat
    } else {
        0
    }
}

/// What a counter gained since it was last read.
pub fn delta_u64(now: u64, then: u64) -> (r: u64)
    ensures
        r == spec_delta(now as nat, then as nat),
{
    if now >= then {
        now - then
    } else {
        0
    }
}

/// What a counter gained since it was last read.
pub fn delta_usize(now: usize, then: usize) -> (r: usize)
    ensures
        r == spec_delta(now as nat, then as nat),
{
    if now >= then {
        now - then
    } else {
        0
    }
}

/// The counters of a path as they stood at the last status line.
#[derive(Clone, Copy, Debug, PartialEq, Eq, Structural)]
pub struct PathEntry {
    pub tuple: FourTuple,
    pub stats: PathStats,
}

/// The position of the first entry for `tuple`, or the number of entries if
/// there is none.
pub open spec fn spec_position(entries: Seq<PathEntry>, tuple: FourTuple) -> int
    decreases entries.len(),
{
    if entries.len() == 0 {
        0
    } else if entries[0].tuple == tuple {
        0
    } else {
        1 + spec_position(entries.skip(1), tuple)
    }
}

/// The counters on record for `tuple`; counters that have counted nothing
/// for a path that is not on record.
pub open spec fn spec_prev(entries: Seq<PathEntry>, tuple: FourTuple) -> PathStats {
    let i = spec_position(entries, tuple);
    if 0 <= i < entries.len() {
        entries[i].stats
    } else {
        spec_no_stats()
    }
}

/// The entries with `stats` on record for `tuple`: in place of what was on
/// record for it, or behind the other entries if nothing was.
pub open spec fn spec_record(entries: Seq<PathEntry>, tuple: FourTuple, stats: PathStats) -> Seq<
    PathEntry,
> {
    let i = spec_position(entries, tuple);
    if 0 <= i < entries.len() {
        entries.update(i, PathEntry { tuple, stats })
    } else {
        entries.push(PathEntry { tuple, stats })
    }
}

/// The first entry for a tuple stands where no entry before it is for the
/// tuple and where an entry for it stands or the entries end.
pub proof fn lemma_position(entries: Seq<PathEntry>, tuple: FourTuple, k: int)
    requires
        0 <= k <= entries.len(),
        forall|j: int| 0 <= j < k ==> (#[trigger] entries[j]).tuple != tuple,
        k < entries.len() ==> entries[k].tuple == tuple,
    ensures
        spec_position(entries, tuple) == k,
    decreases k,
{
    if k > 0 {
        let rest = entries.skip(1);
        assert(entries[0].tuple != tuple);
        assert forall|j: int| 0 <= j < k - 1 implies (#[trigger] rest[j]).tuple != tuple by {
            assert(entries[j + 1].tuple != tuple);
        }
        lemma_position(rest, tuple, k - 1);
    }
}

/// The position of the first entry for a tuple is a position, or the number
/// of entries; no entry before it is for the tuple.
pub proof fn lemma_position_is_first(entries: Seq<PathEntry>, tuple: FourTuple)
    ensures
        0 <= spec_position(entries, tuple) <= entries.len(),
        forall|j: int|
            0 <= j < spec_position(entries, tuple) ==> (#[trigger] entries[j]).tuple != tuple,
        spec_position(entries, tuple) < entries.len() ==> entries[spec_position(
            entries,
            tuple,
        )].tuple == tuple,
    decreases entries.len(),
{
    if entries.len() > 0 && entries[0].tuple != tuple {
        let rest = entries.skip(1);
        lemma_position_is_first(rest, tuple);
        assert forall|j: int| 0 <= j < spec_position(entries, tuple) implies (
        #[trigger] entries[j]).tuple != tuple by {
            if j > 0 {
                assert(rest[j - 1].tuple != tuple);
            }
        }
    }
}

/// Putting counters on record for one path changes what is on record for
/// that path and for no other.
pub proof fn lemma_record(entries: Seq<PathEntry>, tuple: FourTuple, stats: PathStats, other: FourTuple)
    ensures
        spec_prev(spec_record(entries, tuple, stats), other) == if other == tuple {
            stats
        } else {
            spec_prev(entries, other)
        },
{
    let after = spec_record(entries, tuple, stats);
    let i = spec_position(entries, tuple);
    let k = spec_position(entries, other);
    lemma_position_is_first(entries, tuple);
    lemma_position_is_first(entries, other);
    if other == tuple {
        assert forall|j: int| 0 <= j < i implies (#[trigger] after[j]).tuple != tuple by {
            assert(entries[j].tuple != tuple);
        }
        lemma_position(after, tuple, i);
    } else {
        assert forall|j: int| 0 <= j < k implies (#[trigger] after[j]).tuple != other by {
            assert(entries[j].tuple != other);
        }
        if k < entries.len() {
            assert(after[k] == entries[k]);
            lemma_position(after, other, k);
        } else {
            assert forall|j: int| 0 <= j < after.len() implies (#[trigger] after[j]).tuple
                != other by {
                if j < entries.len() {
                    assert(entries[j].tuple != other);
                }
            }
            lemma_position(after, other, after.len() as int);
        }
    }
}

/// One path's part of a status line.
#[derive(Clone, Copy, Debug, PartialEq, Eq, Structural)]
pub struct PathRow {
    /// Bytes moved in the direction of the test since the last line.
    pub bytes: u64,
    /// What the congestion window still admits, in `cwnd_unit`, capped at
    /// what the line has room for.
    pub cwnd_value: u64,
    pub cwnd_unit: Unit,
    /// Packets lost since the last line.
    pub lost: usize,
    /// How often the scheduler chose the path since the last line.
    pub scheduled: u64,
    /// Packets moved in the direction of the test since the last line.
    pub packets: usize,
    /// Packets wrongly taken for lost since the last line.
    pub lost_spurious: usize,
}

/// The bytes that the counters show in the direction of the test.
pub open spec fn spec_bytes(stats: PathStats, client_sending: bool) -> u64 {
    if client_sending {
        stats.sent_bytes
    } else {
        stats.recv_bytes
    }
}

/// The part of a status line for a path with the counters `prev` on record
/// that now reports `sample` and was chosen `scheduled` times.
pub open spec fn spec_row(prev: PathStats, sample: PathSample, scheduled: u64, client_sending: bool) -> PathRow {
    let window = spec_scaled(sample.cwnd_available as u64);
    PathRow {
        bytes: spec_delta(
            spec_bytes(sample.stats, client_sending) as nat,
            spec_bytes(prev, client_sending) as nat,
        ) as u64,
        cwnd_value: if window.0 <= MAX_SHOWN_WINDOW {
            window.0
        } else {
            MAX_SHOWN_WINDOW
        },
        cwnd_unit: window.1,
        lost: spec_delta(sample.stats.lost as nat, prev.lost as nat) as usize,
        scheduled,
        packets: if client_sending {
            spec_delta(sample.stats.sent as nat, prev.sent as nat) as usize
        } else {
            spec_delta(sample.stats.recv as nat, prev.recv as nat) as usize
        },
        lost_spurious: spec_delta(sample.stats.lost_spurious as nat, prev.lost_spurious as nat) as usize,
    }
}

/// How often path `i` was chosen; never, if the scheduler does not say.
pub open spec fn spec_scheduled(scheduled: Seq<u64>, i: int) -> u64 {
    if 0 <= i < scheduled.len() {
        scheduled[i]
    } else {
        0
    }
}

/// The entries after the counters of every sample were put on record, in
/// the order of the samples.
pub open spec fn spec_entries_after(entries: Seq<PathEntry>, samples: Seq<PathSample>) -> Seq<PathEntry>
    decreases samples.len(),
{
    if samples.len() == 0 {
        entries
    } else {
        spec_record(
            spec_entries_after(entries, samples.drop_last()),
            samples.last().tuple,
            samples.last().stats,
        )
    }
}

/// The parts of a status line for the paths that `samples` report, each
/// against what was on record for its path when its turn came.
pub open spec fn spec_rows(
    entries: Seq<PathEntry>,
    samples: Seq<PathSample>,
    scheduled: Seq<u64>,
    client_sending: bool,
) -> Seq<PathRow>
    decreases samples.len(),
{
    if samples.len() == 0 {
        Seq::empty()
    } else {
        let front = samples.drop_last();
        spec_rows(entries, front, scheduled, client_sending).push(
            spec_row(
                spec_prev(spec_entries_after(entries, front), samples.last().tuple),
                samples.last(),
                spec_scheduled(scheduled, samples.len() - 1),
                client_sending,
            ),
        )
    }
}

/// The heading that a status line needs.
#[derive(Clone, Copy, Debug, PartialEq, Eq, Structural)]
pub enum Header {
    /// None: the last heading still fits.
    Keep,
    /// The heading for a single path.
    SinglePath,
    /// The heading for this many paths.
    MultiPath(usize),
}

/// The heading for `npaths` paths when `first` tells whether this is the
/// first line and `known` paths are on record: a new one on the first line
/// and whenever a path has come up.
pub open spec fn spec_header(first: bool, known: nat, npaths: nat) -> Header {
    if first || known < npaths {
        if npaths < 2 {
            Header::SinglePath
        } else {
            Header::MultiPath(npaths as usize)
        }
    } else {
        Header::Keep
    }
}

/// The bytes that a connection with the counters `stats` moved in the
/// direction of the test since the last status line.
pub open spec fn spec_total_delta(ui: UIView, stats: ConnStats) -> u64 {
    spec_delta(
        (if ui.client_sending {
            stats.sent_bytes
        } else {
            stats.recv_bytes
        }) as nat,
        ui.total_bytes() as nat,
    ) as u64
}

/// What a status line shows.
#[derive(Debug)]
pub struct Report {
    pub header: Header,
    /// Whether the line has the form for several paths.
    pub multipath: bool,
    /// Whole seconds since the start of the test.
    pub elapsed_secs: u64,
    /// Bytes moved in the direction of the test since the last line.
    pub total_bytes: u64,
    /// What the stream may still send, in `fc_unit`.
    pub fc_value: u64,
    pub fc_unit: Unit,
    pub rows: Vec<PathRow>,
}

/// What is due on the terminal.
#[derive(Debug)]
pub struct Update {
    pub report: Report,
    /// Whether the line that tells of the draining connection is due.
    pub draining_line: bool,
}

/// The figures of the final summary.
#[derive(Debug)]
pub struct Summary {
    /// Whether the summary has the form for several paths.
    pub multipath: bool,
    /// The time since the start of the test.
    pub elapsed: TimeSpan,
    /// Bytes moved in the direction of the test.
    pub total_bytes: u64,
    pub lost: usize,
    pub sent: usize,
    /// Bytes moved, packets lost and packets sent on each path.
    pub rows: Vec<PathStats>,
}

/// The state behind the status lines.
#[derive(Debug)]
pub struct UI {
    client_sending: bool,
    start: TimeSpan,
    last_update: Option<TimeSpan>,
    draining_line_printed: bool,
    sent: usize,
    recv: usize,
    sent_bytes: u64,
    recv_bytes: u64,
    lost: usize,
    paths: Vec<PathEntry>,
}

/// The state behind the status lines as mathematical values.
pub struct UIView {
    pub client_sending: bool,
    pub start: nat,
    pub last_update: Option<nat>,
    pub draining_line_printed: bool,
    pub totals: ConnStats,
    pub paths: Seq<PathEntry>,
}

impl UIView {
    /// How long the event loop may sleep until the next status line is due:
    /// forever before the first line.
    pub open spec fn timeout(self, now: nat) -> nat {
        match self.last_update {
            Some(last) => spec_delta(UPDATE_FREQ_NANOS as nat, spec_delta(now, last)),
            None => TimeSpan::max_nanos(),
        }
    }

    /// Whether a status line is due at `now`: at once the first time, then
    /// when more than the time between two lines has passed.
    pub open spec fn update_due(self, now: nat) -> bool {
        match self.last_update {
            Some(last) => spec_delta(now, last) > UPDATE_FREQ_NANOS,
            None => true,
        }
    }

    /// The bytes that the connection had moved in the direction of the test
    /// at the last status line.
    pub open spec fn total_bytes(self) -> u64 {
        if self.client_sending {
            self.totals.sent_bytes
        } else {
            self.totals.recv_bytes
        }
    }

    /// Whether `r` is the status line that is due at `now` for the given
    /// figures.
    pub open spec fn reports(
        self,
        r: Report,
        now: nat,
        stats: ConnStats,
        samples: Seq<PathSample>,
        scheduled: Seq<u64>,
        stream_capacity: u64,
    ) -> bool {
        &&& r.header == spec_header(self.last_update is None, self.paths.len(), samples.len())
        &&& r.multipath == (samples.len() >= 2)
        &&& r.elapsed_secs == spec_delta(now, self.start) / 1_000_000_000
        &&& r.total_bytes == spec_total_delta(self, stats)
        &&& (r.fc_value, r.fc_unit) == spec_scaled(stream_capacity)
        &&& r.rows@ == spec_rows(self.paths, samples, scheduled, self.client_sending)
    }

    /// The state after the line that `update` hands out at `now`.
    pub open spec fn after_update(
        self,
        now: nat,
        draining: bool,
        stats: ConnStats,
        samples: Seq<PathSample>,
    ) -> UIView {
        UIView {
            last_update: Some(now),
            draining_line_printed: self.draining_line_printed || draining,
            ..self.after_report(stats, samples)
        }
    }

    /// The state after a status line for the given figures.
    pub open spec fn after_report(self, stats: ConnStats, samples: Seq<PathSample>) -> UIView {
        UIView { totals: stats, paths: spec_entries_after(self.paths, samples), ..self }
    }
}

impl View for UI {
    type V = UIView;

    closed spec fn view(&self) -> UIView {
        UIView {
            client_sending: self.client_sending,
            start: self.start.as_nanos(),
            last_update: match self.last_update {
                Some(t) => Some(t.as_nanos()),
                None => None,
            },
            draining_line_printed: self.draining_line_printed,
            totals: ConnStats {
                sent: self.sent,
                recv: self.recv,
                sent_bytes: self.sent_bytes,
                recv_bytes: self.recv_bytes,
                lost: self.lost,
            },
            paths: self.paths@,
        }
    }
}

impl UI {
    /// The state at the start of a test at `now`: no line yet, nothing
    /// counted.
    pub fn new(client_sending: bool, now: TimeSpan) -> (r: UI)
        ensures
            r@ == (UIView {
                client_sending,
                start: now.as_nanos(),
                last_update: None,
                draining_line_printed: false,
                totals: ConnStats { sent: 0, recv: 0, sent_bytes: 0, recv_bytes: 0, lost: 0 },
                paths: Seq::empty(),
            }),
    {
        UI {
            client_sending,
            start: now,
            last_update: None,
            draining_line_printed: false,
            sent: 0,
            recv: 0,
            sent_bytes: 0,
            recv_bytes: 0,
            lost: 0,
            paths: Vec::new(),
        }
    }

    /// How long the event loop may sleep until the next status line is due.
    pub fn timeout(&self, now: TimeSpan) -> (r: TimeSpan)
        ensures
            r.wf(),
            r.as_nanos() == self@.timeout(now.as_nanos()),
    {
        match self.last_update {
            Some(last) => TimeSpan::from_secs(1).saturating_sub(now.saturating_sub(last)),
            None => TimeSpan::max(),
        }
    }

    /// Whether a status line is due at `now`.
    pub fn update_due(&self, now: TimeSpan) -> (r: bool)
        ensures
            r == self@.update_due(now.as_nanos()),
    {
        match self.last_update {
            Some(last) => now.saturating_sub(last).gt(&TimeSpan::from_secs(1)),
            None => true,
        }
    }

    /// The position of the first entry for `tuple`.
    fn position(&self, tuple: &FourTuple) -> (r: usize)
        ensures
            r == spec_position(self.paths@, *tuple),
            r <= self.paths@.len(),
    {
        let mut i: usize = 0;
        while i < self.paths.len()
            invariant
                i <= self.paths@.len(),
                forall|j: int| 0 <= j < i ==> (#[trigger] self.paths@[j]).tuple != *tuple,
            decreases self.paths@.len() - i,
        {
            if self.paths[i].tuple == *tuple {
                proof {
                    lemma_position(self.paths@, *tuple, i as int);
                }
                return i;
            }
            i = i + 1;
        }
        proof {
            lemma_position(self.paths@, *tuple, i as int);
        }
        i
    }

    /// Works out a status line from what the connection reports: `stats` in
    /// total and `samples` path by path, `scheduled` for how often each path
    /// was chosen, `stream_capacity` for what the stream may still send.
    /// What is reported goes on record for the next line.
    pub fn print_per_second_update(
        &mut self,
        now: TimeSpan,
        stats: &ConnStats,
        samples: &[PathSample],
        scheduled: &[u64],
        stream_capacity: u64,
    ) -> (r: Report)
        ensures
            final(self)@ == old(self)@.after_report(*stats, samples@),
            old(self)@.reports(r, now.as_nanos(), *stats, samples@, scheduled@, stream_capacity),
    {
        let npaths: usize = samples.len();
        let header: Header = if self.last_update.is_none() || self.paths.len() < npaths {
            if npaths < 2 {
                Header::SinglePath
            } else {
                Header::MultiPath(npaths)
            }
        } else {
            Header::Keep
        };
        let total_bytes: u64 = if self.client_sending {
            delta_u64(stats.sent_bytes, self.sent_bytes)
        } else {
            delta_u64(stats.recv_bytes, self.recv_bytes)
        };
        let ghost before = self.paths@;
        let mut rows: Vec<PathRow> = Vec::new();
        let mut i: usize = 0;
        while i < samples.len()
            invariant
                i <= samples@.len(),
                self.paths@ == spec_entries_after(before, samples@.take(i as int)),
                rows@ == spec_rows(before, samples@.take(i as int), scheduled@, self.client_sending),
                self.client_sending == old(self).client_sending,
                self.start == old(self).start,
                self.last_update == old(self).last_update,
                self.draining_line_printed == old(self).draining_line_printed,
                self.sent == old(self).sent,
                self.recv == old(self).recv,
                self.sent_bytes == old(self).sent_bytes,
                self.recv_bytes == old(self).recv_bytes,
                self.lost == old(self).lost,
            decreases samples@.len() - i,
        {
            let sample: PathSample = samples[i];
            proof {
                assert(samples@.take(i + 1).drop_last() =~= samples@.take(i as int));
                assert(samples@.take(i + 1).last() == sample);
                lemma_position_is_first(self.paths@, sample.tuple);
            }
            let at: usize = self.position(&sample.tuple);
            let prev: PathStats = if at < self.paths.len() {
                self.paths[at].stats
            } else {
                PathStats::new()
            };
            let window: (u64, Unit) = scaled(sample.cwnd_available as u64);
            let chosen: u64 = if i < scheduled.len() { scheduled[i] } else { 0 };
            let row = PathRow {
                bytes: if self.client_sending {
                    delta_u64(sample.stats.sent_bytes, prev.sent_bytes)
                } else {
                    delta_u64(sample.stats.recv_bytes, prev.recv_bytes)
                },
                cwnd_value: if window.0 <= MAX_SHOWN_WINDOW { window.0 } else { MAX_SHOWN_WINDOW },
                cwnd_unit: window.1,
                lost: delta_usize(sample.stats.lost, prev.lost),
                scheduled: chosen,
                packets: if self.client_sending {
                    delta_usize(sample.stats.sent, prev.sent)
                } else {
                    delta_usize(sample.stats.recv, prev.recv)
                },
                lost_spurious: delta_usize(sample.stats.lost_spurious, prev.lost_spurious),
            };
            rows.push(row);
            let entry = PathEntry { tuple: sample.tuple, stats: sample.stats };
            if at < self.paths.len() {
                self.paths.set(at, entry);
            } else {
                self.paths.push(entry);
            }
            i = i + 1;
        }
        assert(samples@.take(i as int) =~= samples@);
        let (fc_value, fc_unit) = scaled(stream_capacity);
        let elapsed_secs: u64 = now.saturating_sub(self.start).as_secs();
        self.sent_bytes = stats.sent_bytes;
        self.recv_bytes = stats.recv_bytes;
        self.lost = stats.lost;
        self.sent = stats.sent;
        self.recv = stats.recv;
        Report {
            header,
            multipath: npaths >= 2,
            elapsed_secs,
            total_bytes,
            fc_value,
            fc_unit,
            rows,
        }
    }

    /// Hands out the status line that is due at `now`, if one is due and
    /// the connection is not closed. The line that tells of the draining
    /// connection is due once, with the first status line of a connection
    /// that drains.
    pub fn update(
        &mut self,
        now: TimeSpan,
        closed: bool,
        draining: bool,
        stats: &ConnStats,
        samples: &[PathSample],
        scheduled: &[u64],
        stream_capacity: u64,
    ) -> (r: Option<Update>)
        ensures
            r is Some <==> old(self)@.update_due(now.as_nanos()) && !closed,
            r is None ==> final(self)@ == old(self)@,
            r matches Some(u) ==> {
                &&& final(self)@ == old(self)@.after_update(now.as_nanos(), draining, *stats, samples@)
                &&& u.draining_line == (draining && !old(self)@.draining_line_printed)
                &&& old(self)@.reports(
                    u.report,
                    now.as_nanos(),
                    *stats,
                    samples@,
                    scheduled@,
                    stream_capacity,
                )
            },
    {
        if !self.update_due(now) || closed {
            return None;
        }
        let report = self.print_per_second_update(now, stats, samples, scheduled, stream_capacity);
        let draining_line: bool = draining && !self.draining_line_printed;
        if draining_line {
            self.draining_line_printed = true;
        }
        self.last_update = Some(now);
        Some(Update { report, draining_line })
    }

    /// The figures of the final summary at `now` for what the connection
    /// reports in total and path by path.
    pub fn print_summary(&self, now: TimeSpan, stats: &ConnStats, samples: &[PathSample]) -> (r: Summary)
        ensures
            r.multipath == (samples@.len() >= 2),
            r.elapsed.wf(),
            r.elapsed.as_nanos() == spec_delta(now.as_nanos(), self@.start),
            r.total_bytes == if self@.client_sending {
                stats.sent_bytes
            } else {
                stats.recv_bytes
            },
            r.lost == stats.lost,
            r.sent == stats.sent,
            r.rows@.len() == samples@.len(),
            forall|i: int| 0 <= i < samples@.len() ==> r.rows@[i] == (#[trigger] samples@[i]).stats,
    {
        let mut rows: Vec<PathStats> = Vec::new();
        let mut i: usize = 0;
        while i < samples.len()
            invariant
                i <= samples@.len(),
                rows@.len() == i,
                forall|j: int| 0 <= j < i ==> rows@[j] == (#[trigger] samples@[j]).stats,
            decreases samples@.len() - i,
        {
            rows.push(samples[i].stats);
            i = i + 1;
        }
        Summary {
            multipath: samples.len() >= 2,
            elapsed: now.saturating_sub(self.start),
            total_bytes: if self.client_sending { stats.sent_bytes } else { stats.recv_bytes },
            lost: stats.lost,
            sent: stats.sent,
            rows,
        }
    }
}

/// The bytes that the rows of a status line show, added up.
pub open spec fn spec_sum_rows(rows: Seq<PathRow>) -> nat
    decreases rows.len(),
{
    if rows.len() == 0 {
        0
    } else {
        spec_sum_rows(rows.drop_last()) + rows.last().bytes as nat
    }
}

/// The bytes that the paths report in the direction of the test, added up.
pub open spec fn spec_sum_now(samples: Seq<PathSample>, client_sending: bool) -> nat
    decreases samples.len(),
{
    if samples.len() == 0 {
        0
    } else {
        spec_sum_now(samples.drop_last(), client_sending) + spec_bytes(
            samples.last().stats,
            client_sending,
        ) as nat
    }
}

/// The bytes that are on record for the reported paths, added up.
pub open spec fn spec_sum_prev(entries: Seq<PathEntry>, samples: Seq<PathSample>, client_sending: bool) -> nat
    decreases samples.len(),
{
    if samples.len() == 0 {
        0
    } else {
        spec_sum_prev(entries, samples.drop_last(), client_sending) + spec_bytes(
            spec_prev(entries, samples.last().tuple),
            client_sending,
        ) as nat
    }
}

/// No path is reported twice.
pub open spec fn spec_distinct_paths(samples: Seq<PathSample>) -> bool {
    forall|i: int, j: int|
        0 <= i < j < samples.len() ==> (#[trigger] samples[i]).tuple != (#[trigger] samples[j]).tuple
}

/// No path reports fewer bytes than are on record for it.
pub open spec fn spec_no_path_went_back(
    entries: Seq<PathEntry>,
    samples: Seq<PathSample>,
    client_sending: bool,
) -> bool {
    forall|i: int|
        0 <= i < samples.len() ==> spec_bytes((#[trigger] samples[i]).stats, client_sending)
            >= spec_bytes(spec_prev(entries, samples[i].tuple), client_sending)
}

/// What is on record for a path stays when other paths are reported.
pub proof fn lemma_prev_untouched(entries: Seq<PathEntry>, samples: Seq<PathSample>, tuple: FourTuple)
    requires
        forall|i: int| 0 <= i < samples.len() ==> (#[trigger] samples[i]).tuple != tuple,
    ensures
        spec_prev(spec_entries_after(entries, samples), tuple) == spec_prev(entries, tuple),
    decreases samples.len(),
{
    if samples.len() > 0 {
        let front = samples.drop_last();
        assert forall|i: int| 0 <= i < front.len() implies (#[trigger] front[i]).tuple != tuple by {
            assert(samples[i].tuple != tuple);
        }
        lemma_prev_untouched(entries, front, tuple);
        assert(samples[samples.len() - 1].tuple != tuple);
        lemma_record(
            spec_entries_after(entries, front),
            samples.last().tuple,
            samples.last().stats,
            tuple,
        );
    }
}

/// When no path is reported twice and none went back, the rows of a status
/// line add up to what the paths gained over what was on record for them.
pub proof fn lemma_rows_add_up(
    entries: Seq<PathEntry>,
    samples: Seq<PathSample>,
    scheduled: Seq<u64>,
    client_sending: bool,
)
    requires
        spec_distinct_paths(samples),
        spec_no_path_went_back(entries, samples, client_sending),
    ensures
        spec_sum_rows(spec_rows(entries, samples, scheduled, client_sending)) + spec_sum_prev(
            entries,
            samples,
            client_sending,
        ) == spec_sum_now(samples, client_sending),
    decreases samples.len(),
{
    if samples.len() > 0 {
        let front = samples.drop_last();
        let last = samples.last();
        assert(spec_distinct_paths(front)) by {
            assert forall|i: int, j: int| 0 <= i < j < front.len() implies (#[trigger] front[i]).tuple
                != (#[trigger] front[j]).tuple by {
                assert(samples[i].tuple != samples[j].tuple);
            }
        }
        assert(spec_no_path_went_back(entries, front, client_sending)) by {
            assert forall|i: int| 0 <= i < front.len() implies spec_bytes(
                (#[trigger] front[i]).stats,
                client_sending,
            ) >= spec_bytes(spec_prev(entries, front[i].tuple), client_sending) by {
                assert(front[i] == samples[i]);
            }
        }
        lemma_rows_add_up(entries, front, scheduled, client_sending);
        assert forall|i: int| 0 <= i < front.len() implies (#[trigger] front[i]).tuple
            != last.tuple by {
            assert(samples[i].tuple != samples[samples.len() - 1].tuple);
        }
        lemma_prev_untouched(entries, front, last.tuple);
        let rows = spec_rows(entries, samples, scheduled, client_sending);
        assert(rows.drop_last() =~= spec_rows(entries, front, scheduled, client_sending));
        assert(spec_bytes(samples[samples.len() - 1].stats, client_sending) >= spec_bytes(
            spec_prev(entries, samples[samples.len() - 1].tuple),
            client_sending,
        ));
    }
}

/// The total of a status line is the sum of its rows, whenever the
/// connection's total is the sum over its paths, now and at the last line,
/// no path is reported twice and none went back.
pub proof fn lemma_total_is_sum_of_rows(
    ui: UIView,
    stats: ConnStats,
    samples: Seq<PathSample>,
    scheduled: Seq<u64>,
)
    requires
        spec_distinct_paths(samples),
        spec_no_path_went_back(ui.paths, samples, ui.client_sending),
        ui.total_bytes() == spec_sum_prev(ui.paths, samples, ui.client_sending),
        (if ui.client_sending {
            stats.sent_bytes
        } else {
            stats.recv_bytes
        }) == spec_sum_now(samples, ui.client_sending),
    ensures
        spec_total_delta(ui, stats) == spec_sum_rows(
            spec_rows(ui.paths, samples, scheduled, ui.client_sending),
        ),
{
    lemma_rows_add_up(ui.paths, samples, scheduled, ui.client_sending);
}

} // verus!
