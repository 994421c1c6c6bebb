//! One pending outbound datagram, or burst of datagrams, per UDP socket.
//!
//! A socket that would block keeps what it could not write; nothing else can
//! be queued on it until a later attempt got the bytes out.

use vstd::prelude::*;
use crate::addr::SocketAddress;
use crate::time::TimeSpan;

verus! {

/// The largest UDP payload.
pub const MAX_BUF_SIZE: usize = 65507;

/// The largest datagram this tool sends.
pub const MAX_DATAGRAM_SIZE: usize = 1350;

/// Where a queued datagram goes, from where, and when it is due.
#[derive(Clone, Copy, Debug, PartialEq, Eq, Structural)]
pub struct SendInfo {
    pub from: SocketAddress,
    pub to: SocketAddress,
    /// The reading of the caller's clock at which the first packet is due.
    pub at: TimeSpan,
}

/// What the socket said to an attempt to write.
#[derive(Clone, Copy, Debug, PartialEq, Eq, Structural)]
pub enum WriteOutcome {
    /// It took this many bytes.
    Written(usize),
    /// Its buffer is full.
    WouldBlock,
    /// It failed for another reason.
    Failed,
}

/// A socket failed: on a write, for a reason other than a full buffer, or
/// on a read, for a reason other than an empty queue.
#[derive(Clone, Copy, Debug, PartialEq, Eq, Structural)]
pub struct SocketError {
    pub local_addr: SocketAddress,
    /// Where the datagram was to go; `None` for a read.
    pub peer_addr: Option<SocketAddress>,
}

/// The send state of one UDP socket.
#[derive(Debug)]
pub struct SocketState {
    local_addr: SocketAddress,
    buf: Vec<u8>,
    until: usize,
    send_info: Option<SendInfo>,
    max_datagram_size: usize,
    would_block_cntr: u64,
}

/// The send state of a socket as mathematical values.
pub struct SocketView {
    pub local_addr: SocketAddress,
    /// The send buffer.
    pub buffer: Seq<u8>,
    /// How many bytes of the buffer wait to be written.
    pub until: nat,
    pub send_info: Option<SendInfo>,
    /// The segment size of the waiting burst.
    pub max_datagram_size: nat,
    pub would_block_cntr: nat,
}

impl SocketView {
    /// Bytes wait exactly when a destination is set, and fit the buffer.
    pub open spec fn wf(self) -> bool {
        &&& self.until <= self.buffer.len()
        &&& self.send_info is Some <==> self.until > 0
        &&& self.would_block_cntr <= u64::MAX
    }

    /// How many bytes the buffer can hold.
    pub open spec fn capacity(self) -> nat {
        self.buffer.len()
    }

    /// The bytes that wait to be written.
    pub open spec fn pending(self) -> Seq<u8> {
        self.buffer.take(self.until as int)
    }

    /// Whether bytes wait to be written.
    pub open spec fn send_pending(self) -> bool {
        self.send_info is Some
    }

    /// Whether a datagram to `peer` may be queued: nothing waits, or what
    /// waits goes to `peer`.
    pub open spec fn writable_for_dest(self, peer: SocketAddress) -> bool {
        match self.send_info {
            Some(info) => info.to == peer,
            None => true,
        }
    }

    /// The state with the first `len` bytes of the buffer queued for the
    /// destination in `info`.
    pub open spec fn schedule_send(self, len: nat, info: SendInfo) -> SocketView {
        SocketView { until: len, send_info: Some(info), ..self }
    }

    /// The state with `bytes` written over the buffer from position `at` on.
    pub open spec fn fill(self, at: nat, bytes: Seq<u8>) -> SocketView {
        SocketView {
            buffer: self.buffer.take(at as int) + bytes + self.buffer.skip((at + bytes.len()) as int),
            ..self
        }
    }

    /// The state with the next `written` bytes of the buffer added to what
    /// waits, as part of a burst with segments of `max_datagram_size` bytes;
    /// the destination and due time of the first packet stay.
    pub open spec fn commit(self, written: nat, info: SendInfo, max_datagram_size: nat) -> SocketView {
        SocketView {
            until: self.until + written,
            send_info: match self.send_info {
                Some(first) => Some(first),
                None => Some(info),
            },
            max_datagram_size,
            ..self
        }
    }

    /// The state with nothing waiting.
    pub open spec fn reset(self) -> SocketView {
        SocketView { until: 0, send_info: None, max_datagram_size: 0, ..self }
    }

    /// The state after an attempt to write what waits, and what the attempt
    /// comes to: the bytes written, nothing when the socket would block or
    /// nothing waited, an error otherwise.
    pub open spec fn try_send(self, outcome: WriteOutcome) -> (SocketView, Result<usize, SocketError>) {
        match self.send_info {
            None => (self, Ok(0usize)),
            Some(info) => match outcome {
                WriteOutcome::Written(n) => (self.reset(), Ok(n)),
                WriteOutcome::WouldBlock => (
                    SocketView {
                        would_block_cntr: if self.would_block_cntr < u64::MAX {
                            self.would_block_cntr + 1
                        } else {
                            self.would_block_cntr
                        },
                        ..self
                    },
                    Ok(0usize),
                ),
                WriteOutcome::Failed => (
                    self,
                    Err(SocketError { local_addr: self.local_addr, peer_addr: Some(info.to) }),
                ),
            },
        }
    }
}

impl View for SocketState {
    type V = SocketView;

    closed spec fn view(&self) -> SocketView {
        SocketView {
            local_addr: self.local_addr,
            buffer: self.buf@,
            until: self.until as nat,
            send_info: self.send_info,
            max_datagram_size: self.max_datagram_size as nat,
            would_block_cntr: self.would_block_cntr as nat,
        }
    }
}

impl SocketState {
    /// Bytes wait exactly when a destination is set, and fit the buffer.
    pub closed spec fn wf(&self) -> bool {
        &&& self.until <= self.buf@.len()
        &&& self.send_info is Some <==> self.until > 0
    }

    /// The state of a socket bound to `local_addr` with a zeroed buffer of
    /// `capacity` bytes; nothing waits.
    pub fn new(local_addr: SocketAddress, capacity: usize) -> (r: SocketState)
        ensures
            r.wf(),
            r@ == (SocketView {
                local_addr,
                buffer: Seq::new(capacity as nat, |i: int| 0u8),
                until: 0,
                send_info: None,
                max_datagram_size: 0,
                would_block_cntr: 0,
            }),
    {
        let mut buf: Vec<u8> = Vec::new();
        let mut i: usize = 0;
        while i < capacity
            invariant
                i <= capacity,
                buf@.len() == i,
                forall|j: int| 0 <= j < i ==> buf@[j] == 0u8,
            decreases capacity - i,
        {
            buf.push(0);
            i = i + 1;
        }
        let r = SocketState {
            local_addr,
            buf,
            until: 0,
            send_info: None,
            max_datagram_size: 0,
            would_block_cntr: 0,
        };
        assert(r@.buffer =~= Seq::new(capacity as nat, |i: int| 0u8));
        r
    }

    /// The address the socket is bound to.
    pub fn local_addr(&self) -> (r: SocketAddress)
        ensures
            r == self@.local_addr,
    {
        self.local_addr
    }

    /// How many bytes the buffer can hold.
    pub fn capacity(&self) -> (r: usize)
        ensures
            r == self@.capacity(),
    {
        self.buf.len()
    }

    /// How many bytes wait to be written.
    pub fn until(&self) -> (r: usize)
        ensures
            r == self@.until,
    {
        self.until
    }

    /// How often the socket would have blocked.
    pub fn would_block_cntr(&self) -> (r: u64)
        ensures
            r == self@.would_block_cntr,
    {
        self.would_block_cntr
    }

    /// The segment size of the waiting burst.
    pub fn max_datagram_size(&self) -> (r: usize)
        ensures
            r == self@.max_datagram_size,
    {
        self.max_datagram_size
    }

    /// The destination and due time of what waits.
    pub fn send_info(&self) -> (r: Option<SendInfo>)
        ensures
            r == self@.send_info,
    {
        self.send_info
    }

    /// Whether bytes wait to be written.
    pub fn send_pending(&self) -> (r: bool)
        ensures
            r == self@.send_pending(),
    {
        self.send_info.is_some()
    }

    /// Whether a datagram to `peer_addr` may be queued.
    pub fn writable_for_dest(&self, peer_addr: &SocketAddress) -> (r: bool)
        ensures
            r == self@.writable_for_dest(*peer_addr),
    {
        match self.send_info {
            Some(info) => info.to == *peer_addr,
            None => true,
        }
    }

    /// The bytes that wait to be written.
    pub fn pending_bytes(&self) -> (r: &[u8])
        requires
            self.wf(),
        ensures
            r@ == self@.pending(),
    {
        let whole: &[u8] = self.buf.as_slice();
        let (head, _) = whole.split_at(self.until);
        assert(head@ =~= self.buf@.take(self.until as int));
        head
    }

    /// Forgets what waits.
    pub fn reset(&mut self)
        requires
            old(self).wf(),
        ensures
            final(self).wf(),
            final(self)@ == old(self)@.reset(),
    {
        self.until = 0;
        self.send_info = None;
        self.max_datagram_size = 0;
    }

    /// Copies `data` into the buffer from position `at` on.
    fn copy_in(&mut self, at: usize, data: &[u8])
        requires
            at + data@.len() <= old(self).buf@.len(),
        ensures
            final(self)@ == old(self)@.fill(at as nat, data@),
    {
        let ghost before = self.buf@;
        let size: usize = self.buf.len();
        let mut i: usize = 0;
        while i < data.len()
            invariant
                i <= data@.len(),
                at + data@.len() <= before.len(),
                before.len() == size,
                self.buf@.len() == before.len(),
                forall|j: int| 0 <= j < at ==> self.buf@[j] == before[j],
                forall|j: int| 0 <= j < i ==> self.buf@[at + j] == data@[j],
                forall|j: int| at + i <= j < before.len() ==> self.buf@[j] == before[j],
                self.local_addr == old(self).local_addr,
                self.until == old(self).until,
                self.send_info == old(self).send_info,
                self.max_datagram_size == old(self).max_datagram_size,
                self.would_block_cntr == old(self).would_block_cntr,
            decreases data@.len() - i,
        {
            self.buf.set(at + i, data[i]);
            i = i + 1;
        }
        assert(self.buf@ =~= before.take(at as int) + data@ + before.skip(at + data@.len()));
    }

    /// Queues a datagram of `len` bytes for the destination in `info`. With
    /// `data`, which is as large as the buffer, the buffer becomes `data`;
    /// with `None` the buffer stays as it stands. Either way its first `len`
    /// bytes wait to be written. Nothing may be waiting before.
    pub fn schedule_send(&mut self, data: Option<&[u8]>, len: usize, info: SendInfo)
        requires
            old(self).wf(),
            !old(self)@.send_pending(),
            0 < len <= old(self)@.capacity(),
            data matches Some(d) ==> d@.len() == old(self)@.capacity(),
        ensures
            final(self).wf(),
            final(self)@ == match data {
                Some(d) => (SocketView { buffer: d@, ..old(self)@ }).schedule_send(len as nat, info),
                None => old(self)@.schedule_send(len as nat, info),
            },
    {
        match data {
            Some(d) => {
                let ghost before = self.buf@;
                self.copy_in(0, d);
                assert(self.buf@ =~= d@) by {
                    assert(self.buf@ == before.take(0) + d@ + before.skip(d@.len() as int));
                }
            },
            None => {},
        }
        self.until = len;
        self.send_info = Some(info);
    }

    /// The part of the buffer behind what waits, up to position `limit`, for
    /// the caller to write the next packet into.
    pub fn spare(&mut self, limit: usize) -> (r: &mut [u8])
        requires
            old(self).wf(),
            old(self)@.until <= limit <= old(self)@.capacity(),
        ensures
            final(self).wf(),
            r@ == old(self)@.buffer.subrange(old(self)@.until as int, limit as int),
            final(self)@ == (SocketView {
                buffer: old(self)@.buffer.take(old(self)@.until as int) + final(r)@ + old(self)@.buffer.skip(limit as int),
                ..old(self)@
            }),
    {
        let ghost before = self.buf@;
        let until: usize = self.until;
        let whole: &mut [u8] = self.buf.as_mut_slice();
        let (head, rest) = whole.split_at_mut(until);
        let (mid, tail) = rest.split_at_mut(limit - until);
        assert(mid@ =~= before.subrange(until as int, limit as int));
        assert(head@ =~= before.take(until as int));
        assert(tail@ =~= before.skip(limit as int));
        let ghost joined = final(head)@ + (final(mid)@ + final(tail)@);
        assert(joined =~= final(head)@ + final(mid)@ + final(tail)@);
        mid
    }

    /// Adds the next `written` bytes of the buffer to what waits, as part of
    /// a burst with segments of `max_datagram_size` bytes. The destination
    /// and due time of the first packet stay.
    pub fn commit(&mut self, written: usize, info: SendInfo, max_datagram_size: usize)
        requires
            old(self).wf(),
            written > 0,
            old(self)@.until + written <= old(self)@.capacity(),
        ensures
            final(self).wf(),
            final(self)@ == old(self)@.commit(written as nat, info, max_datagram_size as nat),
    {
        // The buffer's length fits in `usize`, and so does the sum below it.
        let capacity: usize = self.buf.len();
        assert(self.until + written <= capacity);
        self.until = self.until + written;
        if self.send_info.is_none() {
            self.send_info = Some(info);
        }
        self.max_datagram_size = max_datagram_size;
    }

    /// Copies `packet` into the buffer behind what waits and adds it to what
    /// waits, as `spare` and `commit` do in two steps.
    pub fn append(&mut self, packet: &[u8], info: SendInfo, max_datagram_size: usize)
        requires
            old(self).wf(),
            packet@.len() > 0,
            old(self)@.until + packet@.len() <= old(self)@.capacity(),
        ensures
            final(self).wf(),
            final(self)@ == old(self)@.fill(old(self)@.until, packet@).commit(
                packet@.len(),
                info,
                max_datagram_size as nat,
            ),
    {
        let at: usize = self.until;
        self.copy_in(at, packet);
        self.commit(packet.len(), info, max_datagram_size);
    }

    /// Takes in what the socket said to the write of what waits. A write that
    /// went through clears the buffer; one that would block leaves it and is
    /// counted; any other failure leaves it and is an error. With nothing
    /// waiting, nothing happens.
    pub fn try_send(&mut self, outcome: WriteOutcome) -> (r: Result<usize, SocketError>)
        requires
            old(self).wf(),
        ensures
            final(self).wf(),
            (final(self)@, r) == old(self)@.try_send(outcome),
    {
        let info: SendInfo = match self.send_info {
            Some(info) => info,
            None => {
                return Ok(0);
            },
        };
        match outcome {
            WriteOutcome::Written(n) => {
                self.reset();
                Ok(n)
            },
            WriteOutcome::WouldBlock => {
                if self.would_block_cntr < u64::MAX {
                    self.would_block_cntr = self.would_block_cntr + 1;
                }
                Ok(0)
            },
            WriteOutcome::Failed => Err(
                SocketError { local_addr: self.local_addr, peer_addr: Some(info.to) },
            ),
        }
    }
}

/// In every state, bytes wait exactly when a destination is set.
pub proof fn lemma_pending_iff_send_info(s: SocketState)
    requires
        s.wf(),
    ensures
        s@.send_info is Some <==> s@.until > 0,
        s@.send_info is Some <==> s@.pending().len() > 0,
{
}

/// What came of the attempt to read one datagram off a socket and to
/// handle it.
#[derive(Clone, Copy, Debug, PartialEq, Eq, Structural)]
pub enum DatagramOutcome {
    /// A datagram was read and handed to its connection or callback.
    Handled,
    /// A datagram was read and answered without a connection, by a version
    /// negotiation or a retry.
    Answered,
    /// A datagram was read and dropped: it could not be parsed, belongs to
    /// no connection, or its connection refused it.
    Dropped,
    /// Nothing is left to read.
    WouldBlock,
    /// The socket failed.
    SocketFailed,
}

/// How the reading of a socket goes on.
#[derive(Clone, Copy, Debug, PartialEq, Eq, Structural)]
pub enum ReadStep {
    /// Read the next datagram.
    Next,
    /// Stop: the socket is read empty.
    Stop,
    /// Give up: the socket failed.
    Fail,
}

/// How the reading of a socket goes on after one datagram: a datagram that
/// is dropped costs that datagram only.
pub open spec fn spec_read_step(outcome: DatagramOutcome) -> ReadStep {
    match outcome {
        DatagramOutcome::WouldBlock => ReadStep::Stop,
        DatagramOutcome::SocketFailed => ReadStep::Fail,
        _ => ReadStep::Next,
    }
}

/// Decides how the reading of a socket goes on after one datagram.
pub fn read_step(outcome: DatagramOutcome) -> (r: ReadStep)
    ensures
        r == spec_read_step(outcome),
{
    match outcome {
        DatagramOutcome::WouldBlock => ReadStep::Stop,
        DatagramOutcome::SocketFailed => ReadStep::Fail,
        _ => ReadStep::Next,
    }
}

/// What the reading of the socket bound to `local_addr` comes to after one
/// datagram: whether to read on, or the failure of the socket.
pub open spec fn spec_read_on(local_addr: SocketAddress, outcome: DatagramOutcome) -> Result<
    bool,
    SocketError,
> {
    match spec_read_step(outcome) {
        ReadStep::Next => Ok(true),
        ReadStep::Stop => Ok(false),
        ReadStep::Fail => Err(SocketError { local_addr, peer_addr: None }),
    }
}

/// Decides whether the socket bound to `local_addr` is read on after one
/// datagram.
pub fn read_on(local_addr: SocketAddress, outcome: DatagramOutcome) -> (r: Result<bool, SocketError>)
    ensures
        r == spec_read_on(local_addr, outcome),
{
    match read_step(outcome) {
        ReadStep::Next => Ok(true),
        ReadStep::Stop => Ok(false),
        ReadStep::Fail => Err(SocketError { local_addr, peer_addr: None }),
    }
}

/// How a burst is written to a socket.
#[derive(Clone, Copy, Debug, PartialEq, Eq, Structural)]
pub enum SendMode {
    /// As one datagram: the burst has no segment size.
    Whole,
    /// In one call, for the system to cut into datagrams.
    Segmented,
    /// Datagram by datagram.
    OneByOne,
}

/// How a burst with segments of `segment_size` bytes is written: the system
/// cuts it if segmented sends are in use and the segment size is one it can
/// be told.
pub open spec fn spec_send_mode(segment_size: usize, enable_gso: bool) -> SendMode {
    if segment_size == 0 {
        SendMode::Whole
    } else if enable_gso && segment_size <= u16::MAX {
        SendMode::Segmented
    } else {
        SendMode::OneByOne
    }
}

/// Decides how a burst is written.
pub fn send_mode(segment_size: usize, enable_gso: bool) -> (r: SendMode)
    ensures
        r == spec_send_mode(segment_size, enable_gso),
{
    if segment_size == 0 {
        SendMode::Whole
    } else if enable_gso && segment_size <= u16::MAX as usize {
        SendMode::Segmented
    } else {
        SendMode::OneByOne
    }
}

/// One datagram of a burst: where it starts in the buffer and how long it
/// is.
#[derive(Clone, Copy, Debug, PartialEq, Eq, Structural)]
pub struct Segment {
    pub off: usize,
    pub len: usize,
}

/// Whether `segments` cut `total` bytes into datagrams of `segment_size`
/// bytes, the last one of what is left: each starts where the one before it
/// ends, and all but the last are full.
pub open spec fn spec_segments(segments: Seq<Segment>, total: nat, segment_size: nat) -> bool {
    &&& forall|i: int|
        0 <= i < segments.len() ==> (#[trigger] segments[i]).off == i * segment_size
            && segments[i].len > 0 && segments[i].off + segments[i].len <= total
    &&& forall|i: int| 0 <= i < segments.len() - 1 ==> (#[trigger] segments[i]).len == segment_size
    &&& segments.len() > 0 ==> segments.last().off + segments.last().len == total
    &&& segments.len() == 0 ==> total == 0
}

/// Cuts a burst of `total` bytes into the datagrams that are written one by
/// one where the system cannot cut them itself.
pub fn send_to(total: usize, segment_size: usize) -> (r: Vec<Segment>)
    requires
        segment_size > 0,
    ensures
        spec_segments(r@, total as nat, segment_size as nat),
{
    let mut segments: Vec<Segment> = Vec::new();
    let mut off: usize = 0;
    let mut left: usize = total;
    assert(segments@.len() * segment_size == 0) by (nonlinear_arith)
        requires
            segments@.len() == 0,
    ;
    while left > 0
        invariant
            off + left == total,
            off == segments@.len() * segment_size,
            forall|i: int|
                0 <= i < segments@.len() ==> (#[trigger] segments@[i]).off == i * segment_size
                    && segments@[i].len == segment_size,
            segment_size > 0,
        decreases left,
    {
        let len: usize = if left < segment_size { left } else { segment_size };
        let ghost before = segments@;
        segments.push(Segment { off, len });
        proof {
            assert((before.len() + 1) * segment_size == before.len() * segment_size + segment_size)
                by (nonlinear_arith);
        }
        if len < segment_size {
            assert(off + len == total);
            proof {
                assert forall|i: int| 0 <= i < segments@.len() implies (#[trigger] segments@[i]).off
                    == i * segment_size && segments@[i].len > 0 && segments@[i].off
                    + segments@[i].len <= total by {
                    if i < before.len() {
                        assert(before[i].off == i * segment_size);
                        assert(i * segment_size + segment_size <= before.len() * segment_size)
                            by (nonlinear_arith)
                            requires
                                i < before.len(),
                                segment_size > 0,
                        ;
                    }
                }
            }
            return segments;
        }
        off = off + len;
        left = left - len;
    }
    proof {
        assert forall|i: int| 0 <= i < segments@.len() implies (#[trigger] segments@[i]).off == i
            * segment_size && segments@[i].len > 0 && segments@[i].off + segments@[i].len
            <= total by {
            assert(i * segment_size + segment_size <= segments@.len() * segment_size)
                by (nonlinear_arith)
                requires
                    i < segments@.len(),
                    segment_size > 0,
            ;
        }
        if segments@.len() > 0 {
            let last = segments@.len() - 1;
            assert(segments@[last].off == last * segment_size);
            assert(last * segment_size + segment_size == segments@.len() * segment_size)
                by (nonlinear_arith)
                requires
                    last == segments@.len() - 1,
            ;
        }
    }
    segments
}

} // verus!
