//! The client's bookkeeping: its sockets, the paths it has probed, and the
//! rules of its event loop.

use vstd::prelude::*;
use crate::addr::FourTuple;
use crate::addr::SocketAddress;
use crate::protocol::CloseReason;
use crate::server::PacketOutcome;
use crate::server::PassStep;
use crate::socket::MAX_DATAGRAM_SIZE;
use crate::socket::SocketError;
use crate::socket::SocketState;
use crate::socket::SocketView;
use crate::socket::WriteOutcome;
use crate::sockets::SocketSet;
use crate::time::TimeSpan;

verus! {

/// Why the client gives up.
#[derive(Clone, Copy, Debug, PartialEq, Eq, Structural)]
pub enum ClientError {
    /// The connection closed before the handshake was done.
    HandshakeFail,
    /// A socket failed.
    IOFail(SocketError),
    /// The server closed the connection because the password did not open
    /// the test.
    AuthenticationFailed,
    /// The server closed the connection with another error.
    ClosedByPeer(PeerClose),
    /// Anything else, such as addresses that do not pair up.
    Other,
}

/// The close that the peer sent: whether it is an application close, and
/// its error code.
#[derive(Clone, Copy, Debug, PartialEq, Eq, Structural)]
pub struct PeerClose {
    pub is_app: bool,
    pub error_code: u64,
}

/// What a closed connection comes to for the client: a failure if the
/// handshake was never done, if the server refused the password, or if the
/// server closed with any other error; success if the connection ended
/// without an error of the peer's.
pub open spec fn spec_close_error(established: bool, peer_close: Option<PeerClose>) -> Option<ClientError> {
    if !established {
        Some(ClientError::HandshakeFail)
    } else {
        match peer_close {
            None => None,
            Some(close) => if close.is_app && close.error_code == crate::protocol::CLOSE_AUTH_FAILED {
                Some(ClientError::AuthenticationFailed)
            } else if close.error_code != crate::protocol::CLOSE_OK {
                Some(ClientError::ClosedByPeer(close))
            } else {
                None
            },
        }
    }
}

/// Decides what a closed connection comes to for the client.
pub fn close_error(established: bool, peer_close: Option<PeerClose>) -> (r: Option<ClientError>)
    ensures
        r == spec_close_error(established, peer_close),
{
    if !established {
        Some(ClientError::HandshakeFail)
    } else {
        match peer_close {
            None => None,
            Some(close) => {
                if close.is_app && close.error_code == crate::protocol::CLOSE_AUTH_FAILED {
                    Some(ClientError::AuthenticationFailed)
                } else if close.error_code != crate::protocol::CLOSE_OK {
                    Some(ClientError::ClosedByPeer(close))
                } else {
                    None
                }
            },
        }
    }
}

/// Where a client's connection stands.
#[derive(Clone, Copy, Debug, PartialEq, Eq, Structural)]
pub enum Phase {
    /// The handshake is under way.
    Handshaking,
    /// The handshake is done and paths are still to be probed.
    Probing,
    /// Every path is probed; the test runs.
    Running,
    /// The connection is being closed, by this side or by the peer.
    Draining,
    /// The connection is closed.
    Closed,
}

/// Where a connection stands that has `probed` of `paths` paths in use or
/// being validated: closing and closed come first, then the handshake, then
/// the probing of paths.
pub open spec fn spec_phase(established: bool, draining: bool, closed: bool, probed: nat, paths: nat) -> Phase {
    if closed {
        Phase::Closed
    } else if draining {
        Phase::Draining
    } else if !established {
        Phase::Handshaking
    } else if probed < paths {
        Phase::Probing
    } else {
        Phase::Running
    }
}

/// Whether the next packet may go into the buffer of a socket.
#[derive(Clone, Copy, Debug, PartialEq, Eq, Structural)]
pub enum ClientGate {
    /// No socket is bound to the local address of the path.
    NoSocket,
    /// No: a datagram waits on the socket. The pass ends.
    Pending,
    /// Yes, into the socket with this token.
    Write(usize),
}

/// A socket whose send buffer was full at times.
#[derive(Clone, Copy, Debug, PartialEq, Eq, Structural)]
pub struct WouldBlockReport {
    pub local_addr: SocketAddress,
    pub times: u64,
}

/// The client of one connection.
pub struct Client {
    local_addrs: Vec<SocketAddress>,
    peer_addrs: Vec<SocketAddress>,
    sockets: SocketSet,
    probed_paths: usize,
    app_data_start: Option<TimeSpan>,
}

impl Client {
    /// The local address of each path.
    pub closed spec fn spec_local_addrs(&self) -> Seq<SocketAddress> {
        self.local_addrs@
    }

    /// The peer address of each path.
    pub closed spec fn spec_peer_addrs(&self) -> Seq<SocketAddress> {
        self.peer_addrs@
    }

    /// The sockets of the client.
    pub closed spec fn spec_sockets(&self) -> SocketSet {
        self.sockets
    }

    /// How many paths are in use or being validated.
    pub closed spec fn spec_probed_paths(&self) -> nat {
        self.probed_paths as nat
    }

    /// When the client first sent, as a reading of the caller's clock.
    pub closed spec fn spec_app_data_start(&self) -> Option<nat> {
        match self.app_data_start {
            Some(t) => Some(t.as_nanos()),
            None => None,
        }
    }

    /// The paths pair up, the first one is in use, and no more paths are
    /// probed than there are.
    pub closed spec fn wf(&self) -> bool {
        &&& self.sockets.wf()
        &&& self.local_addrs@.len() == self.peer_addrs@.len()
        &&& 1 <= self.probed_paths <= self.local_addrs@.len()
    }

    /// In a well-formed client no more paths are probed than there are.
    pub proof fn lemma_probed_paths_bounded(&self)
        requires
            self.wf(),
        ensures
            1 <= self.spec_probed_paths() <= self.spec_local_addrs().len(),
            self.spec_local_addrs().len() == self.spec_peer_addrs().len(),
            self.spec_sockets().wf(),
    {
    }

    /// The client for the paths between `local_addrs`, the addresses its
    /// sockets are bound to, and `peer_addrs`, index by index. The first
    /// path carries the handshake and counts as probed. Fails unless there
    /// is a path and the addresses pair up.
    pub fn new(local_addrs: Vec<SocketAddress>, peer_addrs: Vec<SocketAddress>) -> (r: Result<
        Client,
        ClientError,
    >)
        ensures
            r is Ok <==> local_addrs@.len() > 0 && local_addrs@.len() == peer_addrs@.len(),
            r matches Err(e) ==> e == ClientError::Other,
            r matches Ok(c) ==> {
                &&& c.wf()
                &&& c.spec_local_addrs() == local_addrs@
                &&& c.spec_peer_addrs() == peer_addrs@
                &&& c.spec_probed_paths() == 1
                &&& c.spec_app_data_start() is None
                &&& c.spec_sockets().spec_bindings().len() == local_addrs@.len()
                &&& forall|i: int|
                    0 <= i < local_addrs@.len() ==> (#[trigger] c.spec_sockets().spec_bindings()[i]).addr
                        == local_addrs@[i] && crate::sockets::spec_fresh(
                        c.spec_sockets(),
                        i,
                        MAX_DATAGRAM_SIZE as nat,
                    )
            },
    {
        if local_addrs.len() == 0 || local_addrs.len() != peer_addrs.len() {
            return Err(ClientError::Other);
        }
        let mut sockets = SocketSet::new(local_addrs.len());
        let mut i: usize = 0;
        while i < local_addrs.len()
            invariant
                i <= local_addrs@.len(),
                sockets.wf(),
                sockets.spec_bindings().len() == i,
                forall|j: int|
                    0 <= j < i ==> (#[trigger] sockets.spec_bindings()[j]).addr == local_addrs@[j]
                        && crate::sockets::spec_fresh(sockets, j, MAX_DATAGRAM_SIZE as nat),
            decreases local_addrs@.len() - i,
        {
            let ghost before = sockets;
            sockets.add(local_addrs[i], MAX_DATAGRAM_SIZE);
            proof {
                assert forall|j: int| 0 <= j < i + 1 implies (#[trigger] sockets.spec_bindings()[j]).addr
                    == local_addrs@[j] && crate::sockets::spec_fresh(
                    sockets,
                    j,
                    MAX_DATAGRAM_SIZE as nat,
                ) by {
                    if j < i {
                        assert(before.spec_bindings()[j].addr == local_addrs@[j]);
                        assert(before.spec_sockets().contains_key(before.spec_bindings()[j].token));
                    }
                }
            }
            i = i + 1;
        }
        Ok(Client { local_addrs, peer_addrs, sockets, probed_paths: 1, app_data_start: None })
    }

    /// The path that carries the handshake.
    pub fn initial_path(&self) -> (r: FourTuple)
        requires
            self.wf(),
        ensures
            r.local_addr == self.spec_local_addrs()[0],
            r.peer_addr == self.spec_peer_addrs()[0],
    {
        FourTuple { local_addr: self.local_addrs[0], peer_addr: self.peer_addrs[0] }
    }

    /// Notes that the client sent its first packet at `now`.
    pub fn connect(&mut self, now: TimeSpan)
        requires
            old(self).wf(),
        ensures
            final(self).wf(),
            final(self).spec_app_data_start() == Some(now.as_nanos()),
            final(self).spec_local_addrs() == old(self).spec_local_addrs(),
            final(self).spec_peer_addrs() == old(self).spec_peer_addrs(),
            final(self).spec_sockets() == old(self).spec_sockets(),
            final(self).spec_probed_paths() == old(self).spec_probed_paths(),
    {
        self.app_data_start = Some(now);
    }

    /// How many paths are in use or being validated.
    pub fn probed_paths(&self) -> (r: usize)
        ensures
            r == self.spec_probed_paths(),
    {
        self.probed_paths
    }

    /// The sockets of the client.
    pub fn sockets(&self) -> (r: &SocketSet)
        ensures
            *r == self.spec_sockets(),
    {
        &self.sockets
    }

    /// The sockets of the client, for the caller to queue and write
    /// datagrams. The client stays well-formed when the sockets do.
    pub fn sockets_mut(&mut self) -> (r: &mut SocketSet)
        ensures
            *r == old(self).spec_sockets(),
            final(self).spec_sockets() == *final(r),
            final(self).spec_local_addrs() == old(self).spec_local_addrs(),
            final(self).spec_peer_addrs() == old(self).spec_peer_addrs(),
            final(self).spec_probed_paths() == old(self).spec_probed_paths(),
            final(self).spec_app_data_start() == old(self).spec_app_data_start(),
            old(self).wf() && final(r).wf() ==> final(self).wf(),
    {
        &mut self.sockets
    }

    /// The path to probe next when the connection has `available_dcids`
    /// destination connection IDs to spare: the next one in the order of the
    /// addresses, if a path is left and a connection ID is there for it.
    pub open spec fn spec_next_probe(&self, available_dcids: usize) -> Option<FourTuple> {
        if self.spec_probed_paths() < self.spec_local_addrs().len() && available_dcids > 0 {
            Some(
                FourTuple {
                    local_addr: self.spec_local_addrs()[self.spec_probed_paths() as int],
                    peer_addr: self.spec_peer_addrs()[self.spec_probed_paths() as int],
                },
            )
        } else {
            None
        }
    }

    /// Once every path is probed, no probe is asked for, whatever the
    /// connection has to spare.
    pub proof fn lemma_no_probe_when_all_probed(&self, available_dcids: usize)
        requires
            self.spec_probed_paths() >= self.spec_local_addrs().len(),
        ensures
            self.spec_next_probe(available_dcids) is None,
    {
    }

    /// The path to probe next, if one is left and the connection has a
    /// destination connection ID to spare for it.
    pub fn probe_paths_if_necessary(&self, available_dcids: usize) -> (r: Option<FourTuple>)
        requires
            self.wf(),
        ensures
            r == self.spec_next_probe(available_dcids),
    {
        if self.probed_paths < self.local_addrs.len() && available_dcids > 0 {
            Some(
                FourTuple {
                    local_addr: self.local_addrs[self.probed_paths],
                    peer_addr: self.peer_addrs[self.probed_paths],
                },
            )
        } else {
            None
        }
    }

    /// Takes in whether the probe of the next path could be started. A
    /// probe that started is not repeated; one that failed is tried again.
    pub fn path_probed(&mut self, started: bool)
        requires
            old(self).wf(),
        ensures
            final(self).wf(),
            final(self).spec_local_addrs() == old(self).spec_local_addrs(),
            final(self).spec_peer_addrs() == old(self).spec_peer_addrs(),
            final(self).spec_sockets() == old(self).spec_sockets(),
            final(self).spec_app_data_start() == old(self).spec_app_data_start(),
            final(self).spec_probed_paths() == if started && old(self).spec_probed_paths() < old(self).spec_local_addrs().len() {
                old(self).spec_probed_paths() + 1
            } else {
                old(self).spec_probed_paths()
            },
    {
        if started && self.probed_paths < self.local_addrs.len() {
            self.probed_paths = self.probed_paths + 1;
        }
    }

    /// Where the connection stands, from what the connection tells: whether
    /// the handshake is done or early data flows, and whether the connection
    /// is draining or closed.
    pub fn phase(&self, established: bool, draining: bool, closed: bool) -> (r: Phase)
        ensures
            r == spec_phase(
                established,
                draining,
                closed,
                self.spec_probed_paths(),
                self.spec_local_addrs().len(),
            ),
    {
        if closed {
            Phase::Closed
        } else if draining {
            Phase::Draining
        } else if !established {
            Phase::Handshaking
        } else if self.probed_paths < self.local_addrs.len() {
            Phase::Probing
        } else {
            Phase::Running
        }
    }

    /// Asks the peer for addresses. There is nothing to ask yet.
    pub fn request_addresses(&mut self) -> (r: Result<(), ClientError>)
        ensures
            r is Ok,
            *final(self) == *old(self),
    {
        Ok(())
    }

    /// Whether the next packet of the path from `local_addr` may go into its
    /// socket: not while a datagram waits there.
    pub fn send_gate(&self, local_addr: &SocketAddress) -> (r: ClientGate)
        requires
            self.wf(),
        ensures
            r == match self.spec_sockets().spec_token(*local_addr) {
                None => ClientGate::NoSocket,
                Some(token) => if self.spec_sockets().spec_sockets()[token]@.send_pending() {
                    ClientGate::Pending
                } else {
                    ClientGate::Write(token)
                },
            },
            r matches ClientGate::Write(token) ==> self.spec_sockets().spec_sockets().contains_key(token),
    {
        match self.sockets.token_of(local_addr) {
            None => ClientGate::NoSocket,
            Some(token) => {
                proof {
                    crate::sockets::lemma_token_is_bound(
                        self.sockets.spec_bindings(),
                        *local_addr,
                    );
                }
                match self.sockets.get(token) {
                    Some(socket) => {
                        if socket.send_pending() {
                            ClientGate::Pending
                        } else {
                            ClientGate::Write(token)
                        }
                    },
                    None => ClientGate::NoSocket,
                }
            },
        }
    }

    /// Takes in what the socket under `token` said to the write of what
    /// waits on it. Returns the bytes written; a socket that fails ends the
    /// run.
    pub fn try_send(&mut self, token: usize, outcome: WriteOutcome) -> (r: Result<usize, ClientError>)
        requires
            old(self).wf(),
            old(self).spec_sockets().spec_sockets().contains_key(token),
        ensures
            final(self).wf(),
            final(self).spec_local_addrs() == old(self).spec_local_addrs(),
            final(self).spec_peer_addrs() == old(self).spec_peer_addrs(),
            final(self).spec_probed_paths() == old(self).spec_probed_paths(),
            final(self).spec_app_data_start() == old(self).spec_app_data_start(),
            final(self).spec_sockets().spec_bindings() == old(self).spec_sockets().spec_bindings(),
            final(self).spec_sockets().spec_sockets() == old(self).spec_sockets().spec_sockets().insert(
                token,
                final(self).spec_sockets().spec_sockets()[token],
            ),
            final(self).spec_sockets().spec_sockets()[token]@ == old(self).spec_sockets().spec_sockets()[token]@.try_send(outcome).0,
            r == match old(self).spec_sockets().spec_sockets()[token]@.try_send(outcome).1 {
                Ok(n) => Ok::<usize, ClientError>(n),
                Err(e) => Err::<usize, ClientError>(ClientError::IOFail(e)),
            },
    {
        let ghost before = self.sockets;
        let mut result: Result<usize, SocketError> = Ok(0);
        match self.sockets.get_mut(token) {
            Some(socket) => {
                result = socket.try_send(outcome);
            },
            None => {},
        }
        proof {
            SocketSet::lemma_wf_after_change(before, self.sockets, token);
        }
        match result {
            Ok(n) => Ok(n),
            Err(e) => Err(ClientError::IOFail(e)),
        }
    }

    /// Decides whether the socket under `token` is read on after one
    /// datagram; a socket that fails ends the run.
    pub fn read(&self, token: usize, outcome: crate::socket::DatagramOutcome) -> (r: Result<
        bool,
        ClientError,
    >)
        requires
            self.wf(),
            self.spec_sockets().spec_sockets().contains_key(token),
        ensures
            r == match crate::socket::spec_read_on(
                self.spec_sockets().spec_sockets()[token]@.local_addr,
                outcome,
            ) {
                Ok(on) => Ok::<bool, ClientError>(on),
                Err(e) => Err::<bool, ClientError>(ClientError::IOFail(e)),
            },
    {
        match self.sockets.get(token) {
            Some(socket) => match crate::socket::read_on(socket.local_addr(), outcome) {
                Ok(on) => Ok(on),
                Err(e) => Err(ClientError::IOFail(e)),
            },
            None => Ok(false),
        }
    }

    /// What the close of the connection comes to, given whether the
    /// handshake was done and the close that the peer sent, if it sent one:
    /// a failure as `spec_close_error` tells, else the sockets whose send
    /// buffer was full at times, in the order of their binding.
    pub fn on_close(&self, established: bool, peer_close: Option<PeerClose>) -> (r: Result<
        Vec<WouldBlockReport>,
        ClientError,
    >)
        requires
            self.wf(),
        ensures
            spec_close_error(established, peer_close) matches Some(e) ==> r == Err::<
                Vec<WouldBlockReport>,
                ClientError,
            >(e),
            spec_close_error(established, peer_close) is None ==> r is Ok,
            r matches Ok(reports) ==> reports@ == spec_reports(
                self.spec_sockets(),
                self.spec_sockets().spec_bindings().len() as int,
            ),
    {
        match close_error(established, peer_close) {
            Some(e) => {
                return Err(e);
            },
            None => {},
        }
        let mut reports: Vec<WouldBlockReport> = Vec::new();
        let mut i: usize = 0;
        while i < self.sockets.len()
            invariant
                i <= self.sockets.spec_bindings().len(),
                self.wf(),
                reports@ == spec_reports(self.sockets, i as int),
            decreases self.sockets.spec_bindings().len() - i,
        {
            let binding = self.sockets.binding(i);
            match self.sockets.get(binding.token) {
                Some(socket) => {
                    let times: u64 = socket.would_block_cntr();
                    if times > 0 {
                        reports.push(WouldBlockReport { local_addr: binding.addr, times });
                    }
                },
                None => {},
            }
            i = i + 1;
        }
        Ok(reports)
    }
}

/// What is to be reported of the sockets of the first `n` bindings: each
/// socket whose send buffer was full at times, in the order of the bindings.
pub open spec fn spec_reports(sockets: SocketSet, n: int) -> Seq<WouldBlockReport>
    decreases n,
{
    if n <= 0 {
        Seq::empty()
    } else {
        match spec_report_of(sockets, n - 1) {
            Some(report) => spec_reports(sockets, n - 1).push(report),
            None => spec_reports(sockets, n - 1),
        }
    }
}

/// Whether a client starts the test protocol now: the handshake is done,
/// or early data flows, no protocol runs yet, and the negotiated protocol is
/// one of this tool's.
pub open spec fn spec_selects_protocol(established: bool, selected: bool, app_proto: Seq<u8>) -> bool {
    established && !selected && crate::server::spec_is_quicheperf_alpn(app_proto)
}

/// Decides whether a client starts the test protocol now.
pub fn selects_protocol(established: bool, selected: bool, app_proto: &[u8]) -> (r: bool)
    ensures
        r == spec_selects_protocol(established, selected, app_proto@),
{
    established && !selected && crate::server::is_quicheperf_alpn(app_proto)
}

/// What is to be reported of the socket of binding `i`: its address and how
/// often its send buffer was full, if it ever was.
pub open spec fn spec_report_of(sockets: SocketSet, i: int) -> Option<WouldBlockReport> {
    let binding = sockets.spec_bindings()[i];
    let socket = sockets.spec_sockets()[binding.token]@;
    if sockets.spec_sockets().contains_key(binding.token) && socket.would_block_cntr > 0 {
        Some(WouldBlockReport { local_addr: binding.addr, times: socket.would_block_cntr as u64 })
    } else {
        None
    }
}

/// How a client's send pass goes on after the request for one packet: a
/// packet is to be written out at once, nothing to send ends the pass, an
/// error closes the connection.
pub open spec fn spec_client_step(outcome: PacketOutcome) -> PassStep {
    match outcome {
        PacketOutcome::Written(_, _) => PassStep::Next,
        PacketOutcome::Done => PassStep::Stop,
        PacketOutcome::Failed => PassStep::Close(CloseReason::SendFailed),
    }
}

/// The state of a socket after a client's request for one packet: the
/// packet, if there is one, waits to be written.
pub open spec fn spec_client_commit(socket: SocketView, outcome: PacketOutcome) -> SocketView {
    match outcome {
        PacketOutcome::Written(written, info) => socket.schedule_send(written as nat, info),
        _ => socket,
    }
}

/// Takes in what the connection made of a client's request for a packet
/// that went into the buffer of `socket`.
pub fn client_step(socket: &mut SocketState, outcome: PacketOutcome) -> (r: PassStep)
    requires
        old(socket).wf(),
        !old(socket)@.send_pending(),
        outcome matches PacketOutcome::Written(written, _) ==> 0 < written <= old(socket)@.capacity(),
    ensures
        final(socket).wf(),
        final(socket)@ == spec_client_commit(old(socket)@, outcome),
        r == spec_client_step(outcome),
{
    match outcome {
        PacketOutcome::Written(written, info) => {
            socket.schedule_send(None, written, info);
            PassStep::Next
        },
        PacketOutcome::Done => PassStep::Stop,
        PacketOutcome::Failed => PassStep::Close(CloseReason::SendFailed),
    }
}

/// How long the client waits for events, if it waits at all: it does not
/// while early data flows and the protocol sets no deadline; else it waits
/// for the first of the timers there are: the connection's, if it has one,
/// the next status line and the protocol's deadline. The longest span
/// stands for a wait without a deadline.
pub open spec fn spec_client_poll_timeout(
    in_early_data: bool,
    conn_timeout: Option<nat>,
    ui_timeout: nat,
    protocol_timeout: nat,
) -> Option<nat> {
    if in_early_data && protocol_timeout >= TimeSpan::max_nanos() {
        None
    } else {
        let others = if ui_timeout <= protocol_timeout {
            ui_timeout
        } else {
            protocol_timeout
        };
        Some(
            match conn_timeout {
                Some(conn) => if conn <= others {
                    conn
                } else {
                    others
                },
                None => others,
            },
        )
    }
}

/// An optional span as an optional number of nanoseconds.
pub open spec fn span_view(t: Option<TimeSpan>) -> Option<nat> {
    match t {
        Some(v) => Some(v.as_nanos()),
        None => None,
    }
}

/// Computes how long the client waits for events.
pub fn poll_timeout(
    in_early_data: bool,
    conn_timeout: Option<TimeSpan>,
    ui_timeout: TimeSpan,
    protocol_timeout: TimeSpan,
) -> (r: Option<TimeSpan>)
    ensures
        span_view(r) == spec_client_poll_timeout(
            in_early_data,
            span_view(conn_timeout),
            ui_timeout.as_nanos(),
            protocol_timeout.as_nanos(),
        ),
{
    if in_early_data && protocol_timeout.is_max() {
        None
    } else {
        let others: TimeSpan = ui_timeout.min(protocol_timeout);
        match conn_timeout {
            Some(conn) => Some(conn.min(others)),
            None => Some(others),
        }
    }
}

/// Whether the connection's timer is to be fired after a wait of
/// `poll_duration`: only if the client waited, no event came, the
/// connection has a timer, and the wait lasted as long as that timer asked.
pub open spec fn spec_client_timeout_expired(
    waited: bool,
    conn_timeout: Option<nat>,
    poll_duration: nat,
    events_empty: bool,
) -> bool {
    waited && events_empty && conn_timeout is Some && poll_duration >= conn_timeout.unwrap()
}

/// Decides whether the connection's timer is to be fired after a wait.
pub fn timeout_expired(
    waited: bool,
    conn_timeout: Option<TimeSpan>,
    poll_duration: TimeSpan,
    events_empty: bool,
) -> (r: bool)
    ensures
        r == spec_client_timeout_expired(
            waited,
            span_view(conn_timeout),
            poll_duration.as_nanos(),
            events_empty,
        ),
{
    match conn_timeout {
        Some(conn) => waited && events_empty && conn.saturating_sub(poll_duration).is_zero(),
        None => false,
    }
}

/// A wait that was cut short by an event, or that ended before the
/// connection's timer was due, or on a connection without a timer, fires no
/// timer.
pub proof fn lemma_no_timer_no_timeout(
    waited: bool,
    conn_timeout: Option<nat>,
    poll_duration: nat,
    events_empty: bool,
)
    requires
        !events_empty || conn_timeout is None || poll_duration < conn_timeout.unwrap(),
    ensures
        !spec_client_timeout_expired(waited, conn_timeout, poll_duration, events_empty),
        !crate::server::spec_timeout_expired(conn_timeout, poll_duration, events_empty),
{
}

} // verus!
