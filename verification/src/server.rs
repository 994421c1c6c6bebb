//! The server's bookkeeping: its clients, the connection IDs that route to
//! them, and the rules of its send loop.

use std::collections::HashMap;
use std::collections::hash_map::Entry;
use vstd::prelude::*;
use vstd::string::StringSliceAdditionalSpecFns;
use crate::addr::IpAddress;
use crate::addr::SocketAddress;
use crate::admission::Admission;
use crate::admission::PacketHeader;
use crate::admission::admission;
use crate::admission::spec_admission;
use crate::admission::spec_token;
use crate::bytes::bytes_equal;
use crate::protocol::CloseReason;
use crate::protocol::Protocol;
use crate::protocol::ProtocolView;
use crate::protocol::copy_password;
use crate::protocol::password_view;
use crate::registry::ClientIdMap;
use crate::socket::MAX_BUF_SIZE;
use crate::socket::MAX_DATAGRAM_SIZE;
use crate::socket::SendInfo;
use crate::socket::SocketError;
use crate::socket::SocketState;
use crate::socket::SocketView;
use crate::sockets::SocketSet;

verus! {

/// Why the server gives up on a datagram or on its run.
#[derive(Clone, Copy, Debug, PartialEq, Eq, Structural)]
pub enum ServerError {
    /// A socket failed; the run ends.
    FatalSocket(SocketError),
    /// A datagram could not be handled; the run goes on.
    Unexpected,
}

/// What a datagram that is dropped for its header comes to: an error that
/// does not end the run. A datagram that is handled, or answered, is none.
pub fn rejection(admission: &Admission) -> (r: Option<ServerError>)
    ensures
        r == match admission@ {
            crate::admission::AdmissionView::NotInitial => Some(ServerError::Unexpected),
            crate::admission::AdmissionView::InvalidToken => Some(ServerError::Unexpected),
            crate::admission::AdmissionView::InvalidDcid => Some(ServerError::Unexpected),
            _ => None,
        },
{
    match admission {
        Admission::NotInitial => Some(ServerError::Unexpected),
        Admission::InvalidToken => Some(ServerError::Unexpected),
        Admission::InvalidDcid => Some(ServerError::Unexpected),
        _ => None,
    }
}

/// Whether `proto` is one of the protocol names this tool negotiates.
pub open spec fn spec_is_quicheperf_alpn(proto: Seq<u8>) -> bool {
    proto == "quicheperf".spec_bytes() || proto == "quicheperf-00".spec_bytes()
}

/// The protocol names that this tool offers, the preferred one first.
pub fn quicheperf_alpn() -> (r: Vec<Vec<u8>>)
    ensures
        r@.len() == 2,
        r@[0]@ == "quicheperf".spec_bytes(),
        r@[1]@ == "quicheperf-00".spec_bytes(),
{
    let mut names: Vec<Vec<u8>> = Vec::new();
    names.push(crate::admission::copy_bytes("quicheperf".as_bytes()));
    names.push(crate::admission::copy_bytes("quicheperf-00".as_bytes()));
    names
}

/// Whether the negotiated protocol `proto` is one this tool speaks.
pub fn is_quicheperf_alpn(proto: &[u8]) -> (r: bool)
    ensures
        r == spec_is_quicheperf_alpn(proto@),
{
    bytes_equal(proto, "quicheperf".as_bytes()) || bytes_equal(proto, "quicheperf-00".as_bytes())
}

/// The state of one connection on the server.
#[derive(Debug)]
pub struct Client {
    client_id: u64,
    protocol: Option<Protocol>,
    password: Option<String>,
    max_datagram_size: usize,
    max_send_burst: usize,
}

/// The protocol state of a client as mathematical values.
pub open spec fn protocol_view(p: Option<Protocol>) -> Option<ProtocolView> {
    match p {
        Some(v) => Some(v@),
        None => None,
    }
}

impl Client {
    /// The number of the client.
    pub closed spec fn spec_client_id(&self) -> u64 {
        self.client_id
    }

    /// The test protocol of the client, once a protocol was negotiated.
    pub closed spec fn spec_protocol(&self) -> Option<ProtocolView> {
        protocol_view(self.protocol)
    }

    /// The password that the client must present.
    pub closed spec fn spec_password(&self) -> Option<Seq<char>> {
        password_view(self.password)
    }

    /// The size of the datagrams that the connection sends.
    pub closed spec fn spec_max_datagram_size(&self) -> usize {
        self.max_datagram_size
    }

    /// The most bytes that go into one burst.
    pub closed spec fn spec_max_send_burst(&self) -> usize {
        self.max_send_burst
    }

    /// The state of a client that just connected: no protocol yet, datagrams
    /// and bursts of the largest sizes.
    pub fn new(client_id: u64, password: Option<String>) -> (r: Client)
        ensures
            r.spec_client_id() == client_id,
            r.spec_protocol() is None,
            r.spec_password() == password_view(password),
            r.spec_max_datagram_size() == MAX_DATAGRAM_SIZE,
            r.spec_max_send_burst() == MAX_BUF_SIZE,
    {
        Client {
            client_id,
            protocol: None,
            password,
            max_datagram_size: MAX_DATAGRAM_SIZE,
            max_send_burst: MAX_BUF_SIZE,
        }
    }

    /// The number of the client.
    pub fn client_id(&self) -> (r: u64)
        ensures
            r == self.spec_client_id(),
    {
        self.client_id
    }

    /// The size of the datagrams that the connection sends.
    pub fn max_datagram_size(&self) -> (r: usize)
        ensures
            r == self.spec_max_datagram_size(),
    {
        self.max_datagram_size
    }

    /// The most bytes that go into one burst.
    pub fn max_send_burst(&self) -> (r: usize)
        ensures
            r == self.spec_max_send_burst(),
    {
        self.max_send_burst
    }

    /// The test protocol of the client.
    pub fn protocol(&self) -> (r: Option<&Protocol>)
        ensures
            r is Some <==> self.spec_protocol() is Some,
            r matches Some(p) ==> Some(p@) == self.spec_protocol(),
    {
        self.protocol.as_ref()
    }

    /// The test protocol of the client, for the caller to drive.
    pub fn protocol_mut(&mut self) -> (r: Option<&mut Protocol>)
        ensures
            r is Some <==> old(self).spec_protocol() is Some,
            r matches Some(p) ==> Some(p@) == old(self).spec_protocol() && final(self).spec_protocol() == Some(final(p)@),
            r is None ==> final(self).spec_protocol() is None,
            final(self).spec_client_id() == old(self).spec_client_id(),
            final(self).spec_password() == old(self).spec_password(),
            final(self).spec_max_datagram_size() == old(self).spec_max_datagram_size(),
            final(self).spec_max_send_burst() == old(self).spec_max_send_burst(),
    {
        self.protocol.as_mut()
    }

    /// Takes in that the connection processed a datagram. On the first one
    /// after the handshake the negotiated protocol `app_proto` is checked:
    /// the test protocol starts if it is one of this tool's, else the
    /// connection is to be closed. The datagram size follows the connection.
    pub fn recv(&mut self, established: bool, app_proto: &[u8], max_send_udp_payload_size: usize) -> (r:
        Option<CloseReason>)
        ensures
            final(self).spec_client_id() == old(self).spec_client_id(),
            final(self).spec_password() == old(self).spec_password(),
            final(self).spec_max_send_burst() == old(self).spec_max_send_burst(),
            final(self).spec_max_datagram_size() == max_send_udp_payload_size,
            r == if old(self).spec_protocol() is None && established && !spec_is_quicheperf_alpn(
                app_proto@,
            ) {
                Some(CloseReason::NoAlpnMatch)
            } else {
                None
            },
            final(self).spec_protocol() == if old(self).spec_protocol() is None && established
                && spec_is_quicheperf_alpn(app_proto@) {
                Some(
                    ProtocolView {
                        config_sent: false,
                        config_acked: false,
                        tc: None,
                        password: old(self).spec_password(),
                        start: None,
                        finished: false,
                        last_send: None,
                    },
                )
            } else {
                old(self).spec_protocol()
            },
    {
        let mut close: Option<CloseReason> = None;
        if self.protocol.is_none() && established {
            if is_quicheperf_alpn(app_proto) {
                self.protocol = Some(Protocol::new_with_password(copy_password(&self.password)));
            } else {
                close = Some(CloseReason::NoAlpnMatch);
            }
        }
        self.max_datagram_size = max_send_udp_payload_size;
        close
    }
}

/// The most bytes of one burst: the smaller of what the connection wants to
/// send at once and of what the client may, cut down to whole datagrams.
pub open spec fn spec_max_send_burst(send_quantum: usize, client_burst: usize, max_datagram_size: usize) -> int {
    let cap = if send_quantum <= client_burst {
        send_quantum as int
    } else {
        client_burst as int
    };
    cap / (max_datagram_size as int) * (max_datagram_size as int)
}

/// Computes the most bytes of one burst.
pub fn max_send_burst(send_quantum: usize, client_burst: usize, max_datagram_size: usize) -> (r: usize)
    requires
        max_datagram_size > 0,
    ensures
        r == spec_max_send_burst(send_quantum, client_burst, max_datagram_size),
        r <= send_quantum,
        r <= client_burst,
        r % max_datagram_size == 0,
{
    let cap: usize = if send_quantum <= client_burst { send_quantum } else { client_burst };
    let whole: usize = cap / max_datagram_size;
    assert(whole * max_datagram_size <= cap) by (nonlinear_arith)
        requires
            whole == cap / max_datagram_size,
            max_datagram_size > 0,
    ;
    assert((whole * max_datagram_size) % (max_datagram_size as int) == 0) by (nonlinear_arith)
        requires
            max_datagram_size > 0,
    ;
    whole * max_datagram_size
}

/// Whether the next packet may go into the buffer of a socket.
#[derive(Clone, Copy, Debug, PartialEq, Eq, Structural)]
pub enum SendGate {
    /// No: what waits on the socket goes elsewhere. The pass ends.
    Blocked,
    /// No: the burst is full. The pass ends, and another follows once the
    /// burst is written.
    Full,
    /// Yes, behind what waits and up to position `limit` of the buffer.
    Write { limit: usize },
}

/// Whether a packet for `peer` may go into a socket's buffer in a burst of
/// at most `max_send_burst` bytes.
pub open spec fn spec_send_gate(socket: SocketView, peer: SocketAddress, max_send_burst: usize) -> SendGate {
    let limit = if max_send_burst as nat <= socket.capacity() {
        max_send_burst as nat
    } else {
        socket.capacity()
    };
    if !socket.writable_for_dest(peer) {
        SendGate::Blocked
    } else if socket.until >= limit {
        SendGate::Full
    } else {
        SendGate::Write { limit: limit as usize }
    }
}

/// Decides whether the next packet for `peer` may go into `socket`.
pub fn send_gate(socket: &SocketState, peer: &SocketAddress, max_send_burst: usize) -> (r: SendGate)
    requires
        socket.wf(),
    ensures
        r == spec_send_gate(socket@, *peer, max_send_burst),
{
    let capacity: usize = socket.capacity();
    let limit: usize = if max_send_burst <= capacity { max_send_burst } else { capacity };
    if !socket.writable_for_dest(peer) {
        SendGate::Blocked
    } else if socket.until() >= limit {
        SendGate::Full
    } else {
        SendGate::Write { limit }
    }
}

/// What the connection made of the request for one packet.
#[derive(Clone, Copy, Debug, PartialEq, Eq, Structural)]
pub enum PacketOutcome {
    /// A packet of this many bytes, to be sent as told.
    Written(usize, SendInfo),
    /// Nothing to send.
    Done,
    /// An error.
    Failed,
}

/// How a send pass goes on after the request for one packet.
#[derive(Clone, Copy, Debug, PartialEq, Eq, Structural)]
pub enum PassStep {
    /// Ask the scheduler for the next path.
    Next,
    /// End the pass.
    Stop,
    /// End the pass; another follows once the sockets were written.
    Flush,
    /// Close the connection and end the pass.
    Close(CloseReason),
}

/// How a server's send pass goes on: a packet that is short of a full
/// datagram ends the burst, and so does any packet while the handshake
/// lasts.
pub open spec fn spec_server_step(outcome: PacketOutcome, max_datagram_size: usize, established: bool) -> PassStep {
    match outcome {
        PacketOutcome::Done => PassStep::Stop,
        PacketOutcome::Failed => PassStep::Close(CloseReason::SendFailed),
        PacketOutcome::Written(written, _) => if !established || written < max_datagram_size {
            PassStep::Flush
        } else {
            PassStep::Next
        },
    }
}

/// The state of a socket after a server's request for one packet: the
/// packet, if there is one, is added to what waits.
pub open spec fn spec_server_commit(socket: SocketView, outcome: PacketOutcome, max_datagram_size: usize) -> SocketView {
    match outcome {
        PacketOutcome::Written(written, info) => socket.commit(
            written as nat,
            info,
            max_datagram_size as nat,
        ),
        _ => socket,
    }
}

/// Takes in what the connection made of a server's request for a packet
/// that went into the spare room of `socket`.
pub fn server_step(
    socket: &mut SocketState,
    outcome: PacketOutcome,
    max_datagram_size: usize,
    established: bool,
) -> (r: PassStep)
    requires
        old(socket).wf(),
        outcome matches PacketOutcome::Written(written, _) ==> written > 0 && old(socket)@.until
            + written <= old(socket)@.capacity(),
    ensures
        final(socket).wf(),
        final(socket)@ == spec_server_commit(old(socket)@, outcome, max_datagram_size),
        r == spec_server_step(outcome, max_datagram_size, established),
{
    match outcome {
        PacketOutcome::Done => PassStep::Stop,
        PacketOutcome::Failed => PassStep::Close(CloseReason::SendFailed),
        PacketOutcome::Written(written, info) => {
            socket.commit(written, info, max_datagram_size);
            if !established || written < max_datagram_size {
                PassStep::Flush
            } else {
                PassStep::Next
            }
        },
    }
}

/// Whether another send pass follows for a client: the last one ended on a
/// full burst or a short packet, and no socket was left blocked.
pub fn another_pass(flush: bool, any_blocked: bool) -> (r: bool)
    ensures
        r == (flush && !any_blocked),
{
    flush && !any_blocked
}

/// Whether a server that was told to stop is done: every connection is
/// closed, or the time to wait for that has passed.
pub fn termination_complete(
    live: usize,
    waited: crate::time::TimeSpan,
    deadline: crate::time::TimeSpan,
) -> (r: bool)
    ensures
        r == (live == 0 || waited.as_nanos() >= deadline.as_nanos()),
{
    live == 0 || waited.ge(&deadline)
}

/// The shortest of the timeouts that the connections report, if any
/// reports one.
pub open spec fn spec_poll_timeout(timeouts: Seq<Option<crate::time::TimeSpan>>) -> Option<nat>
    decreases timeouts.len(),
{
    if timeouts.len() == 0 {
        None
    } else {
        let front = spec_poll_timeout(timeouts.drop_last());
        match timeouts.last() {
            None => front,
            Some(t) => match front {
                None => Some(t.as_nanos()),
                Some(f) => if t.as_nanos() < f {
                    Some(t.as_nanos())
                } else {
                    Some(f)
                },
            },
        }
    }
}

/// How long the server may wait for events: until the first connection
/// timer is due, or forever if there is none.
pub fn poll_timeout(timeouts: &[Option<crate::time::TimeSpan>]) -> (r: Option<crate::time::TimeSpan>)
    ensures
        r is Some <==> spec_poll_timeout(timeouts@) is Some,
        r matches Some(t) ==> Some(t.as_nanos()) == spec_poll_timeout(timeouts@),
{
    let mut best: Option<crate::time::TimeSpan> = None;
    let mut i: usize = 0;
    while i < timeouts.len()
        invariant
            i <= timeouts@.len(),
            best is Some <==> spec_poll_timeout(timeouts@.take(i as int)) is Some,
            best matches Some(t) ==> Some(t.as_nanos()) == spec_poll_timeout(
                timeouts@.take(i as int),
            ),
        decreases timeouts@.len() - i,
    {
        assert(timeouts@.take(i + 1).drop_last() =~= timeouts@.take(i as int));
        assert(timeouts@.take(i + 1).last() == timeouts@[i as int]);
        match timeouts[i] {
            None => {},
            Some(t) => {
                best = match best {
                    None => Some(t),
                    Some(b) => if t.lt(&b) {
                        Some(t)
                    } else {
                        Some(b)
                    },
                };
            },
        }
        i = i + 1;
    }
    assert(timeouts@.take(i as int) =~= timeouts@);
    best
}

/// Whether the connection timers are to be fired after a wait of
/// `poll_duration` that was to last `timeout`: only if no event came and
/// the wait lasted as long as the timeout.
pub open spec fn spec_timeout_expired(timeout: Option<nat>, poll_duration: nat, events_empty: bool) -> bool {
    events_empty && timeout is Some && poll_duration >= timeout.unwrap()
}

/// Decides whether the connection timers are to be fired after a wait.
pub fn timeout_expired(
    timeout: Option<crate::time::TimeSpan>,
    poll_duration: crate::time::TimeSpan,
    events_empty: bool,
) -> (r: bool)
    ensures
        r == spec_timeout_expired(
            match timeout {
                Some(t) => Some(t.as_nanos()),
                None => None,
            },
            poll_duration.as_nanos(),
            events_empty,
        ),
{
    match timeout {
        Some(t) => events_empty && t.saturating_sub(poll_duration).is_zero(),
        None => false,
    }
}

/// The server: its sockets, its clients by number, and the connection IDs
/// that route to them.
pub struct Server {
    password: Option<String>,
    sockets: SocketSet,
    pacing: bool,
    enable_gso: bool,
    next_client_id: u64,
    clients_ids: ClientIdMap,
    clients: HashMap<u64, Client>,
}

/// Whether every flag is set.
pub open spec fn spec_all(flags: Seq<bool>) -> bool {
    forall|i: int| 0 <= i < flags.len() ==> flags[i]
}

impl Server {
    /// The clients by number.
    pub closed spec fn spec_clients(&self) -> Map<u64, Client> {
        self.clients@
    }

    /// The client that each connection ID routes to.
    pub closed spec fn spec_clients_ids(&self) -> Map<Seq<u8>, u64> {
        self.clients_ids@
    }

    /// How many connection IDs route to `client`.
    pub closed spec fn spec_owned(&self, client: u64) -> nat {
        self.clients_ids.spec_owned(client)
    }

    /// How many connection IDs route to the listed clients, added up client
    /// by client.
    pub open spec fn spec_owned_sum(&self, clients: Seq<u64>) -> nat
        decreases clients.len(),
    {
        if clients.len() == 0 {
            0
        } else {
            self.spec_owned_sum(clients.drop_last()) + self.spec_owned(clients.last())
        }
    }

    /// The sum over the listed clients is the sum that the table of
    /// connection IDs gives.
    proof fn lemma_owned_sum(&self, clients: Seq<u64>)
        ensures
            self.spec_owned_sum(clients) == self.clients_ids.spec_owned_sum(clients),
        decreases clients.len(),
    {
        if clients.len() > 0 {
            self.lemma_owned_sum(clients.drop_last());
        }
    }

    /// The number that the next client gets.
    pub closed spec fn spec_next_client_id(&self) -> u64 {
        self.next_client_id
    }

    /// The sockets of the server.
    pub closed spec fn spec_sockets(&self) -> SocketSet {
        self.sockets
    }

    /// The password that clients must present.
    pub closed spec fn spec_password(&self) -> Option<Seq<char>> {
        password_view(self.password)
    }

    /// Whether segmented sends are in use.
    pub closed spec fn spec_enable_gso(&self) -> bool {
        self.enable_gso
    }

    /// Whether packets are sent at the times the connection sets.
    pub closed spec fn spec_pacing(&self) -> bool {
        self.pacing
    }

    /// Every client stands under its own number, below the next number to
    /// be given out; every connection ID routes to a client that exists.
    pub closed spec fn wf(&self) -> bool {
        &&& self.clients_ids.wf()
        &&& self.sockets.wf()
        &&& forall|id: u64| #[trigger]
            self.clients@.contains_key(id) ==> id < self.next_client_id
                && self.clients@[id].spec_client_id() == id
        &&& forall|k: Seq<u8>| #[trigger]
            self.clients_ids@.contains_key(k) ==> self.clients@.contains_key(self.clients_ids@[k])
    }

    /// In a well-formed server the sockets are well-formed and every
    /// connection ID routes to a client that exists.
    pub proof fn lemma_wf(&self)
        requires
            self.wf(),
        ensures
            self.spec_sockets().wf(),
            forall|id: u64| #[trigger]
                self.spec_clients().contains_key(id) ==> id < self.spec_next_client_id()
                    && self.spec_clients()[id].spec_client_id() == id,
            forall|k: Seq<u8>| #[trigger]
                self.spec_clients_ids().contains_key(k) ==> self.spec_clients().contains_key(
                    self.spec_clients_ids()[k],
                ),
    {
    }

    /// The size of the table of connection IDs is the sum, over the clients
    /// that exist, of the number of connection IDs of each: whenever `ids`
    /// lists every client, none of them twice.
    pub proof fn lemma_ids_are_sum_over_clients(&self, ids: Seq<u64>)
        requires
            self.wf(),
            ids.no_duplicates(),
            forall|id: u64| #[trigger] self.spec_clients().contains_key(id) ==> ids.contains(id),
        ensures
            self.spec_clients_ids().dom().finite(),
            self.spec_clients_ids().dom().len() == self.spec_owned_sum(ids),
    {
        assert forall|k: Seq<u8>| #[trigger] self.clients_ids@.contains_key(k) implies ids.contains(
            self.clients_ids@[k],
        ) by {
            assert(self.clients@.contains_key(self.clients_ids@[k]));
            assert(self.spec_clients().contains_key(self.clients_ids@[k]));
        }
        self.clients_ids.lemma_len_is_sum_of_owned(ids);
        self.lemma_owned_sum(ids);
    }

    /// The count of a client is the number of connection IDs that route to
    /// it.
    pub proof fn lemma_owned_counts_keys(&self, client: u64)
        requires
            self.wf(),
        ensures
            crate::registry::keys_of(self.spec_clients_ids(), client).finite(),
            self.spec_owned(client) == crate::registry::keys_of(self.spec_clients_ids(), client).len(),
    {
        self.clients_ids.lemma_owned_counts_keys(client);
    }

    /// A server that listens on `local_addrs`, one socket each, without
    /// clients. Segmented sends are used only if every socket supports
    /// them, as `gso` tells socket by socket.
    pub fn new(local_addrs: &[SocketAddress], password: Option<String>, gso: &[bool]) -> (r: Server)
        ensures
            r.wf(),
            r.spec_clients() == Map::<u64, Client>::empty(),
            r.spec_clients_ids() == Map::<Seq<u8>, u64>::empty(),
            r.spec_next_client_id() == 0,
            r.spec_password() == password_view(password),
            r.spec_pacing(),
            r.spec_enable_gso() == spec_all(gso@),
            r.spec_sockets().spec_bindings().len() == local_addrs@.len(),
            forall|i: int|
                0 <= i < local_addrs@.len() ==> (#[trigger] r.spec_sockets().spec_bindings()[i]).addr
                    == local_addrs@[i] && crate::sockets::spec_fresh(
                    r.spec_sockets(),
                    i,
                    MAX_BUF_SIZE as nat,
                ),
    {
        let capacity: usize = if local_addrs.len() > 1 { local_addrs.len() } else { 1 };
        let mut sockets = SocketSet::new(capacity);
        let mut i: usize = 0;
        while i < local_addrs.len()
            invariant
                i <= local_addrs@.len(),
                sockets.wf(),
                sockets.spec_bindings().len() == i,
                forall|j: int|
                    0 <= j < i ==> (#[trigger] sockets.spec_bindings()[j]).addr == local_addrs@[j]
                        && crate::sockets::spec_fresh(sockets, j, MAX_BUF_SIZE as nat),
            decreases local_addrs@.len() - i,
        {
            let ghost before = sockets;
            sockets.add(local_addrs[i], MAX_BUF_SIZE);
            proof {
                assert forall|j: int| 0 <= j < i + 1 implies (#[trigger] sockets.spec_bindings()[j]).addr
                    == local_addrs@[j] && crate::sockets::spec_fresh(sockets, j, MAX_BUF_SIZE as nat) by {
                    if j < i {
                        assert(before.spec_bindings()[j].addr == local_addrs@[j]);
                        assert(before.spec_sockets().contains_key(before.spec_bindings()[j].token));
                    }
                }
            }
            i = i + 1;
        }
        let mut enable_gso: bool = true;
        let mut k: usize = 0;
        while k < gso.len()
            invariant
                k <= gso@.len(),
                enable_gso == spec_all(gso@.take(k as int)),
            decreases gso@.len() - k,
        {
            proof {
                let next = gso@.take(k + 1);
                if spec_all(gso@.take(k as int)) && gso@[k as int] {
                    assert forall|j: int| 0 <= j < next.len() implies next[j] by {
                        if j < k {
                            assert(gso@.take(k as int)[j]);
                        }
                    }
                } else if !gso@[k as int] {
                    assert(!next[k as int]);
                } else {
                    let j = choose|j: int| 0 <= j < gso@.take(k as int).len() && !gso@.take(k as int)[j];
                    assert(!next[j]);
                }
            }
            enable_gso = enable_gso && gso[k];
            k = k + 1;
        }
        assert(gso@.take(k as int) =~= gso@);
        let clients: HashMap<u64, Client> = HashMap::new();
        Server {
            password,
            sockets,
            pacing: true,
            enable_gso,
            next_client_id: 0,
            clients_ids: ClientIdMap::new(),
            clients,
        }
    }

    /// Whether segmented sends are in use.
    pub fn enable_gso(&self) -> (r: bool)
        ensures
            r == self.spec_enable_gso(),
    {
        self.enable_gso
    }

    /// Whether packets are sent at the times the connection sets.
    pub fn pacing(&self) -> (r: bool)
        ensures
            r == self.spec_pacing(),
    {
        self.pacing
    }

    /// The sockets of the server.
    pub fn sockets(&self) -> (r: &SocketSet)
        ensures
            *r == self.spec_sockets(),
    {
        &self.sockets
    }

    /// The sockets of the server, for the caller to queue and write
    /// datagrams. The server stays well-formed when the sockets do.
    pub fn sockets_mut(&mut self) -> (r: &mut SocketSet)
        ensures
            *r == old(self).spec_sockets(),
            final(self).spec_sockets() == *final(r),
            final(self).spec_clients() == old(self).spec_clients(),
            final(self).spec_clients_ids() == old(self).spec_clients_ids(),
            final(self).spec_next_client_id() == old(self).spec_next_client_id(),
            old(self).wf() && final(r).wf() ==> final(self).wf(),
    {
        &mut self.sockets
    }

    /// Takes in what the socket under `token` said to the write of what
    /// waits on it. A socket that fails ends the run.
    pub fn on_writable(&mut self, token: usize, outcome: crate::socket::WriteOutcome) -> (r: Result<
        (),
        ServerError,
    >)
        requires
            old(self).wf(),
            old(self).spec_sockets().spec_sockets().contains_key(token),
        ensures
            final(self).wf(),
            final(self).spec_clients() == old(self).spec_clients(),
            final(self).spec_clients_ids() == old(self).spec_clients_ids(),
            final(self).spec_next_client_id() == old(self).spec_next_client_id(),
            final(self).spec_sockets().spec_bindings() == old(self).spec_sockets().spec_bindings(),
            final(self).spec_sockets().spec_sockets() == old(self).spec_sockets().spec_sockets().insert(
                token,
                final(self).spec_sockets().spec_sockets()[token],
            ),
            final(self).spec_sockets().spec_sockets()[token]@ == old(self).spec_sockets().spec_sockets()[token]@.try_send(outcome).0,
            r == match old(self).spec_sockets().spec_sockets()[token]@.try_send(outcome).1 {
                Ok(_) => Ok::<(), ServerError>(()),
                Err(e) => Err::<(), ServerError>(ServerError::FatalSocket(e)),
            },
    {
        let ghost before = self.sockets;
        let mut result: Result<usize, SocketError> = Ok(0);
        match self.sockets.get_mut(token) {
            Some(socket) => {
                result = socket.try_send(outcome);
            },
            None => {},
        }
        proof {
            SocketSet::lemma_wf_after_change(before, self.sockets, token);
        }
        match result {
            Ok(_) => Ok(()),
            Err(e) => Err(ServerError::FatalSocket(e)),
        }
    }

    /// Decides whether the socket under `token` is read on after one
    /// datagram: a datagram that is dropped costs that datagram only, a
    /// socket that fails ends the run.
    pub fn on_readable(&self, token: usize, outcome: crate::socket::DatagramOutcome) -> (r: Result<
        bool,
        ServerError,
    >)
        requires
            self.wf(),
            self.spec_sockets().spec_sockets().contains_key(token),
        ensures
            r == match crate::socket::spec_read_on(
                self.spec_sockets().spec_sockets()[token]@.local_addr,
                outcome,
            ) {
                Ok(on) => Ok::<bool, ServerError>(on),
                Err(e) => Err::<bool, ServerError>(ServerError::FatalSocket(e)),
            },
    {
        match self.sockets.get(token) {
            Some(socket) => match crate::socket::read_on(socket.local_addr(), outcome) {
                Ok(on) => Ok(on),
                Err(e) => Err(ServerError::FatalSocket(e)),
            },
            None => Ok(false),
        }
    }

    /// How many clients there are.
    pub fn client_count(&self) -> (r: usize)
        ensures
            r == self.spec_clients().dom().len(),
    {
        broadcast use vstd::std_specs::hash::group_hash_axioms;

        self.clients.len()
    }

    /// How many connection IDs route to clients.
    pub fn cid_count(&self) -> (r: usize)
        requires
            self.wf(),
        ensures
            r == self.spec_clients_ids().dom().len(),
    {
        self.clients_ids.len()
    }

    /// How many connection IDs route to the client `id`.
    pub fn owned(&self, id: u64) -> (r: usize)
        ensures
            r == self.spec_owned(id),
    {
        self.clients_ids.owned(id)
    }

    /// The client with the number `id`.
    pub fn client(&self, id: u64) -> (r: Option<&Client>)
        ensures
            r is Some <==> self.spec_clients().contains_key(id),
            r matches Some(c) ==> *c == self.spec_clients()[id],
    {
        broadcast use vstd::std_specs::hash::group_hash_axioms;

        self.clients.get(&id)
    }

    /// The client with the number `id`, for the caller to change.
    pub fn client_mut(&mut self, id: u64) -> (r: Option<&mut Client>)
        ensures
            r is Some <==> old(self).spec_clients().contains_key(id),
            r is None ==> final(self).spec_clients() == old(self).spec_clients(),
            r matches Some(c) ==> *c == old(self).spec_clients()[id] && final(self).spec_clients()
                == old(self).spec_clients().insert(id, *final(c)),
            final(self).spec_clients_ids() == old(self).spec_clients_ids(),
            final(self).spec_next_client_id() == old(self).spec_next_client_id(),
            final(self).spec_sockets() == old(self).spec_sockets(),
            r matches Some(c) ==> (old(self).wf() && final(c).spec_client_id() == id ==> final(self).wf()),
            r is None ==> (old(self).wf() ==> final(self).wf()),
    {
        broadcast use vstd::std_specs::hash::group_hash_axioms;

        if !self.clients.contains_key(&id) {
            return None;
        }
        match self.clients.entry(id) {
            Entry::Occupied(e) => Some(e.into_mut()),
            Entry::Vacant(_) => None,
        }
    }

    /// What to do with a datagram from `from` by its header, when `derived`
    /// is the connection ID derived from the header's destination connection
    /// ID.
    pub fn get_client_id(
        &self,
        hdr: &PacketHeader,
        derived: &[u8],
        version_supported: bool,
        from: &IpAddress,
    ) -> (r: Admission)
        requires
            self.wf(),
        ensures
            r@ == spec_admission(
                self.spec_clients_ids(),
                hdr.ty,
                hdr.dcid@,
                spec_token(hdr.token),
                derived@,
                version_supported,
                *from,
            ),
    {
        admission(&self.clients_ids, hdr, derived, version_supported, from)
    }

    /// Takes in a new client whose connection has the source connection ID
    /// `scid`. Returns the number of the client, or `None` when the numbers
    /// have run out.
    pub fn accept(&mut self, scid: Vec<u8>) -> (r: Option<u64>)
        requires
            old(self).wf(),
        ensures
            final(self).wf(),
            final(self).spec_sockets() == old(self).spec_sockets(),
            r is Some <==> old(self).spec_next_client_id() < u64::MAX,
            r is None ==> final(self).spec_clients() == old(self).spec_clients() && final(self).spec_clients_ids() == old(self).spec_clients_ids() && final(self).spec_next_client_id() == old(self).spec_next_client_id(),
            r matches Some(id) ==> {
                &&& id == old(self).spec_next_client_id()
                &&& final(self).spec_next_client_id() == id + 1
                &&& !old(self).spec_clients().contains_key(id)
                &&& final(self).spec_clients().dom() == old(self).spec_clients().dom().insert(id)
                &&& forall|c: u64| #[trigger]
                    old(self).spec_clients().contains_key(c) ==> final(self).spec_clients()[c]
                        == old(self).spec_clients()[c]
                &&& final(self).spec_clients()[id].spec_protocol() is None
                &&& final(self).spec_clients()[id].spec_password() == old(self).spec_password()
                &&& final(self).spec_clients()[id].spec_max_datagram_size() == MAX_DATAGRAM_SIZE
                &&& final(self).spec_clients()[id].spec_max_send_burst() == MAX_BUF_SIZE
                &&& final(self).spec_clients_ids() == old(self).spec_clients_ids().insert(scid@, id)
            },
    {
        broadcast use vstd::std_specs::hash::group_hash_axioms;

        if self.next_client_id == u64::MAX {
            return None;
        }
        let id: u64 = self.next_client_id;
        let client = Client::new(id, copy_password(&self.password));
        self.clients.insert(id, client);
        self.clients_ids.insert(scid, id);
        self.next_client_id = id + 1;
        proof {
            assert(self.clients@.dom() =~= old(self).clients@.dom().insert(id));
            assert forall|k: Seq<u8>| #[trigger] self.clients_ids@.contains_key(k) implies self.clients@.contains_key(
                self.clients_ids@[k],
            ) by {
                if k != scid@ {
                    assert(old(self).clients_ids@.contains_key(k));
                }
            }
        }
        Some(id)
    }

    /// Routes the new source connection ID `scid` to the client `id`.
    /// Returns whether such a client exists; if not, nothing happens.
    pub fn register_scid(&mut self, scid: Vec<u8>, id: u64) -> (r: bool)
        requires
            old(self).wf(),
        ensures
            final(self).wf(),
            r == old(self).spec_clients().contains_key(id),
            final(self).spec_clients() == old(self).spec_clients(),
            final(self).spec_next_client_id() == old(self).spec_next_client_id(),
            final(self).spec_sockets() == old(self).spec_sockets(),
            final(self).spec_clients_ids() == if r {
                old(self).spec_clients_ids().insert(scid@, id)
            } else {
                old(self).spec_clients_ids()
            },
    {
        broadcast use vstd::std_specs::hash::group_hash_axioms;

        if !self.clients.contains_key(&id) {
            return false;
        }
        self.clients_ids.insert(scid, id);
        proof {
            assert forall|k: Seq<u8>| #[trigger] self.clients_ids@.contains_key(k) implies self.clients@.contains_key(
                self.clients_ids@[k],
            ) by {
                if k != scid@ {
                    assert(old(self).clients_ids@.contains_key(k));
                }
            }
        }
        true
    }

    /// Forgets the source connection ID `scid`, which its connection has
    /// retired.
    pub fn retire_scid(&mut self, scid: &[u8])
        requires
            old(self).wf(),
        ensures
            final(self).wf(),
            final(self).spec_clients() == old(self).spec_clients(),
            final(self).spec_next_client_id() == old(self).spec_next_client_id(),
            final(self).spec_sockets() == old(self).spec_sockets(),
            final(self).spec_clients_ids() == old(self).spec_clients_ids().remove(scid@),
    {
        self.clients_ids.remove(scid);
        proof {
            assert forall|k: Seq<u8>| #[trigger] self.clients_ids@.contains_key(k) implies self.clients@.contains_key(
                self.clients_ids@[k],
            ) by {
                assert(old(self).clients_ids@.contains_key(k));
            }
        }
    }

    /// Drops the client `id`, whose connection is closed, and every
    /// connection ID that routes to it.
    pub fn remove_client(&mut self, id: u64) -> (r: Option<Client>)
        requires
            old(self).wf(),
        ensures
            final(self).wf(),
            final(self).spec_next_client_id() == old(self).spec_next_client_id(),
            final(self).spec_sockets() == old(self).spec_sockets(),
            final(self).spec_clients() == old(self).spec_clients().remove(id),
            r == if old(self).spec_clients().contains_key(id) {
                Some(old(self).spec_clients()[id])
            } else {
                None
            },
            forall|k: Seq<u8>| #[trigger]
                final(self).spec_clients_ids().contains_key(k) <==> old(self).spec_clients_ids().contains_key(k) && old(self).spec_clients_ids()[k] != id,
            forall|k: Seq<u8>| #[trigger]
                final(self).spec_clients_ids().contains_key(k) ==> final(self).spec_clients_ids()[k]
                    == old(self).spec_clients_ids()[k],
            final(self).spec_owned(id) == 0,
    {
        broadcast use vstd::std_specs::hash::group_hash_axioms;

        let gone: Option<Client> = self.clients.remove(&id);
        self.clients_ids.remove_client(id);
        proof {
            assert forall|k: Seq<u8>| #[trigger] self.clients_ids@.contains_key(k) implies self.clients@.contains_key(
                self.clients_ids@[k],
            ) by {
                assert(old(self).clients_ids@.contains_key(k));
                assert(old(self).clients@.contains_key(old(self).clients_ids@[k]));
            }
        }
        gone
    }

    /// Drops every client in `closed`, with the connection IDs that route
    /// to them.
    pub fn garbage_collect(&mut self, closed: &[u64])
        requires
            old(self).wf(),
        ensures
            final(self).wf(),
            final(self).spec_next_client_id() == old(self).spec_next_client_id(),
            final(self).spec_sockets() == old(self).spec_sockets(),
            forall|id: u64| #[trigger]
                final(self).spec_clients().contains_key(id) <==> old(self).spec_clients().contains_key(
                    id,
                ) && !closed@.contains(id),
            forall|id: u64| #[trigger]
                final(self).spec_clients().contains_key(id) ==> final(self).spec_clients()[id]
                    == old(self).spec_clients()[id],
            forall|k: Seq<u8>| #[trigger]
                final(self).spec_clients_ids().contains_key(k) <==> old(self).spec_clients_ids().contains_key(k) && !closed@.contains(
                    old(self).spec_clients_ids()[k],
                ),
            forall|k: Seq<u8>| #[trigger]
                final(self).spec_clients_ids().contains_key(k) ==> final(self).spec_clients_ids()[k]
                    == old(self).spec_clients_ids()[k],
    {
        let mut i: usize = 0;
        while i < closed.len()
            invariant
                i <= closed@.len(),
                self.wf(),
                self.spec_next_client_id() == old(self).spec_next_client_id(),
                self.spec_sockets() == old(self).spec_sockets(),
                forall|id: u64| #[trigger]
                    self.spec_clients().contains_key(id) <==> old(self).spec_clients().contains_key(
                        id,
                    ) && !closed@.take(i as int).contains(id),
                forall|id: u64| #[trigger]
                    self.spec_clients().contains_key(id) ==> self.spec_clients()[id] == old(self).spec_clients()[id],
                forall|k: Seq<u8>| #[trigger]
                    self.spec_clients_ids().contains_key(k) <==> old(self).spec_clients_ids().contains_key(k) && !closed@.take(i as int).contains(
                        old(self).spec_clients_ids()[k],
                    ),
                forall|k: Seq<u8>| #[trigger]
                    self.spec_clients_ids().contains_key(k) ==> self.spec_clients_ids()[k] == old(self).spec_clients_ids()[k],
            decreases closed@.len() - i,
        {
            let ghost before = *self;
            let ghost seen = closed@.take(i as int);
            let ghost next = closed@.take(i + 1);
            self.remove_client(closed[i]);
            proof {
                assert(next.drop_last() =~= seen);
                assert(next.last() == closed@[i as int]);
                assert forall|v: u64| next.contains(v) <==> seen.contains(v) || v == closed@[i as int] by {
                    if next.contains(v) {
                        let j = choose|j: int| 0 <= j < next.len() && next[j] == v;
                        if j < i {
                            assert(seen[j] == v);
                        }
                    }
                    if seen.contains(v) {
                        let j = choose|j: int| 0 <= j < seen.len() && seen[j] == v;
                        assert(next[j] == v);
                    }
                    if v == closed@[i as int] {
                        assert(next[i as int] == v);
                    }
                }
                assert forall|id: u64| #[trigger]
                    self.spec_clients().contains_key(id) <==> old(self).spec_clients().contains_key(
                        id,
                    ) && !next.contains(id) by {
                    assert(before.spec_clients().contains_key(id) <==> old(self).spec_clients().contains_key(id) && !seen.contains(id));
                }
                assert forall|k: Seq<u8>| #[trigger]
                    self.spec_clients_ids().contains_key(k) <==> old(self).spec_clients_ids().contains_key(k) && !next.contains(
                        old(self).spec_clients_ids()[k],
                    ) by {
                    assert(before.spec_clients_ids().contains_key(k) <==> old(self).spec_clients_ids().contains_key(k) && !seen.contains(
                        old(self).spec_clients_ids()[k],
                    ));
                    if before.spec_clients_ids().contains_key(k) {
                        assert(before.spec_clients_ids()[k] == old(self).spec_clients_ids()[k]);
                    }
                }
            }
            i = i + 1;
        }
        assert(closed@.take(i as int) =~= closed@);
    }
}

} // verus!
