//! The test protocol that runs on stream 0 of an established connection.
//!
//! The client sends its test configuration, the server checks the password
//! and acknowledges, then one side sends padding until the test duration has
//! passed. This module decides what to do next; the caller moves the bytes
//! and reports what the stream accepted.

use vstd::prelude::*;
use crate::time::TimeSpan;

verus! {

/// The length of the padding buffer that the sending side writes from.
pub const SEND_DATA_LEN: usize = 65507;

/// The number of padding buffers offered per dispatch when no bitrate is set.
pub const UNPACED_ROUNDS: u64 = 1000;

/// The pacing interval in nanoseconds.
pub const BITRATE_TIMER_NANOS: u64 = 10_000_000;

/// The pacing interval in microseconds.
pub const BITRATE_TIMER_MICROS: u64 = 10_000;

/// The number of pacing intervals per second.
pub const ROUNDS_PER_SEC: u64 = 100;

/// The most pacing intervals that one send may catch up on.
pub const MAX_CATCH_UP_ROUNDS: u64 = 3;

/// The stream that carries the whole protocol.
pub const STREAM_ID: u64 = 0;

/// Close code of a test that ran to its end.
pub const CLOSE_OK: u64 = 0x00;

/// Close code of a generic failure.
pub const CLOSE_FAILURE: u64 = 0x01;

/// Close code of a failed authentication.
pub const CLOSE_AUTH_FAILED: u64 = 0x10;

/// The pacing interval.
pub fn bitrate_timer() -> (r: TimeSpan)
    ensures
        r.wf(),
        r.as_nanos() == BITRATE_TIMER_NANOS,
{
    TimeSpan::from_millis(10)
}

/// What a test is asked to do.
#[derive(Debug)]
pub struct TestConfig {
    pub local_addrs: Vec<String>,
    pub peer_addrs: Vec<String>,
    pub password: Option<String>,
    pub client_sending: bool,
    pub duration: TimeSpan,
    /// Bytes per second to send at; `None` sends as fast as possible.
    pub bitrate_target: Option<u64>,
}

/// A test configuration as mathematical values.
pub struct TestConfigView {
    pub local_addrs: Seq<Seq<char>>,
    pub peer_addrs: Seq<Seq<char>>,
    pub password: Option<Seq<char>>,
    pub client_sending: bool,
    pub duration: nat,
    pub bitrate_target: Option<u64>,
}

/// A password as a sequence of characters.
pub open spec fn password_view(p: Option<String>) -> Option<Seq<char>> {
    match p {
        Some(s) => Some(s@),
        None => None,
    }
}

impl View for TestConfig {
    type V = TestConfigView;

    open spec fn view(&self) -> TestConfigView {
        TestConfigView {
            local_addrs: Seq::new(self.local_addrs@.len(), |i: int| self.local_addrs@[i]@),
            peer_addrs: Seq::new(self.peer_addrs@.len(), |i: int| self.peer_addrs@[i]@),
            password: password_view(self.password),
            client_sending: self.client_sending,
            duration: self.duration.as_nanos(),
            bitrate_target: self.bitrate_target,
        }
    }
}

impl TestConfig {
    /// Each index designates one path: there are as many local as peer
    /// addresses.
    pub open spec fn spec_paths_paired(&self) -> bool {
        self.local_addrs@.len() == self.peer_addrs@.len()
    }

    /// The configuration that a client asks for: it sends unless the test
    /// runs in reverse, for `duration` seconds.
    pub fn for_client(
        local_addrs: Vec<String>,
        peer_addrs: Vec<String>,
        password: Option<String>,
        reverse: bool,
        duration: u64,
        bitrate_target: Option<u64>,
    ) -> (r: TestConfig)
        ensures
            r.local_addrs == local_addrs,
            r.peer_addrs == peer_addrs,
            r.password == password,
            r.client_sending == !reverse,
            r.duration.wf(),
            r.duration.as_nanos() == duration as nat * 1_000_000_000,
            r.bitrate_target == bitrate_target,
    {
        TestConfig {
            local_addrs,
            peer_addrs,
            password,
            client_sending: !reverse,
            duration: TimeSpan::from_secs(duration),
            bitrate_target,
        }
    }

    /// Whether the configuration names one peer address per local address.
    pub fn paths_paired(&self) -> (r: bool)
        ensures
            r == self.spec_paths_paired(),
    {
        self.local_addrs.len() == self.peer_addrs.len()
    }
}

/// The server's answer to a test configuration.
#[derive(Debug)]
pub struct TestConfigAck {
    pub error: Option<String>,
}

impl TestConfigAck {
    /// The answer that accepts a configuration.
    pub fn accepted() -> (r: TestConfigAck)
        ensures
            r.error is None,
    {
        TestConfigAck { error: None }
    }
}

/// Whether a received password opens a test: no expected password accepts
/// anything, an expected one demands the same password.
pub open spec fn spec_pw_eq(expected: Option<Seq<char>>, received: Option<Seq<char>>) -> bool {
    match (expected, received) {
        (None, _) => true,
        (Some(e), Some(r)) => e == r,
        (Some(_), None) => false,
    }
}

/// Compares the password a server expects with the one a client sent.
pub fn pw_eq(expected: &Option<String>, received: &Option<String>) -> (r: bool)
    ensures
        r == spec_pw_eq(password_view(*expected), password_view(*received)),
{
    match expected {
        None => true,
        Some(e) => match received {
            Some(r) => *e == *r,
            None => false,
        },
    }
}

/// A copy of an optional password.
pub fn copy_password(p: &Option<String>) -> (r: Option<String>)
    ensures
        r == *p,
{
    match p {
        Some(s) => Some(s.clone()),
        None => None,
    }
}

/// Bytes to send per pacing interval for a target of `bitrate_target` bytes
/// per second.
pub open spec fn spec_bytes_per_round(bitrate_target: u64) -> nat {
    (bitrate_target / ROUNDS_PER_SEC) as nat
}

/// Bytes to send now: one interval's worth on the first send, nothing while
/// the last send is less than one interval ago, and otherwise the bytes of
/// the time that passed, capped at three intervals.
pub open spec fn spec_quantum(bitrate_target: u64, since_last_micros: Option<nat>) -> nat {
    let per_round = spec_bytes_per_round(bitrate_target);
    match since_last_micros {
        None => per_round,
        Some(us) => if us < BITRATE_TIMER_MICROS {
            0
        } else if us >= MAX_CATCH_UP_ROUNDS * BITRATE_TIMER_MICROS {
            (MAX_CATCH_UP_ROUNDS * per_round) as nat
        } else {
            per_round * us / (BITRATE_TIMER_MICROS as nat)
        },
    }
}

/// How many bytes to send for a target bitrate when the last send was
/// `since_last_micros` microseconds ago, or never if `None`.
pub fn quantum(bitrate_target: u64, since_last_micros: Option<u128>) -> (r: u64)
    ensures
        r == spec_quantum(
            bitrate_target,
            match since_last_micros {
                Some(us) => Some(us as nat),
                None => None,
            },
        ),
        r <= MAX_CATCH_UP_ROUNDS * spec_bytes_per_round(bitrate_target),
{
    let per_round: u64 = bitrate_target / ROUNDS_PER_SEC;
    match since_last_micros {
        None => per_round,
        Some(us) => {
            if us < BITRATE_TIMER_MICROS as u128 {
                0
            } else if us >= (MAX_CATCH_UP_ROUNDS * BITRATE_TIMER_MICROS) as u128 {
                MAX_CATCH_UP_ROUNDS * per_round
            } else {
                assert(per_round as int * us as int <= per_round as int * 30_000) by (nonlinear_arith)
                    requires
                        us < 30_000,
                        per_round >= 0,
                ;
                let scaled: u128 = (per_round as u128) * us;
                (scaled / (BITRATE_TIMER_MICROS as u128)) as u64
            }
        },
    }
}

/// A send never exceeds three intervals' worth of bytes.
pub proof fn lemma_quantum_bounded(bitrate_target: u64, since_last_micros: Option<nat>)
    ensures
        spec_quantum(bitrate_target, since_last_micros) <= MAX_CATCH_UP_ROUNDS
            * spec_bytes_per_round(bitrate_target),
{
    let per_round = spec_bytes_per_round(bitrate_target);
    match since_last_micros {
        None => {},
        Some(us) => {
            if us >= BITRATE_TIMER_MICROS && us < MAX_CATCH_UP_ROUNDS * BITRATE_TIMER_MICROS {
                assert(per_round * us <= per_round * 30_000) by (nonlinear_arith)
                    requires
                        us < 30_000,
                ;
            }
        },
    }
}

/// What the stream said to an attempt to write.
#[derive(Clone, Copy, Debug, PartialEq, Eq, Structural)]
pub enum StreamSend {
    /// It took this many bytes.
    Written(usize),
    /// It can take nothing right now.
    Done,
    /// It failed.
    Failed,
}

/// Why a protocol step did not go through.
#[derive(Clone, Copy, Debug, PartialEq, Eq, Structural)]
pub enum ProtocolError {
    /// Nothing to do right now.
    Done,
    /// The stream refused the write.
    StreamFailed,
}

/// Why a connection is closed.
#[derive(Clone, Copy, Debug, PartialEq, Eq, Structural)]
pub enum CloseReason {
    /// The test ran for its whole duration.
    Finished,
    /// The client's password is not the one the server expects.
    AuthenticationFailed,
    /// The test configuration could not be read.
    BadConfig,
    /// The peer offered none of the protocols this tool speaks.
    NoAlpnMatch,
    /// The connection could not produce a packet.
    SendFailed,
    /// The user interrupted the run.
    UserTerminated,
}

impl CloseReason {
    /// The error code that the close carries.
    pub open spec fn spec_code(self) -> u64 {
        match self {
            CloseReason::Finished => CLOSE_OK,
            CloseReason::AuthenticationFailed => CLOSE_AUTH_FAILED,
            _ => CLOSE_FAILURE,
        }
    }

    /// Whether the close is an application close rather than a transport
    /// close.
    pub open spec fn spec_is_app(self) -> bool {
        match self {
            CloseReason::Finished => true,
            CloseReason::AuthenticationFailed => true,
            CloseReason::UserTerminated => true,
            _ => false,
        }
    }

    /// The error code that the close carries.
    pub fn code(&self) -> (r: u64)
        ensures
            r == self.spec_code(),
    {
        match self {
            CloseReason::Finished => CLOSE_OK,
            CloseReason::AuthenticationFailed => CLOSE_AUTH_FAILED,
            _ => CLOSE_FAILURE,
        }
    }

    /// Whether the close is an application close.
    pub fn is_app(&self) -> (r: bool)
        ensures
            r == self.spec_is_app(),
    {
        match self {
            CloseReason::Finished => true,
            CloseReason::AuthenticationFailed => true,
            CloseReason::UserTerminated => true,
            _ => false,
        }
    }

    /// The words that the close carries.
    pub fn reason(&self) -> (r: &'static str)
        ensures
            r@ == match *self {
                CloseReason::Finished => "kthxbye"@,
                CloseReason::AuthenticationFailed => "authentication failed"@,
                CloseReason::BadConfig => "failed parsing test config"@,
                CloseReason::NoAlpnMatch => "No ALPN match"@,
                CloseReason::SendFailed => "fail"@,
                CloseReason::UserTerminated => "user terminated"@,
            },
    {
        match self {
            CloseReason::Finished => "kthxbye",
            CloseReason::AuthenticationFailed => "authentication failed",
            CloseReason::BadConfig => "failed parsing test config",
            CloseReason::NoAlpnMatch => "No ALPN match",
            CloseReason::SendFailed => "fail",
            CloseReason::UserTerminated => "user terminated",
        }
    }
}

/// What the data phase asks for.
#[derive(Clone, Copy, Debug, PartialEq, Eq, Structural)]
pub enum DataAction {
    /// Offer this many bytes of padding to the stream.
    Send { budget: u64 },
    /// Read the stream empty and drop what comes.
    Receive,
}

/// Where a test stands relative to its duration.
#[derive(Clone, Copy, Debug, PartialEq, Eq, Structural)]
pub enum DurationCheck {
    /// The duration has not passed, or the test has not started.
    Running,
    /// The duration passed just now: the connection is to be closed.
    Expired,
    /// The test was finished before this call.
    Finished,
}

/// What a client is to do next.
#[derive(Clone, Copy, Debug, PartialEq, Eq, Structural)]
pub enum ClientAction {
    /// Nothing.
    Idle,
    /// Close the connection.
    Close(CloseReason),
    /// Write the test configuration to the stream.
    SendConfig,
    /// Read acknowledgments from the stream.
    RecvConfigAck,
    /// Move test data.
    Work(DataAction),
}

/// What a server is to do next.
#[derive(Clone, Copy, Debug, PartialEq, Eq, Structural)]
pub enum ServerAction {
    /// Read the test configuration from the stream.
    RecvConfig,
    /// Move test data.
    Work(DataAction),
}

/// What a server makes of a configuration it read.
#[derive(Debug)]
pub enum ConfigVerdict {
    /// Close the connection.
    Reject(CloseReason),
    /// Acknowledge this configuration.
    Accept(TestConfig),
}

/// A verdict as mathematical values.
pub open spec fn verdict_view(verdict: ConfigVerdict) -> Result<TestConfigView, CloseReason> {
    match verdict {
        ConfigVerdict::Accept(tc) => Ok(tc@),
        ConfigVerdict::Reject(reason) => Err(reason),
    }
}

/// The state of the test protocol on one connection.
#[derive(Debug)]
pub struct Protocol {
    config_sent: bool,
    config_acked: bool,
    tc: Option<TestConfig>,
    password: Option<String>,
    start: Option<TimeSpan>,
    finished: bool,
    last_send: Option<TimeSpan>,
}

/// The protocol state as mathematical values; points in time are readings
/// of the caller's clock in nanoseconds.
pub struct ProtocolView {
    pub config_sent: bool,
    pub config_acked: bool,
    pub tc: Option<TestConfigView>,
    pub password: Option<Seq<char>>,
    pub start: Option<nat>,
    pub finished: bool,
    pub last_send: Option<nat>,
}

/// The time from `since` to `now`, nothing if the clock went back.
pub open spec fn spec_elapsed(now: nat, since: nat) -> nat {
    if now >= since {
        (now - since) as nat
    } else {
        0
    }
}

impl ProtocolView {
    /// Whether pacing is in force: a running test with a bitrate target whose
    /// configuration went out and was acknowledged.
    pub open spec fn paced(self) -> bool {
        !self.finished && self.tc is Some && self.tc.unwrap().bitrate_target is Some
            && self.config_sent && self.config_acked
    }

    /// How long the event loop may sleep on behalf of the protocol.
    pub open spec fn timeout(self, now: nat) -> nat {
        if !self.paced() {
            TimeSpan::max_nanos()
        } else {
            match self.last_send {
                Some(last) => {
                    let elapsed = spec_elapsed(now, last);
                    if elapsed >= BITRATE_TIMER_NANOS {
                        0
                    } else {
                        (BITRATE_TIMER_NANOS - elapsed) as nat
                    }
                },
                None => 0,
            }
        }
    }

    /// Whether the test duration has passed at `now`.
    pub open spec fn expired(self, now: nat) -> bool {
        self.tc is Some && self.start is Some && spec_elapsed(now, self.start.unwrap())
            >= self.tc.unwrap().duration
    }

    /// Whether this side is the one that sends test data.
    pub open spec fn sends_data(self) -> bool {
        self.tc is Some && self.tc.unwrap().client_sending == self.config_sent
    }

    /// How many bytes the sending side offers at `now`.
    pub open spec fn budget(self, now: nat) -> nat {
        if self.tc is Some && self.tc.unwrap().bitrate_target is Some {
            spec_quantum(
                self.tc.unwrap().bitrate_target.unwrap(),
                match self.last_send {
                    Some(last) => Some(spec_elapsed(now, last) / 1000),
                    None => None,
                },
            )
        } else {
            (SEND_DATA_LEN * UNPACED_ROUNDS) as nat
        }
    }

    /// The state after a check of the test duration at `now`, and what the
    /// check reports.
    pub open spec fn check_duration(self, now: nat) -> (ProtocolView, DurationCheck) {
        if self.finished {
            (self, DurationCheck::Finished)
        } else if self.expired(now) {
            (ProtocolView { finished: true, ..self }, DurationCheck::Expired)
        } else {
            (self, DurationCheck::Running)
        }
    }

    /// The state after a client's dispatch at `now` on a connection that is
    /// closed or draining as given, and the first thing the client is to do.
    pub open spec fn client_dispatch(self, now: nat, closed: bool, draining: bool) -> (
        ProtocolView,
        ClientAction,
    ) {
        if closed || draining {
            (self, ClientAction::Idle)
        } else {
            let (next, check) = self.check_duration(now);
            match check {
                DurationCheck::Expired => (next, ClientAction::Close(CloseReason::Finished)),
                DurationCheck::Finished => (next, ClientAction::Idle),
                DurationCheck::Running => if !self.config_sent {
                    (next, ClientAction::SendConfig)
                } else if !self.config_acked {
                    (next, ClientAction::RecvConfigAck)
                } else {
                    (next, ClientAction::Work(self.work(now).unwrap()))
                },
            }
        }
    }

    /// What follows in a client's dispatch once the configuration was sent
    /// or acknowledgments were read: test data, if the configuration is
    /// acknowledged by now.
    pub open spec fn client_resume(self, now: nat) -> Option<DataAction> {
        match self.work(now) {
            Ok(action) => Some(action),
            Err(_) => None,
        }
    }

    /// What a server is to do at `now`.
    pub open spec fn server_dispatch(self, now: nat) -> ServerAction {
        match self.work(now) {
            Ok(action) => ServerAction::Work(action),
            Err(_) => ServerAction::RecvConfig,
        }
    }

    /// How many bytes of a message the stream took.
    pub open spec fn written(sent: StreamSend) -> nat {
        match sent {
            StreamSend::Written(n) => n as nat,
            _ => 0,
        }
    }

    /// The state after the stream answered the write of a configuration of
    /// `msg_len` bytes at `now`, and whether the step went through. Once the
    /// stream took the whole message, the configuration counts as sent and
    /// the test starts at `now`; a write that took less changes nothing and
    /// is made again.
    pub open spec fn send_config(self, sent: StreamSend, msg_len: nat, now: nat) -> (
        ProtocolView,
        Result<(), ProtocolError>,
    ) {
        if sent == StreamSend::Failed {
            (self, Err(ProtocolError::StreamFailed))
        } else if Self::written(sent) >= msg_len {
            (ProtocolView { config_sent: true, start: Some(now), ..self }, Ok(()))
        } else {
            (self, Ok(()))
        }
    }

    /// The state after one message was read where an acknowledgment is
    /// expected: `None` for a message that is no acknowledgment, else whether
    /// it reports an error.
    pub open spec fn recv_config_ack(self, ack: Option<bool>) -> (
        ProtocolView,
        Result<(), ProtocolError>,
    ) {
        match ack {
            Some(false) => (ProtocolView { config_acked: true, ..self }, Ok(())),
            _ => (self, Err(ProtocolError::Done)),
        }
    }

    /// What a server makes of what it read where it expects the
    /// configuration: the configuration as it was received, if its password
    /// opens the test; else the reason to close.
    pub open spec fn recv_config(self, received: Option<TestConfigView>) -> Result<
        TestConfigView,
        CloseReason,
    > {
        match received {
            None => Err(CloseReason::BadConfig),
            Some(tc) => if spec_pw_eq(self.password, tc.password) {
                Ok(tc)
            } else {
                Err(CloseReason::AuthenticationFailed)
            },
        }
    }

    /// The state after the stream answered the write of an acknowledgment
    /// for the configuration `tc`.
    pub open spec fn ack_config(self, tc: TestConfigView, sent: StreamSend) -> (
        ProtocolView,
        Result<(), ProtocolError>,
    ) {
        match sent {
            StreamSend::Failed => (self, Err(ProtocolError::StreamFailed)),
            _ => (ProtocolView { config_acked: true, tc: Some(tc), ..self }, Ok(())),
        }
    }

    /// The state after the stream answered the write of a chunk of test
    /// data at `now`, and whether to go on writing.
    pub open spec fn send_data(self, sent: StreamSend, now: nat) -> (
        ProtocolView,
        Result<bool, ProtocolError>,
    ) {
        match sent {
            StreamSend::Written(_) => (ProtocolView { last_send: Some(now), ..self }, Ok(true)),
            StreamSend::Done => (self, Ok(false)),
            StreamSend::Failed => (self, Err(ProtocolError::StreamFailed)),
        }
    }

    /// What the data phase asks for at `now`.
    pub open spec fn work(self, now: nat) -> Result<DataAction, ProtocolError> {
        if !self.config_acked {
            Err(ProtocolError::Done)
        } else if self.sends_data() {
            Ok(DataAction::Send { budget: self.budget(now) as u64 })
        } else {
            Ok(DataAction::Receive)
        }
    }
}

/// An optional point in time as an optional number of nanoseconds.
pub open spec fn instant_view(t: Option<TimeSpan>) -> Option<nat> {
    match t {
        Some(v) => Some(v.as_nanos()),
        None => None,
    }
}

/// An optional configuration as mathematical values.
pub open spec fn config_view(tc: Option<TestConfig>) -> Option<TestConfigView> {
    match tc {
        Some(c) => Some(c@),
        None => None,
    }
}

impl View for Protocol {
    type V = ProtocolView;

    closed spec fn view(&self) -> ProtocolView {
        ProtocolView {
            config_sent: self.config_sent,
            config_acked: self.config_acked,
            tc: config_view(self.tc),
            password: password_view(self.password),
            start: instant_view(self.start),
            finished: self.finished,
            last_send: instant_view(self.last_send),
        }
    }
}

impl Protocol {
    /// An acknowledged configuration is a known configuration.
    #[verifier::type_invariant]
    spec fn inv(self) -> bool {
        self.config_acked ==> self.tc is Some
    }

    /// An acknowledged configuration is a known configuration.
    pub open spec fn wf(&self) -> bool {
        self@.config_acked ==> self@.tc is Some
    }

    /// The protocol of a client that is to run the test `tc`.
    pub fn new_with_tc(tc: TestConfig) -> (r: Protocol)
        ensures
            r.wf(),
            r@ == (ProtocolView {
                config_sent: false,
                config_acked: false,
                tc: Some(tc@),
                password: tc@.password,
                start: None,
                finished: false,
                last_send: None,
            }),
    {
        let password = copy_password(&tc.password);
        Protocol {
            config_sent: false,
            config_acked: false,
            tc: Some(tc),
            password,
            start: None,
            finished: false,
            last_send: None,
        }
    }

    /// The protocol of a server that expects `password`.
    pub fn new_with_password(password: Option<String>) -> (r: Protocol)
        ensures
            r.wf(),
            r@ == (ProtocolView {
                config_sent: false,
                config_acked: false,
                tc: None,
                password: password_view(password),
                start: None,
                finished: false,
                last_send: None,
            }),
    {
        Protocol {
            config_sent: false,
            config_acked: false,
            tc: None,
            password,
            start: None,
            finished: false,
            last_send: None,
        }
    }

    /// Whether the configuration went out in full.
    pub fn config_sent(&self) -> (r: bool)
        ensures
            r == self@.config_sent,
    {
        self.config_sent
    }

    /// Whether the configuration was acknowledged.
    pub fn config_acked(&self) -> (r: bool)
        ensures
            r == self@.config_acked,
            self.wf(),
    {
        proof {
            use_type_invariant(self);
        }
        self.config_acked
    }

    /// Whether the test duration has passed and the close was asked for.
    pub fn finished(&self) -> (r: bool)
        ensures
            r == self@.finished,
    {
        self.finished
    }

    /// The test configuration, once it is known.
    pub fn tc(&self) -> (r: Option<&TestConfig>)
        ensures
            r is Some <==> self@.tc is Some,
            r matches Some(c) ==> Some(c@) == self@.tc,
    {
        self.tc.as_ref()
    }

    /// How long the event loop may sleep on behalf of the protocol: forever
    /// unless pacing is in force, else until the pacing interval since the
    /// last send is over.
    pub fn timeout(&self, now: TimeSpan) -> (r: TimeSpan)
        ensures
            r.wf(),
            r.as_nanos() == self@.timeout(now.as_nanos()),
    {
        let paced: bool = !self.finished && self.config_sent && self.config_acked && match &self.tc {
            Some(tc) => tc.bitrate_target.is_some(),
            None => false,
        };
        if !paced {
            TimeSpan::max()
        } else {
            match self.last_send {
                Some(last) => bitrate_timer().saturating_sub(now.saturating_sub(last)),
                None => TimeSpan::zero(),
            }
        }
    }

    /// How many bytes to send right now if a target bitrate is configured;
    /// `None` if there is none.
    pub fn bitrate_target_quantum(&self, now: TimeSpan) -> (r: Option<u64>)
        ensures
            r is Some <==> self@.tc is Some && self@.tc.unwrap().bitrate_target is Some,
            r matches Some(q) ==> q == self@.budget(now.as_nanos()),
    {
        match &self.tc {
            None => None,
            Some(tc) => match tc.bitrate_target {
                None => None,
                Some(target) => {
                    let since: Option<u128> = match self.last_send {
                        Some(last) => Some(now.saturating_sub(last).as_micros()),
                        None => None,
                    };
                    Some(quantum(target, since))
                },
            },
        }
    }

    /// Checks the test duration. The first call at or after its end marks the
    /// test finished and reports `Expired`; every later call reports
    /// `Finished`.
    pub fn close_after_duration(&mut self, now: TimeSpan) -> (r: DurationCheck)
        ensures
            final(self).wf(),
            (final(self)@, r) == old(self)@.check_duration(now.as_nanos()),
    {
        proof {
            use_type_invariant(&*self);
        }
        if self.finished {
            return DurationCheck::Finished;
        }
        let expired: bool = match (&self.tc, self.start) {
            (Some(tc), Some(start)) => now.saturating_sub(start).ge(&tc.duration),
            _ => false,
        };
        if !expired {
            return DurationCheck::Running;
        }
        self.finished = true;
        DurationCheck::Expired
    }

    /// What the data phase asks for: nothing before the acknowledgment, then
    /// sending on the side that the configuration names and receiving on the
    /// other.
    pub fn work(&self, now: TimeSpan) -> (r: Result<DataAction, ProtocolError>)
        ensures
            r == self@.work(now.as_nanos()),
    {
        proof {
            use_type_invariant(self);
        }
        if !self.config_acked {
            return Err(ProtocolError::Done);
        }
        let sending: bool = match &self.tc {
            Some(tc) => tc.client_sending == self.config_sent,
            None => false,
        };
        if sending {
            let budget: u64 = match self.bitrate_target_quantum(now) {
                Some(q) => q,
                None => (SEND_DATA_LEN as u64) * UNPACED_ROUNDS,
            };
            Ok(DataAction::Send { budget })
        } else {
            Ok(DataAction::Receive)
        }
    }

    /// A client's dispatch: nothing on a closed or draining connection; the
    /// close when the duration has just passed; else the configuration, then
    /// its acknowledgment, then test data.
    pub fn client_dispatch(&mut self, now: TimeSpan, closed: bool, draining: bool) -> (r:
        ClientAction)
        ensures
            final(self).wf(),
            (final(self)@, r) == old(self)@.client_dispatch(now.as_nanos(), closed, draining),
    {
        proof {
            use_type_invariant(&*self);
        }
        if closed || draining {
            return ClientAction::Idle;
        }
        match self.close_after_duration(now) {
            DurationCheck::Expired => ClientAction::Close(CloseReason::Finished),
            DurationCheck::Finished => ClientAction::Idle,
            DurationCheck::Running => {
                if !self.config_sent {
                    ClientAction::SendConfig
                } else if !self.config_acked {
                    ClientAction::RecvConfigAck
                } else {
                    match self.work(now) {
                        Ok(action) => ClientAction::Work(action),
                        Err(_) => ClientAction::Idle,
                    }
                }
            },
        }
    }

    /// What follows in a client's dispatch after the configuration was sent
    /// or acknowledgments were read.
    pub fn client_resume(&self, now: TimeSpan) -> (r: Option<DataAction>)
        ensures
            r == self@.client_resume(now.as_nanos()),
    {
        match self.work(now) {
            Ok(action) => Some(action),
            Err(_) => None,
        }
    }

    /// A server's dispatch: the configuration until it is acknowledged, then
    /// test data.
    pub fn server_dispatch(&self, now: TimeSpan) -> (r: ServerAction)
        ensures
            r == self@.server_dispatch(now.as_nanos()),
    {
        match self.work(now) {
            Ok(action) => ServerAction::Work(action),
            Err(_) => ServerAction::RecvConfig,
        }
    }

    /// Takes in what the stream said to the write of the configuration, of
    /// `msg_len` bytes, at `now`. Once the stream took all of it, the
    /// configuration counts as sent and the test starts at `now`; until then
    /// nothing changes.
    pub fn send_config(&mut self, sent: StreamSend, msg_len: usize, now: TimeSpan) -> (r: Result<
        (),
        ProtocolError,
    >)
        requires
            old(self)@.tc is Some,
        ensures
            final(self).wf(),
            (final(self)@, r) == old(self)@.send_config(sent, msg_len as nat, now.as_nanos()),
    {
        proof {
            use_type_invariant(&*self);
        }
        let written: usize = match sent {
            StreamSend::Written(n) => n,
            StreamSend::Done => 0,
            StreamSend::Failed => {
                return Err(ProtocolError::StreamFailed);
            },
        };
        if written >= msg_len {
            self.config_sent = true;
            self.start = Some(now);
        }
        Ok(())
    }

    /// Takes in one message read where an acknowledgment is expected; `None`
    /// stands for a message that could not be read as one. An acknowledgment
    /// without an error marks the configuration acknowledged.
    pub fn recv_config_ack(&mut self, ack: Option<TestConfigAck>) -> (r: Result<(), ProtocolError>)
        requires
            old(self)@.tc is Some,
        ensures
            final(self).wf(),
            (final(self)@, r) == old(self)@.recv_config_ack(
                match ack {
                    Some(a) => Some(a.error is Some),
                    None => None,
                },
            ),
    {
        proof {
            use_type_invariant(&*self);
        }
        match ack {
            None => Err(ProtocolError::Done),
            Some(a) => {
                if a.error.is_some() {
                    Err(ProtocolError::Done)
                } else {
                    self.config_acked = true;
                    Ok(())
                }
            },
        }
    }

    /// Judges what a server read where it expects the configuration; `None`
    /// stands for bytes that are no configuration. A configuration whose
    /// password does not open the test is rejected.
    pub fn recv_config(&self, received: Option<TestConfig>) -> (r: ConfigVerdict)
        ensures
            verdict_view(r) == self@.recv_config(config_view(received)),
            r == match received {
                None => ConfigVerdict::Reject(CloseReason::BadConfig),
                Some(tc) => if spec_pw_eq(self@.password, tc@.password) {
                    ConfigVerdict::Accept(tc)
                } else {
                    ConfigVerdict::Reject(CloseReason::AuthenticationFailed)
                },
            },
    {
        match received {
            None => ConfigVerdict::Reject(CloseReason::BadConfig),
            Some(tc) => {
                if pw_eq(&self.password, &tc.password) {
                    ConfigVerdict::Accept(tc)
                } else {
                    ConfigVerdict::Reject(CloseReason::AuthenticationFailed)
                }
            },
        }
    }

    /// Takes in what the stream said to the write of the acknowledgment for
    /// `tc`. Unless the write failed, `tc` is the configuration of the test
    /// from now on.
    pub fn ack_config(&mut self, tc: TestConfig, sent: StreamSend) -> (r: Result<(), ProtocolError>)
        ensures
            final(self).wf(),
            (final(self)@, r) == old(self)@.ack_config(tc@, sent),
    {
        proof {
            use_type_invariant(&*self);
        }
        match sent {
            StreamSend::Failed => Err(ProtocolError::StreamFailed),
            _ => {
                self.tc = Some(tc);
                self.config_acked = true;
                Ok(())
            },
        }
    }

    /// Takes in what the stream said to the write of one chunk of test data
    /// at `now`. Returns whether to go on writing.
    pub fn send_data(&mut self, sent: StreamSend, now: TimeSpan) -> (r: Result<bool, ProtocolError>)
        ensures
            final(self).wf(),
            (final(self)@, r) == old(self)@.send_data(sent, now.as_nanos()),
    {
        proof {
            use_type_invariant(&*self);
        }
        match sent {
            StreamSend::Written(_) => {
                self.last_send = Some(now);
                Ok(true)
            },
            StreamSend::Done => Ok(false),
            StreamSend::Failed => Err(ProtocolError::StreamFailed),
        }
    }
}

/// What is left of the bytes that one dispatch offers to the stream.
#[derive(Clone, Copy, Debug, PartialEq, Eq, Structural)]
pub struct SendBudget {
    pub left: u64,
}

/// The size of the next chunk when `left` bytes remain: a whole padding
/// buffer, or what remains if that is less.
pub open spec fn spec_chunk(left: u64) -> nat {
    if left >= SEND_DATA_LEN {
        SEND_DATA_LEN as nat
    } else {
        left as nat
    }
}

impl SendBudget {
    /// A budget of `bytes` bytes.
    pub fn new(bytes: u64) -> (r: SendBudget)
        ensures
            r.left == bytes,
    {
        SendBudget { left: bytes }
    }

    /// Takes the next chunk off the budget. Returns its size, or `None` when
    /// nothing is left.
    pub fn take_chunk(&mut self) -> (r: Option<usize>)
        ensures
            old(self).left == 0 ==> r is None && *final(self) == *old(self),
            old(self).left > 0 ==> r == Some(spec_chunk(old(self).left) as usize),
            old(self).left > 0 ==> final(self).left == old(self).left - spec_chunk(old(self).left),
    {
        if self.left == 0 {
            None
        } else if self.left >= SEND_DATA_LEN as u64 {
            self.left = self.left - SEND_DATA_LEN as u64;
            Some(SEND_DATA_LEN)
        } else {
            let chunk: usize = self.left as usize;
            self.left = 0;
            Some(chunk)
        }
    }
}

/// Two checks of the duration, the first when it has passed: the first asks
/// for the close and the second does not, at whatever time it is made.
pub proof fn lemma_close_once(v: ProtocolView, first: nat, second: nat)
    requires
        !v.finished,
        v.expired(first),
    ensures
        v.check_duration(first).1 == DurationCheck::Expired,
        v.check_duration(first).0.check_duration(second).1 == DurationCheck::Finished,
        v.check_duration(first).0.check_duration(second).0 == v.check_duration(first).0,
{
}

/// Once a client's dispatch has asked for the close, no later dispatch asks
/// for anything.
pub proof fn lemma_dispatch_after_close_is_idle(
    v: ProtocolView,
    first: nat,
    second: nat,
    closed: bool,
    draining: bool,
)
    requires
        v.client_dispatch(first, false, false).1 == ClientAction::Close(CloseReason::Finished),
    ensures
        v.client_dispatch(first, false, false).0.client_dispatch(second, closed, draining) == (
            v.client_dispatch(first, false, false).0,
            ClientAction::Idle,
        ),
{
}

/// A dispatch of a paced sender before its pacing interval is over, and
/// before the test duration has passed, sends nothing and changes nothing.
pub proof fn lemma_dispatch_before_timer_is_noop(v: ProtocolView, now: nat)
    requires
        v.paced(),
        v.sends_data(),
        !v.expired(now),
        v.last_send is Some,
        v.timeout(now) > 0,
    ensures
        v.client_dispatch(now, false, false) == (v, ClientAction::Work(DataAction::Send { budget: 0 })),
        v.server_dispatch(now) == ServerAction::Work(DataAction::Send { budget: 0 }),
{
}

/// The configuration that a server holds after it accepted and acknowledged
/// what it received is the received one in every field, and it counts as
/// acknowledged: whenever its password opens the test and the write of the
/// acknowledgment did not fail.
pub proof fn lemma_accepted_config_is_stored(v: ProtocolView, c: TestConfigView, sent: StreamSend)
    requires
        spec_pw_eq(v.password, c.password),
        sent != StreamSend::Failed,
    ensures
        v.recv_config(Some(c)) == Ok::<TestConfigView, CloseReason>(c),
        v.ack_config(c, sent).0.tc == Some(c),
        v.ack_config(c, sent).0.config_acked,
        v.ack_config(c, sent).1 is Ok,
{
}

/// The sum of the numbers in `gaps`.
pub open spec fn spec_sum(gaps: Seq<nat>) -> nat
    decreases gaps.len(),
{
    if gaps.len() == 0 {
        0
    } else {
        spec_sum(gaps.drop_last()) + gaps.last()
    }
}

/// The bytes that a paced sender offers over a run: one interval's worth on
/// its first send, and on every later send what the time since the send
/// before it allows; `gaps` holds those times in microseconds, in order.
pub open spec fn spec_run_total(bitrate_target: u64, gaps: Seq<nat>) -> nat
    decreases gaps.len(),
{
    if gaps.len() == 0 {
        spec_quantum(bitrate_target, None)
    } else {
        spec_run_total(bitrate_target, gaps.drop_last()) + spec_quantum(
            bitrate_target,
            Some(gaps.last()),
        )
    }
}

/// Whether every send of a run came when the pacing interval since the send
/// before it was over, and before three intervals had passed.
pub open spec fn spec_steady(gaps: Seq<nat>) -> bool {
    forall|i: int|
        0 <= i < gaps.len() ==> BITRATE_TIMER_MICROS <= #[trigger] gaps[i] <= MAX_CATCH_UP_ROUNDS
            * BITRATE_TIMER_MICROS
}

/// A send offers no more than the bytes of the time since the send before
/// it, and, if it came within one to three intervals, less than one byte
/// short of them.
pub proof fn lemma_quantum_follows_time(bitrate_target: u64, gap: nat)
    ensures
        spec_quantum(bitrate_target, Some(gap)) * BITRATE_TIMER_MICROS <= spec_bytes_per_round(
            bitrate_target,
        ) * gap,
        BITRATE_TIMER_MICROS <= gap <= MAX_CATCH_UP_ROUNDS * BITRATE_TIMER_MICROS ==> spec_quantum(
            bitrate_target,
            Some(gap),
        ) * BITRATE_TIMER_MICROS + 9_999 >= spec_bytes_per_round(bitrate_target) * gap,
{
    let per_round = spec_bytes_per_round(bitrate_target);
    if gap < 10_000 {
        assert(0 <= per_round * gap) by (nonlinear_arith);
    } else if gap >= 30_000 {
        assert(3 * per_round * 10_000 <= per_round * gap) by (nonlinear_arith)
            requires
                gap >= 30_000,
        ;
        if gap == 30_000 {
            assert(3 * per_round * 10_000 == per_round * gap) by (nonlinear_arith)
                requires
                    gap == 30_000,
            ;
        }
    } else {
        let x = per_round * gap;
        assert((x / 10_000) * 10_000 <= x && (x / 10_000) * 10_000 + 9_999 >= x) by (nonlinear_arith)
            requires
                x >= 0,
        ;
    }
}

/// Over a run, a paced sender offers no more than one interval's worth plus
/// the bytes of the time that passed between its sends; and if every send
/// came within one to three intervals of the one before, it falls short of
/// that by less than one byte for each send.
pub proof fn lemma_run_follows_time(bitrate_target: u64, gaps: Seq<nat>)
    ensures
        spec_run_total(bitrate_target, gaps) * BITRATE_TIMER_MICROS <= spec_bytes_per_round(
            bitrate_target,
        ) * (BITRATE_TIMER_MICROS + spec_sum(gaps)),
        spec_steady(gaps) ==> spec_run_total(bitrate_target, gaps) * BITRATE_TIMER_MICROS + 9_999
            * gaps.len() >= spec_bytes_per_round(bitrate_target) * (BITRATE_TIMER_MICROS + spec_sum(
            gaps,
        )),
    decreases gaps.len(),
{
    let per_round = spec_bytes_per_round(bitrate_target);
    if gaps.len() > 0 {
        let front = gaps.drop_last();
        let gap = gaps.last();
        lemma_run_follows_time(bitrate_target, front);
        lemma_quantum_follows_time(bitrate_target, gap);
        assert(per_round * (10_000 + spec_sum(front) + gap) == per_round * (10_000 + spec_sum(front))
            + per_round * gap) by (nonlinear_arith);
        let total = spec_run_total(bitrate_target, front);
        let q = spec_quantum(bitrate_target, Some(gap));
        assert((total + q) * 10_000 == total * 10_000 + q * 10_000) by (nonlinear_arith);
        if spec_steady(gaps) {
            assert(spec_steady(front)) by {
                assert forall|i: int| 0 <= i < front.len() implies BITRATE_TIMER_MICROS
                    <= #[trigger] front[i] <= MAX_CATCH_UP_ROUNDS * BITRATE_TIMER_MICROS by {
                    assert(front[i] == gaps[i]);
                }
            }
            assert(10_000 <= gaps[gaps.len() - 1] <= 30_000);
        }
    } else {
        assert(per_round * 10_000 == per_round * (10_000 + 0)) by (nonlinear_arith);
    }
}

/// With steady sends, a run has no more sends than intervals passed.
pub proof fn lemma_steady_sends_are_few(gaps: Seq<nat>)
    requires
        spec_steady(gaps),
    ensures
        gaps.len() * BITRATE_TIMER_MICROS <= spec_sum(gaps),
    decreases gaps.len(),
{
    if gaps.len() > 0 {
        let front = gaps.drop_last();
        assert(spec_steady(front)) by {
            assert forall|i: int| 0 <= i < front.len() implies BITRATE_TIMER_MICROS
                <= #[trigger] front[i] <= MAX_CATCH_UP_ROUNDS * BITRATE_TIMER_MICROS by {
                assert(front[i] == gaps[i]);
            }
        }
        lemma_steady_sends_are_few(front);
        assert(10_000 <= gaps[gaps.len() - 1]);
    }
}

/// A sender paced at one megabit per second, whose sends come steadily and
/// span ten seconds but for the last three intervals at most, offers
/// between 1.1 and 1.4 million bytes.
pub proof fn lemma_one_megabit_for_ten_seconds(gaps: Seq<nat>)
    requires
        spec_steady(gaps),
        9_970_000 <= spec_sum(gaps) <= 10_000_000,
    ensures
        1_100_000 <= spec_run_total(125_000, gaps) <= 1_400_000,
{
    lemma_run_follows_time(125_000, gaps);
    lemma_steady_sends_are_few(gaps);
    let total = spec_run_total(125_000, gaps);
    let sum = spec_sum(gaps);
    assert(spec_bytes_per_round(125_000) == 1_250);
    assert(1_250 * (10_000 + sum) <= 1_250 * 10_010_000) by (nonlinear_arith)
        requires
            sum <= 10_000_000,
    ;
    assert(1_250 * (10_000 + sum) >= 1_250 * 9_980_000) by (nonlinear_arith)
        requires
            sum >= 9_970_000,
    ;
    assert(gaps.len() <= 1_000) by (nonlinear_arith)
        requires
            gaps.len() * 10_000 <= sum,
            sum <= 10_000_000,
    ;
}

} // verus!
