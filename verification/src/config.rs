//! The settings of the QUIC stack for a run.

use vstd::prelude::*;
use vstd::string::StringSliceAdditionalSpecFns;
use crate::cli::Args;
use crate::socket::MAX_DATAGRAM_SIZE;
use crate::text::parse_decimal;
use crate::text::spec_parse_decimal;

verus! {

/// Milliseconds of silence after which a connection is given up.
pub const MAX_IDLE_TIMEOUT: u64 = 30_000;

/// How many streams of each kind the peer may open.
pub const INITIAL_MAX_STREAMS: u64 = 100;

/// The exponent of the acknowledgment delay.
pub const ACK_DELAY_EXPONENT: u64 = 3;

/// The longest acknowledgment delay in milliseconds.
pub const MAX_ACK_DELAY: u64 = 25;

/// How many connection IDs the peer may hand out.
pub const ACTIVE_CONNECTION_ID_LIMIT: u64 = 5;

/// The largest flow control window of a connection.
pub const MAX_CONNECTION_WINDOW: u64 = 25_165_824;

/// The largest flow control window of a stream.
pub const MAX_STREAM_WINDOW: u64 = 16_777_216;

/// The lengths of the queues for datagrams, which stay unused.
pub const DGRAM_QUEUE_LEN: usize = 1000;

/// How the congestion window is governed.
#[derive(Debug)]
pub enum CongestionControl {
    /// A window of this many bytes that never changes.
    Constant(usize),
    /// The algorithm of this name.
    Named(String),
}

/// How the congestion window is governed, as mathematical values.
pub enum CongestionControlView {
    Constant(usize),
    Named(Seq<char>),
}

impl View for CongestionControl {
    type V = CongestionControlView;

    open spec fn view(&self) -> CongestionControlView {
        match *self {
            CongestionControl::Constant(n) => CongestionControlView::Constant(n),
            CongestionControl::Named(name) => CongestionControlView::Named(name@),
        }
    }
}

/// The settings of the QUIC stack.
#[derive(Debug)]
pub struct QuicSettings {
    pub max_idle_timeout: u64,
    pub max_recv_udp_payload_size: usize,
    pub max_send_udp_payload_size: usize,
    pub initial_max_data: u64,
    pub initial_max_stream_data_bidi_local: u64,
    pub initial_max_stream_data_bidi_remote: u64,
    pub initial_max_stream_data_uni: u64,
    pub initial_max_streams_bidi: u64,
    pub initial_max_streams_uni: u64,
    pub ack_delay_exponent: u64,
    pub max_ack_delay: u64,
    pub active_connection_id_limit: u64,
    pub disable_active_migration: bool,
    pub multipath: bool,
    pub congestion: CongestionControl,
    pub hystart: bool,
    pub pacing: bool,
    pub dgram_enabled: bool,
    pub dgram_recv_queue_len: usize,
    pub dgram_send_queue_len: usize,
    pub max_connection_window: u64,
    pub max_stream_window: u64,
    pub fc_initial_connection_window: u64,
    pub fc_initial_stream_window: u64,
    pub fc_window_update_threshold: u64,
    pub fc_autotune_increase_factor: u64,
    pub fc_reactive_rtt_trigger_factor: u32,
    pub fc_autotune_strategy: String,
}

/// Whether a run uses multipath: it was asked for, or there is more than
/// one local address.
pub open spec fn spec_multipath(asked: bool, local_addrs: nat) -> bool {
    asked || local_addrs > 1
}

/// How the congestion window is governed for the argument `congestion`: a
/// number asks for a constant window of that many bytes, anything else
/// names an algorithm.
pub open spec fn spec_congestion(congestion: Seq<char>) -> CongestionControlView {
    match spec_parse_decimal(vstd::utf8::encode_utf8(congestion), usize::MAX as nat) {
        Ok(n) => CongestionControlView::Constant(n as usize),
        Err(_) => CongestionControlView::Named(congestion),
    }
}

/// Decides whether a run uses multipath.
pub fn multipath_enabled(asked: bool, local_addrs: usize) -> (r: bool)
    ensures
        r == spec_multipath(asked, local_addrs as nat),
{
    asked || local_addrs > 1
}

/// Reads how the congestion window is to be governed.
pub fn congestion_control(congestion: &String) -> (r: CongestionControl)
    ensures
        r@ == spec_congestion(congestion@),
{
    match parse_decimal(congestion.as_str().as_bytes(), usize::MAX as u64) {
        Ok(n) => CongestionControl::Constant(n as usize),
        Err(_) => CongestionControl::Named(congestion.clone()),
    }
}

/// The settings of the QUIC stack for a run with the arguments `args`.
pub fn make_quiche_config(args: &Args) -> (r: QuicSettings)
    ensures
        r.max_idle_timeout == MAX_IDLE_TIMEOUT,
        r.max_recv_udp_payload_size == MAX_DATAGRAM_SIZE,
        r.max_send_udp_payload_size == MAX_DATAGRAM_SIZE,
        r.initial_max_data == args.max_data,
        r.initial_max_stream_data_bidi_local == args.max_stream_data,
        r.initial_max_stream_data_bidi_remote == args.max_stream_data,
        r.initial_max_stream_data_uni == args.max_stream_data,
        r.initial_max_streams_bidi == INITIAL_MAX_STREAMS,
        r.initial_max_streams_uni == INITIAL_MAX_STREAMS,
        r.ack_delay_exponent == ACK_DELAY_EXPONENT,
        r.max_ack_delay == MAX_ACK_DELAY,
        r.active_connection_id_limit == ACTIVE_CONNECTION_ID_LIMIT,
        !r.disable_active_migration,
        r.multipath == spec_multipath(args.multipath, args.local_addrs@.len()),
        r.congestion@ == spec_congestion(args.congestion@),
        r.hystart == args.hystart,
        r.pacing,
        !r.dgram_enabled,
        r.dgram_recv_queue_len == DGRAM_QUEUE_LEN,
        r.dgram_send_queue_len == DGRAM_QUEUE_LEN,
        r.max_connection_window == MAX_CONNECTION_WINDOW,
        r.max_stream_window == MAX_STREAM_WINDOW,
        r.fc_initial_connection_window == args.fc_initial_connection_window,
        r.fc_initial_stream_window == args.fc_initial_stream_window,
        r.fc_window_update_threshold == args.fc_window_update_threshold,
        r.fc_autotune_increase_factor == args.fc_autotune_increase_factor,
        r.fc_reactive_rtt_trigger_factor == args.fc_reactive_rtt_trigger_factor,
        r.fc_autotune_strategy@ == args.fc_autotune_strategy@,
{
    QuicSettings {
        max_idle_timeout: MAX_IDLE_TIMEOUT,
        max_recv_udp_payload_size: MAX_DATAGRAM_SIZE,
        max_send_udp_payload_size: MAX_DATAGRAM_SIZE,
        initial_max_data: args.max_data,
        initial_max_stream_data_bidi_local: args.max_stream_data,
        initial_max_stream_data_bidi_remote: args.max_stream_data,
        initial_max_stream_data_uni: args.max_stream_data,
        initial_max_streams_bidi: INITIAL_MAX_STREAMS,
        initial_max_streams_uni: INITIAL_MAX_STREAMS,
        ack_delay_exponent: ACK_DELAY_EXPONENT,
        max_ack_delay: MAX_ACK_DELAY,
        active_connection_id_limit: ACTIVE_CONNECTION_ID_LIMIT,
        disable_active_migration: false,
        multipath: multipath_enabled(args.multipath, args.local_addrs.len()),
        congestion: congestion_control(&args.congestion),
        hystart: args.hystart,
        pacing: true,
        dgram_enabled: false,
        dgram_recv_queue_len: DGRAM_QUEUE_LEN,
        dgram_send_queue_len: DGRAM_QUEUE_LEN,
        max_connection_window: MAX_CONNECTION_WINDOW,
        max_stream_window: MAX_STREAM_WINDOW,
        fc_initial_connection_window: args.fc_initial_connection_window,
        fc_initial_stream_window: args.fc_initial_stream_window,
        fc_window_update_threshold: args.fc_window_update_threshold,
        fc_autotune_increase_factor: args.fc_autotune_increase_factor,
        fc_reactive_rtt_trigger_factor: args.fc_reactive_rtt_trigger_factor,
        fc_autotune_strategy: args.fc_autotune_strategy.clone(),
    }
}

} // verus!
