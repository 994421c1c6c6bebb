//! The command line: the values it yields and the parsers of its arguments.

use vstd::prelude::*;
use vstd::string::StringExecFns;
use vstd::string::StringSliceAdditionalSpecFns;
use crate::addr::SocketAddress;
use crate::path::PathStatus;
use crate::text::IntError;
use crate::text::digit_count;
use crate::text::fields_view;
use crate::text::parse_decimal;
use crate::text::spec_digit_count;
use crate::text::spec_parse_decimal;
use crate::text::spec_split;
use crate::text::split;
use crate::time::TimeSpan;
use crate::updater::PathStatusUpdate;

verus! {

/// The strategies by which the next path is chosen.
#[derive(Clone, Copy, Debug, PartialEq, Eq, Structural)]
pub enum SchedulerOpts {
    Blest,
    MinRTT,
    RoundRobin,
}

/// What the tool is asked to run as.
#[derive(Debug)]
pub enum Subcommands {
    /// Run as client.
    Client {
        /// The remote addresses to connect to.
        peer_addrs: Vec<SocketAddress>,
        /// Time in seconds to run the test for.
        duration: u64,
        /// Send data from server to client.
        reverse: bool,
        /// Bytes per second to send at.
        bitrate: Option<u64>,
        /// Status changes of paths during the run.
        path_statuses: Vec<PathStatusUpdate>,
    },
    /// Run as server.
    Server {
        /// Path to the server certificate.
        cert: String,
        /// Path to the private key of the certificate.
        key: String,
        /// Quit after one run.
        oneshot: bool,
    },
}

/// The arguments of a run.
#[derive(Debug)]
pub struct Args {
    /// Password required to start a test.
    pub password: Option<String>,
    /// The congestion control algorithm, or a constant window in bytes.
    pub congestion: String,
    /// Whether multipath was asked for.
    pub multipath: bool,
    /// The strategy by which the next path is chosen.
    pub scheduler: Option<SchedulerOpts>,
    /// The local addresses or interface names to connect from.
    pub local_addrs: Vec<String>,
    /// Initial connection-wide flow control limit.
    pub max_data: u64,
    /// Initial per-stream flow control limit.
    pub max_stream_data: u64,
    /// The initial connection window.
    pub fc_initial_connection_window: u64,
    /// The initial stream window.
    pub fc_initial_stream_window: u64,
    /// The threshold of a flow control window update, in percent.
    pub fc_window_update_threshold: u64,
    /// The strategy by which flow control windows are tuned.
    pub fc_autotune_strategy: String,
    /// The factor by which tuning grows a window.
    pub fc_autotune_increase_factor: u64,
    /// Tuning reacts if the last update was within this many round trips.
    pub fc_reactive_rtt_trigger_factor: u32,
    /// Whether hystart replaces slow start.
    pub hystart: bool,
    pub commands: Subcommands,
}

/// The strategy of a run: the one asked for, or the lowest round-trip time.
pub fn scheduler_choice(asked: Option<SchedulerOpts>) -> (r: SchedulerOpts)
    ensures
        r == match asked {
            Some(s) => s,
            None => SchedulerOpts::MinRTT,
        },
{
    match asked {
        Some(s) => s,
        None => SchedulerOpts::MinRTT,
    }
}

/// The truth value that the bytes `s` spell.
pub open spec fn spec_parse_bool(s: Seq<u8>) -> Option<bool> {
    if s == "true".spec_bytes() {
        Some(true)
    } else if s == "false".spec_bytes() {
        Some(false)
    } else {
        None
    }
}

/// Reads `true` or `false`; any other text is refused.
pub fn parse_bool(s: &str) -> (r: Result<bool, &'static str>)
    ensures
        match spec_parse_bool(s.spec_bytes()) {
            Some(b) => r == Ok::<bool, &'static str>(b),
            None => r is Err && r->Err_0@ == "expected `true` or `false`"@,
        },
{
    if crate::bytes::bytes_equal(s.as_bytes(), "true".as_bytes()) {
        Ok(true)
    } else if crate::bytes::bytes_equal(s.as_bytes(), "false".as_bytes()) {
        Ok(false)
    } else {
        Err("expected `true` or `false`")
    }
}

/// `parse_size::Error`: why a text spells no size.
#[verifier::external_type_specification]
#[verifier::external_body]
pub struct ExParseSizeError(parse_size::Error);

/// The number of bytes that a text such as `1MB` or `2.5 KiB` spells, as
/// `parse_size::parse_size` reads it; `None` for a text that spells none.
pub uninterp spec fn spec_parse_size(text: Seq<char>) -> Option<u64>;

/// The most digits that a text may hold for its size to be read: with
/// fewer than this, no number in it goes beyond 64 bits.
pub const MAX_SIZE_DIGITS: usize = 20;

/// Whether a text is short enough in digits for its size to be read.
pub open spec fn spec_size_readable(text: Seq<u8>) -> bool {
    spec_digit_count(text) < MAX_SIZE_DIGITS
}

/// `parse_size::parse_size`: the size that `s` spells, or the error of a
/// text that spells none. The same text always spells the same size. A text
/// of twenty digits or more is left out: on a number of more than 64 bits
/// the rounding in `parse_size` can overflow.
#[verifier::external_body]
fn parse_size_text(s: &str) -> (r: Result<u64, parse_size::Error>)
    requires
        spec_size_readable(s.spec_bytes()),
    ensures
        r is Ok <==> spec_parse_size(s@) is Some,
        r matches Ok(v) ==> spec_parse_size(s@) == Some(v),
{
    parse_size::parse_size(s)
}

/// The bitrate in bytes per second for a size given in bits per second.
pub open spec fn spec_bitrate_from_size(size: u64) -> u64 {
    size / 8
}

/// Turns a size in bits per second into a bitrate in bytes per second.
pub fn bitrate_from_size(size: u64) -> (r: u64)
    ensures
        r == spec_bitrate_from_size(size),
{
    size / 8
}

/// The bitrate in bytes per second that a text spells: none if the text
/// holds twenty digits or more, else an eighth of the size it spells.
pub open spec fn spec_parse_bitrate(s: &str) -> Option<u64> {
    if !spec_size_readable(s.spec_bytes()) {
        None
    } else {
        match spec_parse_size(s@) {
            Some(v) => Some(spec_bitrate_from_size(v)),
            None => None,
        }
    }
}

/// The message for a text that is no bitrate.
fn bitrate_error(s: &str) -> (r: String)
    ensures
        r@ == "failed parsing "@ + s@,
{
    let mut msg: String = String::from_str("failed parsing ");
    msg.append(s);
    msg
}

/// Reads a bitrate with an optional unit, in bits per second, and returns it
/// in bytes per second. A text of twenty digits or more is refused like one
/// that spells no size.
pub fn parse_bitrate(s: &str) -> (r: Result<u64, String>)
    ensures
        match spec_parse_bitrate(s) {
            Some(v) => r == Ok::<u64, String>(v),
            None => r is Err && r->Err_0@ == "failed parsing "@ + s@,
        },
{
    if digit_count(s.as_bytes()) >= MAX_SIZE_DIGITS {
        return Err(bitrate_error(s));
    }
    match parse_size_text(s) {
        Ok(v) => Ok(bitrate_from_size(v)),
        Err(_) => Err(bitrate_error(s)),
    }
}

/// Why a text is no status change of a path.
#[derive(Clone, Copy, Debug, PartialEq, Eq, Structural)]
pub enum PathStatusError {
    /// The text does not have three parts between commas.
    Parts,
    /// The first part is no number of seconds.
    Seconds,
    /// The second part is no path number.
    PathId,
    /// The third part is no status number.
    Status(IntError),
}

impl PathStatusError {
    /// The words for an integer that could not be read.
    pub open spec fn spec_int_error_text(e: IntError) -> Seq<char> {
        match e {
            IntError::Empty => "cannot parse integer from empty string"@,
            IntError::InvalidDigit => "invalid digit found in string"@,
            IntError::Overflow => "number too large to fit in target type"@,
        }
    }

    /// The message of the error.
    pub open spec fn spec_message(self) -> Seq<char> {
        match self {
            PathStatusError::Parts => "Failed to split status into three parts"@,
            PathStatusError::Seconds => "Failed to parse seconds"@,
            PathStatusError::PathId => "Failed to path path id"@,
            PathStatusError::Status(e) => "Failed to parse status integer: "@
                + Self::spec_int_error_text(e),
        }
    }

    /// The message of the error.
    pub fn message(&self) -> (r: String)
        ensures
            r@ == self.spec_message(),
    {
        match self {
            PathStatusError::Parts => String::from_str("Failed to split status into three parts"),
            PathStatusError::Seconds => String::from_str("Failed to parse seconds"),
            PathStatusError::PathId => String::from_str("Failed to path path id"),
            PathStatusError::Status(e) => {
                let mut msg: String = String::from_str("Failed to parse status integer: ");
                match e {
                    IntError::Empty => msg.append("cannot parse integer from empty string"),
                    IntError::InvalidDigit => msg.append("invalid digit found in string"),
                    IntError::Overflow => msg.append("number too large to fit in target type"),
                }
                msg
            },
        }
    }
}

/// The status change that the bytes `s` spell: seconds, path number and
/// status number, with a comma between them.
pub open spec fn spec_parse_path_status(s: Seq<u8>) -> Result<(u64, usize, PathStatus), PathStatusError> {
    let parts = spec_split(s, 0x2c);
    if parts.len() != 3 {
        Err(PathStatusError::Parts)
    } else {
        match spec_parse_decimal(parts[0], u64::MAX as nat) {
            Err(_) => Err(PathStatusError::Seconds),
            Ok(secs) => match spec_parse_decimal(parts[1], usize::MAX as nat) {
                Err(_) => Err(PathStatusError::PathId),
                Ok(pid) => match spec_parse_decimal(parts[2], u64::MAX as nat) {
                    Err(e) => Err(PathStatusError::Status(e)),
                    Ok(code) => Ok(
                        (secs as u64, pid as usize, PathStatus::spec_from_code(code as u64)),
                    ),
                },
            },
        }
    }
}

/// Reads a status change of a path, or says what is wrong with the text.
pub fn path_status_from_text(s: &[u8]) -> (r: Result<PathStatusUpdate, PathStatusError>)
    ensures
        match spec_parse_path_status(s@) {
            Ok(v) => r is Ok && r->Ok_0.delay.wf() && r->Ok_0.delay.as_nanos() == v.0 as nat
                * 1_000_000_000 && r->Ok_0.path_id == v.1 && r->Ok_0.status == v.2,
            Err(e) => r == Err::<PathStatusUpdate, PathStatusError>(e),
        },
{
    let parts: Vec<Vec<u8>> = split(s, 0x2c);
    assert(fields_view(parts@).len() == parts@.len());
    if parts.len() != 3 {
        return Err(PathStatusError::Parts);
    }
    assert(fields_view(parts@)[0] == parts@[0]@);
    assert(fields_view(parts@)[1] == parts@[1]@);
    assert(fields_view(parts@)[2] == parts@[2]@);
    let secs: u64 = match parse_decimal(parts[0].as_slice(), u64::MAX) {
        Ok(v) => v,
        Err(_) => {
            return Err(PathStatusError::Seconds);
        },
    };
    let pid: u64 = match parse_decimal(parts[1].as_slice(), usize::MAX as u64) {
        Ok(v) => v,
        Err(_) => {
            return Err(PathStatusError::PathId);
        },
    };
    let code: u64 = match parse_decimal(parts[2].as_slice(), u64::MAX) {
        Ok(v) => v,
        Err(e) => {
            return Err(PathStatusError::Status(e));
        },
    };
    Ok(
        PathStatusUpdate {
            delay: TimeSpan::from_secs(secs),
            path_id: pid as usize,
            status: PathStatus::from_code(code),
        },
    )
}

/// Reads a status change of a path from an argument of the form
/// `seconds,path,status`.
pub fn parse_path_status(s: &str) -> (r: Result<(TimeSpan, usize, PathStatus), String>)
    ensures
        match spec_parse_path_status(s.spec_bytes()) {
            Ok(v) => r is Ok && r->Ok_0.0.wf() && r->Ok_0.0.as_nanos() == v.0 as nat
                * 1_000_000_000 && r->Ok_0.1 == v.1 && r->Ok_0.2 == v.2,
            Err(e) => r is Err && r->Err_0@ == e.spec_message(),
        },
{
    match path_status_from_text(s.as_bytes()) {
        Ok(u) => Ok((u.delay, u.path_id, u.status)),
        Err(e) => Err(e.message()),
    }
}

/// The version of this tool.
pub fn version() -> (r: &'static str)
    ensures
        r@ == "0.1.0"@,
{
    "0.1.0"
}

} // verus!
