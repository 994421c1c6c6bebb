//! What a server does with a datagram, by the header of its first packet.

use vstd::prelude::*;
use crate::addr::IpAddress;
use crate::registry::ClientIdMap;
use crate::retry::mint_token;
use crate::retry::spec_mint_token;
use crate::retry::spec_validate_token;
use crate::retry::validate_token;

verus! {

/// The length of the connection IDs that this tool hands out.
pub const MAX_CONN_ID_LEN: usize = 20;

/// The kinds of QUIC packets.
#[derive(Clone, Copy, Debug, PartialEq, Eq, Structural)]
pub enum PacketType {
    Initial,
    Retry,
    Handshake,
    ZeroRTT,
    VersionNegotiation,
    Short,
}

/// What the server reads off the header of a packet.
#[derive(Debug)]
pub struct PacketHeader {
    pub ty: PacketType,
    pub version: u32,
    pub dcid: Vec<u8>,
    pub scid: Vec<u8>,
    /// The address validation token; only first packets carry one.
    pub token: Option<Vec<u8>>,
}

/// What to do with a datagram.
#[derive(Debug)]
pub enum Admission {
    /// Hand it to the connection of this client.
    Known(u64),
    /// Drop it: it belongs to no connection and does not open one.
    NotInitial,
    /// Answer with a version negotiation packet.
    VersionNegotiation,
    /// Answer with a retry that carries this token and names this source
    /// connection ID.
    Retry { token: Vec<u8>, scid: Vec<u8> },
    /// Drop it: its token was not minted for its sender.
    InvalidToken,
    /// Drop it: its destination connection ID is not one a retry named.
    InvalidDcid,
    /// Open a connection with this source connection ID for a client whose
    /// first packet carried `odcid`.
    Accept { scid: Vec<u8>, odcid: Vec<u8> },
}

/// What to do with a datagram, as mathematical values.
pub enum AdmissionView {
    Known(u64),
    NotInitial,
    VersionNegotiation,
    Retry { token: Seq<u8>, scid: Seq<u8> },
    InvalidToken,
    InvalidDcid,
    Accept { scid: Seq<u8>, odcid: Seq<u8> },
}

impl View for Admission {
    type V = AdmissionView;

    open spec fn view(&self) -> AdmissionView {
        match *self {
            Admission::Known(id) => AdmissionView::Known(id),
            Admission::NotInitial => AdmissionView::NotInitial,
            Admission::VersionNegotiation => AdmissionView::VersionNegotiation,
            Admission::Retry { token, scid } => AdmissionView::Retry { token: token@, scid: scid@ },
            Admission::InvalidToken => AdmissionView::InvalidToken,
            Admission::InvalidDcid => AdmissionView::InvalidDcid,
            Admission::Accept { scid, odcid } => AdmissionView::Accept {
                scid: scid@,
                odcid: odcid@,
            },
        }
    }
}

/// The token of a header; a header without one counts as carrying an empty
/// token.
pub open spec fn spec_token(token: Option<Vec<u8>>) -> Seq<u8> {
    match token {
        Some(t) => t@,
        None => Seq::empty(),
    }
}

/// What a server with the connection IDs `known` does with a datagram from
/// `from` whose header is as given, when `derived` is the connection ID that
/// the server derives from the header's destination connection ID.
///
/// A datagram for a connection ID that is known, as it stands or derived,
/// goes to its client. Any other datagram must open a connection: it must be
/// a first packet of a supported version. A first packet without a token is
/// told to retry with a token bound to its sender; one with a token is
/// accepted if the token is valid for its sender and its destination
/// connection ID has the length of those that retries name.
pub open spec fn spec_admission(
    known: Map<Seq<u8>, u64>,
    ty: PacketType,
    dcid: Seq<u8>,
    token: Seq<u8>,
    derived: Seq<u8>,
    version_supported: bool,
    from: IpAddress,
) -> AdmissionView {
    if known.contains_key(dcid) {
        AdmissionView::Known(known[dcid])
    } else if known.contains_key(derived) {
        AdmissionView::Known(known[derived])
    } else if ty != PacketType::Initial {
        AdmissionView::NotInitial
    } else if !version_supported {
        AdmissionView::VersionNegotiation
    } else if token.len() == 0 {
        AdmissionView::Retry { token: spec_mint_token(from, dcid), scid: derived }
    } else {
        match spec_validate_token(from, token) {
            None => AdmissionView::InvalidToken,
            Some(odcid) => if derived.len() != dcid.len() {
                AdmissionView::InvalidDcid
            } else {
                AdmissionView::Accept { scid: dcid, odcid }
            },
        }
    }
}

/// A copy of `bytes`.
pub fn copy_bytes(bytes: &[u8]) -> (r: Vec<u8>)
    ensures
        r@ == bytes@,
{
    let r = crate::bytes::tail_from(bytes, 0);
    assert(bytes@.subrange(0, bytes@.len() as int) =~= bytes@);
    r
}

/// Decides what to do with a datagram from `from` by its header.
pub fn admission(
    known: &ClientIdMap,
    hdr: &PacketHeader,
    derived: &[u8],
    version_supported: bool,
    from: &IpAddress,
) -> (r: Admission)
    requires
        known.wf(),
    ensures
        r@ == spec_admission(
            known@,
            hdr.ty,
            hdr.dcid@,
            spec_token(hdr.token),
            derived@,
            version_supported,
            *from,
        ),
{
    match known.get(hdr.dcid.as_slice()) {
        Some(id) => {
            return Admission::Known(id);
        },
        None => {},
    }
    match known.get(derived) {
        Some(id) => {
            return Admission::Known(id);
        },
        None => {},
    }
    match hdr.ty {
        PacketType::Initial => {},
        _ => {
            return Admission::NotInitial;
        },
    }
    if !version_supported {
        return Admission::VersionNegotiation;
    }
    let empty: Vec<u8> = Vec::new();
    let token: &Vec<u8> = match &hdr.token {
        Some(t) => t,
        None => &empty,
    };
    if token.len() == 0 {
        return Admission::Retry {
            token: mint_token(hdr.dcid.as_slice(), from),
            scid: copy_bytes(derived),
        };
    }
    match validate_token(from, token.as_slice()) {
        None => Admission::InvalidToken,
        Some(odcid) => {
            if derived.len() != hdr.dcid.len() {
                Admission::InvalidDcid
            } else {
                Admission::Accept { scid: copy_bytes(hdr.dcid.as_slice()), odcid }
            }
        },
    }
}

/// A first packet that comes back with the token of a retry, from the
/// address the retry went to and to the connection ID the retry named, is
/// accepted, and the connection is opened for the connection ID that the
/// client first chose.
pub proof fn lemma_retry_then_accept(
    known: Map<Seq<u8>, u64>,
    first_dcid: Seq<u8>,
    derived: Seq<u8>,
    second_derived: Seq<u8>,
    from: IpAddress,
)
    requires
        !known.contains_key(first_dcid),
        !known.contains_key(derived),
        !known.contains_key(second_derived),
        derived.len() == second_derived.len(),
    ensures
        spec_admission(known, PacketType::Initial, first_dcid, Seq::empty(), derived, true, from)
            == (AdmissionView::Retry { token: spec_mint_token(from, first_dcid), scid: derived }),
        spec_admission(
            known,
            PacketType::Initial,
            derived,
            spec_mint_token(from, first_dcid),
            second_derived,
            true,
            from,
        ) == (AdmissionView::Accept { scid: derived, odcid: first_dcid }),
{
    crate::retry::lemma_token_round_trip(from, first_dcid);
    assert(spec_mint_token(from, first_dcid).len() >= 6);
}

} // verus!
