//! Address-validation tokens for stateless retry.
//!
//! A token binds the IP address a first packet came from to the destination
//! connection ID that packet carried: a fixed tag, the octets of the address,
//! then the connection ID.

use vstd::prelude::*;
use crate::addr::IpAddress;
use crate::bytes::starts_with;
use crate::bytes::tail_from;

verus! {

/// The six bytes every token starts with.
pub open spec fn spec_token_tag() -> Seq<u8> {
    seq![0x71u8, 0x75u8, 0x69u8, 0x63u8, 0x68u8, 0x65u8]
}

/// The token for a first packet from `ip` that carried `dcid`.
pub open spec fn spec_mint_token(ip: IpAddress, dcid: Seq<u8>) -> Seq<u8> {
    spec_token_tag() + ip.spec_octets() + dcid
}

/// Whether `token` starts with the tag followed by the octets of `ip`.
pub open spec fn spec_token_matches(ip: IpAddress, token: Seq<u8>) -> bool {
    let head = spec_token_tag() + ip.spec_octets();
    token.len() >= head.len() && token.subrange(0, head.len() as int) == head
}

/// The connection ID a token from `ip` carries, if the token is valid for
/// that address.
pub open spec fn spec_validate_token(ip: IpAddress, token: Seq<u8>) -> Option<Seq<u8>> {
    if spec_token_matches(ip, token) {
        Some(token.subrange(6 + ip.spec_octets().len() as int, token.len() as int))
    } else {
        None
    }
}

/// The tag as bytes.
fn token_tag() -> (r: Vec<u8>)
    ensures
        r@ == spec_token_tag(),
{
    let mut tag: Vec<u8> = Vec::new();
    tag.push(0x71);
    tag.push(0x75);
    tag.push(0x69);
    tag.push(0x63);
    tag.push(0x68);
    tag.push(0x65);
    assert(tag@ =~= spec_token_tag());
    tag
}

/// Makes the token that a retry sent to `ip` carries for a first packet with
/// destination connection ID `dcid`.
pub fn mint_token(dcid: &[u8], ip: &IpAddress) -> (token: Vec<u8>)
    ensures
        token@ == spec_mint_token(*ip, dcid@),
{
    let mut token: Vec<u8> = token_tag();
    let octets: Vec<u8> = ip.octets();
    token.extend_from_slice(octets.as_slice());
    token.extend_from_slice(dcid);
    token
}

/// Checks a token that came back from `ip`. Returns the connection ID it was
/// minted for, or `None` when the token was not minted for that address.
pub fn validate_token(ip: &IpAddress, token: &[u8]) -> (odcid: Option<Vec<u8>>)
    ensures
        odcid is Some <==> spec_validate_token(*ip, token@) is Some,
        odcid matches Some(id) ==> Some(id@) == spec_validate_token(*ip, token@),
{
    let mut head: Vec<u8> = token_tag();
    let octets: Vec<u8> = ip.octets();
    head.extend_from_slice(octets.as_slice());
    assert(head@ == spec_token_tag() + ip.spec_octets());
    assert(head@.len() == 6 + ip.spec_octets().len());
    if starts_with(token, head.as_slice()) {
        Some(tail_from(token, head.len()))
    } else {
        None
    }
}

/// A token is accepted from the address it was minted for, and gives back the
/// connection ID it was minted with.
pub proof fn lemma_token_round_trip(ip: IpAddress, dcid: Seq<u8>)
    ensures
        spec_validate_token(ip, spec_mint_token(ip, dcid)) == Some(dcid),
{
    let head = spec_token_tag() + ip.spec_octets();
    let token = spec_mint_token(ip, dcid);
    assert(token.subrange(0, head.len() as int) =~= head);
    assert(token.subrange(6 + ip.spec_octets().len() as int, token.len() as int) =~= dcid);
}

/// Every accepted token is exactly the one minted for that address and the
/// connection ID that validation returns.
pub proof fn lemma_valid_token_was_minted(ip: IpAddress, token: Seq<u8>)
    requires
        spec_validate_token(ip, token) is Some,
    ensures
        token == spec_mint_token(ip, spec_validate_token(ip, token).unwrap()),
{
    let head = spec_token_tag() + ip.spec_octets();
    let id = spec_validate_token(ip, token).unwrap();
    assert(token =~= token.subrange(0, head.len() as int) + id);
    assert(spec_mint_token(ip, id) =~= head + id);
}

/// A token that was minted for one version 4 address is refused from every
/// other version 4 address.
pub proof fn lemma_token_bound_to_address(a: u32, b: u32, dcid: Seq<u8>)
    requires
        a != b,
    ensures
        spec_validate_token(IpAddress::V4(b), spec_mint_token(IpAddress::V4(a), dcid)) is None,
{
    let token = spec_mint_token(IpAddress::V4(a), dcid);
    let minted = spec_token_tag() + IpAddress::V4(a).spec_octets();
    let wanted = spec_token_tag() + IpAddress::V4(b).spec_octets();
    if spec_token_matches(IpAddress::V4(b), token) {
        assert(token.subrange(0, minted.len() as int) =~= minted);
        assert(minted == wanted);
        assert(IpAddress::V4(a).spec_octets() =~= minted.subrange(6, 10));
        assert(IpAddress::V4(b).spec_octets() =~= wanted.subrange(6, 10));
        crate::addr::lemma_v4_octets_tell_the_address(a, b);
    }
}

} // verus!
