//! Pieces that client and server share: the buffers of their sockets and
//! the addresses of their interfaces.

use vstd::prelude::*;
use vstd::string::StringExecFns;
use crate::addr::IpAddress;
use crate::addr::SocketAddress;
use crate::protocol::TestConfig;

verus! {

/// The size that the receive buffer of a socket is set to.
pub const DESIRED_RCV_BUF_SIZE: usize = 10_000_000;

/// The size that the send buffer of a socket is set to.
pub const DESIRED_SND_BUF_SIZE: usize = 10_000_000;

/// A test and the conditions it ran under.
#[derive(Debug)]
pub struct TestMetadata {
    pub test_config: TestConfig,
    pub cc_algorithm: String,
    pub version: String,
}

/// The two buffers of a UDP socket.
#[derive(Clone, Copy, Debug, PartialEq, Eq, Structural)]
pub enum UDPBufType {
    Rcv,
    Snd,
}

/// A buffer could not be set to the size that was asked for.
#[derive(Clone, Copy, Debug, PartialEq, Eq, Structural)]
pub struct BufSizeMismatch {
    pub buf_type: UDPBufType,
    pub desired: usize,
    pub prev: usize,
    pub now: usize,
}

/// The size that a buffer of this kind is set to.
pub fn desired_buf_size(buf_type: UDPBufType) -> (r: usize)
    ensures
        r == match buf_type {
            UDPBufType::Rcv => DESIRED_RCV_BUF_SIZE,
            UDPBufType::Snd => DESIRED_SND_BUF_SIZE,
        },
{
    match buf_type {
        UDPBufType::Rcv => DESIRED_RCV_BUF_SIZE,
        UDPBufType::Snd => DESIRED_SND_BUF_SIZE,
    }
}

/// The size that was asked for when the system reports `reported`: the
/// system reports twice what it was asked for.
pub fn get_buffer_size(reported: usize) -> (r: usize)
    ensures
        r == reported / 2,
{
    reported / 2
}

/// Judges the attempt to set a buffer: `prev` and `now` are its size before
/// and after. The attempt failed, which is worth a warning and no more, if
/// the system did not take the size that was asked for.
pub fn set_socket_buf_size(buf_type: UDPBufType, prev: usize, now: usize) -> (r: Result<
    usize,
    BufSizeMismatch,
>)
    ensures
        r == if now == match buf_type {
            UDPBufType::Rcv => DESIRED_RCV_BUF_SIZE,
            UDPBufType::Snd => DESIRED_SND_BUF_SIZE,
        } {
            Ok::<usize, BufSizeMismatch>(now)
        } else {
            Err::<usize, BufSizeMismatch>(
                BufSizeMismatch {
                    buf_type,
                    desired: match buf_type {
                        UDPBufType::Rcv => DESIRED_RCV_BUF_SIZE,
                        UDPBufType::Snd => DESIRED_SND_BUF_SIZE,
                    },
                    prev,
                    now,
                },
            )
        },
{
    let desired: usize = desired_buf_size(buf_type);
    if now != desired {
        Err(BufSizeMismatch { buf_type, desired, prev, now })
    } else {
        Ok(now)
    }
}

/// The name of the file that the events of a connection are logged to:
/// the time the log was started, the connection ID and the role of this
/// side, with hyphens between them.
pub open spec fn spec_qlog_file_name(time: Seq<char>, scid: Seq<char>, role: Seq<char>) -> Seq<char> {
    time + "-"@ + scid + "-"@ + role + ".sqlog.zst"@
}

/// Composes the name of the file that the events of a connection are
/// logged to.
pub fn qlog_file_name(time: &str, scid: &str, role: &str) -> (r: String)
    ensures
        r@ == spec_qlog_file_name(time@, scid@, role@),
{
    let mut name: String = String::from_str(time);
    name.append("-");
    name.append(scid);
    name.append("-");
    name.append(role);
    name.append(".sqlog.zst");
    name
}

/// One address of a network interface.
#[derive(Debug)]
pub struct InterfaceAddr {
    pub name: String,
    /// The IP address, if the address is one.
    pub address: Option<IpAddress>,
}

/// The position of the first interface address that is `ip`, or the number
/// of addresses if there is none.
pub open spec fn spec_first_with_ip(addrs: Seq<InterfaceAddr>, ip: IpAddress) -> int
    decreases addrs.len(),
{
    if addrs.len() == 0 {
        0
    } else if addrs[0].address == Some(ip) {
        0
    } else {
        1 + spec_first_with_ip(addrs.skip(1), ip)
    }
}

/// The position of the first IP address of the interface `name`, or the
/// number of addresses if there is none.
pub open spec fn spec_first_of_name(addrs: Seq<InterfaceAddr>, name: Seq<char>) -> int
    decreases addrs.len(),
{
    if addrs.len() == 0 {
        0
    } else if addrs[0].name@ == name && addrs[0].address is Some {
        0
    } else {
        1 + spec_first_of_name(addrs.skip(1), name)
    }
}

/// A position before which no address is `ip`, and which holds `ip` or ends
/// the list, is the first position of `ip`.
proof fn lemma_first_with_ip(addrs: Seq<InterfaceAddr>, ip: IpAddress, k: int)
    requires
        0 <= k <= addrs.len(),
        forall|j: int| 0 <= j < k ==> (#[trigger] addrs[j]).address != Some(ip),
        k < addrs.len() ==> addrs[k].address == Some(ip),
    ensures
        spec_first_with_ip(addrs, ip) == k,
    decreases k,
{
    if k > 0 {
        let rest = addrs.skip(1);
        assert(addrs[0].address != Some(ip));
        assert forall|j: int| 0 <= j < k - 1 implies (#[trigger] rest[j]).address != Some(ip) by {
            assert(addrs[j + 1].address != Some(ip));
        }
        lemma_first_with_ip(rest, ip, k - 1);
    }
}

/// A position before which no address belongs to `name`, and which holds
/// one or ends the list, is the first position of `name`.
proof fn lemma_first_of_name(addrs: Seq<InterfaceAddr>, name: Seq<char>, k: int)
    requires
        0 <= k <= addrs.len(),
        forall|j: int|
            0 <= j < k ==> !((#[trigger] addrs[j]).name@ == name && addrs[j].address is Some),
        k < addrs.len() ==> addrs[k].name@ == name && addrs[k].address is Some,
    ensures
        spec_first_of_name(addrs, name) == k,
    decreases k,
{
    if k > 0 {
        let rest = addrs.skip(1);
        assert(!(addrs[0].name@ == name && addrs[0].address is Some));
        assert forall|j: int| 0 <= j < k - 1 implies !((#[trigger] rest[j]).name@ == name
            && rest[j].address is Some) by {
            assert(!(addrs[j + 1].name@ == name && addrs[j + 1].address is Some));
        }
        lemma_first_of_name(rest, name, k - 1);
    }
}

/// The position, among the addresses of the interfaces, of the first one
/// that is the IP address of `addr`; its interface is the one that `addr`
/// belongs to.
pub fn get_ifname_from_ip(addrs: &[InterfaceAddr], addr: &SocketAddress) -> (r: Option<usize>)
    ensures
        r is Some <==> spec_first_with_ip(addrs@, addr.ip) < addrs@.len(),
        r matches Some(i) ==> i == spec_first_with_ip(addrs@, addr.ip),
{
    let mut i: usize = 0;
    while i < addrs.len()
        invariant
            i <= addrs@.len(),
            forall|j: int| 0 <= j < i ==> (#[trigger] addrs@[j]).address != Some(addr.ip),
        decreases addrs@.len() - i,
    {
        let found: bool = match addrs[i].address {
            Some(ip) => ip == addr.ip,
            None => false,
        };
        if found {
            proof {
                lemma_first_with_ip(addrs@, addr.ip, i as int);
            }
            return Some(i);
        }
        i = i + 1;
    }
    proof {
        lemma_first_with_ip(addrs@, addr.ip, i as int);
    }
    None
}

/// The first IP address of the interface `ifname`, with port 0.
pub fn get_ip_from_ifname(addrs: &[InterfaceAddr], ifname: &String) -> (r: Option<SocketAddress>)
    ensures
        r is Some <==> spec_first_of_name(addrs@, ifname@) < addrs@.len(),
        r matches Some(a) ==> a.port == 0 && Some(a.ip) == addrs@[spec_first_of_name(
            addrs@,
            ifname@,
        )].address,
{
    let mut i: usize = 0;
    while i < addrs.len()
        invariant
            i <= addrs@.len(),
            forall|j: int|
                0 <= j < i ==> !((#[trigger] addrs@[j]).name@ == ifname@ && addrs@[j].address
                    is Some),
        decreases addrs@.len() - i,
    {
        if addrs[i].name == *ifname {
            match addrs[i].address {
                Some(ip) => {
                    proof {
                        lemma_first_of_name(addrs@, ifname@, i as int);
                    }
                    return Some(SocketAddress { ip, port: 0 });
                },
                None => {},
            }
        }
        i = i + 1;
    }
    proof {
        lemma_first_of_name(addrs@, ifname@, i as int);
    }
    None
}

} // verus!
