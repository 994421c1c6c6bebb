use quicheperf::addr::IpAddress;
use quicheperf::addr::SocketAddress;
use quicheperf::admission::Admission;
use quicheperf::admission::PacketHeader;
use quicheperf::admission::PacketType;
use quicheperf::protocol::CloseReason;
use quicheperf::protocol::ServerAction;
use quicheperf::retry::mint_token;
use quicheperf::server::another_pass;
use quicheperf::server::is_quicheperf_alpn;
use quicheperf::server::max_send_burst;
use quicheperf::server::poll_timeout;
use quicheperf::server::quicheperf_alpn;
use quicheperf::server::rejection;
use quicheperf::server::send_gate;
use quicheperf::server::server_step;
use quicheperf::server::timeout_expired;
use quicheperf::server::Client;
use quicheperf::server::PacketOutcome;
use quicheperf::server::PassStep;
use quicheperf::server::SendGate;
use quicheperf::server::Server;
use quicheperf::server::ServerError;
use quicheperf::socket::DatagramOutcome;
use quicheperf::socket::SendInfo;
use quicheperf::socket::SocketError;
use quicheperf::socket::SocketState;
use quicheperf::socket::WriteOutcome;
use quicheperf::time::TimeSpan;

fn addr(last: u8, port: u16) -> SocketAddress {
    SocketAddress::new(IpAddress::from_v4_octets(127, 0, 0, last), port)
}

fn info(to: SocketAddress) -> SendInfo {
    SendInfo { from: addr(1, 4433), to, at: TimeSpan::zero() }
}

fn server() -> Server {
    Server::new(&[addr(1, 4433), addr(2, 4433)], Some("pw".to_string()), &[true, true])
}

#[test]
fn the_offered_protocol_names_are_those_that_are_accepted() {
    let names = quicheperf_alpn();
    assert_eq!(names, vec![b"quicheperf".to_vec(), b"quicheperf-00".to_vec()]);
    for name in names {
        assert!(is_quicheperf_alpn(&name));
    }
}

#[test]
fn the_protocol_names_of_this_tool() {
    assert!(is_quicheperf_alpn(b"quicheperf"));
    assert!(is_quicheperf_alpn(b"quicheperf-00"));
    assert!(!is_quicheperf_alpn(b"quicheperf-01"));
    assert!(!is_quicheperf_alpn(b"h3"));
    assert!(!is_quicheperf_alpn(b""));
}

#[test]
fn a_new_client_has_no_protocol() {
    let c = Client::new(5, None);
    assert_eq!(c.client_id(), 5);
    assert!(c.protocol().is_none());
    assert_eq!(c.max_datagram_size(), 1350);
    assert_eq!(c.max_send_burst(), 65_507);
}

#[test]
fn the_protocol_starts_after_the_handshake() {
    let mut c = Client::new(5, Some("pw".to_string()));
    assert_eq!(c.recv(false, b"quicheperf", 1200), None);
    assert!(c.protocol().is_none());
    assert_eq!(c.max_datagram_size(), 1200);
    assert_eq!(c.recv(true, b"quicheperf", 1350), None);
    assert_eq!(c.max_datagram_size(), 1350);
    assert_eq!(
        c.protocol().map(|p| p.server_dispatch(TimeSpan::zero())),
        Some(ServerAction::RecvConfig)
    );
    assert!(c.protocol_mut().is_some());
    assert_eq!(c.recv(true, b"other", 1350), None);
    assert!(c.protocol().is_some());
}

#[test]
fn an_unknown_protocol_closes_the_connection() {
    let mut c = Client::new(5, None);
    assert_eq!(c.recv(true, b"h3", 1350), Some(CloseReason::NoAlpnMatch));
    assert!(c.protocol().is_none());
    assert!(c.protocol_mut().is_none());
    assert_eq!(c.recv(true, b"h3", 1350), Some(CloseReason::NoAlpnMatch));
}

#[test]
fn bursts_are_whole_datagrams() {
    assert_eq!(max_send_burst(65_507, 65_507, 1350), 64_800);
    assert_eq!(max_send_burst(13_500, 65_507, 1350), 13_500);
    assert_eq!(max_send_burst(100_000, 4_000, 1350), 2_700);
    assert_eq!(max_send_burst(1_349, 65_507, 1350), 0);
    assert_eq!(max_send_burst(10, 20, 1), 10);
}

#[test]
fn a_socket_takes_packets_for_one_destination_up_to_the_burst() {
    let mut s = SocketState::new(addr(1, 4433), 65_507);
    assert_eq!(send_gate(&s, &addr(9, 9), 2_700), SendGate::Write { limit: 2_700 });
    assert_eq!(send_gate(&s, &addr(9, 9), 100_000), SendGate::Write { limit: 65_507 });
    assert_eq!(send_gate(&s, &addr(9, 9), 0), SendGate::Full);
    s.append(&[0; 1350], info(addr(9, 9)), 1350);
    assert_eq!(send_gate(&s, &addr(9, 9), 2_700), SendGate::Write { limit: 2_700 });
    assert_eq!(send_gate(&s, &addr(9, 8), 2_700), SendGate::Blocked);
    s.append(&[0; 1350], info(addr(9, 9)), 1350);
    assert_eq!(send_gate(&s, &addr(9, 9), 2_700), SendGate::Full);
    assert_eq!(send_gate(&s, &addr(9, 8), 2_700), SendGate::Blocked);
}

#[test]
fn a_short_packet_ends_the_burst() {
    let mut s = SocketState::new(addr(1, 4433), 65_507);
    assert_eq!(
        server_step(&mut s, PacketOutcome::Written(1350, info(addr(9, 9))), 1350, true),
        PassStep::Next
    );
    assert_eq!(s.until(), 1350);
    assert_eq!(s.max_datagram_size(), 1350);
    assert_eq!(
        server_step(&mut s, PacketOutcome::Written(100, info(addr(9, 9))), 1350, true),
        PassStep::Flush
    );
    assert_eq!(s.until(), 1450);
    assert_eq!(s.send_info(), Some(info(addr(9, 9))));
}

#[test]
fn the_handshake_goes_out_packet_by_packet() {
    let mut s = SocketState::new(addr(1, 4433), 65_507);
    assert_eq!(
        server_step(&mut s, PacketOutcome::Written(1350, info(addr(9, 9))), 1350, false),
        PassStep::Flush
    );
    assert_eq!(s.until(), 1350);
}

#[test]
fn done_and_failure_end_the_pass() {
    let mut s = SocketState::new(addr(1, 4433), 65_507);
    assert_eq!(server_step(&mut s, PacketOutcome::Done, 1350, true), PassStep::Stop);
    assert_eq!(
        server_step(&mut s, PacketOutcome::Failed, 1350, true),
        PassStep::Close(CloseReason::SendFailed)
    );
    assert_eq!(s.until(), 0);
    assert!(!s.send_pending());
}

#[test]
fn another_pass_needs_sockets_that_took_the_last_one() {
    assert!(another_pass(true, false));
    assert!(!another_pass(true, true));
    assert!(!another_pass(false, false));
    assert!(!another_pass(false, true));
}

#[test]
fn the_server_waits_for_the_first_timer() {
    assert_eq!(poll_timeout(&[]), None);
    assert_eq!(poll_timeout(&[None, None]), None);
    assert_eq!(
        poll_timeout(&[Some(TimeSpan::from_millis(30)), None, Some(TimeSpan::from_millis(20))]),
        Some(TimeSpan::from_millis(20))
    );
    assert_eq!(poll_timeout(&[None, Some(TimeSpan::zero())]), Some(TimeSpan::zero()));
}

#[test]
fn timers_fire_only_after_a_full_and_quiet_wait() {
    let t = Some(TimeSpan::from_millis(20));
    assert!(timeout_expired(t, TimeSpan::from_millis(20), true));
    assert!(timeout_expired(t, TimeSpan::from_millis(25), true));
    assert!(!timeout_expired(t, TimeSpan::from_millis(19), true));
    assert!(!timeout_expired(t, TimeSpan::from_millis(25), false));
    assert!(!timeout_expired(None, TimeSpan::from_secs(100), true));
    assert!(timeout_expired(Some(TimeSpan::zero()), TimeSpan::zero(), true));
}

#[test]
fn a_new_server_listens_and_has_no_clients() {
    let s = server();
    assert_eq!(s.client_count(), 0);
    assert_eq!(s.cid_count(), 0);
    assert!(s.pacing());
    assert!(s.enable_gso());
    assert_eq!(s.sockets().len(), 2);
    assert!(s.sockets().token_of(&addr(1, 4433)).is_some());
    assert!(s.sockets().token_of(&addr(2, 4433)).is_some());
    assert!(s.sockets().token_of(&addr(3, 4433)).is_none());
    let token = s.sockets().token_of(&addr(2, 4433)).unwrap();
    assert_eq!(s.sockets().get(token).map(|x| x.capacity()), Some(65_507));
    assert!(s.client(0).is_none());
}

#[test]
fn segmented_sends_need_every_socket() {
    assert!(!Server::new(&[addr(1, 1), addr(2, 1)], None, &[true, false]).enable_gso());
    assert!(!Server::new(&[addr(1, 1), addr(2, 1)], None, &[false, true]).enable_gso());
    assert!(Server::new(&[], None, &[]).enable_gso());
}

#[test]
fn clients_are_numbered_in_the_order_they_come() {
    let mut s = server();
    assert_eq!(s.accept(vec![1; 20]), Some(0));
    assert_eq!(s.accept(vec![2; 20]), Some(1));
    assert_eq!(s.client_count(), 2);
    assert_eq!(s.cid_count(), 2);
    assert_eq!(s.client(0).map(|c| c.client_id()), Some(0));
    assert_eq!(s.client(1).map(|c| c.client_id()), Some(1));
    assert!(s.client(2).is_none());
    assert_eq!(s.client(1).map(|c| c.max_send_burst()), Some(65_507));
}

#[test]
fn the_table_counts_the_connection_ids_of_all_clients() {
    let mut s = server();
    let a = s.accept(vec![1; 20]).unwrap();
    let b = s.accept(vec![2; 20]).unwrap();
    assert!(s.register_scid(vec![3; 20], a));
    assert!(s.register_scid(vec![4; 20], a));
    assert!(s.register_scid(vec![5; 20], b));
    assert!(!s.register_scid(vec![6; 20], 77));
    assert_eq!(s.cid_count(), 5);
    assert_eq!(s.owned(a), 3);
    assert_eq!(s.owned(b), 2);
    assert_eq!(s.owned(77), 0);
    assert_eq!(s.cid_count(), s.owned(a) + s.owned(b));
    s.retire_scid(&[3; 20]);
    s.retire_scid(&[9; 20]);
    assert_eq!(s.cid_count(), 4);
    assert!(s.remove_client(a).is_some());
    assert!(s.remove_client(a).is_none());
    assert_eq!(s.owned(a), 0);
    assert_eq!(s.cid_count(), 2);
    assert_eq!(s.cid_count(), s.owned(b));
    assert_eq!(s.client_count(), 1);
}

#[test]
fn packets_find_their_client_by_any_of_its_connection_ids() {
    let mut s = server();
    let a = s.accept(vec![1; 20]).unwrap();
    let b = s.accept(vec![2; 20]).unwrap();
    assert!(s.register_scid(vec![3; 20], a));
    let ip = IpAddress::from_v4_octets(5, 5, 5, 5);
    let hdr = |dcid: &[u8]| PacketHeader {
        ty: PacketType::Short,
        version: 1,
        dcid: dcid.to_vec(),
        scid: vec![],
        token: None,
    };
    assert!(matches!(s.get_client_id(&hdr(&[3; 20]), &[0; 20], true, &ip), Admission::Known(id) if id == a));
    assert!(matches!(s.get_client_id(&hdr(&[2; 20]), &[0; 20], true, &ip), Admission::Known(id) if id == b));
    assert!(matches!(s.get_client_id(&hdr(&[7; 20]), &[1; 20], true, &ip), Admission::Known(id) if id == a));
    assert!(matches!(s.get_client_id(&hdr(&[7; 20]), &[0; 20], true, &ip), Admission::NotInitial));
    s.retire_scid(&[3; 20]);
    assert!(matches!(s.get_client_id(&hdr(&[3; 20]), &[0; 20], true, &ip), Admission::NotInitial));
}

#[test]
fn a_handshake_with_retry_opens_a_client() {
    let mut s = server();
    let ip = IpAddress::from_v4_octets(5, 5, 5, 5);
    let first = PacketHeader {
        ty: PacketType::Initial,
        version: 1,
        dcid: vec![0x11; 8],
        scid: vec![0x22; 8],
        token: Some(vec![]),
    };
    let (token, scid) = match s.get_client_id(&first, &[0x33; 20], true, &ip) {
        Admission::Retry { token, scid } => (token, scid),
        other => panic!("unexpected {:?}", other),
    };
    assert_eq!(token, mint_token(&[0x11; 8], &ip));
    let second = PacketHeader {
        ty: PacketType::Initial,
        version: 1,
        dcid: scid.clone(),
        scid: vec![0x22; 8],
        token: Some(token),
    };
    let accepted = match s.get_client_id(&second, &[0x44; 20], true, &ip) {
        Admission::Accept { scid, odcid } => {
            assert_eq!(odcid, vec![0x11; 8]);
            scid
        }
        other => panic!("unexpected {:?}", other),
    };
    assert_eq!(accepted, vec![0x33; 20]);
    let id = s.accept(accepted).unwrap();
    let third = PacketHeader {
        ty: PacketType::Handshake,
        version: 1,
        dcid: vec![0x33; 20],
        scid: vec![0x22; 8],
        token: None,
    };
    assert!(matches!(s.get_client_id(&third, &[0x55; 20], true, &ip), Admission::Known(k) if k == id));
}

#[test]
fn closed_clients_are_collected_with_their_connection_ids() {
    let mut s = server();
    let a = s.accept(vec![1; 20]).unwrap();
    let b = s.accept(vec![2; 20]).unwrap();
    let c = s.accept(vec![3; 20]).unwrap();
    assert!(s.register_scid(vec![4; 20], a));
    assert!(s.register_scid(vec![5; 20], c));
    s.garbage_collect(&[a, c, 99]);
    assert_eq!(s.client_count(), 1);
    assert_eq!(s.cid_count(), 1);
    assert!(s.client(a).is_none());
    assert!(s.client(c).is_none());
    assert!(s.client(b).is_some());
    s.garbage_collect(&[]);
    assert_eq!(s.client_count(), 1);
    assert_eq!(s.accept(vec![6; 20]), Some(3));
}

#[test]
fn a_client_of_the_server_can_be_driven() {
    let mut s = server();
    let a = s.accept(vec![1; 20]).unwrap();
    match s.client_mut(a) {
        Some(c) => assert_eq!(c.recv(true, b"quicheperf-00", 1300), None),
        None => panic!("no client"),
    }
    assert!(s.client_mut(a + 1).is_none());
    assert_eq!(s.client(a).map(|c| c.max_datagram_size()), Some(1300));
    assert_eq!(s.client(a).map(|c| c.protocol().is_some()), Some(true));
}

#[test]
fn a_writable_socket_is_written() {
    let mut s = server();
    let token = s.sockets().token_of(&addr(1, 4433)).unwrap();
    assert_eq!(s.on_writable(token, WriteOutcome::Written(3)), Ok(()));
    match s.sockets_mut().get_mut(token) {
        Some(socket) => socket.append(&[1, 2, 3], info(addr(9, 9)), 1350),
        None => panic!("no socket"),
    }
    assert_eq!(s.on_writable(token, WriteOutcome::WouldBlock), Ok(()));
    assert_eq!(s.sockets().get(token).map(|x| x.send_pending()), Some(true));
    assert_eq!(
        s.on_writable(token, WriteOutcome::Failed),
        Err(ServerError::FatalSocket(SocketError { local_addr: addr(1, 4433), peer_addr: Some(addr(9, 9)) }))
    );
    assert_eq!(s.on_writable(token, WriteOutcome::Written(3)), Ok(()));
    assert_eq!(s.sockets().get(token).map(|x| x.send_pending()), Some(false));
}

#[test]
fn dropped_datagrams_are_errors_that_do_not_end_the_run() {
    assert_eq!(rejection(&Admission::NotInitial), Some(ServerError::Unexpected));
    assert_eq!(rejection(&Admission::InvalidToken), Some(ServerError::Unexpected));
    assert_eq!(rejection(&Admission::InvalidDcid), Some(ServerError::Unexpected));
    assert_eq!(rejection(&Admission::Known(1)), None);
    assert_eq!(rejection(&Admission::VersionNegotiation), None);
    assert_eq!(rejection(&Admission::Retry { token: vec![], scid: vec![] }), None);
    assert_eq!(rejection(&Admission::Accept { scid: vec![], odcid: vec![] }), None);
}

#[test]
fn the_server_reads_on_after_a_dropped_datagram() {
    let s = server();
    let token = s.sockets().token_of(&addr(2, 4433)).unwrap();
    assert_eq!(s.on_readable(token, DatagramOutcome::Dropped), Ok(true));
    assert_eq!(s.on_readable(token, DatagramOutcome::Handled), Ok(true));
    assert_eq!(s.on_readable(token, DatagramOutcome::Answered), Ok(true));
    assert_eq!(s.on_readable(token, DatagramOutcome::WouldBlock), Ok(false));
    assert_eq!(
        s.on_readable(token, DatagramOutcome::SocketFailed),
        Err(ServerError::FatalSocket(SocketError { local_addr: addr(2, 4433), peer_addr: None }))
    );
}
