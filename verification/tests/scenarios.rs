use quicheperf::addr::IpAddress;
use quicheperf::addr::SocketAddress;
use quicheperf::cli::parse_bitrate;
use quicheperf::cli::SchedulerOpts;
use quicheperf::protocol::ClientAction;
use quicheperf::protocol::CloseReason;
use quicheperf::protocol::DataAction;
use quicheperf::protocol::Protocol;
use quicheperf::protocol::StreamSend;
use quicheperf::protocol::TestConfig;
use quicheperf::protocol::TestConfigAck;
use quicheperf::scheduler::path_info;
use quicheperf::scheduler::Scheduler;
use quicheperf::socket::SendInfo;
use quicheperf::socket::SocketState;
use quicheperf::socket::WriteOutcome;
use quicheperf::time::TimeSpan;

fn addr(last: u8, port: u16) -> SocketAddress {
    SocketAddress::new(IpAddress::from_v4_octets(127, 0, 0, last), port)
}

fn info(to: SocketAddress) -> SendInfo {
    SendInfo { from: addr(1, 1000), to, at: TimeSpan::zero() }
}

fn consistent(s: &SocketState) -> bool {
    s.send_info().is_some() == (s.until() > 0) && s.send_pending() == !s.pending_bytes().is_empty()
}

#[test]
fn a_destination_is_set_exactly_while_bytes_wait() {
    let mut s = SocketState::new(addr(1, 1000), 64);
    assert!(consistent(&s));
    s.schedule_send(Some(&[1; 64]), 10, info(addr(2, 2)));
    assert!(consistent(&s));
    assert_eq!(s.try_send(WriteOutcome::WouldBlock), Ok(0));
    assert!(consistent(&s));
    assert!(s.try_send(WriteOutcome::Failed).is_err());
    assert!(consistent(&s));
    assert_eq!(s.try_send(WriteOutcome::Written(10)), Ok(10));
    assert!(consistent(&s));
    s.append(&[2; 5], info(addr(2, 2)), 5);
    assert!(consistent(&s));
    s.append(&[3; 5], info(addr(2, 2)), 5);
    assert!(consistent(&s));
    s.reset();
    assert!(consistent(&s));
    s.spare(64)[0] = 1;
    assert!(consistent(&s));
    s.commit(1, info(addr(2, 2)), 1);
    assert!(consistent(&s));
}

#[test]
fn a_paced_sender_keeps_to_its_bitrate() {
    let bitrate = parse_bitrate("1Mb").unwrap();
    assert_eq!(bitrate, 125_000);
    let tc = TestConfig::for_client(
        vec!["127.0.0.1:1".to_string()],
        vec!["127.0.0.1:2".to_string()],
        None,
        false,
        10,
        Some(bitrate),
    );
    let mut p = Protocol::new_with_tc(tc);
    assert_eq!(p.send_config(StreamSend::Written(1), 1, TimeSpan::zero()), Ok(()));
    assert_eq!(p.recv_config_ack(Some(TestConfigAck::accepted())), Ok(()));
    let mut total: u64 = 0;
    let mut closes = 0;
    let mut millis: u64 = 0;
    while millis <= 11_000 {
        let now = TimeSpan::from_millis(millis);
        match p.client_dispatch(now, false, false) {
            ClientAction::Work(DataAction::Send { budget }) => {
                assert!(budget <= 3 * (bitrate / 100));
                if budget > 0 {
                    total += budget;
                    assert_eq!(p.send_data(StreamSend::Written(budget as usize), now), Ok(true));
                }
            }
            ClientAction::Close(reason) => {
                assert_eq!(reason, CloseReason::Finished);
                closes += 1;
            }
            ClientAction::Idle => {}
            other => panic!("unexpected {:?}", other),
        }
        millis += 7;
    }
    assert_eq!(closes, 1);
    assert!(total >= 1_100_000, "sent {}", total);
    assert!(total <= 1_400_000, "sent {}", total);
}

#[test]
fn the_faster_path_carries_the_traffic() {
    let fast = path_info(addr(1, 1), addr(9, 1), true, false, 20_000, 10_000, TimeSpan::from_millis(10), 1_000_000);
    let slow = path_info(addr(2, 1), addr(9, 2), true, false, 20_000, 10_000, TimeSpan::from_millis(100), 1_000_000);
    let mut scheduler = Scheduler::new(SchedulerOpts::MinRTT);
    for _ in 0..100 {
        let choice = scheduler.get_best_path(&[slow, fast]).unwrap();
        assert_eq!(choice.local_addr, addr(1, 1));
        assert_eq!(choice.peer_addr, addr(9, 1));
    }
    assert_eq!(scheduler.pop_scheduling_decisions(), vec![0, 100]);
}

#[test]
fn round_robin_uses_every_path() {
    let a = path_info(addr(1, 1), addr(9, 1), true, false, 20_000, 10_000, TimeSpan::from_millis(10), 0);
    let b = path_info(addr(2, 1), addr(9, 2), true, false, 20_000, 10_000, TimeSpan::from_millis(100), 0);
    let mut scheduler = Scheduler::new(SchedulerOpts::RoundRobin);
    for _ in 0..10 {
        assert!(scheduler.get_best_path(&[a, b]).is_some());
    }
    assert_eq!(scheduler.pop_scheduling_decisions(), vec![5, 5]);
}

#[test]
fn a_broken_path_carries_no_new_data() {
    let a = path_info(addr(1, 1), addr(9, 1), true, false, 20_000, 10_000, TimeSpan::from_millis(100), 0);
    let b = path_info(addr(2, 1), addr(9, 2), true, true, 20_000, 10_000, TimeSpan::from_millis(10), 0);
    for strategy in [SchedulerOpts::MinRTT, SchedulerOpts::RoundRobin, SchedulerOpts::Blest] {
        let mut scheduler = Scheduler::new(strategy);
        for _ in 0..4 {
            assert_eq!(scheduler.get_best_path(&[a, b]).map(|s| s.local_addr), Some(addr(1, 1)));
        }
    }
}
