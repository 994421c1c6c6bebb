use quicheperf::addr::IpAddress;
use quicheperf::addr::SocketAddress;
use quicheperf::cli::SchedulerOpts;
use quicheperf::scheduler::blest;
use quicheperf::scheduler::eligible;
use quicheperf::scheduler::min_rtt;
use quicheperf::scheduler::round_robin;
use quicheperf::scheduler::PathInfo;
use quicheperf::scheduler::Scheduled;
use quicheperf::scheduler::Scheduler;
use quicheperf::scheduler::SendInstructions;

fn local(i: u8) -> SocketAddress {
    SocketAddress::new(IpAddress::from_v4_octets(10, 0, 0, i), 1000)
}

fn peer(i: u8) -> SocketAddress {
    SocketAddress::new(IpAddress::from_v4_octets(10, 0, 1, i), 4433)
}

fn path(i: u8, rtt_ms: u64, cwnd: usize) -> PathInfo {
    PathInfo {
        local_addr: local(i),
        peer_addr: peer(i),
        active: true,
        broken: false,
        cwnd_available: cwnd,
        rtt: rtt_ms * 1_000_000,
        bytes_in_flight: 0,
        bdp: 100_000,
    }
}

fn on(i: u8) -> Option<Scheduled> {
    Some(Scheduled {
        local_addr: local(i + 1),
        peer_addr: peer(i + 1),
        instructions: SendInstructions { path_id: i as usize },
    })
}

#[test]
fn a_path_needs_to_be_active_whole_and_open() {
    assert!(eligible(&path(1, 10, 1)));
    assert!(!eligible(&path(1, 10, 0)));
    assert!(!eligible(&PathInfo { active: false, ..path(1, 10, 1) }));
    assert!(!eligible(&PathInfo { broken: true, ..path(1, 10, 1) }));
}

#[test]
fn the_lowest_round_trip_time_wins() {
    assert_eq!(min_rtt(&[]), None);
    assert_eq!(min_rtt(&[path(1, 100, 1), path(2, 10, 1), path(3, 50, 1)]), Some(1));
    assert_eq!(min_rtt(&[path(1, 100, 1), path(2, 10, 0), path(3, 50, 1)]), Some(2));
    assert_eq!(min_rtt(&[path(1, 100, 0), path(2, 10, 0)]), None);
}

#[test]
fn equal_round_trip_times_go_by_the_index() {
    assert_eq!(min_rtt(&[path(1, 10, 1), path(2, 10, 1), path(3, 10, 1)]), Some(0));
    assert_eq!(min_rtt(&[path(1, 20, 1), path(2, 10, 1), path(3, 10, 1)]), Some(1));
}

#[test]
fn broken_and_inactive_paths_are_passed_over() {
    let paths = [
        PathInfo { broken: true, ..path(1, 1, 1) },
        PathInfo { active: false, ..path(2, 2, 1) },
        path(3, 30, 1),
    ];
    assert_eq!(min_rtt(&paths), Some(2));
    assert_eq!(blest(&paths), Some(2));
    assert_eq!(round_robin(&paths, 0), Some(2));
}

#[test]
fn round_robin_takes_turns() {
    let paths = [path(1, 10, 1), path(2, 20, 1), path(3, 30, 1)];
    assert_eq!(round_robin(&paths, 0), Some(0));
    assert_eq!(round_robin(&paths, 1), Some(1));
    assert_eq!(round_robin(&paths, 2), Some(2));
    assert_eq!(round_robin(&paths, 3), Some(0));
    assert_eq!(round_robin(&paths, 99), Some(0));
    let gaps = [path(1, 10, 1), path(2, 20, 0), path(3, 30, 1)];
    assert_eq!(round_robin(&gaps, 1), Some(2));
    let wrap = [path(1, 10, 1), path(2, 20, 0), path(3, 30, 0)];
    assert_eq!(round_robin(&wrap, 1), Some(0));
    assert_eq!(round_robin(&[path(1, 10, 0)], 0), None);
    assert_eq!(round_robin(&[], 0), None);
}

#[test]
fn a_slow_path_must_not_hold_up_the_fast_one() {
    let fast_blocked = PathInfo { bytes_in_flight: 50_000, ..path(1, 10, 0) };
    let slow_small = PathInfo { bdp: 40_000, ..path(2, 100, 1) };
    let slow_large = PathInfo { bdp: 60_000, ..path(3, 200, 1) };
    assert_eq!(min_rtt(&[fast_blocked, slow_small, slow_large]), Some(1));
    assert_eq!(blest(&[fast_blocked, slow_small, slow_large]), Some(2));
    assert_eq!(blest(&[fast_blocked, slow_small]), None);
    assert_eq!(blest(&[fast_blocked, slow_large]), Some(1));
    let exact = PathInfo { bdp: 50_000, ..path(2, 100, 1) };
    assert_eq!(blest(&[fast_blocked, exact]), None);
}

#[test]
fn the_fast_path_goes_first_when_it_is_open() {
    let fast = PathInfo { bytes_in_flight: 50_000, ..path(1, 10, 1) };
    let slow = PathInfo { bdp: 40_000, ..path(2, 100, 1) };
    assert_eq!(blest(&[fast, slow]), Some(0));
    assert_eq!(blest(&[slow, fast]), Some(1));
    assert_eq!(blest(&[]), None);
}

#[test]
fn a_scheduler_hands_out_paths_by_its_strategy() {
    let paths = [path(1, 30, 1), path(2, 10, 1), path(3, 20, 1)];
    let mut fastest = Scheduler::new(SchedulerOpts::MinRTT);
    assert_eq!(fastest.get_best_path(&paths), on(1));
    assert_eq!(fastest.get_best_path(&paths), on(1));
    let mut turns = Scheduler::new(SchedulerOpts::RoundRobin);
    assert_eq!(turns.get_best_path(&paths), on(0));
    assert_eq!(turns.get_best_path(&paths), on(1));
    assert_eq!(turns.get_best_path(&paths), on(2));
    assert_eq!(turns.get_best_path(&paths), on(0));
    let mut careful = Scheduler::new(SchedulerOpts::Blest);
    assert_eq!(careful.get_best_path(&paths), on(1));
}

#[test]
fn no_path_is_handed_out_when_none_is_ready() {
    let paths = [path(1, 30, 0), path(2, 10, 0)];
    for strategy in [SchedulerOpts::MinRTT, SchedulerOpts::RoundRobin, SchedulerOpts::Blest] {
        let mut s = Scheduler::new(strategy);
        assert_eq!(s.get_best_path(&paths), None);
        assert_eq!(s.get_best_path(&[]), None);
        assert_eq!(s.pop_scheduling_decisions(), Vec::<u64>::new());
    }
}

#[test]
fn every_choice_is_counted_until_the_counts_are_taken() {
    let paths = [path(1, 30, 1), path(2, 10, 1), path(3, 20, 1)];
    let mut s = Scheduler::new(SchedulerOpts::RoundRobin);
    for _ in 0..5 {
        assert!(s.get_best_path(&paths).is_some());
    }
    assert_eq!(s.pop_scheduling_decisions(), vec![2, 2, 1]);
    assert_eq!(s.pop_scheduling_decisions(), Vec::<u64>::new());
    assert_eq!(s.get_best_path(&paths), on(2));
    assert_eq!(s.pop_scheduling_decisions(), vec![0, 0, 1]);
    let mut m = Scheduler::new(SchedulerOpts::MinRTT);
    assert!(m.get_best_path(&paths).is_some());
    assert!(m.get_best_path(&paths).is_some());
    assert_eq!(m.pop_scheduling_decisions(), vec![0, 2]);
}
