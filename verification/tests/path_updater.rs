use quicheperf::addr::IpAddress;
use quicheperf::addr::SocketAddress;
use quicheperf::path::client_path_action;
use quicheperf::path::server_path_action;
use quicheperf::path::PathAction;
use quicheperf::path::PathEvent;
use quicheperf::path::PathStatus;
use quicheperf::time::TimeSpan;
use quicheperf::updater::NoSuchPath;
use quicheperf::updater::PathStatusChange;
use quicheperf::updater::PathStatusUpdate;
use quicheperf::updater::PathStatusUpdater;

fn local(i: u8) -> SocketAddress {
    SocketAddress::new(IpAddress::from_v4_octets(10, 0, 0, i), 1000)
}

fn peer(i: u8) -> SocketAddress {
    SocketAddress::new(IpAddress::from_v4_octets(10, 0, 1, i), 4433)
}

fn update(secs: u64, path_id: usize, status: PathStatus) -> PathStatusUpdate {
    PathStatusUpdate { delay: TimeSpan::from_secs(secs), path_id, status }
}

fn updater(start: u64, updates: Vec<PathStatusUpdate>) -> PathStatusUpdater {
    PathStatusUpdater::new(
        TimeSpan::from_secs(start),
        vec![local(0), local(1)],
        vec![peer(0), peer(1)],
        updates,
    )
    .unwrap()
}

#[test]
fn statuses_have_numbers() {
    assert_eq!(PathStatus::from_code(1), PathStatus::Standby);
    assert_eq!(PathStatus::from_code(2), PathStatus::Available);
    assert_eq!(PathStatus::from_code(7), PathStatus::Broken);
    assert_eq!(PathStatus::from_code(0), PathStatus::Other(0));
    assert_eq!(PathStatus::from_code(3), PathStatus::Other(3));
    for code in [0u64, 1, 2, 3, 7, 8, u64::MAX] {
        assert_eq!(PathStatus::from_code(code).code(), code);
    }
}

#[test]
fn a_client_activates_validated_paths() {
    assert_eq!(
        client_path_action(&PathEvent::Validated(local(1), peer(1))),
        PathAction::SetActive(local(1), peer(1))
    );
    assert_eq!(client_path_action(&PathEvent::FailedValidation(local(1), peer(1))), PathAction::Log);
    assert_eq!(client_path_action(&PathEvent::Closed(local(1), peer(1))), PathAction::Log);
    assert_eq!(client_path_action(&PathEvent::ReusedSourceConnectionId), PathAction::Log);
    assert_eq!(
        client_path_action(&PathEvent::PeerPathStatus(local(1), peer(1), PathStatus::Standby)),
        PathAction::Log
    );
}

#[test]
fn a_server_probes_new_paths_and_follows_the_peer() {
    for multipath in [false, true] {
        assert_eq!(
            server_path_action(&PathEvent::New(local(1), peer(1)), multipath),
            PathAction::Probe(local(1), peer(1))
        );
        assert_eq!(
            server_path_action(
                &PathEvent::PeerPathStatus(local(0), peer(1), PathStatus::Broken),
                multipath
            ),
            PathAction::SetStatus(local(0), peer(1), PathStatus::Broken)
        );
        assert_eq!(server_path_action(&PathEvent::PeerMigrated(local(1), peer(1)), multipath), PathAction::Log);
        assert_eq!(server_path_action(&PathEvent::Closed(local(1), peer(1)), multipath), PathAction::Log);
        assert_eq!(
            server_path_action(&PathEvent::FailedValidation(local(1), peer(1)), multipath),
            PathAction::Log
        );
        assert_eq!(server_path_action(&PathEvent::ReusedSourceConnectionId, multipath), PathAction::Log);
    }
    assert_eq!(
        server_path_action(&PathEvent::Validated(local(1), peer(1)), true),
        PathAction::SetActive(local(1), peer(1))
    );
    assert_eq!(server_path_action(&PathEvent::Validated(local(1), peer(1)), false), PathAction::Log);
}

#[test]
fn an_update_for_a_path_that_does_not_exist_is_refused() {
    let r = PathStatusUpdater::new(
        TimeSpan::zero(),
        vec![local(0), local(1)],
        vec![peer(0), peer(1)],
        vec![update(1, 1, PathStatus::Standby), update(2, 2, PathStatus::Standby), update(3, 9, PathStatus::Broken)],
    );
    assert_eq!(r.err(), Some(NoSuchPath { path_id: 2 }));
    let none = PathStatusUpdater::new(TimeSpan::zero(), vec![], vec![], vec![update(0, 0, PathStatus::Broken)]);
    assert_eq!(none.err(), Some(NoSuchPath { path_id: 0 }));
    assert!(PathStatusUpdater::new(TimeSpan::zero(), vec![], vec![], vec![]).is_ok());
}

#[test]
fn an_update_is_due_when_its_delay_has_passed() {
    let u = updater(100, vec![update(2, 1, PathStatus::Standby)]);
    assert_eq!(u.pending(), 1);
    assert_eq!(u.check(TimeSpan::from_secs(100)), vec![]);
    assert_eq!(u.check(TimeSpan::from_millis(101_999)), vec![]);
    assert_eq!(u.check(TimeSpan::from_secs(50)), vec![]);
    let due = vec![PathStatusChange { local_addr: local(1), peer_addr: peer(1), status: PathStatus::Standby }];
    assert_eq!(u.check(TimeSpan::from_secs(102)), due);
    assert_eq!(u.check(TimeSpan::from_secs(1_000)), due);
}

#[test]
fn due_updates_come_in_their_order() {
    let u = updater(
        0,
        vec![
            update(5, 1, PathStatus::Broken),
            update(1, 0, PathStatus::Standby),
            update(9, 0, PathStatus::Available),
            update(3, 1, PathStatus::Standby),
        ],
    );
    assert_eq!(
        u.check(TimeSpan::from_secs(5)),
        vec![
            PathStatusChange { local_addr: local(1), peer_addr: peer(1), status: PathStatus::Broken },
            PathStatusChange { local_addr: local(0), peer_addr: peer(0), status: PathStatus::Standby },
            PathStatusChange { local_addr: local(1), peer_addr: peer(1), status: PathStatus::Standby },
        ]
    );
}

#[test]
fn applied_updates_are_dropped_and_failed_ones_stay() {
    let mut u = updater(
        0,
        vec![
            update(5, 1, PathStatus::Broken),
            update(1, 0, PathStatus::Standby),
            update(9, 0, PathStatus::Available),
            update(3, 1, PathStatus::Standby),
        ],
    );
    u.settle(TimeSpan::from_secs(5), &[true, false, true]);
    assert_eq!(u.pending(), 2);
    assert_eq!(
        u.check(TimeSpan::from_secs(100)),
        vec![
            PathStatusChange { local_addr: local(0), peer_addr: peer(0), status: PathStatus::Standby },
            PathStatusChange { local_addr: local(0), peer_addr: peer(0), status: PathStatus::Available },
        ]
    );
}

#[test]
fn nothing_is_dropped_before_its_time() {
    let mut u = updater(10, vec![update(2, 1, PathStatus::Standby), update(4, 0, PathStatus::Broken)]);
    u.settle(TimeSpan::from_secs(11), &[true, true]);
    assert_eq!(u.pending(), 2);
    u.settle(TimeSpan::from_secs(12), &[]);
    assert_eq!(u.pending(), 2);
    u.settle(TimeSpan::from_secs(12), &[true, true]);
    assert_eq!(u.pending(), 1);
    assert_eq!(u.check(TimeSpan::from_secs(13)), vec![]);
    u.settle(TimeSpan::from_secs(14), &[true]);
    assert_eq!(u.pending(), 0);
}
