use quicheperf::addr::FourTuple;
use quicheperf::addr::IpAddress;
use quicheperf::addr::SocketAddress;
use quicheperf::protocol::TestConfig;
use quicheperf::time::TimeSpan;
use quicheperf::ui::arrow_label;
use quicheperf::ui::delta_u64;
use quicheperf::ui::delta_usize;
use quicheperf::ui::direction_label;
use quicheperf::ui::fmt_unit;
use quicheperf::ui::new_test;
use quicheperf::ui::scaled;
use quicheperf::ui::summary_label;
use quicheperf::ui::test_type_label;
use quicheperf::ui::ConnStats;
use quicheperf::ui::Header;
use quicheperf::ui::PathRow;
use quicheperf::ui::PathSample;
use quicheperf::ui::PathStats;
use quicheperf::ui::Unit;
use quicheperf::ui::UI;

fn tuple(i: u8) -> FourTuple {
    FourTuple {
        local_addr: SocketAddress::new(IpAddress::from_v4_octets(10, 0, 0, i), 1000),
        peer_addr: SocketAddress::new(IpAddress::from_v4_octets(10, 0, 1, i), 4433),
    }
}

fn sample(i: u8, sent_bytes: u64, recv_bytes: u64, sent: usize, lost: usize, cwnd: usize) -> PathSample {
    PathSample {
        tuple: tuple(i),
        stats: PathStats { sent, recv: sent / 2, sent_bytes, recv_bytes, lost, lost_spurious: lost / 2 },
        cwnd_available: cwnd,
    }
}

fn conn(sent_bytes: u64, recv_bytes: u64) -> ConnStats {
    ConnStats { sent: 10, recv: 5, sent_bytes, recv_bytes, lost: 1 }
}

fn secs(n: u64) -> TimeSpan {
    TimeSpan::from_secs(n)
}

#[test]
fn figures_are_shown_in_the_largest_unit_they_fill() {
    assert_eq!(fmt_unit(0), (0, " "));
    assert_eq!(fmt_unit(999), (999, " "));
    assert_eq!(fmt_unit(1_000), (1, "K"));
    assert_eq!(fmt_unit(1_999), (1, "K"));
    assert_eq!(fmt_unit(999_999), (999, "K"));
    assert_eq!(fmt_unit(1_000_000), (1, "M"));
    assert_eq!(fmt_unit(25_165_824), (25, "M"));
    assert_eq!(fmt_unit(u64::MAX), (18_446_744_073_709, "M"));
    assert_eq!(scaled(1_500), (1, Unit::Kilo));
    assert_eq!(Unit::One.symbol(), " ");
    assert_eq!(Unit::Kilo.symbol(), "K");
    assert_eq!(Unit::Mega.symbol(), "M");
}

#[test]
fn labels_follow_the_direction() {
    assert_eq!(direction_label(true), "uplink");
    assert_eq!(direction_label(false), "downlink");
    assert_eq!(arrow_label(true), "->");
    assert_eq!(arrow_label(false), "<-");
    assert_eq!(summary_label(true), "Snt");
    assert_eq!(summary_label(false), "Rcv");
    assert_eq!(test_type_label(0), "SP");
    assert_eq!(test_type_label(1), "SP");
    assert_eq!(test_type_label(2), "MP");
}

#[test]
fn a_reverse_test_is_a_downlink_test() {
    let tc = TestConfig::for_client(
        vec!["a".to_string(), "b".to_string()],
        vec!["c".to_string(), "d".to_string()],
        None,
        true,
        2,
        None,
    );
    let h = new_test(&tc);
    assert_eq!(h.direction, "downlink");
    assert_eq!(h.test_type, "MP");
    assert_eq!(h.arrow, "<-");
    assert_eq!(h.duration, TimeSpan::from_secs(2));
    assert_eq!(h.paths, 2);
    let up = TestConfig::for_client(vec!["a".to_string()], vec![], None, false, 2, None);
    let h = new_test(&up);
    assert_eq!(h.direction, "uplink");
    assert_eq!(h.test_type, "SP");
    assert_eq!(h.arrow, "->");
    assert_eq!(h.paths, 0);
}

#[test]
fn counters_that_went_back_gained_nothing() {
    assert_eq!(delta_u64(10, 4), 6);
    assert_eq!(delta_u64(4, 10), 0);
    assert_eq!(delta_u64(u64::MAX, 0), u64::MAX);
    assert_eq!(delta_usize(7, 7), 0);
    assert_eq!(delta_usize(9, 7), 2);
    assert_eq!(delta_usize(1, 7), 0);
}

#[test]
fn new_counters_have_counted_nothing() {
    assert_eq!(
        PathStats::new(),
        PathStats { sent: 0, recv: 0, sent_bytes: 0, recv_bytes: 0, lost: 0, lost_spurious: 0 }
    );
}

#[test]
fn the_first_line_is_due_at_once() {
    let ui = UI::new(true, secs(100));
    assert_eq!(ui.timeout(secs(100)), TimeSpan::max());
    assert!(ui.update_due(secs(100)));
    assert!(ui.update_due(secs(0)));
}

#[test]
fn later_lines_are_due_after_more_than_a_second() {
    let mut ui = UI::new(true, secs(100));
    assert!(ui.update(secs(100), false, false, &conn(0, 0), &[], &[], 0).is_some());
    assert!(!ui.update_due(secs(100)));
    assert!(!ui.update_due(secs(101)));
    assert!(ui.update_due(TimeSpan::from_millis(101_001)));
    assert_eq!(ui.timeout(secs(100)), secs(1));
    assert_eq!(ui.timeout(TimeSpan::from_millis(100_400)), TimeSpan::from_millis(600));
    assert_eq!(ui.timeout(secs(101)), TimeSpan::zero());
    assert_eq!(ui.timeout(secs(500)), TimeSpan::zero());
    assert!(ui.update(secs(101), false, false, &conn(0, 0), &[], &[], 0).is_none());
    assert!(ui.update(TimeSpan::from_millis(101_001), false, false, &conn(0, 0), &[], &[], 0).is_some());
    assert!(!ui.update_due(secs(102)));
}

#[test]
fn nothing_is_shown_for_a_closed_connection() {
    let mut ui = UI::new(true, secs(0));
    assert!(ui.update(secs(5), true, false, &conn(1, 1), &[], &[], 0).is_none());
    assert!(ui.update_due(secs(5)));
    assert_eq!(ui.timeout(secs(5)), TimeSpan::max());
}

#[test]
fn the_draining_line_comes_once() {
    let mut ui = UI::new(true, secs(0));
    let first = ui.update(secs(1), false, false, &conn(0, 0), &[], &[], 0).unwrap();
    assert!(!first.draining_line);
    let second = ui.update(secs(3), false, true, &conn(0, 0), &[], &[], 0).unwrap();
    assert!(second.draining_line);
    let third = ui.update(secs(5), false, true, &conn(0, 0), &[], &[], 0).unwrap();
    assert!(!third.draining_line);
}

#[test]
fn a_line_shows_what_was_gained_since_the_last_one() {
    let mut ui = UI::new(true, secs(10));
    let r = ui.print_per_second_update(
        TimeSpan::from_millis(11_900),
        &conn(3_000, 70),
        &[sample(1, 3_000, 70, 10, 2, 12_345)],
        &[4, 9],
        1_000_000,
    );
    assert_eq!(r.header, Header::SinglePath);
    assert!(!r.multipath);
    assert_eq!(r.elapsed_secs, 1);
    assert_eq!(r.total_bytes, 3_000);
    assert_eq!((r.fc_value, r.fc_unit), (1, Unit::Mega));
    assert_eq!(
        r.rows,
        vec![PathRow {
            bytes: 3_000,
            cwnd_value: 12,
            cwnd_unit: Unit::Kilo,
            lost: 2,
            scheduled: 4,
            packets: 10,
            lost_spurious: 1
        }]
    );
    let r = ui.print_per_second_update(
        secs(13),
        &conn(4_500, 90),
        &[sample(1, 4_500, 90, 14, 3, 999)],
        &[],
        999,
    );
    assert_eq!(r.total_bytes, 1_500);
    assert_eq!(r.elapsed_secs, 3);
    assert_eq!((r.fc_value, r.fc_unit), (999, Unit::One));
    assert_eq!(
        r.rows,
        vec![PathRow {
            bytes: 1_500,
            cwnd_value: 999,
            cwnd_unit: Unit::One,
            lost: 1,
            scheduled: 0,
            packets: 4,
            lost_spurious: 0
        }]
    );
}

#[test]
fn a_receiver_counts_what_it_received() {
    let mut ui = UI::new(false, secs(0));
    let r = ui.print_per_second_update(
        secs(1),
        &conn(3_000, 700),
        &[sample(1, 3_000, 700, 10, 0, 0)],
        &[1],
        0,
    );
    assert_eq!(r.total_bytes, 700);
    assert_eq!(r.rows[0].bytes, 700);
    assert_eq!(r.rows[0].packets, 5);
    assert_eq!(r.rows[0].scheduled, 1);
}

#[test]
fn the_heading_is_shown_when_a_path_comes_up() {
    let mut ui = UI::new(true, secs(0));
    let one = [sample(1, 10, 0, 1, 0, 0)];
    let two = [sample(1, 20, 0, 2, 0, 0), sample(2, 5, 0, 1, 0, 0)];
    let r = ui.update(secs(1), false, false, &conn(10, 0), &one, &[], 0).unwrap().report;
    assert_eq!(r.header, Header::SinglePath);
    let r = ui.update(secs(3), false, false, &conn(15, 0), &one, &[], 0).unwrap().report;
    assert_eq!(r.header, Header::Keep);
    let r = ui.update(secs(5), false, false, &conn(25, 0), &two, &[], 0).unwrap().report;
    assert_eq!(r.header, Header::MultiPath(2));
    assert!(r.multipath);
    let r = ui.update(secs(7), false, false, &conn(25, 0), &two, &[], 0).unwrap().report;
    assert_eq!(r.header, Header::Keep);
    let r = ui.update(secs(9), false, false, &conn(25, 0), &one, &[], 0).unwrap().report;
    assert_eq!(r.header, Header::Keep);
    assert!(!r.multipath);
}

#[test]
fn the_window_is_capped_at_what_the_line_has_room_for() {
    let mut ui = UI::new(true, secs(0));
    let r = ui.print_per_second_update(
        secs(1),
        &conn(0, 0),
        &[sample(1, 0, 0, 0, 0, usize::MAX), sample(2, 0, 0, 0, 0, 5_000_000)],
        &[],
        0,
    );
    assert_eq!((r.rows[0].cwnd_value, r.rows[0].cwnd_unit), (999, Unit::Mega));
    assert_eq!((r.rows[1].cwnd_value, r.rows[1].cwnd_unit), (5, Unit::Mega));
}

#[test]
fn the_total_is_the_sum_of_the_paths() {
    let mut ui = UI::new(true, secs(0));
    let first = [sample(1, 1_000, 0, 3, 0, 0), sample(2, 500, 0, 2, 0, 0)];
    let r = ui.update(secs(1), false, false, &conn(1_500, 0), &first, &[3, 2], 0).unwrap().report;
    assert_eq!(r.total_bytes, r.rows.iter().map(|row| row.bytes).sum::<u64>());
    assert_eq!(r.total_bytes, 1_500);
    let second = [sample(1, 1_700, 0, 5, 0, 0), sample(2, 2_500, 0, 9, 0, 0)];
    let r = ui.update(secs(3), false, false, &conn(4_200, 0), &second, &[2, 7], 0).unwrap().report;
    assert_eq!(r.rows.iter().map(|row| row.bytes).collect::<Vec<u64>>(), vec![700, 2_000]);
    assert_eq!(r.rows.iter().map(|row| row.scheduled).collect::<Vec<u64>>(), vec![2, 7]);
    assert_eq!(r.total_bytes, 2_700);
    assert_eq!(r.total_bytes, r.rows.iter().map(|row| row.bytes).sum::<u64>());
}

#[test]
fn the_summary_shows_the_whole_run() {
    let ui = UI::new(false, secs(10));
    let samples = [sample(1, 1_000, 400, 3, 1, 0), sample(2, 500, 300, 2, 0, 0)];
    let s = ui.print_summary(TimeSpan::from_millis(12_500), &conn(1_500, 700), &samples);
    assert!(s.multipath);
    assert_eq!(s.elapsed, TimeSpan::from_millis(2_500));
    assert_eq!(s.total_bytes, 700);
    assert_eq!(s.lost, 1);
    assert_eq!(s.sent, 10);
    assert_eq!(s.rows, vec![samples[0].stats, samples[1].stats]);
    let up = UI::new(true, secs(10));
    let s = up.print_summary(secs(12), &conn(1_500, 700), &samples[..1]);
    assert!(!s.multipath);
    assert_eq!(s.total_bytes, 1_500);
}
