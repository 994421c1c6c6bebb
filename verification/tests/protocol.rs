use quicheperf::protocol::bitrate_timer;
use quicheperf::protocol::copy_password;
use quicheperf::protocol::pw_eq;
use quicheperf::protocol::quantum;
use quicheperf::protocol::ClientAction;
use quicheperf::protocol::CloseReason;
use quicheperf::protocol::ConfigVerdict;
use quicheperf::protocol::DataAction;
use quicheperf::protocol::DurationCheck;
use quicheperf::protocol::Protocol;
use quicheperf::protocol::ProtocolError;
use quicheperf::protocol::SendBudget;
use quicheperf::protocol::ServerAction;
use quicheperf::protocol::StreamSend;
use quicheperf::protocol::TestConfig;
use quicheperf::protocol::TestConfigAck;
use quicheperf::protocol::SEND_DATA_LEN;
use quicheperf::time::TimeSpan;

fn config(client_sending: bool, secs: u64, bitrate: Option<u64>, password: Option<&str>) -> TestConfig {
    TestConfig::for_client(
        vec!["127.0.0.1:1000".to_string()],
        vec!["127.0.0.1:4433".to_string()],
        password.map(|p| p.to_string()),
        !client_sending,
        secs,
        bitrate,
    )
}

fn ms(n: u64) -> TimeSpan {
    TimeSpan::from_millis(n)
}

fn running_client(client_sending: bool, secs: u64, bitrate: Option<u64>, start: TimeSpan) -> Protocol {
    let mut p = Protocol::new_with_tc(config(client_sending, secs, bitrate, None));
    assert_eq!(p.send_config(StreamSend::Written(100), 100, start), Ok(()));
    assert_eq!(p.recv_config_ack(Some(TestConfigAck::accepted())), Ok(()));
    p
}

fn running_server(tc: TestConfig) -> Protocol {
    let mut p = Protocol::new_with_password(None);
    assert_eq!(p.ack_config(tc, StreamSend::Written(14)), Ok(()));
    p
}

#[test]
fn for_client_builds_the_configuration() {
    let tc = config(true, 10, Some(125_000), Some("pw"));
    assert!(tc.client_sending);
    assert_eq!(tc.duration, TimeSpan::from_secs(10));
    assert_eq!(tc.bitrate_target, Some(125_000));
    assert_eq!(tc.password, Some("pw".to_string()));
    assert!(tc.paths_paired());
    let reverse = config(false, 1, None, None);
    assert!(!reverse.client_sending);
}

#[test]
fn unpaired_paths_are_noticed() {
    let tc = TestConfig::for_client(vec!["a".to_string()], vec![], None, false, 1, None);
    assert!(!tc.paths_paired());
}

#[test]
fn passwords_open_the_test_as_the_server_expects() {
    let secret = Some("secret".to_string());
    let other = Some("other".to_string());
    assert!(pw_eq(&None, &None));
    assert!(pw_eq(&None, &secret));
    assert!(pw_eq(&secret, &Some("secret".to_string())));
    assert!(!pw_eq(&secret, &other));
    assert!(!pw_eq(&secret, &None));
    assert_eq!(copy_password(&secret), secret);
    assert_eq!(copy_password(&None), None);
}

#[test]
fn close_reasons_carry_their_codes() {
    assert_eq!(CloseReason::Finished.code(), 0x00);
    assert!(CloseReason::Finished.is_app());
    assert_eq!(CloseReason::Finished.reason(), "kthxbye");
    assert_eq!(CloseReason::AuthenticationFailed.code(), 0x10);
    assert!(CloseReason::AuthenticationFailed.is_app());
    assert_eq!(CloseReason::AuthenticationFailed.reason(), "authentication failed");
    assert_eq!(CloseReason::BadConfig.code(), 0x01);
    assert!(!CloseReason::BadConfig.is_app());
    assert_eq!(CloseReason::BadConfig.reason(), "failed parsing test config");
    assert_eq!(CloseReason::NoAlpnMatch.code(), 0x01);
    assert!(!CloseReason::NoAlpnMatch.is_app());
    assert_eq!(CloseReason::NoAlpnMatch.reason(), "No ALPN match");
    assert_eq!(CloseReason::SendFailed.code(), 0x01);
    assert!(!CloseReason::SendFailed.is_app());
    assert_eq!(CloseReason::SendFailed.reason(), "fail");
    assert_eq!(CloseReason::UserTerminated.code(), 0x01);
    assert!(CloseReason::UserTerminated.is_app());
    assert_eq!(CloseReason::UserTerminated.reason(), "user terminated");
}

#[test]
fn the_pacing_interval_is_ten_milliseconds() {
    assert_eq!(bitrate_timer(), TimeSpan::from_millis(10));
}

#[test]
fn the_first_send_is_one_interval_worth() {
    assert_eq!(quantum(1_000_000, None), 10_000);
    assert_eq!(quantum(99, None), 0);
    assert_eq!(quantum(u64::MAX, None), u64::MAX / 100);
}

#[test]
fn nothing_is_sent_within_an_interval() {
    assert_eq!(quantum(1_000_000, Some(0)), 0);
    assert_eq!(quantum(1_000_000, Some(9_999)), 0);
}

#[test]
fn elapsed_intervals_are_caught_up_to_three() {
    assert_eq!(quantum(1_000_000, Some(10_000)), 10_000);
    assert_eq!(quantum(1_000_000, Some(15_000)), 15_000);
    assert_eq!(quantum(1_000_000, Some(29_999)), 29_999);
    assert_eq!(quantum(1_000_000, Some(30_000)), 30_000);
    assert_eq!(quantum(1_000_000, Some(1_000_000)), 30_000);
    assert_eq!(quantum(333, Some(12_345)), 3);
    assert_eq!(quantum(u64::MAX, Some(u128::MAX)), 3 * (u64::MAX / 100));
}

#[test]
fn a_new_client_protocol_has_sent_nothing() {
    let p = Protocol::new_with_tc(config(true, 10, None, Some("pw")));
    assert!(!p.config_sent());
    assert!(!p.config_acked());
    assert!(!p.finished());
    assert!(p.tc().is_some());
    assert_eq!(p.timeout(ms(5)), TimeSpan::max());
    assert_eq!(p.work(ms(5)), Err(ProtocolError::Done));
}

#[test]
fn a_new_server_protocol_knows_no_configuration() {
    let p = Protocol::new_with_password(Some("pw".to_string()));
    assert!(!p.config_sent());
    assert!(!p.config_acked());
    assert!(p.tc().is_none());
    assert_eq!(p.bitrate_target_quantum(ms(1)), None);
    assert_eq!(p.server_dispatch(ms(1)), ServerAction::RecvConfig);
}

#[test]
fn the_client_sends_its_configuration_first() {
    let mut p = Protocol::new_with_tc(config(true, 10, None, None));
    assert_eq!(p.client_dispatch(ms(0), false, false), ClientAction::SendConfig);
    assert_eq!(p.client_resume(ms(0)), None);
}

#[test]
fn a_partial_write_of_the_configuration_is_retried() {
    let mut p = Protocol::new_with_tc(config(true, 10, None, None));
    assert_eq!(p.send_config(StreamSend::Written(99), 100, ms(1)), Ok(()));
    assert!(!p.config_sent());
    assert_eq!(p.close_after_duration(TimeSpan::from_secs(1_000)), DurationCheck::Running);
    assert_eq!(p.client_dispatch(ms(2), false, false), ClientAction::SendConfig);
    assert_eq!(p.send_config(StreamSend::Done, 100, ms(2)), Ok(()));
    assert!(!p.config_sent());
    assert_eq!(p.close_after_duration(TimeSpan::from_secs(1_000)), DurationCheck::Running);
    assert_eq!(p.send_config(StreamSend::Written(100), 100, ms(3)), Ok(()));
    assert!(p.config_sent());
    assert_eq!(p.client_dispatch(ms(4), false, false), ClientAction::RecvConfigAck);
}

#[test]
fn a_failed_write_of_the_configuration_changes_nothing() {
    let mut p = Protocol::new_with_tc(config(true, 1, None, None));
    assert_eq!(p.send_config(StreamSend::Failed, 100, ms(1)), Err(ProtocolError::StreamFailed));
    assert!(!p.config_sent());
    assert_eq!(p.close_after_duration(TimeSpan::from_secs(100)), DurationCheck::Running);
}

#[test]
fn the_test_starts_when_the_configuration_is_written() {
    let mut p = Protocol::new_with_tc(config(true, 1, None, None));
    assert_eq!(p.close_after_duration(TimeSpan::from_secs(100)), DurationCheck::Running);
    assert_eq!(p.send_config(StreamSend::Written(10), 10, TimeSpan::from_secs(100)), Ok(()));
    assert_eq!(p.close_after_duration(ms(100_999)), DurationCheck::Running);
    assert_eq!(p.close_after_duration(ms(101_000)), DurationCheck::Expired);
}

#[test]
fn the_test_starts_at_the_write_that_took_the_whole_configuration() {
    let mut p = Protocol::new_with_tc(config(true, 1, None, None));
    assert_eq!(p.send_config(StreamSend::Written(5), 10, ms(0)), Ok(()));
    assert_eq!(p.send_config(StreamSend::Done, 10, ms(500)), Ok(()));
    assert_eq!(p.send_config(StreamSend::Written(10), 10, ms(2_000)), Ok(()));
    assert!(p.config_sent());
    assert_eq!(p.close_after_duration(ms(2_999)), DurationCheck::Running);
    assert_eq!(p.close_after_duration(ms(3_000)), DurationCheck::Expired);
}

#[test]
fn only_a_clean_acknowledgment_counts() {
    let mut p = Protocol::new_with_tc(config(true, 10, None, None));
    assert_eq!(p.send_config(StreamSend::Written(10), 10, ms(0)), Ok(()));
    assert_eq!(p.recv_config_ack(None), Err(ProtocolError::Done));
    assert!(!p.config_acked());
    let refused = TestConfigAck { error: Some("no".to_string()) };
    assert_eq!(p.recv_config_ack(Some(refused)), Err(ProtocolError::Done));
    assert!(!p.config_acked());
    assert_eq!(p.client_resume(ms(1)), None);
    assert_eq!(p.recv_config_ack(Some(TestConfigAck::accepted())), Ok(()));
    assert!(p.config_acked());
    assert_eq!(
        p.client_resume(ms(1)),
        Some(DataAction::Send { budget: SEND_DATA_LEN as u64 * 1000 })
    );
}

#[test]
fn the_sending_side_is_the_one_the_configuration_names() {
    let up = running_client(true, 10, None, ms(0));
    assert_eq!(up.work(ms(1)), Ok(DataAction::Send { budget: 65_507_000 }));
    let down = running_client(false, 10, None, ms(0));
    assert_eq!(down.work(ms(1)), Ok(DataAction::Receive));
    let serving_up = running_server(config(true, 10, None, None));
    assert_eq!(serving_up.server_dispatch(ms(1)), ServerAction::Work(DataAction::Receive));
    let serving_down = running_server(config(false, 10, None, None));
    assert_eq!(
        serving_down.server_dispatch(ms(1)),
        ServerAction::Work(DataAction::Send { budget: 65_507_000 })
    );
}

#[test]
fn a_running_client_moves_data_on_dispatch() {
    let mut p = running_client(true, 10, None, ms(0));
    assert_eq!(
        p.client_dispatch(ms(5), false, false),
        ClientAction::Work(DataAction::Send { budget: 65_507_000 })
    );
    let mut q = running_client(false, 10, None, ms(0));
    assert_eq!(q.client_dispatch(ms(5), false, false), ClientAction::Work(DataAction::Receive));
}

#[test]
fn nothing_is_dispatched_on_a_closed_or_draining_connection() {
    let mut p = running_client(true, 1, None, ms(0));
    assert_eq!(p.client_dispatch(ms(5_000), true, false), ClientAction::Idle);
    assert_eq!(p.client_dispatch(ms(5_000), false, true), ClientAction::Idle);
    assert!(!p.finished());
}

#[test]
fn the_connection_is_closed_once_after_the_duration() {
    let mut p = running_client(true, 1, None, ms(0));
    assert_eq!(p.close_after_duration(ms(999)), DurationCheck::Running);
    assert!(!p.finished());
    assert_eq!(p.close_after_duration(ms(1_000)), DurationCheck::Expired);
    assert!(p.finished());
    assert_eq!(p.close_after_duration(ms(1_000)), DurationCheck::Finished);
    assert_eq!(p.close_after_duration(ms(5_000)), DurationCheck::Finished);
    assert_eq!(p.close_after_duration(ms(0)), DurationCheck::Finished);
}

#[test]
fn dispatch_asks_for_the_close_exactly_once() {
    let mut p = running_client(true, 1, None, ms(100));
    assert_eq!(
        p.client_dispatch(ms(1_100), false, false),
        ClientAction::Close(CloseReason::Finished)
    );
    assert_eq!(p.client_dispatch(ms(1_100), false, false), ClientAction::Idle);
    assert_eq!(p.client_dispatch(ms(9_000), false, false), ClientAction::Idle);
    assert_eq!(p.timeout(ms(9_000)), TimeSpan::max());
}

#[test]
fn a_clock_that_went_back_counts_as_no_time() {
    let mut p = running_client(true, 1, None, ms(5_000));
    assert_eq!(p.close_after_duration(ms(0)), DurationCheck::Running);
}

#[test]
fn pacing_shortens_the_timeout() {
    let mut p = running_client(true, 10, Some(1_000_000), ms(0));
    assert_eq!(p.timeout(ms(3)), TimeSpan::zero());
    assert_eq!(p.send_data(StreamSend::Written(10_000), ms(100)), Ok(true));
    assert_eq!(p.timeout(ms(100)), ms(10));
    assert_eq!(p.timeout(ms(104)), ms(6));
    assert_eq!(p.timeout(ms(110)), TimeSpan::zero());
    assert_eq!(p.timeout(ms(500)), TimeSpan::zero());
    let unpaced = running_client(true, 10, None, ms(0));
    assert_eq!(unpaced.timeout(ms(3)), TimeSpan::max());
}

#[test]
fn a_paced_sender_follows_the_intervals() {
    let mut p = running_client(true, 10, Some(1_000_000), ms(0));
    assert_eq!(p.bitrate_target_quantum(ms(0)), Some(10_000));
    assert_eq!(p.work(ms(0)), Ok(DataAction::Send { budget: 10_000 }));
    assert_eq!(p.send_data(StreamSend::Written(10_000), ms(0)), Ok(true));
    assert_eq!(p.work(ms(5)), Ok(DataAction::Send { budget: 0 }));
    assert_eq!(p.client_dispatch(ms(5), false, false), ClientAction::Work(DataAction::Send { budget: 0 }));
    assert_eq!(p.work(ms(10)), Ok(DataAction::Send { budget: 10_000 }));
    assert_eq!(p.work(ms(25)), Ok(DataAction::Send { budget: 25_000 }));
    assert_eq!(p.work(ms(1_000)), Ok(DataAction::Send { budget: 30_000 }));
}

#[test]
fn the_stream_decides_how_sending_goes_on() {
    let mut p = running_client(true, 10, Some(1_000_000), ms(0));
    assert_eq!(p.send_data(StreamSend::Done, ms(7)), Ok(false));
    assert_eq!(p.bitrate_target_quantum(ms(8)), Some(10_000));
    assert_eq!(p.send_data(StreamSend::Failed, ms(7)), Err(ProtocolError::StreamFailed));
    assert_eq!(p.bitrate_target_quantum(ms(8)), Some(10_000));
    assert_eq!(p.send_data(StreamSend::Written(1), ms(7)), Ok(true));
    assert_eq!(p.bitrate_target_quantum(ms(8)), Some(0));
}

#[test]
fn a_budget_goes_out_in_whole_buffers() {
    let mut b = SendBudget::new(65_507 * 2 + 5);
    assert_eq!(b.take_chunk(), Some(65_507));
    assert_eq!(b.left, 65_507 + 5);
    assert_eq!(b.take_chunk(), Some(65_507));
    assert_eq!(b.take_chunk(), Some(5));
    assert_eq!(b.left, 0);
    assert_eq!(b.take_chunk(), None);
    assert_eq!(b.left, 0);
    let mut empty = SendBudget::new(0);
    assert_eq!(empty.take_chunk(), None);
}

#[test]
fn an_unreadable_configuration_is_rejected() {
    let p = Protocol::new_with_password(None);
    assert!(matches!(p.recv_config(None), ConfigVerdict::Reject(CloseReason::BadConfig)));
}

#[test]
fn a_missing_password_fails_authentication() {
    let p = Protocol::new_with_password(Some("secret".to_string()));
    let verdict = p.recv_config(Some(config(true, 10, None, None)));
    assert!(matches!(verdict, ConfigVerdict::Reject(CloseReason::AuthenticationFailed)));
    let wrong = p.recv_config(Some(config(true, 10, None, Some("guess"))));
    assert!(matches!(wrong, ConfigVerdict::Reject(CloseReason::AuthenticationFailed)));
    assert!(!p.config_acked());
    assert_eq!(p.server_dispatch(ms(1)), ServerAction::RecvConfig);
}

#[test]
fn the_right_password_is_accepted() {
    let p = Protocol::new_with_password(Some("secret".to_string()));
    match p.recv_config(Some(config(false, 7, Some(5), Some("secret")))) {
        ConfigVerdict::Accept(tc) => {
            assert_eq!(tc.duration, TimeSpan::from_secs(7));
            assert_eq!(tc.bitrate_target, Some(5));
            assert!(!tc.client_sending);
        }
        other => panic!("unexpected {:?}", other),
    }
    let open = Protocol::new_with_password(None);
    assert!(matches!(
        open.recv_config(Some(config(true, 1, None, Some("anything")))),
        ConfigVerdict::Accept(_)
    ));
}

#[test]
fn the_acknowledgment_makes_the_configuration_known() {
    let mut p = Protocol::new_with_password(None);
    assert_eq!(
        p.ack_config(config(true, 3, None, None), StreamSend::Failed),
        Err(ProtocolError::StreamFailed)
    );
    assert!(!p.config_acked());
    assert!(p.tc().is_none());
    assert_eq!(p.ack_config(config(true, 3, None, None), StreamSend::Done), Ok(()));
    assert!(p.config_acked());
    assert_eq!(p.tc().map(|tc| tc.duration), Some(TimeSpan::from_secs(3)));
}

#[test]
fn a_server_never_paces_its_event_loop() {
    let p = running_server(config(false, 10, Some(1_000_000), None));
    assert_eq!(p.timeout(ms(50)), TimeSpan::max());
    assert_eq!(p.bitrate_target_quantum(ms(50)), Some(10_000));
}
