use quicheperf::cli::bitrate_from_size;
use quicheperf::cli::parse_bitrate;
use quicheperf::cli::parse_bool;
use quicheperf::cli::parse_path_status;
use quicheperf::cli::path_status_from_text;
use quicheperf::cli::scheduler_choice;
use quicheperf::cli::version;
use quicheperf::cli::PathStatusError;
use quicheperf::cli::SchedulerOpts;
use quicheperf::path::PathStatus;
use quicheperf::text::digit_count;
use quicheperf::text::parse_decimal;
use quicheperf::text::split;
use quicheperf::text::IntError;
use quicheperf::time::TimeSpan;
use quicheperf::updater::PathStatusUpdate;

#[test]
fn true_and_false_are_read() {
    assert_eq!(parse_bool("true"), Ok(true));
    assert_eq!(parse_bool("false"), Ok(false));
}

#[test]
fn anything_else_is_no_truth_value() {
    for s in ["", "True", "TRUE", "yes", "1", "0", " true", "true ", "falsey"] {
        assert_eq!(parse_bool(s), Err("expected `true` or `false`"));
    }
}

#[test]
fn the_default_strategy_is_the_lowest_round_trip_time() {
    assert_eq!(scheduler_choice(None), SchedulerOpts::MinRTT);
    assert_eq!(scheduler_choice(Some(SchedulerOpts::Blest)), SchedulerOpts::Blest);
    assert_eq!(scheduler_choice(Some(SchedulerOpts::RoundRobin)), SchedulerOpts::RoundRobin);
}

#[test]
fn a_bitrate_is_an_eighth_of_the_size() {
    assert_eq!(bitrate_from_size(0), 0);
    assert_eq!(bitrate_from_size(7), 0);
    assert_eq!(bitrate_from_size(8), 1);
    assert_eq!(bitrate_from_size(1_000_000), 125_000);
    assert_eq!(bitrate_from_size(u64::MAX), u64::MAX / 8);
}

#[test]
fn bitrates_are_read_with_units() {
    assert_eq!(parse_bitrate("8"), Ok(1));
    assert_eq!(parse_bitrate("1MB"), Ok(125_000));
    assert_eq!(parse_bitrate("1 KiB"), Ok(128));
    assert_eq!(parse_bitrate("1Mb"), Ok(125_000));
    assert_eq!(parse_bitrate("2.5 k"), Ok(312));
    assert_eq!(parse_bitrate("0"), Ok(0));
}

#[test]
fn a_text_of_twenty_digits_is_refused() {
    assert_eq!(parse_bitrate("1844674407370955161"), Ok(1844674407370955161 / 8));
    assert_eq!(parse_bitrate("9999999999999999999"), Ok(9999999999999999999 / 8));
    for text in [
        "18446744073709551615",
        "184467440737095516155",
        "1844674407370955161.55",
        "1e0000000000000000000",
        "0.0000000000000000001 KB",
    ] {
        assert_eq!(parse_bitrate(text), Err(format!("failed parsing {}", text)));
    }
    assert_eq!(digit_count(b"1844674407370955161.55"), 21);
    assert_eq!(digit_count(b"12 ab 3"), 3);
    assert_eq!(digit_count(b""), 0);
}

#[test]
fn a_text_that_is_no_size_is_no_bitrate() {
    assert_eq!(parse_bitrate("fast"), Err("failed parsing fast".to_string()));
    assert_eq!(parse_bitrate(""), Err("failed parsing ".to_string()));
    assert_eq!(parse_bitrate("1 ZB"), Err("failed parsing 1 ZB".to_string()));
    assert_eq!(parse_bitrate("-1"), Err("failed parsing -1".to_string()));
}

#[test]
fn decimal_numbers_are_read() {
    assert_eq!(parse_decimal(b"0", u64::MAX), Ok(0));
    assert_eq!(parse_decimal(b"007", u64::MAX), Ok(7));
    assert_eq!(parse_decimal(b"+42", u64::MAX), Ok(42));
    assert_eq!(parse_decimal(b"18446744073709551615", u64::MAX), Ok(u64::MAX));
    assert_eq!(parse_decimal(b"255", 255), Ok(255));
}

#[test]
fn what_is_no_number_is_refused_with_its_reason() {
    assert_eq!(parse_decimal(b"", u64::MAX), Err(IntError::Empty));
    assert_eq!(parse_decimal(b"+", u64::MAX), Err(IntError::InvalidDigit));
    assert_eq!(parse_decimal(b"-", u64::MAX), Err(IntError::InvalidDigit));
    assert_eq!(parse_decimal(b"-1", u64::MAX), Err(IntError::InvalidDigit));
    assert_eq!(parse_decimal(b"1 ", u64::MAX), Err(IntError::InvalidDigit));
    assert_eq!(parse_decimal(b"++1", u64::MAX), Err(IntError::InvalidDigit));
    assert_eq!(parse_decimal(b"1x", u64::MAX), Err(IntError::InvalidDigit));
    assert_eq!(parse_decimal(b"18446744073709551616", u64::MAX), Err(IntError::Overflow));
    assert_eq!(parse_decimal(b"256", 255), Err(IntError::Overflow));
    assert_eq!(parse_decimal(b"99999999999999999999x", u64::MAX), Err(IntError::Overflow));
    assert_eq!(parse_decimal(b"1x99999999999999999999", u64::MAX), Err(IntError::InvalidDigit));
    assert_eq!(parse_decimal(b"1", 0), Err(IntError::Overflow));
}

#[test]
fn text_is_cut_at_every_separator() {
    assert_eq!(split(b"a,b,c", b','), vec![b"a".to_vec(), b"b".to_vec(), b"c".to_vec()]);
    assert_eq!(split(b"", b','), vec![Vec::<u8>::new()]);
    assert_eq!(split(b",", b','), vec![Vec::<u8>::new(), Vec::<u8>::new()]);
    assert_eq!(split(b"ab", b','), vec![b"ab".to_vec()]);
    assert_eq!(split(b",a,,", b','), vec![vec![], b"a".to_vec(), vec![], vec![]]);
}

#[test]
fn a_status_change_is_seconds_path_and_status() {
    assert_eq!(
        parse_path_status("2,1,1"),
        Ok((TimeSpan::from_secs(2), 1, PathStatus::Standby))
    );
    assert_eq!(parse_path_status("0,0,2"), Ok((TimeSpan::zero(), 0, PathStatus::Available)));
    assert_eq!(parse_path_status("10,3,7"), Ok((TimeSpan::from_secs(10), 3, PathStatus::Broken)));
    assert_eq!(parse_path_status("1,2,3"), Ok((TimeSpan::from_secs(1), 2, PathStatus::Other(3))));
    assert_eq!(
        path_status_from_text(b"2,1,1"),
        Ok(PathStatusUpdate { delay: TimeSpan::from_secs(2), path_id: 1, status: PathStatus::Standby })
    );
}

#[test]
fn a_malformed_status_change_is_refused_with_its_reason() {
    let parts = Err("Failed to split status into three parts".to_string());
    assert_eq!(parse_path_status(""), parts);
    assert_eq!(parse_path_status("1,2"), parts);
    assert_eq!(parse_path_status("1,2,3,4"), parts);
    assert_eq!(parse_path_status("x,1,1"), Err("Failed to parse seconds".to_string()));
    assert_eq!(parse_path_status(",1,1"), Err("Failed to parse seconds".to_string()));
    assert_eq!(parse_path_status("1,-1,1"), Err("Failed to path path id".to_string()));
    assert_eq!(parse_path_status("1,,1"), Err("Failed to path path id".to_string()));
    assert_eq!(
        parse_path_status("1,1,"),
        Err("Failed to parse status integer: cannot parse integer from empty string".to_string())
    );
    assert_eq!(
        parse_path_status("1,1,standby"),
        Err("Failed to parse status integer: invalid digit found in string".to_string())
    );
    assert_eq!(
        parse_path_status("1,1,18446744073709551616"),
        Err("Failed to parse status integer: number too large to fit in target type".to_string())
    );
    assert_eq!(path_status_from_text(b"1;1;1"), Err(PathStatusError::Parts));
    assert_eq!(path_status_from_text(b"a,1,1"), Err(PathStatusError::Seconds));
    assert_eq!(path_status_from_text(b"1,a,1"), Err(PathStatusError::PathId));
    assert_eq!(path_status_from_text(b"1,1,a"), Err(PathStatusError::Status(IntError::InvalidDigit)));
}

#[test]
fn the_messages_are_those_of_the_integer_parser() {
    let text = "";
    assert_eq!(
        PathStatusError::Status(IntError::Empty).message(),
        format!("Failed to parse status integer: {}", text.parse::<u64>().unwrap_err())
    );
    assert_eq!(
        PathStatusError::Status(IntError::InvalidDigit).message(),
        format!("Failed to parse status integer: {}", "x".parse::<u64>().unwrap_err())
    );
    assert_eq!(
        PathStatusError::Status(IntError::Overflow).message(),
        format!(
            "Failed to parse status integer: {}",
            "99999999999999999999".parse::<u64>().unwrap_err()
        )
    );
}

#[test]
fn the_decimal_reader_agrees_with_the_standard_one() {
    for text in ["0", "12", "+5", "", "+", "-", "-3", "0x1", "18446744073709551615", "18446744073709551616", " 1", "1_0"] {
        assert_eq!(parse_decimal(text.as_bytes(), u64::MAX).ok(), text.parse::<u64>().ok());
    }
}

#[test]
fn the_version_is_told() {
    assert_eq!(version(), "0.1.0");
}
