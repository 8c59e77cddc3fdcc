use gitgc::measure::{
    find_last_field, is_space_byte, parse_decimal, parse_size_report, read_line, size_git_repo,
    starts_with, MeasureError, ToolRun,
};

#[test]
fn size_lines_are_added_up() {
    let report = b"count: 3\nsize: 10\nin-pack: 12\npacks: 1\nsize-pack: 5\nprune-packable: 0\ngarbage: 0\nsize-garbage: 0\n";
    assert_eq!(parse_size_report(report), Ok((10 + 5 + 0) * 1024));
}

#[test]
fn report_of_a_packed_repository() {
    let report = b"count: 0\nsize: 0\nin-pack: 1234\npacks: 1\nsize-pack: 2000\nprune-packable: 0\ngarbage: 0\nsize-garbage: 0\n";
    assert_eq!(parse_size_report(report), Ok(2_048_000));
}

#[test]
fn each_label_counts() {
    assert_eq!(parse_size_report(b"size: 1\n"), Ok(1024));
    assert_eq!(parse_size_report(b"size-pack: 2\n"), Ok(2048));
    assert_eq!(parse_size_report(b"size-garbage: 3\n"), Ok(3072));
    assert_eq!(parse_size_report(b"size: 1\nsize-pack: 2\nsize-garbage: 3\n"), Ok(6144));
}

#[test]
fn empty_report_has_size_zero() {
    assert_eq!(parse_size_report(b""), Ok(0));
    assert_eq!(parse_size_report(b"\n\n\n"), Ok(0));
}

#[test]
fn other_lines_are_passed_over() {
    assert_eq!(parse_size_report(b"count: 7\npacks: x y z\nwarning: garbage\n"), Ok(0));
    assert_eq!(parse_size_report(b" size: 10\n"), Ok(0));
    assert_eq!(parse_size_report(b"sizes: 10\n"), Ok(0));
    assert_eq!(parse_size_report(b"size-other: 10\n"), Ok(0));
    assert_eq!(parse_size_report(b"Size: 10\n"), Ok(0));
    assert_eq!(parse_size_report(b"in-pack: 12\nsize"), Ok(0));
}

#[test]
fn last_line_needs_no_line_feed() {
    assert_eq!(parse_size_report(b"size: 10\nsize-pack: 5"), Ok(15 * 1024));
    assert_eq!(parse_size_report(b"size: 4"), Ok(4096));
}

#[test]
fn carriage_returns_and_blanks_separate_fields() {
    assert_eq!(parse_size_report(b"size: 10\r\nsize-pack: 5\r\n"), Ok(15 * 1024));
    assert_eq!(parse_size_report(b"size:\t10\nsize-pack:   5  \n"), Ok(15 * 1024));
    assert_eq!(parse_size_report(b"size: 3 4 5\n"), Ok(5 * 1024));
}

#[test]
fn number_may_have_a_plus_and_zeroes() {
    assert_eq!(parse_size_report(b"size: +7\n"), Ok(7 * 1024));
    assert_eq!(parse_size_report(b"size: 0007\n"), Ok(7 * 1024));
}

#[test]
fn size_line_without_number_is_unparseable() {
    assert_eq!(parse_size_report(b"size: abc\n"), Err(MeasureError::Unparseable));
    assert_eq!(parse_size_report(b"size:\n"), Err(MeasureError::Unparseable));
    assert_eq!(parse_size_report(b"size:10\n"), Err(MeasureError::Unparseable));
    assert_eq!(parse_size_report(b"size: 12x\n"), Err(MeasureError::Unparseable));
    assert_eq!(parse_size_report(b"size: -3\n"), Err(MeasureError::Unparseable));
    assert_eq!(parse_size_report(b"size: +\n"), Err(MeasureError::Unparseable));
    assert_eq!(parse_size_report(b"size: 1.5\n"), Err(MeasureError::Unparseable));
    assert_eq!(parse_size_report(b"size-pack: 5 KiB\n"), Err(MeasureError::Unparseable));
    assert_eq!(
        parse_size_report(b"size: 1\nsize-garbage: none\nsize-pack: 2\n"),
        Err(MeasureError::Unparseable)
    );
}

#[test]
fn number_beyond_u64_is_unparseable() {
    assert_eq!(
        parse_size_report(b"size: 18446744073709551616\n"),
        Err(MeasureError::Unparseable)
    );
    assert_eq!(
        parse_size_report(b"size: 99999999999999999999999999\n"),
        Err(MeasureError::Unparseable)
    );
}

#[test]
fn size_beyond_u64_is_an_overflow() {
    assert_eq!(parse_size_report(b"size: 18446744073709551615\n"), Err(MeasureError::Overflow));
    assert_eq!(
        parse_size_report(b"size: 18446744073709551615\nsize-pack: 1\n"),
        Err(MeasureError::Overflow)
    );
    assert_eq!(parse_size_report(b"size: 18014398509481984\n"), Err(MeasureError::Overflow));
    assert_eq!(
        parse_size_report(b"size: 18014398509481983\n"),
        Ok(18014398509481983 * 1024)
    );
}

#[test]
fn unparseable_line_counts_before_overflow() {
    assert_eq!(
        parse_size_report(b"size: 18446744073709551615\nsize-pack: 1\nsize-garbage: x\n"),
        Err(MeasureError::Unparseable)
    );
    assert_eq!(
        parse_size_report(b"size-garbage: x\nsize: 18446744073709551615\nsize-pack: 1\n"),
        Err(MeasureError::Unparseable)
    );
}

#[test]
fn missing_report_is_an_error() {
    assert_eq!(size_git_repo(&ToolRun::Unavailable), Err(MeasureError::ToolUnavailable));
    assert_eq!(size_git_repo(&ToolRun::Failed), Err(MeasureError::ToolFailed));
}

#[test]
fn report_at_hand_is_read() {
    let report = b"size: 1000\nsize-pack: 0\nsize-garbage: 0\n".to_vec();
    assert_eq!(size_git_repo(&ToolRun::Reported(report)), Ok(1_024_000));
    let broken = b"size: ?\n".to_vec();
    assert_eq!(size_git_repo(&ToolRun::Reported(broken)), Err(MeasureError::Unparseable));
    let large = b"size-pack: 18446744073709551615\n".to_vec();
    assert_eq!(size_git_repo(&ToolRun::Reported(large)), Err(MeasureError::Overflow));
    assert_eq!(size_git_repo(&ToolRun::Reported(Vec::new())), Ok(0));
}

#[test]
fn parse_decimal_reads_numbers() {
    assert_eq!(parse_decimal(b"0"), Some(0));
    assert_eq!(parse_decimal(b"15"), Some(15));
    assert_eq!(parse_decimal(b"+15"), Some(15));
    assert_eq!(parse_decimal(b"000"), Some(0));
    assert_eq!(parse_decimal(b"18446744073709551615"), Some(u64::MAX));
    assert_eq!(parse_decimal(b"018446744073709551615"), Some(u64::MAX));
}

#[test]
fn parse_decimal_refuses_the_rest() {
    assert_eq!(parse_decimal(b""), None);
    assert_eq!(parse_decimal(b"+"), None);
    assert_eq!(parse_decimal(b"-1"), None);
    assert_eq!(parse_decimal(b"++1"), None);
    assert_eq!(parse_decimal(b"1+"), None);
    assert_eq!(parse_decimal(b"12a"), None);
    assert_eq!(parse_decimal(b" 12"), None);
    assert_eq!(parse_decimal(b"18446744073709551616"), None);
    assert_eq!(parse_decimal(b"184467440737095516150"), None);
}

#[test]
fn last_field_of_a_line() {
    assert_eq!(find_last_field(b"size: 10"), b"10");
    assert_eq!(find_last_field(b"size: 10 \t\r"), b"10");
    assert_eq!(find_last_field(b"a b c"), b"c");
    assert_eq!(find_last_field(b"word"), b"word");
    assert_eq!(find_last_field(b"  lead"), b"lead");
    assert_eq!(find_last_field(b""), b"");
    assert_eq!(find_last_field(b"   "), b"");
}

#[test]
fn white_space_bytes() {
    for byte in [b' ', b'\t', b'\n', 0x0b, 0x0c, b'\r'] {
        assert!(is_space_byte(byte));
    }
    for byte in [0u8, 0x08, 0x0e, 0x1f, b'0', b':', b'a', 0x7f, 0xa0, 0xff] {
        assert!(!is_space_byte(byte));
    }
}

#[test]
fn starts_with_compares_the_beginning() {
    assert!(starts_with(b"size: 10", b"size:"));
    assert!(starts_with(b"size:", b"size:"));
    assert!(starts_with(b"anything", b""));
    assert!(!starts_with(b"size", b"size:"));
    assert!(!starts_with(b"Size: 10", b"size:"));
    assert!(!starts_with(b"", b"s"));
}

#[test]
fn read_line_gives_what_a_line_adds() {
    assert_eq!(read_line(b"size: 10"), Some(10));
    assert_eq!(read_line(b"size-pack: 5"), Some(5));
    assert_eq!(read_line(b"size-garbage: 0"), Some(0));
    assert_eq!(read_line(b"count: 99"), Some(0));
    assert_eq!(read_line(b""), Some(0));
    assert_eq!(read_line(b"size: ten"), None);
    assert_eq!(read_line(b"size-pack:"), None);
}

#[test]
fn measure_errors_have_messages() {
    let all = [
        MeasureError::ToolUnavailable,
        MeasureError::ToolFailed,
        MeasureError::Unparseable,
        MeasureError::Overflow,
    ];
    for (i, error) in all.iter().enumerate() {
        assert!(!error.message().is_empty());
        for other in &all[i + 1..] {
            assert_ne!(error.message(), other.message());
        }
    }
}
