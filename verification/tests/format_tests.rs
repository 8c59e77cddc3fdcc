use gitgc::format::{
    announce_line, format_size, render_delta, report_line, size_delta, size_diff_format,
};

/// The percentage as a caller computes it: the ratio of the two sizes in
/// percent, less one hundred, with two decimals.
fn percentage(before: u64, after: u64) -> String {
    format!("{:.2}", (after as f64 / before as f64) * 100.0 - 100.0)
}

fn has_sign_or_percent(text: &str) -> bool {
    text.contains('+') || text.contains('-') || text.contains('%')
}

#[test]
fn format_size_uses_decimal_units() {
    assert_eq!(format_size(0), "0 B");
    assert_eq!(format_size(999), "999 B");
    assert_eq!(format_size(1000), "1 KB");
    assert_eq!(format_size(1023), "1.02 KB");
    assert_eq!(format_size(1024), "1.02 KB");
    assert_eq!(format_size(5500), "5.50 KB");
    assert_eq!(format_size(1_024_000), "1.02 MB");
    assert_eq!(format_size(2_048_000), "2.05 MB");
    assert_eq!(format_size(3_000_000_000), "3 GB");
}

#[test]
fn format_size_of_the_largest_count() {
    assert_eq!(format_size(u64::MAX), "18.45 EB");
}

#[test]
fn unchanged_size_is_reported_alone() {
    assert_eq!(size_diff_format(1000, 1000, false, "0.00"), "1 KB");
    assert_eq!(size_diff_format(2_048_000, 2_048_000, false, "0.00"), "2.05 MB");
}

#[test]
fn unchanged_size_with_size_before() {
    assert_eq!(size_diff_format(1000, 1000, true, "0.00"), "1 KB => 1 KB");
    assert_eq!(size_diff_format(0, 0, true, "NaN"), "0 B => 0 B");
}

#[test]
fn unchanged_size_has_no_sign_and_no_percentage() {
    let sizes: [u64; 7] = [0, 1, 999, 1000, 1_500_000, 1 << 40, u64::MAX];
    for size in sizes {
        let p = "-12.34";
        assert!(!has_sign_or_percent(&size_diff_format(size, size, false, p)));
        assert!(!has_sign_or_percent(&size_diff_format(size, size, true, p)));
    }
}

#[test]
fn shrunken_size_is_reported_with_minus() {
    let p = percentage(2_048_000, 1_024_000);
    assert_eq!(p, "-50.00");
    assert_eq!(
        size_diff_format(2_048_000, 1_024_000, false, &p),
        "1.02 MB (-1.02 MB, -50.00%)"
    );
    assert_eq!(
        size_diff_format(2_048_000, 1_024_000, true, &p),
        "2.05 MB => 1.02 MB (-1.02 MB, -50.00%)"
    );
}

#[test]
fn shrunken_size_has_negative_delta_and_percentage() {
    let pairs: [(u64, u64); 5] =
        [(1, 0), (1000, 999), (5_000_000, 17), (1 << 50, 1 << 20), (u64::MAX, 1)];
    for (before, after) in pairs {
        let p = percentage(before, after);
        assert!(p.starts_with('-'));
        let text = size_diff_format(before, after, false, &p);
        let inner = &text[text.find('(').unwrap() + 1..text.len() - 1];
        let (delta, figure) = inner.split_once(", ").unwrap();
        assert!(delta.starts_with('-'));
        assert!(!delta.contains('+'));
        assert!(figure.starts_with('-'));
        assert!(figure.ends_with('%'));
        assert_eq!(delta, render_delta(before, after));
    }
}

#[test]
fn grown_size_is_reported_with_plus() {
    let p = percentage(1000, 1500);
    assert_eq!(p, "50.00");
    assert_eq!(size_diff_format(1000, 1500, false, &p), "1.50 KB (+500 B, 50.00%)");
    assert_eq!(size_diff_format(1000, 1500, true, &p), "1 KB => 1.50 KB (+500 B, 50.00%)");
}

#[test]
fn grown_size_has_explicit_plus_and_positive_percentage() {
    let pairs: [(u64, u64); 4] = [(1, 2), (999, 1000), (17, 5_000_000), (1 << 20, 1 << 50)];
    for (before, after) in pairs {
        let p = percentage(before, after);
        assert!(!p.starts_with('-'));
        let text = size_diff_format(before, after, true, &p);
        let inner = &text[text.find('(').unwrap() + 1..text.len() - 1];
        let (delta, figure) = inner.split_once(", ").unwrap();
        assert!(delta.starts_with('+'));
        assert!(!delta[1..].contains('+'));
        assert!(!delta.contains('-'));
        assert!(!figure.starts_with('-'));
        assert!(figure.ends_with('%'));
    }
}

#[test]
fn change_from_zero_shows_inf() {
    assert_eq!(size_diff_format(0, 5, false, "12.00"), "5 B (+5 B, inf%)");
    assert_eq!(size_diff_format(0, 5, false, ""), "5 B (+5 B, inf%)");
    assert_eq!(size_diff_format(0, 1_024_000, true, "x"), "0 B => 1.02 MB (+1.02 MB, inf%)");
    assert_eq!(percentage(0, 5), "inf");
}

#[test]
fn change_to_zero() {
    let p = percentage(4096, 0);
    assert_eq!(p, "-100.00");
    assert_eq!(size_diff_format(4096, 0, true, &p), "4.10 KB => 0 B (-4.10 KB, -100.00%)");
}

#[test]
fn percentage_is_taken_as_it_is() {
    assert_eq!(size_diff_format(10, 20, false, "about double"), "20 B (+10 B, about double%)");
}

#[test]
fn formatting_twice_gives_the_same_text() {
    let cases: [(u64, u64, bool); 6] = [
        (0, 0, true),
        (0, 7, false),
        (1000, 1000, false),
        (2_048_000, 1_024_000, true),
        (1_024_000, 2_048_000, false),
        (u64::MAX, 0, true),
    ];
    for (before, after, show) in cases {
        let first = size_diff_format(before, after, show, "1.00");
        let second = size_diff_format(before, after, show, "1.00");
        assert_eq!(first, second);
    }
}

#[test]
fn difference_beyond_the_signed_range() {
    assert_eq!(render_delta(0, u64::MAX), "+18.45 EB");
    assert_eq!(render_delta(u64::MAX, 0), "-18.45 EB");
    assert_eq!(render_delta(0, 1 << 63), "+9.22 EB");
    assert_eq!(render_delta(1 << 63, 0), "-9.22 EB");
    assert_eq!(
        size_diff_format(u64::MAX, 0, false, "-100.00"),
        "0 B (-18.45 EB, -100.00%)"
    );
    assert_eq!(size_diff_format(0, u64::MAX, false, ""), "18.45 EB (+18.45 EB, inf%)");
}

#[test]
fn render_delta_signs() {
    assert_eq!(render_delta(7, 7), "0 B");
    assert_eq!(render_delta(0, 5500), "+5.50 KB");
    assert_eq!(render_delta(5500, 0), "-5.50 KB");
    assert_eq!(render_delta(1000, 999), "-1 B");
    assert_eq!(render_delta(999, 1000), "+1 B");
    assert_eq!(render_delta((1 << 63) - 1, 0), "-9.22 EB");
    assert_eq!(render_delta(0, (1 << 63) - 1), "+9.22 EB");
}

#[test]
fn size_delta_where_it_fits() {
    assert_eq!(size_delta(0, 0), Some(0));
    assert_eq!(size_delta(10, 25), Some(15));
    assert_eq!(size_delta(25, 10), Some(-15));
    assert_eq!(size_delta(0, i64::MAX as u64), Some(i64::MAX));
    assert_eq!(size_delta(i64::MAX as u64, 0), Some(-i64::MAX));
    assert_eq!(size_delta(u64::MAX, u64::MAX - 1), Some(-1));
}

#[test]
fn size_delta_where_it_does_not_fit() {
    assert_eq!(size_delta(0, 1 << 63), None);
    assert_eq!(size_delta(1 << 63, 0), None);
    assert_eq!(size_delta(0, u64::MAX), None);
    assert_eq!(size_delta(u64::MAX, 0), None);
}

#[test]
fn announce_line_shows_the_size_before() {
    assert_eq!(announce_line("\"/srv/a/.git/\"", 2_048_000), "Repo: \"/srv/a/.git/\": 2.05 MB => ");
    assert_eq!(announce_line("", 0), "Repo: : 0 B => ");
}

#[test]
fn report_line_adds_the_change() {
    assert_eq!(
        report_line("\"/srv/a/.git/\"", 2_048_000, 1_024_000, "-50.00"),
        "Repo: \"/srv/a/.git/\": 2.05 MB => 1.02 MB (-1.02 MB, -50.00%)"
    );
    assert_eq!(report_line("r", 1000, 1000, "0.00"), "Repo: r: 1 KB => 1 KB");
}
