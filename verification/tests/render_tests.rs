use emojiopticon::render::{create_gradient_bar, format_display, format_uptime, top_entries};
use emojiopticon::numfmt::u64_to_string;

#[test]
fn decimal_rendering_is_exact() {
    assert_eq!(u64_to_string(0), "0");
    assert_eq!(u64_to_string(7), "7");
    assert_eq!(u64_to_string(1234567890123), "1234567890123");
    assert_eq!(u64_to_string(u64::MAX), "18446744073709551615");
}

#[test]
fn uptime_omits_leading_zero_units() {
    assert_eq!(format_uptime(45), "45s");
    assert_eq!(format_uptime(65), "1m 5s");
    assert_eq!(format_uptime(3 * 3600 + 12 * 60 + 5), "3h 12m 5s");
    assert_eq!(format_uptime(86400 + 3661), "1d 1h 1m 1s");
    assert_eq!(format_uptime(0), "0s");
}

#[test]
fn gradient_bar_has_one_cell_per_count_up_to_fifty() {
    assert_eq!(create_gradient_bar(0), "");
    let one = create_gradient_bar(1);
    assert_eq!(one, "\u{1b}[38;5;46m\u{2588}\u{1b}[0m");
    let nine = create_gradient_bar(9);
    // width 9, log10(10) = 1: cells 0..=5 in the first bucket, 6..=8 in the second
    let mut expected = String::new();
    for i in 0..9u64 {
        if (i * 3) / 18 == 0 {
            expected.push_str("\u{1b}[38;5;46m\u{2588}\u{1b}[0m");
        } else {
            expected.push_str("\u{1b}[38;5;82m\u{2588}\u{1b}[0m");
        }
    }
    assert_eq!(nine, expected);
    // the bar never exceeds fifty cells
    let big = create_gradient_bar(1000);
    assert_eq!(big.matches('\u{2588}').count(), 50);
}

#[test]
fn top_entries_takes_exactly_the_largest() {
    let mut entries: Vec<(String, u64)> = Vec::new();
    for i in 1..=30u64 {
        entries.push((format!("q{:02}", i), i));
    }
    let top = top_entries(entries, 25);
    assert_eq!(top.len(), 25);
    assert_eq!(top[0].1, 30);
    assert_eq!(top[24].1, 6);
    for w in top.windows(2) {
        assert!(w[0].1 >= w[1].1);
    }
}

#[test]
fn frame_shows_top_25_and_no_more() {
    let mut entries: Vec<(String, u64)> = Vec::new();
    for i in 1..=26u64 {
        entries.push((format!("q{:02}", i), i));
    }
    let frame = format_display(entries, 2, 120, "steady", 45);
    // the smallest entry is left out, every other one is shown
    assert!(!frame.contains("q01"));
    for i in 2..=26u64 {
        assert!(frame.contains(&format!("q{:02}", i)));
    }
    assert!(frame.starts_with("\u{1b}[2J\u{1b}[H"));
    assert!(frame.contains("\u{1f4ca} Analysis: steady\n"));
    assert!(frame.contains("connected: 2 | posts/sec: 120 | uptime: 45s"));
}

#[test]
fn frame_lines_are_ordered_by_count() {
    let entries = vec![
        ("\u{1F680}".to_string(), 2u64),
        ("\u{1F389}".to_string(), 5u64),
    ];
    let frame = format_display(entries, 0, 0, "...", 0);
    let party = frame.find("\u{1F389}").unwrap();
    let rocket = frame.find("\u{1F680}").unwrap();
    assert!(party < rocket);
    // count column is right-aligned to five cells
    assert!(frame.contains("    5 "));
    assert!(frame.contains("    2 "));
}
