use token_stats::format_tokens;

#[test]
fn format_tokens_zero() {
    assert_eq!(format_tokens(0), "0");
}

#[test]
fn format_tokens_under_thousand() {
    assert_eq!(format_tokens(1), "1");
    assert_eq!(format_tokens(999), "999");
}

#[test]
fn format_tokens_thousands() {
    assert_eq!(format_tokens(1000), "1.0K");
    assert_eq!(format_tokens(1500), "1.5K");
    assert_eq!(format_tokens(999_999), "1000.0K");
}

#[test]
fn format_tokens_millions() {
    assert_eq!(format_tokens(1_000_000), "1.0M");
    assert_eq!(format_tokens(2_500_000), "2.5M");
    assert_eq!(format_tokens(999_999_999), "1000.0M");
}

#[test]
fn format_tokens_billions() {
    assert_eq!(format_tokens(1_000_000_000), "1.0B");
    assert_eq!(format_tokens(3_700_000_000), "3.7B");
}

#[test]
fn format_tokens_rounds_half_up() {
    assert_eq!(format_tokens(1_049), "1.0K");
    assert_eq!(format_tokens(1_050), "1.1K");
    assert_eq!(format_tokens(1_250), "1.3K");
    assert_eq!(format_tokens(2_449_999), "2.4M");
    assert_eq!(format_tokens(2_450_000), "2.5M");
}

#[test]
fn format_tokens_largest_count() {
    assert_eq!(format_tokens(u64::MAX), "18446744073.7B");
}

#[test]
fn format_tokens_one_bracket_each() {
    for n in [0u64, 7, 999, 1_000, 54_321, 999_999, 1_000_000, 999_999_999, 1_000_000_000, u64::MAX] {
        let s = format_tokens(n);
        let last = s.chars().last().unwrap();
        assert_eq!(last == 'B', n >= 1_000_000_000);
        assert_eq!(last == 'M', (1_000_000..1_000_000_000).contains(&n));
        assert_eq!(last == 'K', (1_000..1_000_000).contains(&n));
        assert_eq!(last.is_ascii_digit(), n < 1_000);
    }
}
