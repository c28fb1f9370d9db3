use token_stats::current_month_prefix;

fn now_secs() -> u64 {
    std::time::SystemTime::now()
        .duration_since(std::time::UNIX_EPOCH)
        .unwrap()
        .as_secs()
}

#[test]
fn current_month_prefix_format() {
    let prefix = current_month_prefix(now_secs());
    assert_eq!(prefix.len(), 7);
    assert_eq!(&prefix[4..5], "-");
    let year: i32 = prefix[..4].parse().unwrap();
    assert!(year >= 2024 && year <= 2030);
    let month: u32 = prefix[5..7].parse().unwrap();
    assert!((1..=12).contains(&month));
}

#[test]
fn month_prefix_at_epoch() {
    assert_eq!(current_month_prefix(0), "1970-01");
    assert_eq!(current_month_prefix(86_399), "1970-01");
    assert_eq!(current_month_prefix(31 * 86_400), "1970-02");
}

#[test]
fn month_prefix_leap_day() {
    assert_eq!(current_month_prefix(951_782_400), "2000-02");
    assert_eq!(current_month_prefix(951_868_800), "2000-03");
}

#[test]
fn month_prefix_century_not_leap() {
    assert_eq!(current_month_prefix(4_107_456_000), "2100-02");
    assert_eq!(current_month_prefix(4_107_542_400), "2100-03");
}

#[test]
fn month_prefix_year_end() {
    assert_eq!(current_month_prefix(1_735_603_200), "2024-12");
    assert_eq!(current_month_prefix(1_735_689_600), "2025-01");
    assert_eq!(current_month_prefix(253_402_214_400), "9999-12");
}

#[test]
fn month_prefix_past_year_9999_grows() {
    assert_eq!(current_month_prefix(253_402_300_800), "10000-01");
}

#[test]
fn month_prefix_shape_over_many_times() {
    let mut t: u64 = 0;
    while t < 253_402_214_400 {
        let p = current_month_prefix(t);
        assert_eq!(p.len(), 7);
        assert!(p[..4].chars().all(|c| c.is_ascii_digit()));
        assert_eq!(&p[4..5], "-");
        let month: u32 = p[5..7].parse().unwrap();
        assert!((1..=12).contains(&month));
        t += 1_234_567_891;
    }
}
