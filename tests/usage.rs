use token_stats::{
    current_month_prefix, current_month_tokens, tray_title, try_current_month_tokens,
    DailyModelTokens, ModelUsage, StatsCache,
};

fn now_secs() -> u64 {
    std::time::SystemTime::now()
        .duration_since(std::time::UNIX_EPOCH)
        .unwrap()
        .as_secs()
}

fn make_stats(
    daily_model_tokens: Vec<DailyModelTokens>,
    model_usage: Vec<(String, ModelUsage)>,
) -> StatsCache {
    StatsCache {
        version: 1,
        last_computed_date: "2026-02-25".to_string(),
        daily_activity: vec![],
        daily_model_tokens,
        model_usage,
        total_sessions: 0,
        total_messages: 0,
        longest_session: None,
        first_session_date: None,
        hour_counts: None,
    }
}

fn day(date: &str, tokens: &[(&str, u64)]) -> DailyModelTokens {
    DailyModelTokens {
        date: date.to_string(),
        tokens_by_model: tokens.iter().map(|(m, t)| (m.to_string(), *t)).collect(),
    }
}

#[test]
fn current_month_tokens_empty() {
    let stats = make_stats(vec![], vec![]);
    assert_eq!(current_month_tokens(&stats, now_secs()), 0);
}

#[test]
fn current_month_tokens_filters_by_month() {
    let now = now_secs();
    let prefix = current_month_prefix(now);
    let stats = make_stats(
        vec![
            day(
                &format!("{}-15", prefix),
                &[("opus-4-6", 5000), ("sonnet-4-5", 3000)],
            ),
            day("2020-01-01", &[("opus-4-6", 9999)]),
        ],
        vec![],
    );
    assert_eq!(current_month_tokens(&stats, now), 8000);
}

#[test]
fn month_tokens_fixed_time() {
    // 2000-02-29
    let now = 951_782_400;
    let stats = make_stats(
        vec![
            day("2000-02-01", &[("a", 1), ("b", 2)]),
            day("2000-01-31", &[("a", 100)]),
            day("2000-02-29", &[("c", 30)]),
            day("2000-03-01", &[("a", 1000)]),
            day("2000-02", &[("a", 400)]),
            day("2000", &[("a", 5000)]),
        ],
        vec![],
    );
    assert_eq!(current_month_tokens(&stats, now), 433);
}

#[test]
fn month_tokens_overflow_is_reported() {
    let stats = make_stats(
        vec![
            day("1970-01-01", &[("a", u64::MAX)]),
            day("1970-01-02", &[("a", 1)]),
        ],
        vec![],
    );
    assert_eq!(try_current_month_tokens(&stats, 0), None);
    assert_eq!(tray_title(&stats, 0), None);
    let one_day = make_stats(vec![day("1970-01-09", &[("a", u64::MAX), ("b", 1)])], vec![]);
    assert_eq!(try_current_month_tokens(&one_day, 0), None);
}

#[test]
fn tray_title_formats_month_total() {
    let stats = make_stats(
        vec![
            day("1970-01-05", &[("a", 1_200_000), ("b", 300_000)]),
            day("1969-12-31", &[("a", 7)]),
        ],
        vec![],
    );
    assert_eq!(try_current_month_tokens(&stats, 0), Some(1_500_000));
    assert_eq!(tray_title(&stats, 0), Some("1.5M".to_string()));
    let empty = make_stats(vec![], vec![]);
    assert_eq!(tray_title(&empty, 0), Some("0".to_string()));
}
