//! Token-usage statistics: the snapshot model, the monthly aggregate shown in
//! the status indicator, its human-readable formatting, and the decision
//! logic of the stats-file watcher loop.

mod calendar;
mod decimal;
mod format;
mod stats;
mod usage;
mod watch;

pub use calendar::{
    current_month_prefix, days_in_month, days_in_year, is_leap, lemma_month_prefix_shape,
    month_from, month_of, month_prefix, year_and_day, year_of, EPOCH_YEAR, SECONDS_PER_DAY,
};
pub use decimal::{decimal, digit_char, is_digit, zero_pad};
pub use format::{
    format_tokens, format_tokens_spec, lemma_format_tokens_bracket, one_decimal, rounded_tenths,
    scaled,
};
pub use stats::{
    unique_keys, DailyActivity, DailyModelTokens, LongestSession, ModelUsage, StatsCache,
};
pub use usage::{
    current_month_tokens, lemma_day_counts_only_in_month, lemma_no_days_no_tokens, month_tokens,
    sum_counts, tokens_with_prefix, tray_title, try_current_month_tokens, try_tokens_with_prefix,
};
pub use watch::{
    changes_content, is_name, lemma_event_refreshes, names_file, next_step, step_for, FsEventKind,
    LoopStep, WatchSignal, REFRESH_INTERVAL_SECS,
};
