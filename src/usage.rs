use vstd::prelude::*;

use crate::calendar::{current_month_prefix, month_prefix};
use crate::format::{format_tokens, format_tokens_spec};
use crate::stats::{DailyModelTokens, StatsCache};

verus! {

/// The sum of the counts in a list of `(name, count)` pairs.
pub open spec fn sum_counts(pairs: Seq<(String, u64)>) -> int
    decreases pairs.len(),
{
    if pairs.len() == 0 {
        0
    } else {
        sum_counts(pairs.drop_last()) + pairs.last().1
    }
}

/// The tokens of all models over the days whose date starts with `prefix`.
pub open spec fn tokens_with_prefix(days: Seq<DailyModelTokens>, prefix: Seq<char>) -> int
    decreases days.len(),
{
    if days.len() == 0 {
        0
    } else {
        tokens_with_prefix(days.drop_last(), prefix) + if prefix.is_prefix_of(days.last().date@) {
            sum_counts(days.last().tokens_by_model@)
        } else {
            0
        }
    }
}

/// The tokens of all models over the days of the calendar month that holds
/// `now` seconds after the epoch.
pub open spec fn month_tokens(stats: StatsCache, now: nat) -> int {
    tokens_with_prefix(stats.daily_model_tokens@, month_prefix(now))
}

proof fn lemma_sum_counts_nonneg(pairs: Seq<(String, u64)>)
    ensures
        sum_counts(pairs) >= 0,
    decreases pairs.len(),
{
    if pairs.len() > 0 {
        lemma_sum_counts_nonneg(pairs.drop_last());
    }
}

/// Taking more days never lowers the total.
proof fn lemma_tokens_with_prefix_grows(days: Seq<DailyModelTokens>, prefix: Seq<char>, i: int)
    requires
        0 <= i <= days.len(),
    ensures
        0 <= tokens_with_prefix(days.take(i), prefix) <= tokens_with_prefix(days, prefix),
    decreases days.len(),
{
    if days.len() > 0 {
        lemma_sum_counts_nonneg(days.last().tokens_by_model@);
        if i == days.len() {
            assert(days.take(i) =~= days);
            lemma_tokens_with_prefix_grows(days.drop_last(), prefix, i - 1);
            assert(days.drop_last().take(i - 1) =~= days.drop_last());
        } else {
            lemma_tokens_with_prefix_grows(days.drop_last(), prefix, i);
            assert(days.drop_last().take(i) =~= days.take(i));
        }
    } else {
        assert(days.take(i) =~= days);
    }
}

/// Whether `text` starts with `prefix`.
fn starts_with(text: &str, prefix: &str) -> (r: bool)
    ensures
        r == prefix@.is_prefix_of(text@),
{
    let n = prefix.unicode_len();
    if n > text.unicode_len() {
        return false;
    }
    let mut i: usize = 0;
    while i < n
        invariant
            n == prefix@.len(),
            n <= text@.len(),
            i <= n,
            forall|j: int| 0 <= j < i ==> prefix@[j] == text@[j],
        decreases n - i,
    {
        if prefix.get_char(i) != text.get_char(i) {
            return false;
        }
        i = i + 1;
    }
    assert(prefix@ =~= text@.subrange(0, prefix@.len() as int));
    true
}

/// The sum of the counts of one day, or `None` if it exceeds `u64::MAX`.
fn try_sum_counts(pairs: &Vec<(String, u64)>) -> (r: Option<u64>)
    ensures
        match r {
            Some(t) => t as int == sum_counts(pairs@),
            None => sum_counts(pairs@) > u64::MAX,
        },
{
    let mut total: u64 = 0;
    let mut i: usize = 0;
    while i < pairs.len()
        invariant
            i <= pairs@.len(),
            total as int == sum_counts(pairs@.take(i as int)),
        decreases pairs@.len() - i,
    {
        assert(pairs@.take(i as int + 1).drop_last() =~= pairs@.take(i as int));
        match total.checked_add(pairs[i].1) {
            Some(t) => {
                total = t;
            },
            None => {
                proof {
                    lemma_sum_grows(pairs@, i as int + 1);
                }
                return None;
            },
        }
        i = i + 1;
    }
    assert(pairs@.take(i as int) =~= pairs@);
    Some(total)
}

proof fn lemma_sum_grows(pairs: Seq<(String, u64)>, i: int)
    requires
        0 <= i <= pairs.len(),
    ensures
        sum_counts(pairs.take(i)) <= sum_counts(pairs),
    decreases pairs.len(),
{
    if i == pairs.len() {
        assert(pairs.take(i) =~= pairs);
    } else {
        lemma_sum_grows(pairs.drop_last(), i);
        assert(pairs.drop_last().take(i) =~= pairs.take(i));
    }
}

/// The tokens of all models over the days whose date starts with `prefix`, or
/// `None` if that total exceeds `u64::MAX`.
pub fn try_tokens_with_prefix(days: &Vec<DailyModelTokens>, prefix: &str) -> (r: Option<u64>)
    ensures
        match r {
            Some(t) => t as int == tokens_with_prefix(days@, prefix@),
            None => tokens_with_prefix(days@, prefix@) > u64::MAX,
        },
{
    let mut total: u64 = 0;
    let mut i: usize = 0;
    while i < days.len()
        invariant
            i <= days@.len(),
            total as int == tokens_with_prefix(days@.take(i as int), prefix@),
        decreases days@.len() - i,
    {
        assert(days@.take(i as int + 1).drop_last() =~= days@.take(i as int));
        if starts_with(days[i].date.as_str(), prefix) {
            let day_total = match try_sum_counts(&days[i].tokens_by_model) {
                Some(t) => t,
                None => {
                    proof {
                        lemma_tokens_with_prefix_grows(days@, prefix@, i as int);
                        lemma_tokens_with_prefix_grows(days@, prefix@, i as int + 1);
                    }
                    return None;
                },
            };
            match total.checked_add(day_total) {
                Some(t) => {
                    total = t;
                },
                None => {
                    proof {
                        lemma_tokens_with_prefix_grows(days@, prefix@, i as int + 1);
                    }
                    return None;
                },
            }
        }
        i = i + 1;
    }
    assert(days@.take(i as int) =~= days@);
    Some(total)
}

/// The tokens used in the calendar month that holds `now_secs` seconds after
/// the epoch, or `None` if that total exceeds `u64::MAX`.
pub fn try_current_month_tokens(stats: &StatsCache, now_secs: u64) -> (r: Option<u64>)
    ensures
        match r {
            Some(t) => t as int == month_tokens(*stats, now_secs as nat),
            None => month_tokens(*stats, now_secs as nat) > u64::MAX,
        },
{
    let prefix = current_month_prefix(now_secs);
    try_tokens_with_prefix(&stats.daily_model_tokens, prefix.as_str())
}

/// The tokens used in the calendar month that holds `now_secs` seconds after
/// the epoch: every model's count on every day whose date starts with that
/// month's `YYYY-MM`.
pub fn current_month_tokens(stats: &StatsCache, now_secs: u64) -> (r: u64)
    requires
        month_tokens(*stats, now_secs as nat) <= u64::MAX,
    ensures
        r as int == month_tokens(*stats, now_secs as nat),
{
    match try_current_month_tokens(stats, now_secs) {
        Some(t) => t,
        None => 0,
    }
}

/// The indicator text for a snapshot: this month's tokens in display form,
/// or `None` when that total does not fit in a `u64`.
pub fn tray_title(stats: &StatsCache, now_secs: u64) -> (r: Option<String>)
    ensures
        match r {
            Some(t) => month_tokens(*stats, now_secs as nat) <= u64::MAX && t@ == format_tokens_spec(
                month_tokens(*stats, now_secs as nat) as nat,
            ),
            None => month_tokens(*stats, now_secs as nat) > u64::MAX,
        },
{
    match try_current_month_tokens(stats, now_secs) {
        Some(t) => Some(format_tokens(t)),
        None => None,
    }
}

/// With no daily token records, the month's total is zero.
pub proof fn lemma_no_days_no_tokens(stats: StatsCache, now: nat)
    requires
        stats.daily_model_tokens@.len() == 0,
    ensures
        month_tokens(stats, now) == 0,
{
}

/// A day outside the month leaves the total as it was; a day inside it adds
/// the tokens of all its models.
pub proof fn lemma_day_counts_only_in_month(
    days: Seq<DailyModelTokens>,
    day: DailyModelTokens,
    prefix: Seq<char>,
)
    ensures
        !prefix.is_prefix_of(day.date@) ==> tokens_with_prefix(days.push(day), prefix)
            == tokens_with_prefix(days, prefix),
        prefix.is_prefix_of(day.date@) ==> tokens_with_prefix(days.push(day), prefix)
            == tokens_with_prefix(days, prefix) + sum_counts(day.tokens_by_model@),
{
    assert(days.push(day).drop_last() =~= days);
}

} // verus!
