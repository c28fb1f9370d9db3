use vstd::prelude::*;

verus! {

/// One snapshot of the statistics file. Mappings keyed by name (a model, an
/// hour label) are held as lists of `(key, value)` pairs, one pair per key.
#[derive(Debug, Clone, PartialEq, Eq)]
pub struct StatsCache {
    pub version: u32,
    pub last_computed_date: String,
    pub daily_activity: Vec<DailyActivity>,
    pub daily_model_tokens: Vec<DailyModelTokens>,
    pub model_usage: Vec<(String, ModelUsage)>,
    pub total_sessions: u64,
    pub total_messages: u64,
    pub longest_session: Option<LongestSession>,
    pub first_session_date: Option<String>,
    pub hour_counts: Option<Vec<(String, u64)>>,
}

/// Activity counters of one day.
#[derive(Debug, Clone, PartialEq, Eq)]
pub struct DailyActivity {
    pub date: String,
    pub message_count: u64,
    pub session_count: u64,
    pub tool_call_count: u64,
}

/// Tokens used on one day (`date`, `YYYY-MM-DD`), per model name.
#[derive(Debug, Clone, PartialEq, Eq)]
pub struct DailyModelTokens {
    pub date: String,
    pub tokens_by_model: Vec<(String, u64)>,
}

/// Cumulative usage of one model. The cost in US dollars is kept as the bit
/// pattern of its IEEE-754 double (`0` is `0.0`); nothing here computes with it.
#[derive(Debug, Clone, PartialEq, Eq)]
pub struct ModelUsage {
    pub input_tokens: u64,
    pub output_tokens: u64,
    pub cache_read_input_tokens: u64,
    pub cache_creation_input_tokens: u64,
    pub web_search_requests: u64,
    pub cost_usd_bits: u64,
}

/// The longest session seen so far.
#[derive(Debug, Clone, PartialEq, Eq)]
pub struct LongestSession {
    pub session_id: String,
    pub duration: u64,
    pub message_count: u64,
    pub timestamp: String,
}

/// No key occurs twice in a list of `(key, value)` pairs.
pub open spec fn unique_keys<V>(pairs: Seq<(String, V)>) -> bool {
    forall|i: int, j: int|
        0 <= i < j < pairs.len() ==> (#[trigger] pairs[i]).0@ != (#[trigger] pairs[j]).0@
}

impl DailyModelTokens {
    /// The per-model counts form a mapping: each model name once.
    pub open spec fn wf(&self) -> bool {
        unique_keys(self.tokens_by_model@)
    }
}

impl StatsCache {
    /// Every mapping of the snapshot names each key once.
    pub open spec fn wf(&self) -> bool {
        &&& unique_keys(self.model_usage@)
        &&& forall|i: int|
            0 <= i < self.daily_model_tokens@.len() ==> (#[trigger] self.daily_model_tokens@[i]).wf()
        &&& match self.hour_counts {
            Some(h) => unique_keys(h@),
            None => true,
        }
    }
}

} // verus!
