//! A water-drinking reminder: a parser for compact duration strings such as
//! `20m30s`, the reminder timing state machine, and the per-frame decisions
//! that a window shell renders.

mod config;
mod duration;
mod laws;
mod parser;
mod reminder;

pub use config::{config_from_text, Config, FSConfig, DEFAULT_INTERVAL_SECS};
pub use duration::{decimal, digit_char, mins_secs_text, pad2, to_string_mins_secs, Duration};
pub use parser::{
    digit_run_len, digits_value, is_ascii_alnum, is_ascii_space, is_digit, parse_at,
    parse_duration, parse_tokens, seconds_of, trimmed, unit_seconds, DurationParser, ParseError,
};
pub use reminder::{
    elapsed_ms, even_phase, idle_text, is_due, reminding_text, Frame, HydrationReminder,
    ReminderState, Screen, WARNING_PERIOD_MS,
};
pub use laws::{
    lemma_acknowledge_resets, lemma_invalid_suffix, lemma_missing_suffix, lemma_order_independent,
    lemma_parse_tokens_prefix, lemma_poll_transitions, lemma_tokens_round_trip, token_text,
    tokens_seconds, tokens_text, unit_sum, valid_units,
};
