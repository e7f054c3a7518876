use crate::duration::Duration;
use crate::parser::{is_ascii_space, parse_at, parse_duration, rest_from, seconds_of, trimmed, DurationParser};
use vstd::prelude::*;

verus! {

/// The interval used when no configuration is found or its text is refused.
pub const DEFAULT_INTERVAL_SECS: u64 = 1200;

/// The configuration record as stored: the interval in shorthand form,
/// any number of `<digits><unit>` tokens with unit `s`, `m` or `h`
/// (`30m`, `20m30s`, `10h10m10s`, `10s2h`, `20s20s80s`).
#[derive(Debug, Clone)]
pub struct FSConfig {
    pub reminder_interval: String,
}

impl FSConfig {
    pub fn new(reminder_interval: String) -> (r: FSConfig)
        ensures
            r.reminder_interval@ == reminder_interval@,
    {
        FSConfig { reminder_interval }
    }
}

impl Default for FSConfig {
    /// The stored form of the default interval.
    fn default() -> (r: FSConfig)
        ensures
            r.reminder_interval@ == "20m"@,
    {
        FSConfig { reminder_interval: "20m".to_owned() }
    }
}

/// The settings the reminder runs with.
#[derive(Debug, Clone, Copy, PartialEq, Eq, Structural)]
pub struct Config {
    pub reminder_interval: Duration,
    /// The stored text was refused and `reminder_interval` is the fallback.
    pub time_parsing_failed: bool,
    /// No stored configuration was found at all.
    pub is_default: bool,
}

/// The configuration read from the stored text `text`, with `fallback`
/// standing in for an interval that does not parse.
pub open spec fn config_from_text(text: Seq<char>, fallback: Duration) -> Config {
    match parse_duration(trimmed(text)) {
        Ok(n) => Config {
            reminder_interval: Duration { secs: n as u64 },
            time_parsing_failed: false,
            is_default: false,
        },
        Err(_) => Config { reminder_interval: fallback, time_parsing_failed: true, is_default: false },
    }
}

impl Config {
    /// Parses the stored interval text, falling back to `fallback` on any failure.
    pub fn from_text(text: &str, fallback: Duration) -> (r: Config)
        ensures
            r == config_from_text(text@, fallback),
            (forall|i: int| 0 <= i < text@.len() ==> is_ascii_space(#[trigger] text@[i]))
                ==> r.time_parsing_failed && r.reminder_interval == fallback,
    {
        let mut parser = DurationParser::new(text);
        let parsed = parser.get();
        proof {
            assert(rest_from(trimmed(text@), 0) =~= trimmed(text@));
            assert(parse_at(trimmed(text@), 0) == parse_duration(trimmed(text@)));
        }
        match parsed {
            Ok(d) => Config { reminder_interval: d, time_parsing_failed: false, is_default: false },
            Err(_) => Config {
                reminder_interval: fallback,
                time_parsing_failed: true,
                is_default: false,
            },
        }
    }

    /// The configuration used when nothing is stored.
    pub fn fallback(interval: Duration) -> (r: Config)
        ensures
            r == (Config { reminder_interval: interval, time_parsing_failed: false, is_default: true }),
    {
        Config { reminder_interval: interval, time_parsing_failed: false, is_default: true }
    }
}

impl From<FSConfig> for Config {
    fn from(value: FSConfig) -> (r: Config) {
        Config::from_text(value.reminder_interval.as_str(), Duration::from_secs(DEFAULT_INTERVAL_SECS))
    }
}

impl vstd::std_specs::convert::FromSpecImpl<FSConfig> for Config {
    open spec fn obeys_from_spec() -> bool {
        true
    }

    open spec fn from_spec(v: FSConfig) -> Config {
        config_from_text(v.reminder_interval@, Duration { secs: DEFAULT_INTERVAL_SECS })
    }
}

impl Default for Config {
    fn default() -> (r: Config)
        ensures
            r == (Config {
                reminder_interval: Duration { secs: DEFAULT_INTERVAL_SECS },
                time_parsing_failed: false,
                is_default: true,
            }),
    {
        Config::fallback(Duration::from_secs(DEFAULT_INTERVAL_SECS))
    }
}

} // verus!
