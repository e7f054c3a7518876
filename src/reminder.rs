use crate::config::Config;
use crate::duration::{mins_secs_text, to_string_mins_secs, Duration};
use vstd::prelude::*;

verus! {

/// How long after startup a refused interval text is reported, in milliseconds.
pub const WARNING_PERIOD_MS: u64 = 10_000;

/// Milliseconds from `from` to `now`, zero when `now` is earlier.
pub open spec fn elapsed_ms(from: u64, now: u64) -> nat {
    if now >= from {
        (now - from) as nat
    } else {
        0
    }
}

/// More than `interval_secs` seconds have passed from `from` to `now`.
pub open spec fn is_due(from: u64, now: u64, interval_secs: u64) -> bool {
    elapsed_ms(from, now) > interval_secs * 1000
}

/// Whole seconds from `since` to `now` are even: the first of the two
/// alternating reminder colours.
pub open spec fn even_phase(since: u64, now: u64) -> bool {
    (elapsed_ms(since, now) / 1000) % 2 == 0
}

fn elapsed_between(from: u64, now: u64) -> (r: u64)
    ensures
        r == elapsed_ms(from, now),
{
    if now >= from {
        now - from
    } else {
        0
    }
}

/// The reminder timing state: idle until the interval has passed since the
/// last acknowledgment, then reminding until the next one.
#[derive(Debug, Clone, Copy, PartialEq, Eq, Structural)]
pub struct ReminderState {
    /// Time of the last acknowledgment, or of construction, in milliseconds.
    pub last_acknowledged: u64,
    /// At least one acknowledgment has happened.
    pub armed: bool,
    /// The last poll found the interval passed.
    pub reminding: bool,
    /// When `reminding` last turned from false to true.
    pub reminding_since: u64,
}

impl ReminderState {
    /// The state after a poll at `now` with an interval of `interval_secs`.
    pub open spec fn polled(self, now: u64, interval_secs: u64) -> ReminderState {
        let due = is_due(self.last_acknowledged, now, interval_secs);
        ReminderState {
            reminding: due,
            reminding_since: if due && !self.reminding {
                now
            } else {
                self.reminding_since
            },
            ..self
        }
    }

    /// The state after an acknowledgment at `now`.
    pub open spec fn acknowledged(self, now: u64) -> ReminderState {
        ReminderState { last_acknowledged: now, armed: true, reminding: false, ..self }
    }

    /// A fresh, idle state whose countdown starts at `now_ms`.
    pub fn new(now_ms: u64) -> (r: ReminderState)
        ensures
            r == (ReminderState {
                last_acknowledged: now_ms,
                armed: false,
                reminding: false,
                reminding_since: now_ms,
            }),
    {
        ReminderState {
            last_acknowledged: now_ms,
            armed: false,
            reminding: false,
            reminding_since: now_ms,
        }
    }

    /// Re-evaluates, at `now_ms`, whether the interval has passed; returns
    /// whether the state is now reminding.
    pub fn poll(&mut self, now_ms: u64, interval: Duration) -> (r: bool)
        ensures
            *final(self) == old(self).polled(now_ms, interval.secs),
            r == final(self).reminding,
    {
        let elapsed = elapsed_between(self.last_acknowledged, now_ms);
        let due = (elapsed as u128) > (interval.as_secs() as u128) * 1000;
        if due && !self.reminding {
            self.reminding_since = now_ms;
        }
        self.reminding = due;
        due
    }

    /// The user drank: back to idle, with the countdown restarted at `now_ms`.
    pub fn acknowledge(&mut self, now_ms: u64)
        ensures
            *final(self) == old(self).acknowledged(now_ms),
    {
        self.last_acknowledged = now_ms;
        self.armed = true;
        self.reminding = false;
    }

    /// Which of the two alternating reminder colours shows at `now_ms`.
    pub fn flash_phase(&self, now_ms: u64) -> (r: bool)
        ensures
            r == even_phase(self.reminding_since, now_ms),
    {
        (elapsed_between(self.reminding_since, now_ms) / 1000) % 2 == 0
    }
}

/// What the window shows in one frame.
#[derive(Debug)]
pub enum Screen {
    /// The configured interval was refused and the default is in use.
    Warning,
    /// Time to drink: `first_colour` picks one of two alternating colours.
    Reminding { first_colour: bool, text: String },
    /// Waiting for the interval to pass.
    Idle { text: String },
}

/// One frame's decision: what to show and when to look again.
#[derive(Debug)]
pub struct Frame {
    pub screen: Screen,
    pub repaint_after_secs: u64,
}

/// The text of a reminding frame.
pub open spec fn reminding_text(state: ReminderState, now: u64, hovering: bool) -> Seq<char> {
    if hovering {
        mins_secs_text(elapsed_ms(state.reminding_since, now) / 1000)
    } else {
        "Hydrate \u{1f4a7}"@
    }
}

/// The text of an idle frame.
pub open spec fn idle_text(state: ReminderState, now: u64, hovering: bool) -> Seq<char> {
    if hovering {
        mins_secs_text(elapsed_ms(state.last_acknowledged, now) / 1000)
    } else {
        "Nice"@
    }
}

/// The reminder as the window drives it.
#[derive(Debug)]
pub struct HydrationReminder {
    /// Start of the process, in milliseconds.
    pub startup_time: u64,
    pub state: ReminderState,
    pub config: Config,
}

impl HydrationReminder {
    /// The reminder shows the refusal of its configured interval at `now`.
    pub open spec fn warns(&self, now: u64) -> bool {
        self.config.time_parsing_failed && elapsed_ms(self.startup_time, now) < WARNING_PERIOD_MS
    }

    /// A reminder started at `now_ms` with `config`.
    pub fn new(config: Config, now_ms: u64) -> (r: HydrationReminder)
        ensures
            r.startup_time == now_ms,
            r.state == (ReminderState {
                last_acknowledged: now_ms,
                armed: false,
                reminding: false,
                reminding_since: now_ms,
            }),
            r.config == config,
    {
        HydrationReminder { startup_time: now_ms, state: ReminderState::new(now_ms), config }
    }

    /// The user drank at `now_ms`.
    pub fn hydrate(&mut self, now_ms: u64)
        ensures
            final(self).state == old(self).state.acknowledged(now_ms),
            final(self).startup_time == old(self).startup_time,
            final(self).config == old(self).config,
    {
        self.state.acknowledge(now_ms);
    }

    /// Decides the frame at `now_ms`, polling the state unless the refusal of
    /// the configured interval is being shown.
    pub fn update(&mut self, now_ms: u64, hovering: bool) -> (r: Frame)
        ensures
            final(self).startup_time == old(self).startup_time,
            final(self).config == old(self).config,
            old(self).warns(now_ms) ==> {
                &&& final(self).state == old(self).state
                &&& r.screen is Warning
                &&& r.repaint_after_secs == if hovering {
                    1u64
                } else {
                    5u64
                }
            },
            !old(self).warns(now_ms) ==> final(self).state == old(self).state.polled(
                now_ms,
                old(self).config.reminder_interval.secs,
            ),
            !old(self).warns(now_ms) && final(self).state.reminding ==> {
                &&& r.repaint_after_secs == 1
                &&& r.screen matches Screen::Reminding { first_colour, text }
                &&& first_colour == even_phase(final(self).state.reminding_since, now_ms)
                &&& text@ == reminding_text(final(self).state, now_ms, hovering)
            },
            !old(self).warns(now_ms) && !final(self).state.reminding ==> {
                &&& r.repaint_after_secs == if hovering {
                    1u64
                } else {
                    5u64
                }
                &&& r.screen matches Screen::Idle { text }
                &&& text@ == idle_text(final(self).state, now_ms, hovering)
            },
    {
        let repaint_after_secs: u64 = if hovering {
            1
        } else {
            5
        };
        let since_start = elapsed_between(self.startup_time, now_ms);
        if self.config.time_parsing_failed && since_start < WARNING_PERIOD_MS {
            return Frame { screen: Screen::Warning, repaint_after_secs };
        }
        let interval = self.config.reminder_interval;
        if self.state.poll(now_ms, interval) {
            let first_colour = self.state.flash_phase(now_ms);
            let text = if hovering {
                let shown = elapsed_between(self.state.reminding_since, now_ms) / 1000;
                to_string_mins_secs(&Duration::from_secs(shown))
            } else {
                "Hydrate \u{1f4a7}".to_owned()
            };
            Frame { screen: Screen::Reminding { first_colour, text }, repaint_after_secs: 1 }
        } else {
            let text = if hovering {
                let shown = elapsed_between(self.state.last_acknowledged, now_ms) / 1000;
                to_string_mins_secs(&Duration::from_secs(shown))
            } else {
                "Nice".to_owned()
            };
            Frame { screen: Screen::Idle { text }, repaint_after_secs }
        }
    }
}

} // verus!
