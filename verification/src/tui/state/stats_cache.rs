//! Statistics periods and refresh timing, and how uptime is shown.
//!
//! Times are seconds on a monotonic clock that the caller reads.

use vstd::prelude::*;
use crate::text::{append_decimal, append_str, dec, string_of};
use crate::tui::state::errors::since;

verus! {

/// Time period for stats filtering.
#[derive(Debug, Clone, Copy, PartialEq, Eq, Structural)]
pub enum TimePeriod {
    Today,
    Week,
    Month,
    AllTime,
}

impl TimePeriod {
    /// The label shown for a period.
    pub open spec fn label_text(self) -> Seq<char> {
        match self {
            TimePeriod::Today => "Today"@,
            TimePeriod::Week => "This Week"@,
            TimePeriod::Month => "This Month"@,
            TimePeriod::AllTime => "All Time"@,
        }
    }

    /// The period after this one, wrapping around.
    pub open spec fn following(self) -> TimePeriod {
        match self {
            TimePeriod::Today => TimePeriod::Week,
            TimePeriod::Week => TimePeriod::Month,
            TimePeriod::Month => TimePeriod::AllTime,
            TimePeriod::AllTime => TimePeriod::Today,
        }
    }

    /// How many days a period covers; none for all time.
    pub open spec fn day_count(self) -> Option<u32> {
        match self {
            TimePeriod::Today => Some(1),
            TimePeriod::Week => Some(7),
            TimePeriod::Month => Some(30),
            TimePeriod::AllTime => None,
        }
    }

    pub fn label(&self) -> (s: &'static str)
        ensures
            s@ == self.label_text(),
    {
        match self {
            TimePeriod::Today => "Today",
            TimePeriod::Week => "This Week",
            TimePeriod::Month => "This Month",
            TimePeriod::AllTime => "All Time",
        }
    }

    pub fn next(&self) -> (p: TimePeriod)
        ensures
            p == self.following(),
    {
        match self {
            TimePeriod::Today => TimePeriod::Week,
            TimePeriod::Week => TimePeriod::Month,
            TimePeriod::Month => TimePeriod::AllTime,
            TimePeriod::AllTime => TimePeriod::Today,
        }
    }

    pub fn days(&self) -> (d: Option<u32>)
        ensures
            d == self.day_count(),
    {
        match self {
            TimePeriod::Today => Some(1),
            TimePeriod::Week => Some(7),
            TimePeriod::Month => Some(30),
            TimePeriod::AllTime => None,
        }
    }
}

/// Law: cycling through the periods returns to the start after four steps,
/// and covers longer spans as it goes until all time.
pub proof fn lemma_period_cycle(p: TimePeriod)
    ensures
        p.following().following().following().following() == p,
        match (p.day_count(), p.following().day_count()) {
            (Some(d), Some(e)) => d < e,
            _ => true,
        },
{
}

/// When the statistics were last refreshed, how often they are, and for
/// which period.
pub struct StatsRefresh {
    /// Last refresh time
    pub last_refresh: Option<u64>,
    /// Refresh interval in seconds
    pub refresh_interval: u64,
    /// Whether a refresh is in progress
    pub refreshing: bool,
    /// Selected time period for stats
    pub time_period: TimePeriod,
}

impl StatsRefresh {
    /// Never refreshed, every 30 seconds, for the week.
    pub fn new() -> (s: Self)
        ensures
            s.last_refresh is None,
            s.refresh_interval == 30,
            !s.refreshing,
            s.time_period == TimePeriod::Week,
    {
        StatsRefresh { last_refresh: None, refresh_interval: 30, refreshing: false, time_period: TimePeriod::Week }
    }

    /// Stats need a refresh when never refreshed or the interval has passed.
    pub fn needs_refresh(&self, now: u64) -> (b: bool)
        ensures
            b == match self.last_refresh {
                None => true,
                Some(t) => since(now, t) >= self.refresh_interval,
            },
    {
        match self.last_refresh {
            None => true,
            Some(t) => {
                let e = if now >= t {
                    now - t
                } else {
                    0
                };
                e >= self.refresh_interval
            },
        }
    }

    /// Mark a refresh as started.
    pub fn start_refresh(&mut self)
        ensures
            final(self).refreshing,
            final(self).last_refresh == old(self).last_refresh,
            final(self).refresh_interval == old(self).refresh_interval,
            final(self).time_period == old(self).time_period,
    {
        self.refreshing = true;
    }

    /// Mark a refresh as complete at `now`.
    pub fn complete_refresh(&mut self, now: u64)
        ensures
            !final(self).refreshing,
            final(self).last_refresh == Some(now),
            final(self).refresh_interval == old(self).refresh_interval,
            final(self).time_period == old(self).time_period,
    {
        self.refreshing = false;
        self.last_refresh = Some(now);
    }

    /// Move to the next period; the stats must then be fetched again.
    pub fn cycle_time_period(&mut self)
        ensures
            final(self).time_period == old(self).time_period.following(),
            final(self).last_refresh is None,
            final(self).refreshing == old(self).refreshing,
            final(self).refresh_interval == old(self).refresh_interval,
    {
        self.time_period = self.time_period.next();
        self.last_refresh = None;
    }
}

/// Uptime as shown: `Dd Hh Mm`, `Hh Mm` under a day, `Mm` under an hour.
pub open spec fn uptime_text(secs: u64) -> Seq<char> {
    let days = secs / 86400;
    let hours = (secs % 86400) / 3600;
    let mins = (secs % 3600) / 60;
    if days > 0 {
        dec(days as nat) + "d "@ + dec(hours as nat) + "h "@ + dec(mins as nat) + "m"@
    } else if hours > 0 {
        dec(hours as nat) + "h "@ + dec(mins as nat) + "m"@
    } else {
        dec(mins as nat) + "m"@
    }
}

/// Format an uptime in seconds for display.
pub fn format_uptime(uptime_seconds: u64) -> (s: String)
    ensures
        s@ == uptime_text(uptime_seconds),
{
    let days = uptime_seconds / 86400;
    let hours = (uptime_seconds % 86400) / 3600;
    let mins = (uptime_seconds % 3600) / 60;
    let mut v: Vec<char> = Vec::new();
    if days > 0 {
        append_decimal(&mut v, days);
        append_str(&mut v, "d ");
        append_decimal(&mut v, hours);
        append_str(&mut v, "h ");
        append_decimal(&mut v, mins);
        append_str(&mut v, "m");
    } else if hours > 0 {
        append_decimal(&mut v, hours);
        append_str(&mut v, "h ");
        append_decimal(&mut v, mins);
        append_str(&mut v, "m");
    } else {
        append_decimal(&mut v, mins);
        append_str(&mut v, "m");
    }
    string_of(v.as_slice())
}

} // verus!
