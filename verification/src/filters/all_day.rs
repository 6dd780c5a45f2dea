//! Exclusion of events that last all day.

use vstd::prelude::*;

use crate::event::Event;
use crate::event::is_all_day;

verus! {

/// Excludes events that last all day. The backend adapter encodes "no
/// specific time of day" as the Unix epoch, and this filter is the single
/// place that interprets that convention. It carries no configuration.
pub struct AllDayFilter;

impl AllDayFilter {
    /// Create a new `AllDayFilter`.
    pub fn build() -> (f: AllDayFilter) {
        AllDayFilter
    }

    /// True exactly when the event lasts all day, that is, when its start
    /// time carries the epoch sentinel.
    pub fn exclude(&self, event: &Event) -> (r: bool)
        ensures
            r == is_all_day(*event),
    {
        event.start_time == 0
    }
}

} // verus!
