//! The backend-agnostic representation of one calendar occurrence.

use vstd::prelude::*;

verus! {

/// An event as understood by the filtering pipeline, independent of any
/// backend's native schema.
///
/// `start_time` is a Unix timestamp in seconds. An event that lasts all
/// day carries no specific time of day; the backend adapter normalises
/// such an event to the Unix epoch (zero), and that sentinel is the sole
/// all-day signal the filters consume. A genuinely timed event never
/// carries the sentinel; keeping that distinction is the adapter's job.
#[derive(Debug, PartialEq, Eq)]
pub struct Event {
    /// Unique, backend-assigned identifier; required for deletion.
    pub id: String,
    /// Start of the event as a Unix timestamp in seconds; the epoch (zero)
    /// marks an all-day event.
    pub start_time: i64,
    /// Free-text title of the event; may be empty.
    pub name: String,
    /// Backend-specific colour tag; `"none"` when the backend event
    /// carries no colour.
    pub color: String,
}

/// The Unix-epoch sentinel that marks an all-day event.
pub open spec fn is_all_day(e: Event) -> bool {
    e.start_time == 0
}

impl Event {
    /// Build a new event from its four fields.
    pub fn build(id: String, start: i64, name: String, color: String) -> (e: Event)
        ensures
            e.id == id,
            e.start_time == start,
            e.name == name,
            e.color == color,
    {
        Event { id, start_time: start, name, color }
    }

    /// Translate the optional fields of a raw backend event into the
    /// internal shape. A missing start time means the backend event has
    /// no specific time of day, so it is normalised to the all-day
    /// sentinel; a missing summary becomes the empty name; a missing
    /// colour becomes the `"none"` marker.
    pub fn from_backend(
        id: String,
        start: Option<i64>,
        summary: Option<String>,
        color: Option<String>,
    ) -> (e: Event)
        ensures
            e.id == id,
            match start {
                Some(t) => e.start_time == t,
                None => is_all_day(e),
            },
            match summary {
                Some(s) => e.name == s,
                None => e.name@ == Seq::<char>::empty(),
            },
            match color {
                Some(c) => e.color == c,
                None => e.color@ == "none"@,
            },
    {
        let start_time: i64 = match start {
            Some(t) => t,
            None => 0,
        };
        let name: String = match summary {
            Some(s) => s,
            None => String::new(),
        };
        let color: String = match color {
            Some(c) => c,
            None => String::from_str("none"),
        };
        Event { id, start_time, name, color }
    }

    /// A copy of the event, field for field.
    pub fn duplicate(&self) -> (e: Event)
        ensures
            e == *self,
    {
        Event {
            id: self.id.clone(),
            start_time: self.start_time,
            name: self.name.clone(),
            color: self.color.clone(),
        }
    }
}

/// A copy of the given events, element for element.
pub fn duplicate_events(events: &Vec<Event>) -> (r: Vec<Event>)
    ensures
        r@ == events@,
{
    let mut r: Vec<Event> = Vec::new();
    let mut i: usize = 0;
    while i < events.len()
        invariant
            i <= events.len(),
            r@ == events@.take(i as int),
        decreases events.len() - i,
    {
        r.push(events[i].duplicate());
        proof {
            assert(events@.take(i + 1 as int) =~= events@.take(i as int).push(
                events@[i as int],
            ));
        }
        i = i + 1;
    }
    proof {
        assert(events@.take(events@.len() as int) =~= events@);
    }
    r
}

impl Default for Event {
    /// The zero-value baseline: empty identifier and name, the all-day
    /// sentinel as start time, and an empty colour tag.
    fn default() -> (e: Event)
        ensures
            e.id@ == Seq::<char>::empty(),
            e.start_time == 0,
            e.name@ == Seq::<char>::empty(),
            e.color@ == Seq::<char>::empty(),
    {
        Event {
            id: String::new(),
            start_time: 0,
            name: String::new(),
            color: String::new(),
        }
    }
}

} // verus!
