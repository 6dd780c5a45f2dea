//! Bulk management of calendar events: fetch the events of a date window
//! from a calendar backend, drop those matched by a set of exclusion
//! filters, and, on explicit confirmation, delete the rest by identifier.
//!
//! The filtering pipeline and the backend contract are verified; the
//! concrete backend, configuration loading and the interactive prompt are
//! ordinary I/O around it.

use vstd::prelude::*;

pub mod clients;
pub mod config;
pub mod event;
pub mod filters;

use crate::clients::CalendarClient;
use crate::clients::FetchError;
use crate::event::Event;
use crate::filters::FilterSet;
use crate::filters::event_excluded;
use crate::filters::kept_events;
use crate::filters::lemma_apply_keeps_exactly;

verus! {

/// Fetch the events of the configured window through the given backend
/// and drop every event some rule of the set excludes. What comes back on
/// success passes every rule; a fetch failure is handed through, and in
/// either case nothing is deleted.
pub fn fetch_filtered<C: CalendarClient>(client: &mut C, filters: &FilterSet) -> (r: Result<
    Vec<Event>,
    FetchError,
>)
    ensures
        final(client).deleted() == old(client).deleted(),
        r matches Ok(kept) ==> forall|j: int|
            0 <= j < kept@.len() ==> !event_excluded(filters@, #[trigger] kept@[j]),
        r matches Ok(kept) ==> exists|fetched: Seq<Event>|
            kept@ == #[trigger] kept_events(filters@, fetched),
{
    match client.events() {
        Ok(events) => {
            let kept = filters.apply(&events);
            proof {
                lemma_apply_keeps_exactly(filters@, events@);
                assert(kept@ == kept_events(filters@, events@));
            }
            Ok(kept)
        },
        Err(e) => Err(e),
    }
}

} // verus!
