//! The backend-agnostic contract a calendar backend must satisfy, and the
//! deletion step that the pipeline drives through it.

pub mod memory;

use vstd::prelude::*;

use crate::event::Event;

verus! {

/// The views of a list of identifiers.
pub open spec fn id_views(ids: Seq<String>) -> Seq<Seq<char>> {
    ids.map_values(|s: String| s@)
}

/// The identifiers of a list of events, as views, in the events' order.
pub open spec fn ids_of(events: Seq<Event>) -> Seq<Seq<char>> {
    events.map_values(|e: Event| e.id@)
}

/// A backend, network or authentication failure while listing events.
/// Fatal to the run; the pipeline never retries by itself.
#[derive(Debug)]
pub struct FetchError {
    /// The backend's diagnostic.
    pub message: String,
}

/// A backend or network failure while deleting one event. Deletions that
/// already happened are not rolled back: deletion against a remote
/// service cannot be undone locally.
#[derive(Debug)]
pub struct DeleteError {
    /// The identifier whose deletion failed.
    pub event_id: String,
    /// How many deletions had succeeded before the failure.
    pub completed: usize,
    /// The backend's diagnostic.
    pub message: String,
}

/// CalendarClient is the capability contract a calendar backend must
/// provide: fetch the events of the configured window, and delete events
/// by identifier. All backend quirks — window resolution, recurrence
/// expansion, the all-day sentinel convention — belong to the
/// implementation, never to the pipeline.
pub trait CalendarClient: Sized {
    /// The identifiers of every event this client has deleted so far, in
    /// the order the deletions happened.
    spec fn deleted(&self) -> Seq<Seq<char>>;

    /// Return all events of the configured window, translated into the
    /// internal shape, ordered by start time, with all-day events
    /// normalised to the epoch sentinel. Fetching deletes nothing.
    fn events(&mut self) -> (r: Result<Vec<Event>, FetchError>)
        ensures
            final(self).deleted() == old(self).deleted(),
    ;

    /// Delete each identified event, one at a time, in list order. On
    /// success every identifier was deleted; on failure the error names
    /// the identifier that failed and how many deletions had succeeded,
    /// and exactly those earlier deletions stand.
    fn delete_events(&mut self, event_ids: Vec<String>) -> (r: Result<(), DeleteError>)
        ensures
            r is Ok ==> final(self).deleted() == old(self).deleted() + id_views(event_ids@),
            r matches Err(e) ==> {
                &&& e.completed < event_ids@.len()
                &&& e.event_id@ == event_ids@[e.completed as int]@
                &&& final(self).deleted() == old(self).deleted() + id_views(
                    event_ids@.take(e.completed as int),
                )
            },
    ;
}

/// The identifiers of the given events, in their order: what a confirmed
/// run hands to `CalendarClient::delete_events`.
pub fn deletion_ids(events: &Vec<Event>) -> (ids: Vec<String>)
    ensures
        id_views(ids@) == ids_of(events@),
{
    let mut ids: Vec<String> = Vec::new();
    let mut i: usize = 0;
    while i < events.len()
        invariant
            i <= events.len(),
            ids@.len() == i,
            forall|j: int| 0 <= j < i ==> (#[trigger] ids@[j])@ == events@[j].id@,
        decreases events.len() - i,
    {
        ids.push(events[i].id.clone());
        i = i + 1;
    }
    proof {
        assert(id_views(ids@) =~= ids_of(events@));
    }
    ids
}

/// The views of a concatenation are the concatenated views.
pub(crate) proof fn lemma_id_views_add(a: Seq<String>, b: Seq<String>)
    ensures
        id_views(a + b) == id_views(a) + id_views(b),
{
    assert forall|j: int| 0 <= j < a.len() + b.len() implies id_views(a + b)[j] == (id_views(a)
        + id_views(b))[j] by {
        assert(id_views(a + b)[j] == (a + b)[j]@);
        if j < a.len() {
            assert((a + b)[j] == a[j]);
            assert(id_views(a)[j] == a[j]@);
        } else {
            assert((a + b)[j] == b[j - a.len()]);
            assert(id_views(b)[j - a.len()] == b[j - a.len()]@);
        }
    }
    assert(id_views(a + b) =~= id_views(a) + id_views(b));
}

/// Taking the same prefix of a list of identifiers and of the events they
/// came from leaves the identifiers aligned.
proof fn lemma_id_views_take(events: Seq<Event>, ids: Seq<String>, k: int)
    requires
        id_views(ids) == ids_of(events),
        0 <= k <= events.len(),
    ensures
        ids.len() == events.len(),
        id_views(ids.take(k)) == ids_of(events.take(k)),
{
    assert(id_views(ids).len() == ids.len());
    assert(ids_of(events).len() == events.len());
    assert forall|j: int| 0 <= j < k implies id_views(ids.take(k))[j] == ids_of(
        events.take(k),
    )[j] by {
        assert(id_views(ids)[j] == ids[j]@);
        assert(ids_of(events)[j] == events[j].id@);
        assert(ids.take(k)[j] == ids[j]);
        assert(events.take(k)[j] == events[j]);
        assert(id_views(ids.take(k))[j] == ids.take(k)[j]@);
        assert(ids_of(events.take(k))[j] == events.take(k)[j].id@);
    }
    assert(id_views(ids.take(k)) =~= ids_of(events.take(k)));
}

/// Delete the given events only on an explicit affirmative confirmation.
/// Without one — the operator declined, or the prompt failed — nothing is
/// deleted. With one, the events' identifiers are deleted in their order;
/// on a failure the error names the identifier that failed and how many
/// deletions had succeeded, and those earlier deletions stand.
pub fn delete_confirmed<C: CalendarClient>(
    client: &mut C,
    events: &Vec<Event>,
    confirmed: bool,
) -> (r: Result<usize, DeleteError>)
    ensures
        !confirmed ==> r == Ok::<usize, DeleteError>(0) && final(client).deleted() == old(
            client,
        ).deleted(),
        confirmed ==> match r {
            Ok(n) => n == events@.len() && final(client).deleted() == old(client).deleted()
                + ids_of(events@),
            Err(e) => {
                &&& e.completed < events@.len()
                &&& e.event_id@ == events@[e.completed as int].id@
                &&& final(client).deleted() == old(client).deleted() + ids_of(
                    events@.take(e.completed as int),
                )
            },
        },
{
    if !confirmed {
        return Ok(0);
    }
    let ids = deletion_ids(events);
    proof {
        assert(id_views(ids@).len() == ids_of(events@).len());
    }
    match client.delete_events(ids) {
        Ok(()) => Ok(events.len()),
        Err(e) => {
            proof {
                lemma_id_views_take(events@, ids@, e.completed as int);
                assert(id_views(ids@)[e.completed as int] == ids_of(events@)[e.completed as int]);
            }
            Err(e)
        },
    }
}

} // verus!
