//! An in-memory calendar backend: the standard harness for exercising the
//! pipeline without any real network dependency.

use vstd::prelude::*;

use crate::clients::CalendarClient;
use crate::clients::id_views;
use crate::clients::lemma_id_views_add;
use crate::clients::DeleteError;
use crate::clients::FetchError;
use crate::event::Event;
use crate::event::duplicate_events;

verus! {

/// A calendar backend that serves a fixed list of events from memory and
/// records the deletions asked of it. It can be told to fail a fetch, or
/// to refuse the deletion of one chosen identifier, to exercise the
/// pipeline's failure paths.
pub struct InMemoryClient {
    /// The events one fetch returns.
    events: Vec<Event>,
    /// Whether fetching fails.
    fetch_fails: bool,
    /// The identifier whose deletion the backend refuses, if any.
    refused: Option<String>,
    /// The identifiers deleted so far, in order.
    deleted_ids: Vec<String>,
}

impl InMemoryClient {
    /// The events this client serves.
    pub closed spec fn stored_events(&self) -> Seq<Event> {
        self.events@
    }

    /// Whether this client fails a fetch.
    pub closed spec fn fetch_failure(&self) -> bool {
        self.fetch_fails
    }

    /// The identifier whose deletion this client refuses, if any.
    pub closed spec fn refused_id(&self) -> Option<Seq<char>> {
        match self.refused {
            Some(s) => Some(s@),
            None => None,
        }
    }

    /// Create a client that serves the given events, failing a fetch when
    /// `fetch_fails` holds and refusing to delete the identifier in
    /// `refused`, if any. Nothing is deleted yet.
    pub fn build(events: Vec<Event>, fetch_fails: bool, refused: Option<String>) -> (c:
        InMemoryClient)
        ensures
            c.stored_events() == events@,
            c.fetch_failure() == fetch_fails,
            match refused {
                Some(s) => c.refused_id() == Some(s@),
                None => c.refused_id() is None,
            },
            c.deleted() == Seq::<Seq<char>>::empty(),
    {
        let c = InMemoryClient { events, fetch_fails, refused, deleted_ids: Vec::new() };
        proof {
            assert(c.deleted() =~= Seq::<Seq<char>>::empty());
        }
        c
    }

    /// The identifiers deleted so far, in order, as owned values.
    pub fn deleted_so_far(&self) -> (ids: Vec<String>)
        ensures
            id_views(ids@) == self.deleted(),
    {
        let mut ids: Vec<String> = Vec::new();
        let mut i: usize = 0;
        while i < self.deleted_ids.len()
            invariant
                i <= self.deleted_ids.len(),
                ids@.len() == i,
                forall|j: int| 0 <= j < i ==> (#[trigger] ids@[j])@ == self.deleted_ids@[j]@,
            decreases self.deleted_ids.len() - i,
        {
            ids.push(self.deleted_ids[i].clone());
            i = i + 1;
        }
        proof {
            assert(id_views(ids@) =~= self.deleted());
        }
        ids
    }
}

impl CalendarClient for InMemoryClient {
    closed spec fn deleted(&self) -> Seq<Seq<char>> {
        id_views(self.deleted_ids@)
    }

    /// Serve a copy of the stored events, or the configured failure.
    fn events(&mut self) -> (r: Result<Vec<Event>, FetchError>)
        ensures
            r matches Ok(evs) ==> evs@ == old(self).stored_events() && !old(self).fetch_failure(),
            r is Err ==> old(self).fetch_failure(),
    {
        if self.fetch_fails {
            Err(FetchError { message: String::from_str("the backend failed to list events") })
        } else {
            Ok(duplicate_events(&self.events))
        }
    }

    /// Delete the identifiers one at a time, in list order, recording
    /// each, until the refused identifier — if it is among them — fails.
    /// It succeeds exactly when the refused identifier is not among the
    /// given ones, and fails at the first occurrence otherwise.
    fn delete_events(&mut self, event_ids: Vec<String>) -> (r: Result<(), DeleteError>)
        ensures
            r is Ok <==> (forall|k: int|
                0 <= k < event_ids@.len() ==> old(self).refused_id() != Some(
                    (#[trigger] event_ids@[k])@,
                )),
            r matches Err(e) ==> old(self).refused_id() == Some(e.event_id@) && (forall|j: int|
                0 <= j < e.completed ==> (#[trigger] event_ids@[j])@ != e.event_id@),
    {
        let ghost before = self.deleted_ids@;
        let mut i: usize = 0;
        while i < event_ids.len()
            invariant
                i <= event_ids@.len(),
                before == old(self).deleted_ids@,
                self.refused == old(self).refused,
                self.deleted_ids@ == before + event_ids@.take(i as int),
                forall|j: int|
                    0 <= j < i ==> old(self).refused_id() != Some((#[trigger] event_ids@[j])@),
            decreases event_ids@.len() - i,
        {
            let hit = match &self.refused {
                Some(id) => *id == event_ids[i],
                None => false,
            };
            if hit {
                proof {
                    lemma_id_views_add(before, event_ids@.take(i as int));
                }
                return Err(
                    DeleteError {
                        event_id: event_ids[i].clone(),
                        completed: i,
                        message: String::from_str("the backend refused the deletion"),
                    },
                );
            }
            proof {
                assert(old(self).refused_id() != Some(event_ids@[i as int]@));
            }
            self.deleted_ids.push(event_ids[i].clone());
            proof {
                assert(self.deleted_ids@ =~= before + event_ids@.take(i + 1 as int));
            }
            i = i + 1;
        }
        proof {
            assert(event_ids@.take(event_ids@.len() as int) =~= event_ids@);
            lemma_id_views_add(before, event_ids@);
        }
        Ok(())
    }
}

} // verus!
