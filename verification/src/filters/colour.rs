//! Exclusion of events by their colour tag.

use vstd::prelude::*;

use crate::event::Event;

verus! {

/// True exactly when `colour` is one of the configured `colours`.
pub open spec fn colour_excluded(colours: Seq<Seq<char>>, colour: Seq<char>) -> bool {
    exists|i: int| 0 <= i < colours.len() && colours[i] == colour
}

/// Excludes events whose colour tag stands in a configured ignore list.
/// Duplicates and order in the list are irrelevant; an empty or `"none"`
/// colour is excluded only when it is itself listed.
pub struct ColourFilter {
    /// The colour tags to ignore.
    colours: Vec<String>,
}

impl View for ColourFilter {
    type V = Seq<Seq<char>>;

    /// The configured colour tags, as sequences of characters.
    closed spec fn view(&self) -> Seq<Seq<char>> {
        self.colours@.map_values(|c: String| c@)
    }
}

impl ColourFilter {
    /// Create a new `ColourFilter` from the list of colour tags to ignore.
    pub fn build(ignored_colours: &Vec<String>) -> (f: ColourFilter)
        ensures
            f@ == ignored_colours@.map_values(|c: String| c@),
    {
        let mut colours: Vec<String> = Vec::new();
        let mut i: usize = 0;
        while i < ignored_colours.len()
            invariant
                i <= ignored_colours.len(),
                colours@ == ignored_colours@.take(i as int),
            decreases ignored_colours.len() - i,
        {
            colours.push(ignored_colours[i].clone());
            proof {
                assert(ignored_colours@.take(i + 1 as int)
                    =~= ignored_colours@.take(i as int).push(ignored_colours@[i as int]));
            }
            i = i + 1;
        }
        proof {
            assert(ignored_colours@.take(ignored_colours@.len() as int) =~= ignored_colours@);
        }
        ColourFilter { colours }
    }

    /// True exactly when the event's colour is in the ignore list.
    pub fn exclude(&self, event: &Event) -> (r: bool)
        ensures
            r == colour_excluded(self@, event.color@),
    {
        let mut i: usize = 0;
        while i < self.colours.len()
            invariant
                i <= self.colours.len(),
                forall|j: int| 0 <= j < i ==> self@[j] != event.color@,
            decreases self.colours.len() - i,
        {
            if self.colours[i] == event.color {
                proof {
                    assert(self@[i as int] == event.color@);
                }
                return true;
            }
            i = i + 1;
        }
        false
    }
}

} // verus!
