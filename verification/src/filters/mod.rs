//! The event filtering pipeline: independent exclusion rules, composed
//! with "exclude if any rule excludes" semantics.

pub mod all_day;
pub mod colour;
pub mod pattern;

use vstd::prelude::*;

use crate::config::Config;
use crate::config::ConfigError;
use crate::event::Event;
use crate::event::is_all_day;
use crate::filters::all_day::AllDayFilter;
use crate::filters::colour::ColourFilter;
use crate::filters::colour::colour_excluded;
use crate::filters::pattern::PatternFilter;
use crate::filters::pattern::pattern_excluded;
use crate::filters::pattern::regex_compiles;

verus! {

/// The configuration of one exclusion rule: either no configuration (all
/// day), a set of colour tags, or a set of pattern sources.
pub enum FilterView {
    /// The all-day rule.
    AllDay,
    /// The colour rule, with the ignored colour tags.
    Colour(Seq<Seq<char>>),
    /// The pattern rule, with the sources of the ignored patterns.
    Pattern(Seq<Seq<char>>),
}

impl FilterView {
    /// The verdict of one rule on one event.
    pub open spec fn excludes(self, e: Event) -> bool {
        match self {
            FilterView::AllDay => is_all_day(e),
            FilterView::Colour(colours) => colour_excluded(colours, e.color@),
            FilterView::Pattern(sources) => pattern_excluded(sources, e.name@),
        }
    }
}

/// Filter is one exclusion rule over events: a pure predicate deciding
/// whether an event should be dropped from further processing. The three
/// rules are independent; none observes another's verdict.
pub enum Filter {
    /// Exclude events that last all day.
    AllDay(AllDayFilter),
    /// Exclude events whose colour tag is ignored.
    Colour(ColourFilter),
    /// Exclude events whose name matches an ignored pattern.
    Pattern(PatternFilter),
}

impl View for Filter {
    type V = FilterView;

    open spec fn view(&self) -> FilterView {
        match self {
            Filter::AllDay(_) => FilterView::AllDay,
            Filter::Colour(f) => FilterView::Colour(f@),
            Filter::Pattern(f) => FilterView::Pattern(f@),
        }
    }
}

impl Filter {
    /// exclude returns true if the event should be excluded. It is a pure
    /// function of the event and the rule's own immutable state, and it is
    /// total: evaluation never fails.
    pub fn exclude(&self, event: &Event) -> (r: bool)
        ensures
            r == self@.excludes(*event),
    {
        match self {
            Filter::AllDay(f) => f.exclude(event),
            Filter::Colour(f) => f.exclude(event),
            Filter::Pattern(f) => f.exclude(event),
        }
    }
}

/// The verdict of a whole set of rules on one event: excluded as soon as
/// any rule excludes.
pub open spec fn event_excluded(filters: Seq<FilterView>, e: Event) -> bool {
    exists|i: int| 0 <= i < filters.len() && (#[trigger] filters[i]).excludes(e)
}

/// The predicate a set of rules keeps events by: no rule excludes.
pub open spec fn keeps(filters: Seq<FilterView>) -> spec_fn(Event) -> bool {
    |e: Event| !event_excluded(filters, e)
}

/// The subsequence of `events` that survives the set of rules, in its
/// original relative order.
pub open spec fn kept_events(filters: Seq<FilterView>, events: Seq<Event>) -> Seq<Event> {
    events.filter(keeps(filters))
}

/// FilterSet aggregates an ordered collection of rules and applies them
/// with "exclude if any rule excludes" semantics over an event collection.
pub struct FilterSet {
    /// The rules, in the order they were declared.
    filters: Vec<Filter>,
}

impl View for FilterSet {
    type V = Seq<FilterView>;

    closed spec fn view(&self) -> Seq<FilterView> {
        self.filters@.map_values(|f: Filter| f@)
    }
}

impl FilterSet {
    /// Aggregate the given rules, keeping their order.
    pub fn new(filters: Vec<Filter>) -> (fs: FilterSet)
        ensures
            fs@ == filters@.map_values(|f: Filter| f@),
    {
        FilterSet { filters }
    }

    /// True exactly when some rule in the set excludes the event.
    pub fn excludes(&self, event: &Event) -> (r: bool)
        ensures
            r == event_excluded(self@, *event),
    {
        let mut i: usize = 0;
        while i < self.filters.len()
            invariant
                i <= self.filters.len(),
                forall|j: int| 0 <= j < i ==> !(#[trigger] self@[j]).excludes(*event),
            decreases self.filters.len() - i,
        {
            if self.filters[i].exclude(event) {
                proof {
                    assert(self@[i as int].excludes(*event));
                }
                return true;
            }
            i = i + 1;
        }
        false
    }

    /// Return the subsequence of `events` for which no rule in the set
    /// answers true, preserving the original relative order.
    pub fn apply(&self, events: &Vec<Event>) -> (kept: Vec<Event>)
        ensures
            kept@ == kept_events(self@, events@),
    {
        let mut kept: Vec<Event> = Vec::new();
        let mut i: usize = 0;
        while i < events.len()
            invariant
                i <= events.len(),
                kept@ == kept_events(self@, events@.take(i as int)),
            decreases events.len() - i,
        {
            let e = &events[i];
            proof {
                lemma_filter_push(events@.take(i as int), keeps(self@), events@[i as int]);
                assert(events@.take(i + 1 as int)
                    =~= events@.take(i as int).push(events@[i as int]));
            }
            if !self.excludes(e) {
                kept.push(e.duplicate());
            }
            i = i + 1;
        }
        proof {
            assert(events@.take(events@.len() as int) =~= events@);
        }
        kept
    }
}

/// default_filters builds the three default rules from the configuration,
/// in this fixed order: all-day, colour, pattern. It fails exactly when
/// some configured pattern source does not compile.
pub fn default_filters(config: &Config) -> (r: Result<FilterSet, ConfigError>)
    ensures
        r is Ok <==> (forall|i: int|
            0 <= i < config.ignored_regex@.len() ==> regex_compiles(
                #[trigger] config.ignored_regex@[i]@,
            )),
        r matches Ok(fs) ==> fs@ == seq![
            FilterView::AllDay,
            FilterView::Colour(config.ignored_colours@.map_values(|c: String| c@)),
            FilterView::Pattern(config.ignored_regex@.map_values(|s: String| s@)),
        ],
        r matches Err(e) ==> e is InvalidPattern,
{
    let pattern = match PatternFilter::build(&config.ignored_regex) {
        Ok(f) => f,
        Err(e) => {
            return Err(e);
        },
    };
    let mut filters: Vec<Filter> = Vec::new();
    filters.push(Filter::AllDay(AllDayFilter::build()));
    filters.push(Filter::Colour(ColourFilter::build(&config.ignored_colours)));
    filters.push(Filter::Pattern(pattern));
    let fs = FilterSet::new(filters);
    proof {
        assert(fs@ =~= seq![
            FilterView::AllDay,
            FilterView::Colour(config.ignored_colours@.map_values(|c: String| c@)),
            FilterView::Pattern(config.ignored_regex@.map_values(|s: String| s@)),
        ]);
    }
    Ok(fs)
}

// --- What holds of the pipeline as a whole ---

/// Filtering a sequence extended by one element keeps the old answer and
/// appends the new element exactly when the predicate holds of it.
proof fn lemma_filter_push<A>(s: Seq<A>, p: spec_fn(A) -> bool, x: A)
    ensures
        s.push(x).filter(p) == if p(x) {
            s.filter(p).push(x)
        } else {
            s.filter(p)
        },
{
    reveal(Seq::filter);
    assert(s.push(x).drop_last() =~= s);
    assert(s.push(x).last() == x);
}

/// Everything a filtered sequence holds comes from the source sequence
/// and satisfies the predicate.
proof fn lemma_filter_membership<A>(s: Seq<A>, p: spec_fn(A) -> bool)
    ensures
        forall|x: A| #[trigger] s.filter(p).contains(x) ==> s.contains(x) && p(x),
    decreases s.len(),
{
    reveal(Seq::filter);
    if s.len() > 0 {
        lemma_filter_membership(s.drop_last(), p);
        assert forall|x: A| #[trigger] s.filter(p).contains(x) implies s.contains(x) && p(x) by {
            if x == s.last() && p(s.last()) {
                assert(s.contains(x)) by {
                    assert(s[s.len() - 1] == x);
                }
            } else {
                assert(s.drop_last().filter(p).contains(x)) by {
                    let j = choose|j: int|
                        0 <= j < s.filter(p).len() && s.filter(p)[j] == x;
                    if p(s.last()) {
                        assert(s.filter(p) == s.drop_last().filter(p).push(s.last()));
                        assert(j < s.filter(p).len() - 1);
                        assert(s.drop_last().filter(p)[j] == x);
                    } else {
                        assert(s.filter(p) == s.drop_last().filter(p));
                    }
                }
                assert(s.drop_last().contains(x));
                let j = choose|j: int| 0 <= j < s.drop_last().len() && s.drop_last()[j] == x;
                assert(s[j] == x);
            }
        }
    }
}

/// Filtering by a weaker predicate first changes nothing: if everything
/// `p` keeps is also kept by `q`, filtering by `q` and then by `p` equals
/// filtering by `p` alone.
proof fn lemma_filter_filter<A>(s: Seq<A>, p: spec_fn(A) -> bool, q: spec_fn(A) -> bool)
    requires
        forall|x: A| #[trigger] p(x) ==> q(x),
    ensures
        s.filter(q).filter(p) == s.filter(p),
    decreases s.len(),
{
    reveal(Seq::filter);
    if s.len() == 0 {
        assert(s.filter(q) == s);
    } else {
        lemma_filter_filter(s.drop_last(), p, q);
        let dl = s.drop_last();
        if q(s.last()) {
            assert(s.filter(q) == dl.filter(q).push(s.last()));
            lemma_filter_push(dl.filter(q), p, s.last());
        } else {
            assert(!p(s.last()));
            assert(s.filter(q) == dl.filter(q));
            assert(s.filter(p) == dl.filter(p));
        }
    }
}

/// Applying a set of rules keeps exactly the events no rule excludes:
/// every kept event comes from the source sequence and passes every rule,
/// and every source event that passes every rule is kept.
pub proof fn lemma_apply_keeps_exactly(filters: Seq<FilterView>, events: Seq<Event>)
    ensures
        forall|j: int|
            0 <= j < kept_events(filters, events).len() ==> !event_excluded(
                filters,
                #[trigger] kept_events(filters, events)[j],
            ),
        forall|e: Event| #[trigger]
            kept_events(filters, events).contains(e) ==> events.contains(e),
        forall|j: int|
            0 <= j < events.len() && !event_excluded(filters, #[trigger] events[j])
                ==> kept_events(filters, events).contains(events[j]),
{
    broadcast use vstd::seq_lib::group_filter_ensures;

    lemma_filter_membership(events, keeps(filters));
    assert forall|j: int|
        0 <= j < kept_events(filters, events).len() implies !event_excluded(
        filters,
        #[trigger] kept_events(filters, events)[j],
    ) by {
        assert(keeps(filters)(kept_events(filters, events)[j]));
    }
    assert forall|j: int|
        0 <= j < events.len() && !event_excluded(filters, #[trigger] events[j])
        implies kept_events(filters, events).contains(events[j]) by {
        assert(keeps(filters)(events[j]));
    }
}

/// Order preservation: the kept events form a subsequence of the source
/// events, in the source's relative order.
pub open spec fn is_subsequence_of<A>(s: Seq<A>, t: Seq<A>) -> bool
    decreases t.len(),
{
    if s.len() == 0 {
        true
    } else if t.len() == 0 {
        false
    } else {
        (s.last() == t.last() && is_subsequence_of(s.drop_last(), t.drop_last()))
            || is_subsequence_of(s, t.drop_last())
    }
}

/// What a sequence's filter returns is a subsequence of the sequence.
proof fn lemma_filter_is_subsequence<A>(t: Seq<A>, p: spec_fn(A) -> bool)
    ensures
        is_subsequence_of(t.filter(p), t),
    decreases t.len(),
{
    reveal(Seq::filter);
    if t.len() > 0 {
        lemma_filter_is_subsequence(t.drop_last(), p);
        if p(t.last()) {
            assert(t.filter(p) == t.drop_last().filter(p).push(t.last()));
            assert(t.filter(p).drop_last() =~= t.drop_last().filter(p));
        } else {
            assert(t.filter(p) == t.drop_last().filter(p));
        }
    }
}

/// Order preservation: applying a set of rules keeps the surviving events
/// in the original relative order of the source events.
pub proof fn lemma_apply_preserves_order(filters: Seq<FilterView>, events: Seq<Event>)
    ensures
        is_subsequence_of(kept_events(filters, events), events),
{
    lemma_filter_is_subsequence(events, keeps(filters));
}

/// Idempotence: re-applying the same set of rules to its own output
/// changes nothing, because each rule is a pure function of the event and
/// its own immutable configuration.
pub proof fn lemma_apply_idempotent(filters: Seq<FilterView>, events: Seq<Event>)
    ensures
        kept_events(filters, kept_events(filters, events)) == kept_events(filters, events),
{
    lemma_filter_filter(events, keeps(filters), keeps(filters));
}

/// Filtering by pointwise-equal predicates gives the same result.
proof fn lemma_filter_congruence<A>(s: Seq<A>, p: spec_fn(A) -> bool, q: spec_fn(A) -> bool)
    requires
        forall|x: A| #[trigger] p(x) == q(x),
    ensures
        s.filter(p) == s.filter(q),
    decreases s.len(),
{
    reveal(Seq::filter);
    if s.len() > 0 {
        lemma_filter_congruence(s.drop_last(), p, q);
    }
}

/// The order of the rules in a set does not affect the result: two sets
/// holding the same rules, in whatever order and multiplicity, exclude
/// the same events and keep the same subsequence.
pub proof fn lemma_filter_order_irrelevant(
    fs1: Seq<FilterView>,
    fs2: Seq<FilterView>,
    events: Seq<Event>,
)
    requires
        forall|f: FilterView| fs1.contains(f) <==> fs2.contains(f),
    ensures
        kept_events(fs1, events) == kept_events(fs2, events),
{
    assert forall|e: Event| #[trigger] keeps(fs1)(e) == keeps(fs2)(e) by {
        if event_excluded(fs1, e) {
            let i = choose|i: int| 0 <= i < fs1.len() && (#[trigger] fs1[i]).excludes(e);
            assert(fs1.contains(fs1[i]));
            let j = choose|j: int| 0 <= j < fs2.len() && fs2[j] == fs1[i];
            assert(fs2[j].excludes(e));
        }
        if event_excluded(fs2, e) {
            let i = choose|i: int| 0 <= i < fs2.len() && (#[trigger] fs2[i]).excludes(e);
            assert(fs2.contains(fs2[i]));
            let j = choose|j: int| 0 <= j < fs1.len() && fs1[j] == fs2[i];
            assert(fs1[j].excludes(e));
        }
    }
    lemma_filter_congruence(events, keeps(fs1), keeps(fs2));
}

/// Monotonicity under reduction of the rule set: dropping any one rule
/// never shrinks the kept events. The events kept by the full set are
/// exactly those the full set keeps among the events kept by the reduced
/// set, and each of them is kept by the reduced set.
pub proof fn lemma_removing_filter_keeps_more(
    filters: Seq<FilterView>,
    events: Seq<Event>,
    i: int,
)
    requires
        0 <= i < filters.len(),
    ensures
        kept_events(filters, events) == kept_events(
            filters,
            kept_events(filters.remove(i), events),
        ),
        forall|e: Event| #[trigger]
            kept_events(filters, events).contains(e) ==> kept_events(
                filters.remove(i),
                events,
            ).contains(e),
{
    let reduced = filters.remove(i);
    assert forall|e: Event| #[trigger] keeps(filters)(e) implies keeps(reduced)(e) by {
        if event_excluded(reduced, e) {
            let j = choose|j: int| 0 <= j < reduced.len() && (#[trigger] reduced[j]).excludes(e);
            if j < i {
                assert(filters[j].excludes(e));
            } else {
                assert(filters[j + 1].excludes(e));
            }
        }
    }
    lemma_filter_filter(events, keeps(filters), keeps(reduced));
    lemma_filter_membership(kept_events(reduced, events), keeps(filters));
}

} // verus!
