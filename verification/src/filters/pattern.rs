//! Exclusion of events whose name matches a configured pattern.

use vstd::prelude::*;

use crate::config::ConfigError;
use crate::event::Event;

verus! {

/// Whether `regex::Regex::new` accepts `source` as a pattern. Compilation
/// depends on the source text alone.
pub uninterp spec fn regex_compiles(source: Seq<char>) -> bool;

/// The pattern source a `regex::Regex` was compiled from.
pub uninterp spec fn regex_source(re: regex::Regex) -> Seq<char>;

/// Whether the pattern compiled from `source` matches anywhere in `text`
/// (substring match, not anchored to the whole string). The verdict
/// depends on the pattern source and the text alone.
pub uninterp spec fn regex_matches(source: Seq<char>, text: Seq<char>) -> bool;

#[verifier::external_type_specification]
#[verifier::external_body]
pub struct ExRegex(regex::Regex);

/// Relies on `regex::Regex::new`: it compiles a pattern, succeeding or
/// failing on the source text alone, and the compiled value is determined
/// by that source.
#[verifier::external_body]
fn compile_pattern(source: &str) -> (r: Option<regex::Regex>)
    ensures
        r is Some <==> regex_compiles(source@),
        r matches Some(re) ==> regex_source(re) == source@,
{
    match regex::Regex::new(source) {
        Ok(re) => Some(re),
        Err(_) => None,
    }
}

/// Relies on `regex::Regex::is_match`: it reports whether the pattern
/// matches anywhere in the text, a function of the pattern's source and
/// the text alone.
#[verifier::external_body]
fn pattern_matches(re: &regex::Regex, text: &str) -> (r: bool)
    ensures
        r == regex_matches(regex_source(*re), text@),
{
    re.is_match(text)
}

/// True exactly when some pattern among `sources` matches `name`.
pub open spec fn pattern_excluded(sources: Seq<Seq<char>>, name: Seq<char>) -> bool {
    exists|i: int| 0 <= i < sources.len() && regex_matches(sources[i], name)
}

/// Excludes events whose name matches any of the configured patterns.
/// The patterns are compiled once, at construction; a source that does
/// not compile is a configuration error and never reaches evaluation.
pub struct PatternFilter {
    /// The compiled patterns.
    regexes: Vec<regex::Regex>,
}

impl View for PatternFilter {
    type V = Seq<Seq<char>>;

    /// The sources of the configured patterns.
    closed spec fn view(&self) -> Seq<Seq<char>> {
        self.regexes@.map_values(|re: regex::Regex| regex_source(re))
    }
}

impl PatternFilter {
    /// Create a new `PatternFilter` by compiling the given pattern
    /// sources. Fails with `ConfigError::InvalidPattern` on the first
    /// source that does not compile, before any event is evaluated.
    pub fn build(ignored_regex: &Vec<String>) -> (r: Result<PatternFilter, ConfigError>)
        ensures
            r is Ok <==> (forall|i: int|
                0 <= i < ignored_regex@.len() ==> regex_compiles(#[trigger] ignored_regex@[i]@)),
            r matches Ok(f) ==> f@ == ignored_regex@.map_values(|s: String| s@),
            r matches Err(e) ==> (e matches ConfigError::InvalidPattern(p) && exists|i: int|
                {
                    &&& 0 <= i < ignored_regex@.len()
                    &&& p@ == #[trigger] ignored_regex@[i]@
                    &&& !regex_compiles(ignored_regex@[i]@)
                    &&& forall|j: int| 0 <= j < i ==> regex_compiles(#[trigger] ignored_regex@[j]@)
                }),
    {
        let mut regexes: Vec<regex::Regex> = Vec::new();
        let mut i: usize = 0;
        while i < ignored_regex.len()
            invariant
                i <= ignored_regex.len(),
                regexes@.len() == i,
                forall|j: int| 0 <= j < i ==> regex_compiles(#[trigger] ignored_regex@[j]@),
                forall|j: int|
                    0 <= j < i ==> regex_source(#[trigger] regexes@[j]) == ignored_regex@[j]@,
            decreases ignored_regex.len() - i,
        {
            match compile_pattern(ignored_regex[i].as_str()) {
                Some(re) => {
                    regexes.push(re);
                },
                None => {
                    return Err(ConfigError::InvalidPattern(ignored_regex[i].clone()));
                },
            }
            i = i + 1;
        }
        let f = PatternFilter { regexes };
        proof {
            assert(f@ =~= ignored_regex@.map_values(|s: String| s@));
        }
        Ok(f)
    }

    /// True exactly when the event's name matches any configured pattern.
    pub fn exclude(&self, event: &Event) -> (r: bool)
        ensures
            r == pattern_excluded(self@, event.name@),
    {
        let mut i: usize = 0;
        while i < self.regexes.len()
            invariant
                i <= self.regexes.len(),
                forall|j: int| 0 <= j < i ==> !regex_matches(self@[j], event.name@),
            decreases self.regexes.len() - i,
        {
            if pattern_matches(&self.regexes[i], event.name.as_str()) {
                proof {
                    assert(regex_matches(self@[i as int], event.name@));
                }
                return true;
            }
            i = i + 1;
        }
        false
    }
}

} // verus!
