//! Tests of the three exclusion rules and of their composition.

use agendrr::event::Event;
use agendrr::filters::all_day::AllDayFilter;
use agendrr::filters::colour::ColourFilter;
use agendrr::filters::pattern::PatternFilter;
use agendrr::filters::Filter;
use agendrr::filters::FilterSet;
use agendrr::filters::default_filters;
use agendrr::config::Config;
use agendrr::config::ConfigError;

fn event_named(name: &str) -> Event {
    Event::build(String::from("id"), 100, String::from(name), String::from("none"))
}

fn event_coloured(colour: &str) -> Event {
    Event::build(String::from("id"), 100, String::from("meeting"), String::from(colour))
}

#[test]
fn test_exclude_all_day_event() {
    let filter = AllDayFilter::build();
    let event = Event::default();
    assert!(filter.exclude(&event));
}

#[test]
fn test_include_timed_event() {
    let filter = AllDayFilter::build();
    let mut event = Event::default();
    event.start_time = 1234567890;
    assert!(!filter.exclude(&event));
}

#[test]
fn test_exclude() {
    let filter = ColourFilter::build(&vec![String::from("9"), String::from("8")]);

    let event = event_coloured("9");
    assert!(filter.exclude(&event));

    let event = event_coloured("");
    assert!(!filter.exclude(&event));
}

#[test]
fn test_colour_none_not_implicitly_excluded() {
    let filter = ColourFilter::build(&vec![String::from("9")]);
    assert!(!filter.exclude(&event_coloured("none")));

    let filter = ColourFilter::build(&vec![String::from("none")]);
    assert!(filter.exclude(&event_coloured("none")));
}

#[test]
fn test_multiple_patterns() {
    let config = vec![String::from("temp.*"), String::from(".*backup")];

    let filter = PatternFilter::build(&config).unwrap();

    let temp_event = event_named("temp_file.txt");
    let backup_event = event_named("file.backup");
    let keep_event = event_named("important.doc");

    assert!(filter.exclude(&temp_event));
    assert!(filter.exclude(&backup_event));
    assert!(!filter.exclude(&keep_event));
}

#[test]
fn test_pattern_is_substring_match() {
    // An unanchored pattern matches in the middle of the name; an anchored
    // one does not, and a pattern is not a mere equality test.
    let filter = PatternFilter::build(&vec![String::from("sync")]).unwrap();
    assert!(filter.exclude(&event_named("daily sync meeting")));

    let filter = PatternFilter::build(&vec![String::from("^sync")]).unwrap();
    assert!(!filter.exclude(&event_named("daily sync meeting")));
    assert!(filter.exclude(&event_named("sync meeting")));
}

#[test]
fn test_invalid_pattern_fails_at_build() {
    let result = PatternFilter::build(&vec![String::from("ok.*"), String::from("[")]);
    match result {
        Err(ConfigError::InvalidPattern(source)) => assert_eq!(source, "["),
        _ => panic!("expected the malformed pattern to be rejected at build time"),
    }
}

fn sample_config(colours: Vec<&str>, patterns: Vec<&str>) -> Config {
    Config::build(
        String::from("01/01/2024"),
        1,
        String::from("primary"),
        colours.into_iter().map(String::from).collect(),
        patterns.into_iter().map(String::from).collect(),
    )
    .unwrap()
}

#[test]
fn test_invalid_date_fails_at_build() {
    for bad in [
        "2024-01-01",
        "1/1/2024",
        "32/01/2024",
        "00/01/2024",
        "01/13/2024",
        "29/02/2023",
        "31/04/2024",
        "ab/cd/efgh",
        "",
    ] {
        let result = Config::build(
            String::from(bad),
            1,
            String::from("primary"),
            vec![],
            vec![],
        );
        match result {
            Err(ConfigError::InvalidDate(date)) => assert_eq!(date, bad),
            _ => panic!("expected the date {:?} to be rejected at build time", bad),
        }
    }
}

#[test]
fn test_valid_dates_accepted() {
    for good in ["01/01/2024", "29/02/2024", "31/12/1999", "28/02/2023", "30/04/2025"] {
        assert!(Config::build(String::from(good), 1, String::new(), vec![], vec![]).is_ok());
    }
}

#[test]
fn test_default_filters_apply() {
    let fs = default_filters(&sample_config(vec!["9"], vec!["^temp"])).unwrap();

    let all_day = Event::build(String::from("a"), 0, String::from("holiday"), String::from("none"));
    let coloured = Event::build(String::from("b"), 50, String::from("errand"), String::from("9"));
    let temp = Event::build(String::from("c"), 60, String::from("temp block"), String::from("none"));
    let keep = Event::build(String::from("d"), 70, String::from("standup"), String::from("none"));

    let events = vec![all_day, coloured, temp, keep];
    let kept = fs.apply(&events);

    assert_eq!(kept.len(), 1);
    assert_eq!(kept[0].id, "d");
}

#[test]
fn test_default_filters_propagates_pattern_error() {
    let result = default_filters(&sample_config(vec![], vec!["("]));
    assert!(matches!(result, Err(ConfigError::InvalidPattern(_))));
}

#[test]
fn test_apply_preserves_order() {
    let fs = FilterSet::new(vec![Filter::AllDay(AllDayFilter::build())]);
    let events = vec![
        Event::build(String::from("a"), 10, String::from("first"), String::from("none")),
        Event::build(String::from("b"), 0, String::from("all day"), String::from("none")),
        Event::build(String::from("c"), 30, String::from("second"), String::from("none")),
        Event::build(String::from("d"), 20, String::from("third"), String::from("none")),
    ];
    let kept = fs.apply(&events);
    let ids: Vec<&str> = kept.iter().map(|e| e.id.as_str()).collect();
    assert_eq!(ids, vec!["a", "c", "d"]);
}

#[test]
fn test_apply_idempotent() {
    let fs = default_filters(&sample_config(vec!["9"], vec!["backup"])).unwrap();
    let events = vec![
        Event::build(String::from("a"), 0, String::from("holiday"), String::from("none")),
        Event::build(String::from("b"), 40, String::from("planning"), String::from("1")),
        Event::build(String::from("c"), 50, String::from("old backup"), String::from("none")),
        Event::build(String::from("d"), 60, String::from("review"), String::from("9")),
    ];
    let once = fs.apply(&events);
    let twice = fs.apply(&once);
    assert_eq!(once, twice);
}

#[test]
fn test_removing_a_filter_keeps_more() {
    let full = default_filters(&sample_config(vec!["9"], vec!["temp"])).unwrap();
    let reduced = FilterSet::new(vec![
        Filter::AllDay(AllDayFilter::build()),
        Filter::Pattern(PatternFilter::build(&vec![String::from("temp")]).unwrap()),
    ]);
    let events = vec![
        Event::build(String::from("a"), 0, String::from("holiday"), String::from("none")),
        Event::build(String::from("b"), 40, String::from("planning"), String::from("9")),
        Event::build(String::from("c"), 50, String::from("temp block"), String::from("none")),
        Event::build(String::from("d"), 60, String::from("review"), String::from("none")),
    ];
    let kept_full = full.apply(&events);
    let kept_reduced = reduced.apply(&events);
    // Every event the full set keeps, the reduced set keeps too.
    for e in &kept_full {
        assert!(kept_reduced.contains(e));
    }
    assert_eq!(kept_full.len(), 1);
    assert_eq!(kept_reduced.len(), 2);
}

#[test]
fn test_apply_on_no_events() {
    let fs = default_filters(&sample_config(vec!["9"], vec!["temp"])).unwrap();
    assert!(fs.apply(&vec![]).is_empty());
}

#[test]
fn test_duplicate_colours_are_harmless() {
    let filter = ColourFilter::build(&vec![String::from("9"), String::from("9")]);
    assert!(filter.exclude(&event_coloured("9")));
    assert!(!filter.exclude(&event_coloured("8")));
}

#[test]
fn test_filter_order_does_not_matter() {
    let colours = vec![String::from("9")];
    let patterns = vec![String::from("temp")];
    let forwards = FilterSet::new(vec![
        Filter::AllDay(AllDayFilter::build()),
        Filter::Colour(ColourFilter::build(&colours)),
        Filter::Pattern(PatternFilter::build(&patterns).unwrap()),
    ]);
    let backwards = FilterSet::new(vec![
        Filter::Pattern(PatternFilter::build(&patterns).unwrap()),
        Filter::Colour(ColourFilter::build(&colours)),
        Filter::AllDay(AllDayFilter::build()),
    ]);
    let events = vec![
        Event::build(String::from("a"), 0, String::from("holiday"), String::from("none")),
        Event::build(String::from("b"), 40, String::from("planning"), String::from("9")),
        Event::build(String::from("c"), 50, String::from("temp block"), String::from("none")),
        Event::build(String::from("d"), 60, String::from("review"), String::from("none")),
    ];
    assert_eq!(forwards.apply(&events), backwards.apply(&events));
}

#[test]
fn test_empty_filter_set_keeps_everything() {
    let fs = FilterSet::new(vec![]);
    let events = vec![
        Event::build(String::from("a"), 0, String::from("holiday"), String::from("none")),
        Event::build(String::from("b"), 40, String::from("planning"), String::from("9")),
    ];
    let kept = fs.apply(&events);
    assert_eq!(kept, events);
}
