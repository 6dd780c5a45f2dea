//! End-to-end tests of the pipeline against the in-memory backend.

use agendrr::clients::memory::InMemoryClient;
use agendrr::clients::CalendarClient;
use agendrr::clients::delete_confirmed;
use agendrr::clients::deletion_ids;
use agendrr::config::Config;
use agendrr::event::Event;
use agendrr::fetch_filtered;
use agendrr::filters::default_filters;

fn config(colours: Vec<&str>, patterns: Vec<&str>) -> Config {
    Config::build(
        String::from("01/01/2024"),
        1,
        String::from("primary"),
        colours.into_iter().map(String::from).collect(),
        patterns.into_iter().map(String::from).collect(),
    )
    .unwrap()
}

fn event(id: &str, start: i64, name: &str, colour: &str) -> Event {
    Event::build(String::from(id), start, String::from(name), String::from(colour))
}

#[test]
fn test_from_backend_normalisation() {
    let e = Event::from_backend(String::from("e1"), None, None, None);
    assert_eq!(e.id, "e1");
    assert_eq!(e.start_time, 0);
    assert_eq!(e.name, "");
    assert_eq!(e.color, "none");

    let e = Event::from_backend(
        String::from("e2"),
        Some(1234567890),
        Some(String::from("standup")),
        Some(String::from("9")),
    );
    assert_eq!(e.start_time, 1234567890);
    assert_eq!(e.name, "standup");
    assert_eq!(e.color, "9");
}

#[test]
fn test_deletion_ids_in_order() {
    let events = vec![event("a", 10, "x", "none"), event("b", 20, "y", "none")];
    assert_eq!(deletion_ids(&events), vec!["a", "b"]);
}

#[test]
fn test_fetch_failure_is_surfaced() {
    let mut client = InMemoryClient::build(vec![], true, None);
    let fs = default_filters(&config(vec![], vec![])).unwrap();
    let result = fetch_filtered(&mut client, &fs);
    assert!(result.is_err());
    assert!(!result.unwrap_err().message.is_empty());
}

#[test]
fn test_everything_filtered_means_nothing_deleted() {
    // A one-day window's worth of events, every one of them matched by a
    // rule: an all-day event, an ignored colour, and an ignored name.
    let backend_events = vec![
        event("a", 0, "holiday", "none"),
        event("b", 3600, "errand", "9"),
        event("c", 7200, "temp standup", "none"),
    ];
    let mut client = InMemoryClient::build(backend_events, false, None);
    let fs = default_filters(&config(vec!["9"], vec!["^temp"])).unwrap();

    let kept = fetch_filtered(&mut client, &fs).unwrap();
    assert!(kept.is_empty());

    // With nothing left, the run ends before any prompt: no deletion is
    // ever attempted.
    assert!(client.deleted_so_far().is_empty());
}

#[test]
fn test_declined_confirmation_deletes_nothing() {
    let backend_events = vec![
        event("a", 3600, "planning", "none"),
        event("b", 7200, "review", "none"),
    ];
    let mut client = InMemoryClient::build(backend_events, false, None);
    let fs = default_filters(&config(vec!["9"], vec!["^temp"])).unwrap();

    let kept = fetch_filtered(&mut client, &fs).unwrap();
    assert_eq!(kept.len(), 2);

    let outcome = delete_confirmed(&mut client, &kept, false);
    assert_eq!(outcome.unwrap(), 0);
    assert!(client.deleted_so_far().is_empty());
}

#[test]
fn test_confirmed_deletion_deletes_all() {
    let backend_events = vec![
        event("a", 3600, "planning", "none"),
        event("b", 7200, "review", "none"),
    ];
    let mut client = InMemoryClient::build(backend_events, false, None);
    let fs = default_filters(&config(vec![], vec![])).unwrap();

    let kept = fetch_filtered(&mut client, &fs).unwrap();
    let outcome = delete_confirmed(&mut client, &kept, true);
    assert_eq!(outcome.unwrap(), 2);
    assert_eq!(client.deleted_so_far(), vec!["a", "b"]);
}

#[test]
fn test_failed_deletion_names_the_id_and_keeps_earlier_ones() {
    // Three identifiers, the second one refused by the backend: the error
    // names it, reports one completed deletion, and the first deletion is
    // not rolled back.
    let events = vec![
        event("a", 10, "x", "none"),
        event("b", 20, "y", "none"),
        event("c", 30, "z", "none"),
    ];
    let mut client = InMemoryClient::build(vec![], false, Some(String::from("b")));

    let err = delete_confirmed(&mut client, &events, true).unwrap_err();
    assert_eq!(err.event_id, "b");
    assert_eq!(err.completed, 1);
    assert!(!err.message.is_empty());
    assert_eq!(client.deleted_so_far(), vec!["a"]);
}

#[test]
fn test_confirmed_deletion_of_nothing() {
    let mut client = InMemoryClient::build(vec![], false, None);
    let outcome = delete_confirmed(&mut client, &vec![], true);
    assert_eq!(outcome.unwrap(), 0);
    assert!(client.deleted_so_far().is_empty());
}

#[test]
fn test_fetching_deletes_nothing() {
    let mut client = InMemoryClient::build(vec![event("a", 10, "x", "none")], false, None);
    let fetched = client.events().unwrap();
    assert_eq!(fetched.len(), 1);
    assert!(client.deleted_so_far().is_empty());
}
