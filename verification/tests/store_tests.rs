use talkshows::person::{Entry, Person};
use talkshows::store::{StoreAction, StoreEvent};
use talkshows::time::DateTime;

fn guest(name: &str) -> Person {
    Person { name: name.to_string(), title: None, party: None, biografie: None, image_url: None }
}

fn entry(guests: Vec<Person>) -> Entry {
    Entry {
        name: "Folge".to_string(),
        time: DateTime { year: 2020, month: 1, day: 2, hour: 21, minute: 45, second: 0 },
        participants: guests,
        url: "https://example.org/folge".to_string(),
    }
}

#[test]
fn guests_then_episode_then_links() {
    let (mut s, a) = entry(vec![guest("A"), guest("B")]).write_to_db(0);
    assert!(matches!(a, StoreAction::InsertGuest(ref p) if p.name == "A"));
    let a = s.step(StoreEvent::GuestId(7));
    assert!(matches!(a, StoreAction::InsertGuest(ref p) if p.name == "B"));
    let a = s.step(StoreEvent::GuestId(9));
    match a {
        StoreAction::InsertEpisode { show, name, url, time } => {
            assert_eq!(show, 0);
            assert_eq!(name, "Folge");
            assert_eq!(url, "https://example.org/folge");
            assert_eq!(time.day, 2);
        },
        _ => panic!("expected the episode"),
    }
    let a = s.step(StoreEvent::EpisodeId(Some(3)));
    assert!(matches!(a, StoreAction::Link { episode: 3, guest: 7 }));
    let a = s.step(StoreEvent::Linked);
    assert!(matches!(a, StoreAction::Link { episode: 3, guest: 9 }));
    let a = s.step(StoreEvent::Linked);
    assert!(matches!(a, StoreAction::Done));
    assert!(s.is_done());
}

#[test]
fn episode_not_stored_means_no_links() {
    let (mut s, _) = entry(vec![guest("A")]).write_to_db(2);
    let _ = s.step(StoreEvent::GuestId(1));
    let a = s.step(StoreEvent::EpisodeId(None));
    assert!(matches!(a, StoreAction::Done));
}

#[test]
fn episode_without_guests_is_stored_directly() {
    let (mut s, a) = entry(vec![]).write_to_db(1);
    assert!(matches!(a, StoreAction::InsertEpisode { show: 1, .. }));
    assert!(!s.accepts(&StoreEvent::GuestId(1)));
    let a = s.step(StoreEvent::EpisodeId(Some(5)));
    assert!(matches!(a, StoreAction::Done));
}

#[test]
fn show_numbers() {
    assert_eq!(talkshows::anne_will::SHOW, 0);
    assert_eq!(talkshows::hart_aber_fair::SHOW, 1);
    assert_eq!(talkshows::maischberger::SHOW, 2);
    assert_eq!(talkshows::maybrit_illner::SHOW, 3);
    assert_eq!(talkshows::markus_lanz::SHOW, 3);
}
