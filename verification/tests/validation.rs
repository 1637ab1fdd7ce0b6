//! The grammar of request texts and the checks of the two forms.

use conference_booking::errors::Error;
use conference_booking::handlers::{
    add_conference_at, add_conference_from, add_user, success_status, Endpoint,
};
use conference_booking::models::{NewConference, NewUser};
use conference_booking::queue::{
    BrokerCommand, ConferenceStartMessage, Payload, WaitlistQueueService,
};
use conference_booking::state::Store;
use conference_booking::validation::{
    are_topics_valid, check_conference_form, is_alphanumeric, is_alphanumeric_with_spaces,
    validate_new_conference, validate_new_user,
};

fn texts(items: &[&str]) -> Vec<String> {
    items.iter().map(|t| t.to_string()).collect()
}

fn user_form(id: &str, topics: &[&str]) -> NewUser {
    NewUser { user_id: id.to_string(), topics: texts(topics) }
}

fn conference_form(name: &str, location: &str, topics: &[&str]) -> NewConference {
    NewConference {
        name: name.to_string(),
        location: location.to_string(),
        start: "2030-01-01 10:00:00".to_string(),
        end: "2030-01-01 12:00:00".to_string(),
        slots: 2,
        topics: texts(topics),
    }
}

#[test]
fn letters_and_digits_make_an_id() {
    for good in ["a", "Z", "0", "user42", "ABCxyz0189"] {
        assert!(is_alphanumeric(good), "{}", good);
    }
    for bad in ["", " ", "user 42", "user_42", "user-42", "user42\n", "\u{e9}", "caf\u{e9}", "a/b", "a@b", "a:b", "a[b", "a`b", "a{b"] {
        assert!(!is_alphanumeric(bad), "{:?}", bad);
    }
}

#[test]
fn letters_digits_and_spaces_make_a_name() {
    for good in ["Rust Conf 2030", "a", " ", "  a  ", "Z9"] {
        assert!(is_alphanumeric_with_spaces(good), "{:?}", good);
    }
    for bad in ["", "Rust-Conf", "Rust\tConf", "Rust Conf!", "M\u{fc}nchen", "a\u{a0}b"] {
        assert!(!is_alphanumeric_with_spaces(bad), "{:?}", bad);
    }
}

#[test]
fn the_characters_next_to_the_allowed_ranges_are_refused() {
    for c in ['/', ':', '@', '[', '`', '{'] {
        assert!(!is_alphanumeric(&c.to_string()));
        assert!(!is_alphanumeric_with_spaces(&c.to_string()));
    }
    for c in ['0', '9', 'A', 'Z', 'a', 'z'] {
        assert!(is_alphanumeric(&c.to_string()));
    }
}

#[test]
fn every_topic_must_be_well_formed() {
    assert!(are_topics_valid(&texts(&[])));
    assert!(are_topics_valid(&texts(&["rust", "formal methods"])));
    assert!(!are_topics_valid(&texts(&["rust", ""])));
    assert!(!are_topics_valid(&texts(&["c++"])));
}

#[test]
fn a_user_form_is_checked_in_order() {
    assert_eq!(validate_new_user(&user_form("ann", &["rust"])), Ok(()));
    assert_eq!(validate_new_user(&user_form("", &[])), Err(Error::InvalidUserId));
    assert_eq!(validate_new_user(&user_form("an n", &["rust"])), Err(Error::InvalidUserId));
    assert_eq!(validate_new_user(&user_form("ann", &[])), Err(Error::NoTopics));
    let many: Vec<String> = (0..51).map(|i| format!("t{}", i)).collect();
    assert_eq!(
        validate_new_user(&NewUser { user_id: "ann".to_string(), topics: many }),
        Err(Error::TooManyTopics)
    );
    let fifty: Vec<String> = (0..50).map(|i| format!("t{}", i)).collect();
    assert_eq!(validate_new_user(&NewUser { user_id: "ann".to_string(), topics: fifty }), Ok(()));
    assert_eq!(validate_new_user(&user_form("ann", &["rust", "c#"])), Err(Error::InvalidTopic));
}

#[test]
fn a_conference_form_is_checked_in_order() {
    let ok = conference_form("RustConf", "Berlin", &["rust"]);
    assert_eq!(validate_new_conference(&ok), Ok(()));
    assert_eq!(validate_new_conference(&conference_form("Rust/Conf", "!", &[])), Err(Error::InvalidName));
    assert_eq!(validate_new_conference(&conference_form("", "Berlin", &["rust"])), Err(Error::InvalidName));
    assert_eq!(validate_new_conference(&conference_form("RustConf", "Berlin!", &[])), Err(Error::InvalidLocation));
    assert_eq!(validate_new_conference(&conference_form("RustConf", "Berlin", &[])), Err(Error::NoTopics));
    let eleven: Vec<String> = (0..11).map(|i| format!("t{}", i)).collect();
    let mut crowded = conference_form("RustConf", "Berlin", &[]);
    crowded.topics = eleven;
    assert_eq!(validate_new_conference(&crowded), Err(Error::TooManyTopics));
    assert_eq!(validate_new_conference(&conference_form("RustConf", "Berlin", &["c++"])), Err(Error::InvalidTopic));
    let mut bad_start = conference_form("RustConf", "Berlin", &["rust"]);
    bad_start.start = "2030-13-01 10:00:00".to_string();
    bad_start.end = "never".to_string();
    assert_eq!(validate_new_conference(&bad_start), Err(Error::InvalidStart));
    let mut bad_end = conference_form("RustConf", "Berlin", &["rust"]);
    bad_end.end = "2030-01-01T12:00:00".to_string();
    assert_eq!(validate_new_conference(&bad_end), Err(Error::InvalidEnd));
    assert_eq!(check_conference_form(&ok, None, Some(1)), Err(Error::InvalidStart));
    assert_eq!(check_conference_form(&ok, Some(1), None), Err(Error::InvalidEnd));
    assert_eq!(check_conference_form(&ok, Some(5), Some(1)), Ok(()));
}

#[test]
fn a_user_is_added_once_and_only_if_well_formed() {
    let mut store = Store::new();
    assert_eq!(add_user(&mut store, &user_form("ann", &["rust"])).unwrap().message, "User added successfully");
    assert_eq!(add_user(&mut store, &user_form("ann", &["go"])), Err(Error::UserExists));
    assert_eq!(add_user(&mut store, &user_form("b o b", &["go"])), Err(Error::InvalidUserId));
    assert_eq!(add_user(&mut store, &user_form("bob", &[])), Err(Error::NoTopics));
    assert_eq!(store.users().len(), 1);
    assert_eq!(store.user_interests().len(), 1);
}

#[test]
fn a_conference_is_added_and_its_start_is_announced() {
    let mut store = Store::new();
    let service = WaitlistQueueService::new();
    let now = 1_893_492_000_000_000 - 90_500_000;
    let (reply, plan) =
        add_conference_at(&mut store, &service, &conference_form("RustConf", "Berlin", &["rust"]), now).unwrap();
    assert_eq!(reply.message, "conference added successfully");
    assert_eq!(store.conferences().len(), 1);
    assert_eq!(
        plan,
        vec![
            BrokerCommand::DeclareQueue { name: "conference.starts".to_string(), dead_letter: None },
            BrokerCommand::DeclareQueue {
                name: "conference.start.timer".to_string(),
                dead_letter: Some((String::new(), "conference.starts".to_string())),
            },
            BrokerCommand::Publish {
                routing_key: "conference.start.timer".to_string(),
                ttl_ms: Some(90_500),
                payload: Payload::ConferenceStart(ConferenceStartMessage {
                    conference_name: "RustConf".to_string(),
                    start_time: 1_893_492_000_000_000,
                }),
            },
        ]
    );
}

#[test]
fn a_conference_is_not_added_for_a_fault_of_the_form_or_of_the_store() {
    let mut store = Store::new();
    let service = WaitlistQueueService::new();
    let good = conference_form("RustConf", "Berlin", &["rust"]);
    assert_eq!(
        add_conference_at(&mut store, &service, &conference_form("Rust_Conf", "Berlin", &["rust"]), 0),
        Err(Error::InvalidName)
    );
    assert_eq!(
        add_conference_from(&mut store, &service, &good, Some(10), Some(10), 0),
        Err(Error::StartNotBeforeEnd)
    );
    assert_eq!(
        add_conference_from(&mut store, &service, &good, None, None, 0),
        Err(Error::InvalidStart)
    );
    assert!(store.conferences().is_empty());
    assert!(add_conference_at(&mut store, &service, &good, 0).is_ok());
    assert_eq!(add_conference_at(&mut store, &service, &good, 0), Err(Error::ConferenceExists));
    assert_eq!(store.conferences().len(), 1);
}

#[test]
fn what_was_created_is_answered_with_201() {
    assert_eq!(success_status(Endpoint::AddUser), 201);
    assert_eq!(success_status(Endpoint::AddConference), 201);
    assert_eq!(success_status(Endpoint::Book), 201);
    assert_eq!(success_status(Endpoint::BookingStatus), 200);
    assert_eq!(success_status(Endpoint::Confirm), 200);
    assert_eq!(success_status(Endpoint::Cancel), 200);
    assert_eq!(success_status(Endpoint::ConferenceBookings), 200);
}
