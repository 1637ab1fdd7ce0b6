//! The life of bookings from request to start of the conference.

use conference_booking::actions::{
    confirm_waitlist_booking_secure_at, create_booking_atomic_at, create_waitlist_booking_at,
    get_booking_by_id, get_conference_by_name, get_open_seats,
};
use conference_booking::errors::Error;
use conference_booking::handlers::{
    add_conference_at, add_user, book_conference_at, cancel_booking_request_at,
    confirm_waitlist_booking_at, get_booking_status,
};
use conference_booking::models::{
    BookConferenceRequest, Booking, BookingIdRequest, BookingStatus, Conference,
    ConfirmBookingRequest, NewConference, NewUser,
};
use conference_booking::queue::{
    BrokerCommand, ConferenceStartConsumer, ConferenceStartMessage,
    ConfirmationExpirationMessage, Delivery, ExpiredConfirmationConsumer, Payload,
    WaitlistQueueService,
};
use conference_booking::state::Store;

const SECOND: i64 = 1_000_000;
const T0: i64 = 1_800_000_000 * SECOND;

fn user(store: &mut Store, id: &str) {
    let form = NewUser { user_id: id.to_string(), topics: vec!["rust".to_string()] };
    assert!(add_user(store, &form).is_ok());
}

fn conference(store: &mut Store, service: &WaitlistQueueService, name: &str, start: &str, end: &str, slots: i32) {
    let form = NewConference {
        name: name.to_string(),
        location: "Berlin".to_string(),
        start: start.to_string(),
        end: end.to_string(),
        slots,
        topics: vec!["systems".to_string()],
    };
    assert!(add_conference_at(store, service, &form, T0).is_ok());
}

fn book(store: &mut Store, service: &WaitlistQueueService, name: &str, user_id: &str, now: i64) -> i32 {
    let form = BookConferenceRequest { name: name.to_string(), user_id: user_id.to_string() };
    book_conference_at(store, service, &form, now).unwrap().0.booking_id
}

fn seats(store: &Store, name: &str) -> i32 {
    get_conference_by_name(store, name).unwrap().available_slots
}

fn booking(store: &Store, id: i32) -> Booking {
    get_booking_by_id(store, id).unwrap()
}

/// One seat, two users: the stage on which most scenes play.
fn one_seat() -> (Store, WaitlistQueueService, i32, i32) {
    let mut store = Store::new();
    let service = WaitlistQueueService::new();
    user(&mut store, "u1");
    user(&mut store, "u2");
    user(&mut store, "u3");
    conference(&mut store, &service, "RustConf", "2030-01-01 10:00:00", "2030-01-01 12:00:00", 1);
    let b1 = book(&mut store, &service, "RustConf", "u1", T0 + SECOND);
    let b2 = book(&mut store, &service, "RustConf", "u2", T0 + 2 * SECOND);
    (store, service, b1, b2)
}

#[test]
fn fill_and_wait() {
    let (store, _service, b1, b2) = one_seat();
    assert_eq!(booking(&store, b1).status, BookingStatus::CONFIRMED);
    assert_eq!(seats(&store, "RustConf"), 0);
    let status = get_booking_status(&store, b2).unwrap();
    assert_eq!(status.booking_id, b2);
    assert_eq!(status.status, BookingStatus::WAITLISTED);
    assert_eq!(status.waitlist_position, Some(1));
    assert_eq!(status.conference_name, "RustConf");
    assert!(!status.can_confirm);
    assert_eq!(status.confirmation_deadline, None);
}

#[test]
fn first_booking_answers_confirmed_and_second_waitlisted() {
    let mut store = Store::new();
    let service = WaitlistQueueService::new();
    user(&mut store, "u1");
    user(&mut store, "u2");
    conference(&mut store, &service, "RustConf", "2030-01-01 10:00:00", "2030-01-01 12:00:00", 1);
    let form = BookConferenceRequest { name: "RustConf".to_string(), user_id: "u1".to_string() };
    let (reply, plan) = book_conference_at(&mut store, &service, &form, T0).unwrap();
    assert_eq!(reply.status, BookingStatus::CONFIRMED);
    assert_eq!(reply.message, "Booking confirmed successfully");
    assert_eq!(reply.waitlist_position, None);
    assert!(plan.is_empty());
    let form = BookConferenceRequest { name: "RustConf".to_string(), user_id: "u2".to_string() };
    let (reply, plan) = book_conference_at(&mut store, &service, &form, T0 + 7).unwrap();
    assert_eq!(reply.status, BookingStatus::WAITLISTED);
    assert_eq!(reply.message, "Added to waitlist");
    assert_eq!(reply.waitlist_position, Some(1));
    assert_eq!(
        plan,
        vec![
            BrokerCommand::DeclareQueue {
                name: "conference.RustConf.waitlist".to_string(),
                dead_letter: None,
            },
            BrokerCommand::Publish {
                routing_key: "conference.RustConf.waitlist".to_string(),
                ttl_ms: None,
                payload: Payload::SlotAvailable(conference_booking::queue::SlotAvailableMessage {
                    booking_id: reply.booking_id,
                    user_id: "u2".to_string(),
                    conference_name: "RustConf".to_string(),
                    confirmation_deadline: T0 + 7,
                }),
            },
        ]
    );
}

#[test]
fn cancel_promotes() {
    let (mut store, service, b1, b2) = one_seat();
    let now = T0 + 100 * SECOND;
    let (reply, plan) =
        cancel_booking_request_at(&mut store, &service, &BookingIdRequest { booking_id: b1 }, now).unwrap();
    assert_eq!(reply.message, "Booking canceled successfully");
    let cancelled = booking(&store, b1);
    assert_eq!(cancelled.status, BookingStatus::CANCELED);
    assert_eq!(cancelled.canceled_at, Some(now));
    let promoted = booking(&store, b2);
    assert_eq!(promoted.status, BookingStatus::ConfirmationPending);
    assert_eq!(promoted.can_confirm, Some(true));
    assert_eq!(promoted.waitlist_confirmation_deadline, Some(now + 10 * SECOND));
    assert_eq!(promoted.waitlist_position, None);
    // No seat is open: the one that no confirmed booking holds is held for
    // the pending confirmation, by the booking rule and not by the counter.
    assert_eq!(get_open_seats(&store, 1), Some(0));
    assert_eq!(seats(&store, "RustConf"), 1);
    let third = book(&mut store, &service, "RustConf", "u3", now + SECOND);
    assert_eq!(booking(&store, third).status, BookingStatus::WAITLISTED);
    assert_eq!(
        plan,
        vec![
            BrokerCommand::DeclareQueue {
                name: "confirmation.timer".to_string(),
                dead_letter: Some(("dead.letter.exchange".to_string(), "confirmation.expired".to_string())),
            },
            BrokerCommand::Publish {
                routing_key: "confirmation.timer".to_string(),
                ttl_ms: Some(10_000),
                payload: Payload::ConfirmationExpiration(ConfirmationExpirationMessage {
                    booking_id: b2,
                    expiration_time: now + 10 * SECOND,
                    conference_name: "RustConf".to_string(),
                }),
            },
        ]
    );
}

#[test]
fn confirm_on_time() {
    let (mut store, service, b1, b2) = one_seat();
    let now = T0 + 100 * SECOND;
    cancel_booking_request_at(&mut store, &service, &BookingIdRequest { booking_id: b1 }, now).unwrap();
    let form = ConfirmBookingRequest { booking_id: b2, user_id: "u2".to_string() };
    let reply = confirm_waitlist_booking_at(&mut store, &form, now + 5 * SECOND).unwrap();
    assert_eq!(reply.message, "Booking confirmed successfully");
    let confirmed = booking(&store, b2);
    assert_eq!(confirmed.status, BookingStatus::CONFIRMED);
    assert_eq!(confirmed.can_confirm, Some(false));
    assert_eq!(confirmed.waitlist_confirmation_deadline, None);
    assert_eq!(confirmed.waitlist_position, None);
    assert_eq!(get_open_seats(&store, 1), Some(0));
    assert_eq!(seats(&store, "RustConf"), 0);
}

#[test]
fn confirm_at_the_deadline_is_in_time_and_after_it_is_late() {
    let (mut store, service, b1, b2) = one_seat();
    let now = T0 + 100 * SECOND;
    cancel_booking_request_at(&mut store, &service, &BookingIdRequest { booking_id: b1 }, now).unwrap();
    let late = confirm_waitlist_booking_secure_at(&mut store, b2, "u2", now + 10 * SECOND + 1);
    assert_eq!(late, Err(Error::DeadlineExpired));
    assert_eq!(booking(&store, b2).status, BookingStatus::ConfirmationPending);
    let in_time = confirm_waitlist_booking_secure_at(&mut store, b2, "u2", now + 10 * SECOND);
    assert_eq!(in_time.unwrap().status, BookingStatus::CONFIRMED);
}

#[test]
fn forfeit_by_timeout() {
    let (mut store, service, b1, b2) = one_seat();
    let b3 = book(&mut store, &service, "RustConf", "u3", T0 + 3 * SECOND);
    assert_eq!(booking(&store, b3).waitlist_position, Some(2));
    let now = T0 + 100 * SECOND;
    cancel_booking_request_at(&mut store, &service, &BookingIdRequest { booking_id: b1 }, now).unwrap();
    assert_eq!(booking(&store, b2).status, BookingStatus::ConfirmationPending);

    let consumer = ExpiredConfirmationConsumer::new();
    let message = ConfirmationExpirationMessage {
        booking_id: b2,
        expiration_time: now + 10 * SECOND,
        conference_name: "RustConf".to_string(),
    };
    let later = now + 10 * SECOND;
    let (delivery, plan) = consumer.handle_expired_confirmation(&mut store, Some(&message), later);
    assert_eq!(delivery, Delivery::Ack);
    let forfeited = booking(&store, b2);
    assert_eq!(forfeited.status, BookingStatus::WAITLISTED);
    assert_eq!(forfeited.waitlist_position, Some(3));
    assert_eq!(forfeited.can_confirm, Some(false));
    assert_eq!(forfeited.waitlist_confirmation_deadline, None);
    let next = booking(&store, b3);
    assert_eq!(next.status, BookingStatus::ConfirmationPending);
    assert_eq!(next.waitlist_confirmation_deadline, Some(later + 10 * SECOND));
    assert_eq!(
        plan,
        vec![BrokerCommand::Publish {
            routing_key: "confirmation.timer".to_string(),
            ttl_ms: Some(10_000),
            payload: Payload::ConfirmationExpiration(ConfirmationExpirationMessage {
                booking_id: b3,
                expiration_time: later + 10 * SECOND,
                conference_name: "RustConf".to_string(),
            }),
        }]
    );
}

fn pending_row(id: i32, conference_id: i32, user_id: &str, deadline: i64) -> Booking {
    Booking {
        booking_id: id,
        conference_id,
        user_id: user_id.to_string(),
        status: BookingStatus::ConfirmationPending,
        created_at: Some(T0),
        waitlist_confirmation_deadline: Some(deadline),
        canceled_at: None,
        can_confirm: Some(true),
        waitlist_position: None,
    }
}

fn confirmed_row(id: i32, conference_id: i32, user_id: &str) -> Booking {
    Booking {
        booking_id: id,
        conference_id,
        user_id: user_id.to_string(),
        status: BookingStatus::CONFIRMED,
        created_at: Some(T0),
        waitlist_confirmation_deadline: None,
        canceled_at: None,
        can_confirm: Some(false),
        waitlist_position: None,
    }
}

fn conference_row(id: i32, name: &str, total: i32, available: i32) -> Conference {
    Conference {
        conference_id: id,
        name: name.to_string(),
        location: "Berlin".to_string(),
        start_timestamp: 1_893_492_000_000_000,
        end_timestamp: 1_893_499_200_000_000,
        total_slots: total,
        available_slots: available,
        created_at: Some(T0),
    }
}

fn users(ids: &[&str]) -> Vec<conference_booking::models::User> {
    ids.iter().map(|id| conference_booking::models::User { user_id: id.to_string() }).collect()
}

#[test]
fn direct_book_blocked_by_pending() {
    let store = Store::from_rows(
        users(&["u1", "u2", "u3"]),
        vec![],
        vec![conference_row(1, "RustConf", 1, 0)],
        vec![],
        vec![confirmed_row(1, 1, "u1"), pending_row(2, 1, "u2", T0 + 10 * SECOND)],
    );
    let mut store = store.unwrap();
    // The rows are a valid state, but the pending confirmation has no seat.
    assert!(!store.has_seats_reserved());
    let service = WaitlistQueueService::new();
    let form = BookConferenceRequest { name: "RustConf".to_string(), user_id: "u3".to_string() };
    let (reply, _) = book_conference_at(&mut store, &service, &form, T0).unwrap();
    assert_eq!(reply.status, BookingStatus::WAITLISTED);
    assert_eq!(reply.waitlist_position, Some(1));
    assert_eq!(seats(&store, "RustConf"), 0);
}

#[test]
fn direct_book_blocked_by_pending_while_the_counter_shows_a_seat() {
    let (mut store, service, b1, b2) = one_seat();
    cancel_booking_request_at(&mut store, &service, &BookingIdRequest { booking_id: b1 }, T0 + 50 * SECOND)
        .unwrap();
    assert_eq!(booking(&store, b2).status, BookingStatus::ConfirmationPending);
    assert_eq!(seats(&store, "RustConf"), 1);
    let b3 = create_booking_atomic_at(&mut store, 1, "u3", T0 + 51 * SECOND).unwrap();
    assert_eq!(b3.status, BookingStatus::WAITLISTED);
    assert_eq!(b3.waitlist_position, Some(1));
    assert_eq!(seats(&store, "RustConf"), 1);
    assert_eq!(get_open_seats(&store, 1), Some(0));
}

#[test]
fn conference_start_purge() {
    let mut store = Store::new();
    let service = WaitlistQueueService::new();
    for id in ["u1", "u2", "u3", "u4", "u5", "u6"] {
        user(&mut store, id);
    }
    conference(&mut store, &service, "RustConf", "2030-01-01 10:00:00", "2030-01-01 12:00:00", 2);
    conference(&mut store, &service, "GoConf", "2030-01-01 14:00:00", "2030-01-01 15:00:00", 1);
    let b1 = book(&mut store, &service, "RustConf", "u1", T0 + 1);
    let b2 = book(&mut store, &service, "RustConf", "u2", T0 + 2);
    let b3 = book(&mut store, &service, "RustConf", "u3", T0 + 3);
    let b4 = book(&mut store, &service, "RustConf", "u4", T0 + 4);
    let other = book(&mut store, &service, "GoConf", "u5", T0 + 5);
    let waiting_elsewhere = book(&mut store, &service, "GoConf", "u6", T0 + 6);
    cancel_booking_request_at(&mut store, &service, &BookingIdRequest { booking_id: b1 }, T0 + 7).unwrap();
    assert_eq!(booking(&store, b2).status, BookingStatus::CONFIRMED);
    assert_eq!(booking(&store, b3).status, BookingStatus::ConfirmationPending);
    assert_eq!(booking(&store, b4).status, BookingStatus::WAITLISTED);

    let consumer = ConferenceStartConsumer::new("conference.".to_string());
    let start = 1_893_492_000_000_000;
    let message = ConferenceStartMessage { conference_name: "RustConf".to_string(), start_time: start };
    let (delivery, command) = consumer.handle_conference_start(&mut store, Some(&message), start);
    assert_eq!(delivery, Delivery::Ack);
    assert_eq!(
        command,
        Some(BrokerCommand::DeleteQueue { name: "conference.RustConf.waitlist".to_string() })
    );
    for id in [b3, b4] {
        let row = booking(&store, id);
        assert_eq!(row.status, BookingStatus::CANCELED);
        assert_eq!(row.canceled_at, Some(start));
        assert_eq!(row.can_confirm, Some(false));
        assert_eq!(row.waitlist_confirmation_deadline, None);
        assert_eq!(row.waitlist_position, None);
    }
    assert_eq!(booking(&store, b2).status, BookingStatus::CONFIRMED);
    assert_eq!(seats(&store, "RustConf"), 1);
    assert_eq!(booking(&store, other).status, BookingStatus::CONFIRMED);
    assert_eq!(booking(&store, waiting_elsewhere).status, BookingStatus::WAITLISTED);
    assert!(store.is_fair());
    assert!(store.has_seats_reserved());
}

#[test]
fn conference_start_leaves_confirmed_bookings() {
    let (mut store, _service, b1, b2) = one_seat();
    let consumer = ConferenceStartConsumer::new("conference.".to_string());
    let (cancelled, _) = consumer.process_conference_start(&mut store, "RustConf", T0 + 9).unwrap();
    assert_eq!(cancelled, 1);
    assert_eq!(booking(&store, b1).status, BookingStatus::CONFIRMED);
    assert_eq!(booking(&store, b2).status, BookingStatus::CANCELED);
    assert_eq!(seats(&store, "RustConf"), 0);
}

#[test]
fn overlap_cascade() {
    let mut store = Store::new();
    let service = WaitlistQueueService::new();
    for id in ["u1", "x", "y"] {
        user(&mut store, id);
    }
    conference(&mut store, &service, "A", "2030-01-01 14:00:00", "2030-01-01 15:00:00", 1);
    conference(&mut store, &service, "B", "2030-01-01 14:30:00", "2030-01-01 15:30:00", 1);
    let on_a = book(&mut store, &service, "A", "x", T0 + 1);
    book(&mut store, &service, "B", "y", T0 + 2);
    let waits_a = book(&mut store, &service, "A", "u1", T0 + 3);
    // The booking rules would refuse the second entry of u1; the store takes
    // it as it is handed in.
    let waits_b = create_waitlist_booking_at(&mut store, 2, "u1", T0 + 4).unwrap().booking_id;
    assert_eq!(booking(&store, waits_b).status, BookingStatus::WAITLISTED);

    let now = T0 + 10 * SECOND;
    cancel_booking_request_at(&mut store, &service, &BookingIdRequest { booking_id: on_a }, now).unwrap();
    assert_eq!(booking(&store, waits_a).status, BookingStatus::ConfirmationPending);
    let form = ConfirmBookingRequest { booking_id: waits_a, user_id: "u1".to_string() };
    confirm_waitlist_booking_at(&mut store, &form, now + SECOND).unwrap();
    assert_eq!(booking(&store, waits_a).status, BookingStatus::CONFIRMED);
    let dropped = booking(&store, waits_b);
    assert_eq!(dropped.status, BookingStatus::CANCELED);
    assert_eq!(dropped.canceled_at, Some(now + SECOND));
    assert_eq!(dropped.waitlist_position, None);
}

#[test]
fn cancelled_pending_booking_hands_its_seat_to_the_next() {
    let (mut store, service, b1, b2) = one_seat();
    let b3 = book(&mut store, &service, "RustConf", "u3", T0 + 3 * SECOND);
    cancel_booking_request_at(&mut store, &service, &BookingIdRequest { booking_id: b1 }, T0 + 10 * SECOND)
        .unwrap();
    assert_eq!(booking(&store, b2).status, BookingStatus::ConfirmationPending);
    let (_, plan) = cancel_booking_request_at(
        &mut store,
        &service,
        &BookingIdRequest { booking_id: b2 },
        T0 + 11 * SECOND,
    )
    .unwrap();
    assert_eq!(booking(&store, b2).status, BookingStatus::CANCELED);
    assert_eq!(seats(&store, "RustConf"), 1);
    assert_eq!(booking(&store, b3).status, BookingStatus::ConfirmationPending);
    assert_eq!(plan.len(), 2);
}

#[test]
fn cancelled_waitlisted_booking_frees_nothing() {
    let (mut store, service, b1, b2) = one_seat();
    let (_, plan) =
        cancel_booking_request_at(&mut store, &service, &BookingIdRequest { booking_id: b2 }, T0 + 10 * SECOND)
            .unwrap();
    assert!(plan.is_empty());
    assert_eq!(booking(&store, b2).status, BookingStatus::CANCELED);
    assert_eq!(booking(&store, b1).status, BookingStatus::CONFIRMED);
    assert_eq!(seats(&store, "RustConf"), 0);
}
