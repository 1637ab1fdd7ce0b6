//! The booking rules on concrete states: what is kept, what is refused and
//! why, and the numbers that the rules compute.

use conference_booking::actions::{
    auto_cancel_expired_conferences_at, cancel_booking, cancel_booking_at,
    cancel_unconfirmed_bookings, check_existing_active_booking,
    check_user_has_overlapping_booking, confirm_waitlist_booking_secure_at, confirmation_deadline,
    count_bookings, create_booking_atomic_at, create_confirmed_booking_at,
    create_conference_from, create_new_conference, create_new_conference_at,
    create_waitlist_booking_at, get_booking_by_id, get_booking_with_conference_name,
    get_conference_by_name, get_next_waitlist_booking, get_open_seats, get_user_by_id,
    insert_new_user, move_booking_to_waitlist_end, next_waitlist_position,
    promote_waitlist_head_at, remove_from_overlapping_waitlists_at, update_booking_can_confirm,
};
use conference_booking::errors::{Error, ErrorKind};
use conference_booking::handlers::{book_conference_at, get_booking_status, get_conference_bookings};
use conference_booking::models::{
    BookConferenceRequest, Booking, BookingStatus, Conference, NewConference, User,
};
use conference_booking::queue::{
    ConfirmationExpirationMessage, Delivery, ExpiredConfirmationConsumer, WaitlistQueueService,
};
use conference_booking::state::Store;

const SECOND: i64 = 1_000_000;
const T0: i64 = 1_800_000_000 * SECOND;
const TEN: i64 = 1_893_492_000_000_000;
const NOON: i64 = 1_893_499_200_000_000;

fn form(name: &str, start: &str, end: &str, slots: i32) -> NewConference {
    NewConference {
        name: name.to_string(),
        location: "Berlin".to_string(),
        start: start.to_string(),
        end: end.to_string(),
        slots,
        topics: vec!["systems".to_string(), "types".to_string()],
    }
}

/// Users u1..u6 and the conference RustConf (id 1) from ten to noon.
fn stage(slots: i32) -> Store {
    let mut store = Store::new();
    for id in ["u1", "u2", "u3", "u4", "u5", "u6"] {
        insert_new_user(&mut store, id, &vec!["rust".to_string()]).unwrap();
    }
    create_new_conference_at(
        &mut store,
        &form("RustConf", "2030-01-01 10:00:00", "2030-01-01 12:00:00", slots),
        T0,
    )
    .unwrap();
    store
}

fn book(store: &mut Store, conference_id: i32, user_id: &str) -> Booking {
    create_booking_atomic_at(store, conference_id, user_id, T0 + 1).unwrap()
}

fn seats(store: &Store, name: &str) -> i32 {
    get_conference_by_name(store, name).unwrap().available_slots
}

fn status(store: &Store, id: i32) -> BookingStatus {
    get_booking_by_id(store, id).unwrap().status
}

fn conserved(store: &Store) -> bool {
    assert!(store.is_fair());
    assert!(store.has_seats_reserved());
    store.conferences().iter().all(|c| {
        let confirmed = store
            .bookings()
            .iter()
            .filter(|b| b.conference_id == c.conference_id && b.status == BookingStatus::CONFIRMED)
            .count() as i32;
        c.available_slots + confirmed == c.total_slots
    })
}

#[test]
fn seats_are_conserved_through_a_busy_day() {
    let mut store = stage(2);
    assert!(conserved(&store));
    let b1 = book(&mut store, 1, "u1");
    let b2 = book(&mut store, 1, "u2");
    let b3 = book(&mut store, 1, "u3");
    let b4 = book(&mut store, 1, "u4");
    assert!(conserved(&store));
    assert_eq!(seats(&store, "RustConf"), 0);
    let (_, offered) = cancel_booking_at(&mut store, b1.booking_id, T0 + 2, 10_000).unwrap();
    assert_eq!(offered.unwrap().booking_id, b3.booking_id);
    assert!(conserved(&store));
    assert_eq!(seats(&store, "RustConf"), 1);
    confirm_waitlist_booking_secure_at(&mut store, b3.booking_id, "u3", T0 + 4).unwrap();
    assert!(conserved(&store));
    assert_eq!(seats(&store, "RustConf"), 0);
    cancel_booking_at(&mut store, b4.booking_id, T0 + 5, 10_000).unwrap();
    cancel_booking_at(&mut store, b2.booking_id, T0 + 6, 10_000).unwrap();
    assert!(conserved(&store));
    assert_eq!(seats(&store, "RustConf"), 1);
    cancel_unconfirmed_bookings(&mut store, 1, T0 + 7);
    assert!(conserved(&store));
}

#[test]
fn a_second_active_booking_on_a_conference_is_refused() {
    let mut store = stage(1);
    book(&mut store, 1, "u1");
    let before = store.bookings();
    assert_eq!(create_booking_atomic_at(&mut store, 1, "u1", T0 + 2), Err(Error::DuplicateBooking));
    assert_eq!(store.bookings(), before);
    let waiting = book(&mut store, 1, "u2");
    assert_eq!(waiting.status, BookingStatus::WAITLISTED);
    assert_eq!(create_booking_atomic_at(&mut store, 1, "u2", T0 + 2), Err(Error::DuplicateBooking));
    assert!(store.is_fair());
    assert_eq!(check_existing_active_booking(&store, "u2", 1), Some(waiting.booking_id));
    assert_eq!(check_existing_active_booking(&store, "u3", 1), None);
}

#[test]
fn a_cancelled_booking_does_not_stand_in_the_way_of_a_new_one() {
    let mut store = stage(1);
    let first = book(&mut store, 1, "u1");
    cancel_booking_at(&mut store, first.booking_id, T0 + 2, 10_000).unwrap();
    let second = book(&mut store, 1, "u1");
    assert_eq!(second.status, BookingStatus::CONFIRMED);
    assert_eq!(second.booking_id, first.booking_id + 1);
}

#[test]
fn an_overlapping_booking_is_refused_and_an_adjacent_one_is_not() {
    let mut store = stage(5);
    create_new_conference_at(
        &mut store,
        &form("Overlap", "2030-01-01 11:59:59", "2030-01-01 14:00:00", 5),
        T0,
    )
    .unwrap();
    create_new_conference_at(
        &mut store,
        &form("Adjacent", "2030-01-01 12:00:00", "2030-01-01 14:00:00", 5),
        T0,
    )
    .unwrap();
    let first = book(&mut store, 1, "u1");
    assert_eq!(create_booking_atomic_at(&mut store, 2, "u1", T0 + 2), Err(Error::OverlappingBooking));
    assert_eq!(check_user_has_overlapping_booking(&store, "u1", NOON - SECOND, NOON + SECOND), Some(first.booking_id));
    assert_eq!(check_user_has_overlapping_booking(&store, "u1", NOON, NOON + SECOND), None);
    assert_eq!(check_user_has_overlapping_booking(&store, "u1", TEN - SECOND, TEN), None);
    assert_eq!(check_user_has_overlapping_booking(&store, "u2", TEN, NOON), None);
    assert_eq!(book(&mut store, 3, "u1").status, BookingStatus::CONFIRMED);
    assert!(store.is_fair());
}

#[test]
fn the_waitlist_is_served_in_the_order_of_arrival() {
    let mut store = stage(1);
    let holder = book(&mut store, 1, "u1");
    let w2 = book(&mut store, 1, "u2");
    let w3 = book(&mut store, 1, "u3");
    let w4 = book(&mut store, 1, "u4");
    assert_eq!(
        (w2.waitlist_position, w3.waitlist_position, w4.waitlist_position),
        (Some(1), Some(2), Some(3))
    );
    assert_eq!(get_next_waitlist_booking(&store, 1).unwrap().booking_id, w2.booking_id);
    let (_, first) = cancel_booking_at(&mut store, holder.booking_id, T0 + 2, 10_000).unwrap();
    assert_eq!(first.unwrap().booking_id, w2.booking_id);
    assert_eq!(status(&store, w2.booking_id), BookingStatus::ConfirmationPending);
    assert_eq!(status(&store, w3.booking_id), BookingStatus::WAITLISTED);
    assert_eq!(status(&store, w4.booking_id), BookingStatus::WAITLISTED);
    let (_, second) = cancel_booking_at(&mut store, w2.booking_id, T0 + 5, 10_000).unwrap();
    assert_eq!(second.unwrap().booking_id, w3.booking_id);
    assert_eq!(get_next_waitlist_booking(&store, 1).unwrap().booking_id, w4.booking_id);
    assert!(store.has_seats_reserved());
}

#[test]
fn a_free_seat_is_offered_to_whoever_waits_whatever_is_pending() {
    let mut store = stage(1);
    let holder = book(&mut store, 1, "u1");
    let w2 = book(&mut store, 1, "u2");
    let w3 = book(&mut store, 1, "u3");
    cancel_booking_at(&mut store, holder.booking_id, T0 + 2, 10_000).unwrap();
    assert_eq!(status(&store, w2.booking_id), BookingStatus::ConfirmationPending);
    assert_eq!(seats(&store, "RustConf"), 1);
    assert!(store.has_seats_reserved());
    // One seat shown free, one booking pending, one waiting: the counter
    // alone decides, and the one who waits is offered the seat too.
    let offered = promote_waitlist_head_at(&mut store, 1, T0 + 4, 10_000).unwrap();
    assert_eq!(offered.booking_id, w3.booking_id);
    assert_eq!(status(&store, w3.booking_id), BookingStatus::ConfirmationPending);
    assert_eq!(offered.waitlist_confirmation_deadline, Some(T0 + 4 + 10 * SECOND));
    assert_eq!(seats(&store, "RustConf"), 1);
    assert!(!store.has_seats_reserved());
    assert!(store.is_fair());
    assert_eq!(promote_waitlist_head_at(&mut store, 1, T0 + 5, 10_000), None);
}

#[test]
fn positions_are_not_compacted_and_the_smallest_is_served() {
    let mut store = stage(1);
    let holder = book(&mut store, 1, "u1");
    let w2 = book(&mut store, 1, "u2");
    let w3 = book(&mut store, 1, "u3");
    cancel_booking_at(&mut store, w2.booking_id, T0 + 2, 10_000).unwrap();
    assert_eq!(next_waitlist_position(&store, 1), Ok(3));
    let w4 = book(&mut store, 1, "u4");
    assert_eq!(w4.waitlist_position, Some(3));
    let (_, offered) = cancel_booking_at(&mut store, holder.booking_id, T0 + 3, 10_000).unwrap();
    assert_eq!(offered.unwrap().booking_id, w3.booking_id);
    assert_eq!(status(&store, w4.booking_id), BookingStatus::WAITLISTED);
}

#[test]
fn an_empty_waitlist_starts_at_position_one() {
    let store = stage(1);
    assert_eq!(next_waitlist_position(&store, 1), Ok(1));
    assert_eq!(get_next_waitlist_booking(&store, 1), None);
}

#[test]
fn nothing_is_offered_without_a_free_seat_or_without_a_waiter() {
    let mut store = stage(1);
    assert_eq!(promote_waitlist_head_at(&mut store, 1, T0, 10_000), None);
    book(&mut store, 1, "u1");
    let waiting = book(&mut store, 1, "u2");
    assert_eq!(promote_waitlist_head_at(&mut store, 1, T0, 10_000), None);
    assert_eq!(status(&store, waiting.booking_id), BookingStatus::WAITLISTED);
    assert_eq!(promote_waitlist_head_at(&mut store, 99, T0, 10_000), None);
}

fn expiry(id: i32, name: &str) -> ConfirmationExpirationMessage {
    ConfirmationExpirationMessage { booking_id: id, expiration_time: 0, conference_name: name.to_string() }
}

#[test]
fn a_replayed_expiry_changes_nothing() {
    let mut store = stage(1);
    let holder = book(&mut store, 1, "u1");
    let w2 = book(&mut store, 1, "u2");
    let w3 = book(&mut store, 1, "u3");
    cancel_booking_at(&mut store, holder.booking_id, T0 + 3, 10_000).unwrap();
    let consumer = ExpiredConfirmationConsumer::new();
    let message = expiry(w2.booking_id, "RustConf");
    let (delivery, _) = consumer.handle_expired_confirmation(&mut store, Some(&message), T0 + 20 * SECOND);
    assert_eq!(delivery, Delivery::Ack);
    let once = store.bookings();
    assert_eq!(status(&store, w3.booking_id), BookingStatus::ConfirmationPending);
    for replay in 1..4 {
        let (delivery, plan) = consumer.handle_expired_confirmation(
            &mut store,
            Some(&message),
            T0 + (20 + replay) * SECOND,
        );
        assert_eq!(delivery, Delivery::Ack);
        assert!(plan.is_empty());
        assert_eq!(store.bookings(), once);
    }
}

#[test]
fn a_replayed_expiry_of_the_only_waiter_at_the_same_moment_changes_nothing() {
    let mut store = stage(1);
    let holder = book(&mut store, 1, "u1");
    let only = book(&mut store, 1, "u2");
    cancel_booking_at(&mut store, holder.booking_id, T0 + 3, 10_000).unwrap();
    let consumer = ExpiredConfirmationConsumer::new();
    let message = expiry(only.booking_id, "RustConf");
    let now = T0 + 20 * SECOND;
    consumer.handle_expired_confirmation(&mut store, Some(&message), now);
    let once = store.bookings();
    let row = get_booking_by_id(&store, only.booking_id).unwrap();
    assert_eq!(row.status, BookingStatus::ConfirmationPending);
    assert_eq!(row.waitlist_confirmation_deadline, Some(now + 10 * SECOND));
    consumer.handle_expired_confirmation(&mut store, Some(&message), now);
    assert_eq!(store.bookings(), once);
}

#[test]
fn an_expiry_for_a_confirmed_or_cancelled_booking_changes_nothing() {
    let mut store = stage(1);
    let holder = book(&mut store, 1, "u1");
    let w2 = book(&mut store, 1, "u2");
    cancel_booking_at(&mut store, w2.booking_id, T0 + 2, 10_000).unwrap();
    let before = store.bookings();
    let consumer = ExpiredConfirmationConsumer::new();
    for id in [holder.booking_id, w2.booking_id, 77] {
        let (delivery, plan) =
            consumer.handle_expired_confirmation(&mut store, Some(&expiry(id, "RustConf")), T0 + 3);
        assert_eq!(delivery, Delivery::Ack);
        assert!(plan.is_empty());
        assert_eq!(store.bookings(), before);
    }
    assert_eq!(move_booking_to_waitlist_end(&mut store, holder.booking_id, "RustConf"), Ok(false));
}

#[test]
fn an_expiry_that_names_another_conference_than_the_bookings_changes_nothing() {
    let mut store = stage(1);
    create_new_conference_at(
        &mut store,
        &form("GoConf", "2030-01-01 14:00:00", "2030-01-01 15:00:00", 1),
        T0,
    )
    .unwrap();
    let holder = book(&mut store, 1, "u1");
    let w2 = book(&mut store, 1, "u2");
    cancel_booking_at(&mut store, holder.booking_id, T0 + 3, 10_000).unwrap();
    assert_eq!(move_booking_to_waitlist_end(&mut store, w2.booking_id, "GoConf"), Ok(false));
    assert_eq!(status(&store, w2.booking_id), BookingStatus::ConfirmationPending);
    assert_eq!(move_booking_to_waitlist_end(&mut store, w2.booking_id, "RustConf"), Ok(true));
    assert_eq!(status(&store, w2.booking_id), BookingStatus::WAITLISTED);
}

#[test]
fn an_unreadable_message_is_dropped_and_an_unknown_conference_comes_again() {
    let mut store = stage(1);
    let consumer = ExpiredConfirmationConsumer::new();
    let (delivery, plan) = consumer.handle_expired_confirmation(&mut store, None, T0);
    assert_eq!(delivery, Delivery::NackDrop);
    assert!(plan.is_empty());
    let (delivery, plan) = consumer.handle_expired_confirmation(&mut store, Some(&expiry(1, "Nowhere")), T0);
    assert_eq!(delivery, Delivery::NackRequeue);
    assert!(plan.is_empty());
    assert_eq!(move_booking_to_waitlist_end(&mut store, 1, "Nowhere"), Err(Error::ConferenceNotFound));
}

#[test]
fn only_the_owner_confirms() {
    let mut store = stage(1);
    let holder = book(&mut store, 1, "u1");
    let w2 = book(&mut store, 1, "u2");
    cancel_booking_at(&mut store, holder.booking_id, T0 + 3, 10_000).unwrap();
    let before = (store.bookings(), store.conferences());
    for stranger in ["u1", "u3", "nobody", ""] {
        assert_eq!(
            confirm_waitlist_booking_secure_at(&mut store, w2.booking_id, stranger, T0 + 4),
            Err(Error::NotOwner)
        );
        assert_eq!((store.bookings(), store.conferences()), before);
    }
    // Not even after the deadline or for a booking that is not pending is
    // a stranger told more than that the booking is not theirs.
    assert_eq!(
        confirm_waitlist_booking_secure_at(&mut store, w2.booking_id, "u3", T0 + 60 * SECOND),
        Err(Error::NotOwner)
    );
    assert_eq!(seats(&store, "RustConf"), 1);
    assert!(confirm_waitlist_booking_secure_at(&mut store, w2.booking_id, "u2", T0 + 4).is_ok());
    assert_eq!(seats(&store, "RustConf"), 0);
}

#[test]
fn no_direct_confirmation_while_somebody_waits_or_is_pending() {
    let mut store = stage(2);
    let b1 = book(&mut store, 1, "u1");
    book(&mut store, 1, "u2");
    let w3 = book(&mut store, 1, "u3");
    assert_eq!(w3.status, BookingStatus::WAITLISTED);
    // No seat is free and u3 waits: u4 joins the waitlist behind u3.
    let w4 = book(&mut store, 1, "u4");
    assert_eq!((w4.status, w4.waitlist_position), (BookingStatus::WAITLISTED, Some(2)));
    // A seat is free, u3 is pending and u4 waits: u5 joins behind u4.
    cancel_booking_at(&mut store, b1.booking_id, T0 + 2, 10_000).unwrap();
    assert_eq!(seats(&store, "RustConf"), 1);
    assert_eq!(status(&store, w3.booking_id), BookingStatus::ConfirmationPending);
    let w5 = book(&mut store, 1, "u5");
    assert_eq!((w5.status, w5.waitlist_position), (BookingStatus::WAITLISTED, Some(3)));
    // Nobody waits any more, u3 is still pending: u6 is not confirmed.
    cancel_booking_at(&mut store, w4.booking_id, T0 + 4, 10_000).unwrap();
    cancel_booking_at(&mut store, w5.booking_id, T0 + 4, 10_000).unwrap();
    assert_eq!(count_bookings(&store, 1, BookingStatus::WAITLISTED), 0);
    assert_eq!(count_bookings(&store, 1, BookingStatus::ConfirmationPending), 1);
    let w6 = book(&mut store, 1, "u6");
    assert_eq!((w6.status, w6.waitlist_position), (BookingStatus::WAITLISTED, Some(1)));
    assert_eq!(seats(&store, "RustConf"), 1);
}

#[test]
fn the_booking_store_refuses_what_it_does_not_know() {
    let mut store = stage(1);
    assert_eq!(create_booking_atomic_at(&mut store, 9, "u1", T0), Err(Error::ConferenceNotFound));
    assert_eq!(create_confirmed_booking_at(&mut store, 9, "u1", T0), Err(Error::ConferenceNotFound));
    assert_eq!(create_waitlist_booking_at(&mut store, 9, "u1", T0), Err(Error::ConferenceNotFound));
    assert_eq!(cancel_booking_at(&mut store, 1, T0, 10_000), Err(Error::BookingNotFound));
    assert_eq!(confirm_waitlist_booking_secure_at(&mut store, 1, "u1", T0), Err(Error::BookingNotFound));
    assert_eq!(get_booking_by_id(&store, 1), Err(Error::BookingNotFound));
    assert_eq!(get_booking_with_conference_name(&store, 1), Err(Error::BookingNotFound));
    assert_eq!(get_booking_status(&store, 1).unwrap_err(), Error::BookingNotFound);
    assert_eq!(get_conference_by_name(&store, "Nowhere"), Err(Error::ConferenceNotFound));
    assert_eq!(get_conference_bookings(&store, "Nowhere"), Err(Error::ConferenceNotFound));
    assert_eq!(get_user_by_id(&store, "nobody"), Err(Error::UserNotFound));
    assert_eq!(get_user_by_id(&store, "u1"), Ok(User { user_id: "u1".to_string() }));
    assert!(store.bookings().is_empty());
}

#[test]
fn booking_on_request_checks_conference_user_and_time() {
    let mut store = stage(1);
    let service = WaitlistQueueService::new();
    let request = |name: &str, user: &str| BookConferenceRequest { name: name.to_string(), user_id: user.to_string() };
    assert_eq!(
        book_conference_at(&mut store, &service, &request("Nowhere", "u1"), T0).unwrap_err(),
        Error::ConferenceNotFound
    );
    assert_eq!(
        book_conference_at(&mut store, &service, &request("RustConf", "nobody"), T0).unwrap_err(),
        Error::UserNotFound
    );
    assert_eq!(
        book_conference_at(&mut store, &service, &request("RustConf", "u1"), TEN).unwrap_err(),
        Error::ConferenceStarted
    );
    assert!(store.bookings().is_empty());
    assert!(book_conference_at(&mut store, &service, &request("RustConf", "u1"), TEN - 1).is_ok());
}

#[test]
fn confirmation_is_refused_for_each_reason_in_turn() {
    let mut store = stage(1);
    let holder = book(&mut store, 1, "u1");
    let w2 = book(&mut store, 1, "u2");
    assert_eq!(
        confirm_waitlist_booking_secure_at(&mut store, holder.booking_id, "u1", T0),
        Err(Error::NotPending)
    );
    assert_eq!(
        confirm_waitlist_booking_secure_at(&mut store, w2.booking_id, "u2", T0),
        Err(Error::NotPending)
    );
    cancel_booking_at(&mut store, holder.booking_id, TEN - 2 * SECOND, 10_000).unwrap();
    assert_eq!(
        confirm_waitlist_booking_secure_at(&mut store, holder.booking_id, "u1", T0),
        Err(Error::NotPending)
    );
    // The window is open until eight seconds after the start; the start
    // closes it earlier.
    assert_eq!(
        confirm_waitlist_booking_secure_at(&mut store, w2.booking_id, "u2", TEN),
        Err(Error::ConferenceStarted)
    );
    assert_eq!(
        confirm_waitlist_booking_secure_at(&mut store, w2.booking_id, "u2", TEN + 9 * SECOND),
        Err(Error::DeadlineExpired)
    );
    assert!(confirm_waitlist_booking_secure_at(&mut store, w2.booking_id, "u2", TEN - 1).is_ok());
}

#[test]
fn cancelling_twice_is_refused() {
    let mut store = stage(1);
    let b = book(&mut store, 1, "u1");
    let (cancelled, offered) = cancel_booking_at(&mut store, b.booking_id, T0 + 5, 10_000).unwrap();
    assert_eq!(offered, None);
    assert_eq!(cancelled.status, BookingStatus::CANCELED);
    assert_eq!(cancelled.canceled_at, Some(T0 + 5));
    assert_eq!(cancel_booking_at(&mut store, b.booking_id, T0 + 6, 10_000), Err(Error::AlreadyCanceled));
    assert_eq!(get_booking_by_id(&store, b.booking_id).unwrap().canceled_at, Some(T0 + 5));
    assert_eq!(seats(&store, "RustConf"), 1);
}

#[test]
fn users_are_registered_once() {
    let mut store = Store::new();
    let topics = vec!["rust".to_string(), "verification".to_string()];
    assert_eq!(insert_new_user(&mut store, "ann", &topics), Ok(User { user_id: "ann".to_string() }));
    assert_eq!(insert_new_user(&mut store, "ann", &topics), Err(Error::UserExists));
    assert_eq!(store.users().len(), 1);
    let interests = store.user_interests();
    assert_eq!(interests.len(), 2);
    assert_eq!((interests[0].user_id.as_str(), interests[0].topic.as_str()), ("ann", "rust"));
    assert_eq!((interests[1].user_id.as_str(), interests[1].topic.as_str()), ("ann", "verification"));
}

#[test]
fn a_conference_is_created_with_all_its_seats_free() {
    let mut store = Store::new();
    let c = create_new_conference_at(
        &mut store,
        &form("RustConf", "2030-01-01 10:00:00", "2030-01-01 22:00:00", 3),
        T0 + 9,
    )
    .unwrap();
    assert_eq!(
        c,
        Conference {
            conference_id: 1,
            name: "RustConf".to_string(),
            location: "Berlin".to_string(),
            start_timestamp: 1_893_492_000_000_000,
            end_timestamp: 1_893_535_200_000_000,
            total_slots: 3,
            available_slots: 3,
            created_at: Some(T0 + 9),
        }
    );
    assert_eq!(get_conference_by_name(&store, "RustConf"), Ok(c));
    let topics = store.conference_topics();
    assert_eq!(topics.len(), 2);
    assert_eq!((topics[0].conference_id, topics[0].topic.as_str()), (1, "systems"));
    assert_eq!((topics[1].conference_id, topics[1].topic.as_str()), (1, "types"));
    let second = create_new_conference_at(
        &mut store,
        &form("GoConf", "2015-09-05 23:56:04", "2015-09-05 23:56:05", 1),
        T0,
    )
    .unwrap();
    assert_eq!(second.conference_id, 2);
    assert_eq!(second.start_timestamp, 1_441_497_364_000_000);
}

#[test]
fn a_conference_is_refused_for_each_reason_in_turn() {
    let mut store = stage(1);
    let mut refused = |f: NewConference| create_new_conference_at(&mut store, &f, T0).unwrap_err();
    assert_eq!(refused(form("A", "2030-01-01", "2030-01-01 12:00:00", 1)), Error::InvalidStart);
    assert_eq!(refused(form("A", "2030-01-01 10:00:00", "2030-01-01 24:00:00", 1)), Error::InvalidEnd);
    assert_eq!(refused(form("A", "soon", "later", 1)), Error::InvalidStart);
    assert_eq!(
        refused(form("A", "2030-01-01 10:00:00", "2030-01-01 10:00:00", 1)),
        Error::StartNotBeforeEnd
    );
    assert_eq!(
        refused(form("A", "2030-01-01 12:00:00", "2030-01-01 10:00:00", 1)),
        Error::StartNotBeforeEnd
    );
    assert_eq!(
        refused(form("A", "2030-01-01 10:00:00", "2030-01-01 22:00:01", 1)),
        Error::DurationTooLong
    );
    assert_eq!(refused(form("A", "2030-01-01 10:00:00", "2030-01-01 12:00:00", 0)), Error::SlotsNotPositive);
    assert_eq!(refused(form("A", "2030-01-01 10:00:00", "2030-01-01 12:00:00", -3)), Error::SlotsNotPositive);
    let mut crowded = form("A", "2030-01-01 10:00:00", "2030-01-01 12:00:00", 1);
    crowded.topics = (0..11).map(|i| format!("topic {}", i)).collect();
    assert_eq!(refused(crowded), Error::TooManyTopics);
    assert_eq!(
        refused(form("RustConf", "2030-01-01 10:00:00", "2030-01-01 12:00:00", 1)),
        Error::ConferenceExists
    );
    assert_eq!(store.conferences().len(), 1);
}

#[test]
fn twelve_hours_and_ten_topics_are_allowed() {
    let mut store = Store::new();
    let mut f = form("Long", "2030-01-01 10:00:00", "2030-01-01 22:00:00", 1);
    f.topics = (0..10).map(|i| format!("topic {}", i)).collect();
    assert!(create_new_conference_at(&mut store, &f, T0).is_ok());
    assert_eq!(store.conference_topics().len(), 10);
    assert_eq!(
        create_conference_from(&mut store, &form("Exact", "", "", 1), Some(0), Some(43_200_000_000), T0)
            .unwrap()
            .end_timestamp,
        43_200_000_000
    );
    assert_eq!(
        create_conference_from(&mut store, &form("Over", "", "", 1), Some(0), Some(43_200_000_001), T0),
        Err(Error::DurationTooLong)
    );
    assert_eq!(
        create_conference_from(&mut store, &form("Wide", "", "", 1), Some(i64::MIN), Some(i64::MAX), T0),
        Err(Error::DurationTooLong)
    );
}

#[test]
fn the_confirmation_window_is_ten_seconds() {
    assert_eq!(confirmation_deadline(0, 10_000), 10_000_000);
    assert_eq!(confirmation_deadline(T0, 10_000), T0 + 10_000_000);
    assert_eq!(confirmation_deadline(-10_000_000, 10_000), 0);
    assert_eq!(confirmation_deadline(i64::MAX - 10_000_000, 10_000), i64::MAX);
    assert_eq!(confirmation_deadline(i64::MAX - 9_999_999, 10_000), i64::MAX);
    assert_eq!(confirmation_deadline(i64::MAX, 10_000), i64::MAX);
    assert_eq!(confirmation_deadline(5, 0), 5);
    assert_eq!(confirmation_deadline(5, 1), 1_005);
    assert_eq!(confirmation_deadline(0, u32::MAX), 4_294_967_295_000);
}

#[test]
fn overlapping_waitlist_entries_are_cleared_but_for_the_excluded_conference() {
    let mut store = stage(1);
    create_new_conference_at(&mut store, &form("B", "2030-01-01 11:00:00", "2030-01-01 13:00:00", 1), T0)
        .unwrap();
    create_new_conference_at(&mut store, &form("C", "2030-01-01 12:00:00", "2030-01-01 13:00:00", 1), T0)
        .unwrap();
    let on_a = create_waitlist_booking_at(&mut store, 1, "u1", T0).unwrap();
    let on_b = create_waitlist_booking_at(&mut store, 2, "u1", T0).unwrap();
    let on_c = create_waitlist_booking_at(&mut store, 3, "u1", T0).unwrap();
    let other = create_waitlist_booking_at(&mut store, 2, "u2", T0).unwrap();
    let held = create_confirmed_booking_at(&mut store, 2, "u3", T0).unwrap();
    remove_from_overlapping_waitlists_at(&mut store, "u1", TEN, NOON, 1, T0 + 8);
    assert_eq!(status(&store, on_a.booking_id), BookingStatus::WAITLISTED);
    assert_eq!(status(&store, on_b.booking_id), BookingStatus::CANCELED);
    assert_eq!(get_booking_by_id(&store, on_b.booking_id).unwrap().canceled_at, Some(T0 + 8));
    assert_eq!(status(&store, on_c.booking_id), BookingStatus::WAITLISTED);
    assert_eq!(status(&store, other.booking_id), BookingStatus::WAITLISTED);
    assert_eq!(status(&store, held.booking_id), BookingStatus::CONFIRMED);
}

#[test]
fn started_conferences_lose_their_waitlists() {
    let mut store = stage(1);
    create_new_conference_at(&mut store, &form("Late", "2030-01-01 14:00:00", "2030-01-01 15:00:00", 1), T0)
        .unwrap();
    create_new_conference_at(&mut store, &form("Quiet", "2030-01-01 10:00:00", "2030-01-01 11:00:00", 1), T0)
        .unwrap();
    let holder = book(&mut store, 1, "u1");
    let offered = book(&mut store, 1, "u2");
    let waits = book(&mut store, 1, "u3");
    book(&mut store, 2, "u4");
    let waits_late = book(&mut store, 2, "u5");
    book(&mut store, 3, "u6");
    cancel_booking_at(&mut store, holder.booking_id, T0 + 2, 10_000).unwrap();
    assert_eq!(status(&store, offered.booking_id), BookingStatus::ConfirmationPending);
    assert_eq!(auto_cancel_expired_conferences_at(&mut store, TEN - 1), Vec::<String>::new());
    assert_eq!(status(&store, waits.booking_id), BookingStatus::WAITLISTED);
    let names = auto_cancel_expired_conferences_at(&mut store, TEN);
    assert_eq!(names, vec!["RustConf".to_string()]);
    let swept = get_booking_by_id(&store, waits.booking_id).unwrap();
    assert_eq!((swept.status, swept.canceled_at), (BookingStatus::CANCELED, Some(TEN)));
    assert_eq!(status(&store, offered.booking_id), BookingStatus::ConfirmationPending);
    assert_eq!(status(&store, waits_late.booking_id), BookingStatus::WAITLISTED);
    assert_eq!(auto_cancel_expired_conferences_at(&mut store, TEN), Vec::<String>::new());
}

#[test]
fn the_bookings_of_a_conference_are_listed_whatever_their_status() {
    let mut store = stage(1);
    create_new_conference_at(&mut store, &form("Late", "2030-01-01 14:00:00", "2030-01-01 15:00:00", 1), T0)
        .unwrap();
    let b1 = book(&mut store, 1, "u1");
    book(&mut store, 2, "u2");
    let b3 = book(&mut store, 1, "u3");
    cancel_booking_at(&mut store, b1.booking_id, T0 + 1, 10_000).unwrap();
    let rows = get_conference_bookings(&store, "RustConf").unwrap();
    assert_eq!(rows.len(), 2);
    assert_eq!((rows[0].booking_id, rows[0].status), (b1.booking_id, BookingStatus::CANCELED));
    assert_eq!((rows[1].booking_id, rows[1].status), (b3.booking_id, BookingStatus::ConfirmationPending));
    assert_eq!(get_conference_bookings(&store, "Late").unwrap().len(), 1);
}

#[test]
fn rows_that_break_a_rule_of_the_state_are_not_taken_in() {
    let conference = |id: i32, name: &str, total: i32, available: i32| Conference {
        conference_id: id,
        name: name.to_string(),
        location: "Berlin".to_string(),
        start_timestamp: TEN,
        end_timestamp: NOON,
        total_slots: total,
        available_slots: available,
        created_at: None,
    };
    let waiting = |id: i32, conference_id: i32, position: i32| Booking {
        booking_id: id,
        conference_id,
        user_id: "u1".to_string(),
        status: BookingStatus::WAITLISTED,
        created_at: None,
        waitlist_confirmation_deadline: None,
        canceled_at: None,
        can_confirm: Some(false),
        waitlist_position: Some(position),
    };
    let user = |id: &str| User { user_id: id.to_string() };
    let load = |users: Vec<User>, conferences: Vec<Conference>, bookings: Vec<Booking>| {
        Store::from_rows(users, vec![], conferences, vec![], bookings).is_some()
    };
    assert!(load(vec![user("a"), user("b")], vec![conference(1, "A", 2, 2)], vec![waiting(1, 1, 1), waiting(2, 1, 2)]));
    assert!(!load(vec![user("a"), user("a")], vec![], vec![]));
    assert!(!load(vec![], vec![conference(1, "A", 1, 1), conference(2, "A", 1, 1)], vec![]));
    assert!(!load(vec![], vec![conference(2, "A", 1, 1), conference(1, "B", 1, 1)], vec![]));
    assert!(!load(vec![], vec![conference(0, "A", 1, 1)], vec![]));
    assert!(!load(vec![], vec![conference(1, "A", 0, 0)], vec![]));
    assert!(!load(vec![], vec![conference(1, "A", 2, 1)], vec![]));
    assert!(!load(vec![], vec![conference(1, "A", 1, 1)], vec![waiting(1, 2, 1)]));
    assert!(!load(vec![], vec![conference(1, "A", 1, 1)], vec![waiting(1, 1, 1), waiting(2, 1, 1)]));
    assert!(!load(vec![], vec![conference(1, "A", 1, 1)], vec![waiting(2, 1, 1), waiting(1, 1, 2)]));
    assert!(!load(vec![], vec![conference(1, "A", 1, 1)], vec![waiting(1, 1, 0)]));
}

#[test]
fn reasons_are_reported_by_kind() {
    assert_eq!(Error::DurationTooLong.kind(), ErrorKind::Validation);
    assert_eq!(Error::InvalidUserId.status_code(), 400);
    assert_eq!(Error::BookingNotFound.kind(), ErrorKind::NotFound);
    assert_eq!(Error::BookingNotFound.status_code(), 404);
    assert_eq!(Error::ConferenceNotFound.status_code(), 404);
    assert_eq!(Error::UserNotFound.status_code(), 404);
    assert_eq!(Error::DuplicateBooking.kind(), ErrorKind::Conflict);
    assert_eq!(Error::OverlappingBooking.status_code(), 400);
    assert_eq!(Error::UserExists.status_code(), 400);
    assert_eq!(Error::NotOwner.kind(), ErrorKind::StateViolation);
    assert_eq!(Error::DeadlineExpired.status_code(), 400);
    assert_eq!(Error::StorageExhausted.kind(), ErrorKind::Transient);
    assert_eq!(Error::NotInitialized.status_code(), 500);
    assert_eq!(Error::DuplicateBooking.message(), "User already has an active booking for this conference");
    assert_eq!(Error::AlreadyCanceled.message(), "Booking is already canceled");
}

#[test]
fn statuses_are_stored_under_their_names() {
    let all = [
        (BookingStatus::CONFIRMED, "CONFIRMED"),
        (BookingStatus::WAITLISTED, "WAITLISTED"),
        (BookingStatus::CANCELED, "CANCELED"),
        (BookingStatus::ConfirmationPending, "CONFIRMATION_PENDING"),
    ];
    for (status, name) in all {
        assert_eq!(status.as_str(), name);
        assert_eq!(BookingStatus::parse(name), Some(status));
    }
    assert_eq!(BookingStatus::parse("confirmed"), None);
    assert_eq!(BookingStatus::parse("ConfirmationPending"), None);
    assert_eq!(BookingStatus::parse(""), None);
}

#[test]
fn ids_that_are_used_up_are_reported() {
    let conference = Conference {
        conference_id: 1,
        name: "RustConf".to_string(),
        location: "Berlin".to_string(),
        start_timestamp: TEN,
        end_timestamp: NOON,
        total_slots: 1,
        available_slots: 1,
        created_at: None,
    };
    let last = Booking {
        booking_id: i32::MAX,
        conference_id: 1,
        user_id: "u1".to_string(),
        status: BookingStatus::WAITLISTED,
        created_at: None,
        waitlist_confirmation_deadline: None,
        canceled_at: None,
        can_confirm: Some(false),
        waitlist_position: Some(i32::MAX),
    };
    let mut store = Store::from_rows(vec![], vec![], vec![conference], vec![], vec![last]).unwrap();
    assert_eq!(create_booking_atomic_at(&mut store, 1, "u2", T0), Err(Error::StorageExhausted));
    assert_eq!(create_waitlist_booking_at(&mut store, 1, "u2", T0), Err(Error::StorageExhausted));
    assert_eq!(create_confirmed_booking_at(&mut store, 1, "u2", T0), Err(Error::StorageExhausted));
    assert_eq!(next_waitlist_position(&store, 1), Err(Error::StorageExhausted));
    assert_eq!(store.bookings().len(), 1);
}

#[test]
fn the_clock_stamps_what_is_done_without_a_given_time() {
    let mut store = Store::new();
    let before = chrono::Utc::now().timestamp_micros();
    let c = create_new_conference(&mut store, &form("RustConf", "2030-01-01 10:00:00", "2030-01-01 12:00:00", 1))
        .unwrap();
    let b = create_booking_atomic_at(&mut store, 1, "u1", T0).unwrap();
    let (cancelled, _) = cancel_booking(&mut store, b.booking_id, 10_000).unwrap();
    let after = chrono::Utc::now().timestamp_micros();
    let created = c.created_at.unwrap();
    let stamped = cancelled.canceled_at.unwrap();
    assert!(before <= created && created <= stamped && stamped <= after);
}

#[test]
fn open_seats_are_the_free_seats_less_the_pending_confirmations() {
    let mut store = stage(3);
    assert_eq!(get_open_seats(&store, 1), Some(3));
    assert_eq!(get_open_seats(&store, 2), None);
    let b1 = book(&mut store, 1, "u1");
    book(&mut store, 1, "u2");
    book(&mut store, 1, "u3");
    book(&mut store, 1, "u4");
    assert_eq!(get_open_seats(&store, 1), Some(0));
    cancel_booking_at(&mut store, b1.booking_id, T0 + 2, 10_000).unwrap();
    assert_eq!(seats(&store, "RustConf"), 1);
    assert_eq!(get_open_seats(&store, 1), Some(0));
    promote_waitlist_head_at(&mut store, 1, T0 + 3, 10_000);
    assert_eq!(get_open_seats(&store, 1), Some(0));
}

#[test]
fn a_deadline_can_be_set_for_a_pending_confirmation_only() {
    let mut store = stage(1);
    let holder = book(&mut store, 1, "u1");
    let w2 = book(&mut store, 1, "u2");
    assert_eq!(update_booking_can_confirm(&mut store, holder.booking_id, true, Some(T0)), Err(Error::StatusMismatch));
    assert_eq!(update_booking_can_confirm(&mut store, w2.booking_id, false, Some(T0)), Err(Error::StatusMismatch));
    assert_eq!(update_booking_can_confirm(&mut store, w2.booking_id, false, None), Ok(()));
    assert_eq!(update_booking_can_confirm(&mut store, 99, true, Some(T0)), Ok(()));
    cancel_booking_at(&mut store, holder.booking_id, T0 + 3, 10_000).unwrap();
    let before = store.bookings();
    assert_eq!(update_booking_can_confirm(&mut store, w2.booking_id, false, None), Err(Error::StatusMismatch));
    assert_eq!(update_booking_can_confirm(&mut store, w2.booking_id, true, None), Err(Error::StatusMismatch));
    assert_eq!(store.bookings(), before);
    assert_eq!(update_booking_can_confirm(&mut store, w2.booking_id, true, Some(T0 + 60 * SECOND)), Ok(()));
    let row = get_booking_by_id(&store, w2.booking_id).unwrap();
    assert_eq!(row.status, BookingStatus::ConfirmationPending);
    assert_eq!(row.can_confirm, Some(true));
    assert_eq!(row.waitlist_confirmation_deadline, Some(T0 + 60 * SECOND));
    assert!(confirm_waitlist_booking_secure_at(&mut store, w2.booking_id, "u2", T0 + 30 * SECOND).is_ok());
}

#[test]
fn a_state_is_unfair_for_each_reason_in_turn() {
    let mut double = stage(3);
    create_waitlist_booking_at(&mut double, 1, "u1", T0).unwrap();
    assert!(double.is_fair());
    create_waitlist_booking_at(&mut double, 1, "u1", T0).unwrap();
    assert!(!double.is_fair());

    let mut overlapping = stage(3);
    create_new_conference_at(&mut overlapping, &form("B", "2030-01-01 11:00:00", "2030-01-01 13:00:00", 1), T0)
        .unwrap();
    create_confirmed_booking_at(&mut overlapping, 1, "u1", T0).unwrap();
    create_waitlist_booking_at(&mut overlapping, 2, "u2", T0).unwrap();
    assert!(overlapping.is_fair());
    create_waitlist_booking_at(&mut overlapping, 2, "u1", T0).unwrap();
    assert!(!overlapping.is_fair());

    let mut overdrawn = stage(1);
    create_confirmed_booking_at(&mut overdrawn, 1, "u1", T0).unwrap();
    assert!(overdrawn.has_seats_reserved());
    create_confirmed_booking_at(&mut overdrawn, 1, "u2", T0).unwrap();
    assert_eq!(seats(&overdrawn, "RustConf"), -1);
    assert!(overdrawn.is_fair());
    assert!(!overdrawn.has_seats_reserved());
}

#[test]
fn the_rows_of_a_state_make_the_same_state_again() {
    let mut store = stage(2);
    let b1 = book(&mut store, 1, "u1");
    book(&mut store, 1, "u2");
    book(&mut store, 1, "u3");
    cancel_booking_at(&mut store, b1.booking_id, T0 + 3, 10_000).unwrap();
    let again = Store::from_rows(
        store.users(),
        store.user_interests(),
        store.conferences(),
        store.conference_topics(),
        store.bookings(),
    )
    .unwrap();
    assert_eq!(again.users(), store.users());
    assert_eq!(again.user_interests(), store.user_interests());
    assert_eq!(again.conferences(), store.conferences());
    assert_eq!(again.conference_topics(), store.conference_topics());
    assert_eq!(again.bookings(), store.bookings());
    assert!(again.is_fair());
}
