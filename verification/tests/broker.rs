//! What is asked of the broker, and when.

use conference_booking::actions::{create_booking_atomic_at, create_new_conference_at};
use conference_booking::errors::Error;
use conference_booking::models::{Booking, BookingStatus, NewConference};
use conference_booking::queue::{
    arm_expiry, safe_queue_operation, start_consumer, waitlist_queue_name, BrokerCommand,
    ConferenceStartConsumer, ConferenceStartMessage, ConfirmationExpirationMessage, Delivery,
    ExchangeKind, ExpiredConfirmationConsumer, Payload, RetryStep, SlotAvailableMessage,
    WaitlistQueueService, FIRST_RETRY_DELAY_MS, MAX_ATTEMPTS,
};
use conference_booking::transitions::DEFAULT_CONFIRMATION_WINDOW_MS;
use conference_booking::state::Store;

const SECOND: i64 = 1_000_000;

fn declare_queue(name: &str) -> BrokerCommand {
    BrokerCommand::DeclareQueue { name: name.to_string(), dead_letter: None }
}

#[test]
fn the_service_starts_with_the_standard_names() {
    let service = WaitlistQueueService::new();
    assert!(!service.initialized);
    assert_eq!(service.confirmation_window_ms, 10_000);
    assert_eq!(service.max_channels, 10);
    assert_eq!(service.conference_exchange, "conference.events");
    assert_eq!(service.booking_exchange, "booking.events");
    assert_eq!(service.waitlist_queue_prefix, "conference.");
    assert_eq!(service.confirmation_timer_queue, "confirmation.timer");
    assert_eq!(service.dead_letter_exchange, "dead.letter.exchange");
    assert_eq!(service.dead_letter_queue, "confirmation.expired");
    assert_eq!(service.conference_start_queue, "conference.starts");
}

#[test]
fn the_broker_is_set_up_in_eight_steps() {
    let mut service = WaitlistQueueService::new();
    let plan = service.initialize();
    assert!(service.initialized);
    assert_eq!(
        plan,
        vec![
            BrokerCommand::DeclareExchange { name: "conference.events".to_string(), kind: ExchangeKind::Topic },
            BrokerCommand::DeclareExchange { name: "booking.events".to_string(), kind: ExchangeKind::Direct },
            BrokerCommand::DeclareExchange { name: "dead.letter.exchange".to_string(), kind: ExchangeKind::Direct },
            declare_queue("confirmation.expired"),
            BrokerCommand::BindQueue {
                queue: "confirmation.expired".to_string(),
                exchange: "dead.letter.exchange".to_string(),
                routing_key: "confirmation.expired".to_string(),
            },
            BrokerCommand::DeclareQueue {
                name: "confirmation.timer".to_string(),
                dead_letter: Some(("dead.letter.exchange".to_string(), "confirmation.expired".to_string())),
            },
            declare_queue("conference.starts"),
            BrokerCommand::BindQueue {
                queue: "conference.starts".to_string(),
                exchange: "conference.events".to_string(),
                routing_key: "conference.start".to_string(),
            },
        ]
    );
    assert_eq!(service.dead_letter_queue, "confirmation.expired");
}

#[test]
fn consumers_start_only_after_the_setup() {
    let mut service = WaitlistQueueService::new();
    assert_eq!(service.start_consuming_expired_confirmations(), Err(Error::NotInitialized));
    assert_eq!(service.start_consuming_conference_events(), Err(Error::NotInitialized));
    service.initialize();
    let tag_of = |command: BrokerCommand, queue: &str, prefix: &str| match command {
        BrokerCommand::Consume { queue: q, consumer_tag } => {
            assert_eq!(q, queue);
            assert!(consumer_tag.starts_with(prefix), "{}", consumer_tag);
            consumer_tag[prefix.len()..].to_string()
        }
        other => panic!("{:?}", other),
    };
    let first = tag_of(
        service.start_consuming_expired_confirmations().unwrap(),
        "confirmation.expired",
        "expired_confirmation_consumer_",
    );
    let second = tag_of(
        service.start_consuming_expired_confirmations().unwrap(),
        "confirmation.expired",
        "expired_confirmation_consumer_",
    );
    let third = tag_of(
        service.start_consuming_conference_events().unwrap(),
        "conference.starts",
        "conference_start_consumer_",
    );
    assert!(!first.is_empty());
    assert_ne!(first, second);
    assert_ne!(first, third);
    assert_ne!(second, third);
}

#[test]
fn a_consumer_tag_is_its_prefix_and_its_id() {
    assert_eq!(
        start_consumer("q", "tag_", "42"),
        BrokerCommand::Consume { queue: "q".to_string(), consumer_tag: "tag_42".to_string() }
    );
}

#[test]
fn a_waitlist_queue_is_named_after_its_conference() {
    assert_eq!(waitlist_queue_name("conference.", "RustConf"), "conference.RustConf.waitlist");
    assert_eq!(waitlist_queue_name("", ""), ".waitlist");
    assert_eq!(waitlist_queue_name("x.", "Rust Conf 2030"), "x.Rust Conf 2030.waitlist");
}

#[test]
fn a_confirmation_window_is_armed_for_ten_seconds() {
    assert_eq!(DEFAULT_CONFIRMATION_WINDOW_MS, 10_000);
    assert_eq!(
        arm_expiry("confirmation.timer", 7, 99, "RustConf", 10_000),
        BrokerCommand::Publish {
            routing_key: "confirmation.timer".to_string(),
            ttl_ms: Some(10_000),
            payload: Payload::ConfirmationExpiration(ConfirmationExpirationMessage {
                booking_id: 7,
                expiration_time: 99,
                conference_name: "RustConf".to_string(),
            }),
        }
    );
}

fn start_plan_ttl(start: i64, now: i64) -> Option<i64> {
    let service = WaitlistQueueService::new();
    let plan = service.schedule_conference_start_event_at("RustConf", start, now);
    match plan.last().unwrap() {
        BrokerCommand::Publish { routing_key, ttl_ms, payload } => {
            assert_eq!(
                *payload,
                Payload::ConferenceStart(ConferenceStartMessage {
                    conference_name: "RustConf".to_string(),
                    start_time: start,
                })
            );
            match ttl_ms {
                Some(_) => {
                    assert_eq!(plan.len(), 3);
                    assert_eq!(routing_key, "conference.start.timer");
                }
                None => {
                    assert_eq!(plan.len(), 1);
                    assert_eq!(routing_key, "conference.starts");
                }
            }
            *ttl_ms
        }
        other => panic!("{:?}", other),
    }
}

#[test]
fn a_start_is_held_back_for_the_time_left() {
    let start = 2_000 * SECOND;
    assert_eq!(start_plan_ttl(start, start - 3_600 * SECOND), Some(3_600_000));
    assert_eq!(start_plan_ttl(start, start - 2 * SECOND), Some(2_000));
    assert_eq!(start_plan_ttl(start, start - 1_900_000), Some(1_900));
    assert_eq!(start_plan_ttl(start, start - 900_000), Some(900));
    assert_eq!(start_plan_ttl(start, start - 1_999), Some(1));
    assert_eq!(start_plan_ttl(start, start - 1_000), Some(1));
    assert_eq!(start_plan_ttl(start, start - 999), Some(1));
    assert_eq!(start_plan_ttl(start, start - 1), Some(1));
    assert_eq!(start_plan_ttl(i64::MAX, i64::MIN), Some(18_446_744_073_709_551));
}

#[test]
fn a_start_that_has_come_is_announced_at_once() {
    let start = 2_000 * SECOND;
    assert_eq!(start_plan_ttl(start, start), None);
    assert_eq!(start_plan_ttl(start, start + 1), None);
    assert_eq!(start_plan_ttl(i64::MIN, i64::MAX), None);
}

#[test]
fn a_waitlisted_booking_is_told_to_its_queue() {
    let service = WaitlistQueueService::new();
    let booking = Booking {
        booking_id: 5,
        conference_id: 1,
        user_id: "ann".to_string(),
        status: BookingStatus::WAITLISTED,
        created_at: None,
        waitlist_confirmation_deadline: None,
        canceled_at: None,
        can_confirm: Some(false),
        waitlist_position: Some(1),
    };
    let plan = service.add_to_waitlist_at(&booking, "RustConf", 77);
    let expected = vec![
        declare_queue("conference.RustConf.waitlist"),
        BrokerCommand::Publish {
            routing_key: "conference.RustConf.waitlist".to_string(),
            ttl_ms: None,
            payload: Payload::SlotAvailable(SlotAvailableMessage {
                booking_id: 5,
                user_id: "ann".to_string(),
                conference_name: "RustConf".to_string(),
                confirmation_deadline: 77,
            }),
        },
    ];
    assert_eq!(plan, expected);

    let mut store = Store::new();
    let form = NewConference {
        name: "RustConf".to_string(),
        location: "Berlin".to_string(),
        start: "2030-01-01 10:00:00".to_string(),
        end: "2030-01-01 12:00:00".to_string(),
        slots: 1,
        topics: vec![],
    };
    create_new_conference_at(&mut store, &form, 0).unwrap();
    create_booking_atomic_at(&mut store, 1, "bob", 1).unwrap();
    let waiting = create_booking_atomic_at(&mut store, 1, "ann", 2).unwrap();
    let by_id = service.add_to_waitlist_by_booking_id_at(&store, waiting.booking_id, "RustConf", 77).unwrap();
    assert_eq!(by_id.len(), 2);
    assert_eq!(by_id[0], expected[0]);
    assert_eq!(
        service.add_to_waitlist_by_booking_id_at(&store, 99, "RustConf", 77),
        Err(Error::BookingNotFound)
    );
    let stamped = service.add_to_waitlist(&booking, "RustConf");
    assert_eq!(stamped[0], expected[0]);
}

#[test]
fn a_freed_seat_is_offered_only_where_somebody_waits() {
    let service = WaitlistQueueService::new();
    let mut store = Store::new();
    assert!(service.publish_slot_available_at(&mut store, "Nowhere", 0).is_empty());
    let form = NewConference {
        name: "RustConf".to_string(),
        location: "Berlin".to_string(),
        start: "2030-01-01 10:00:00".to_string(),
        end: "2030-01-01 12:00:00".to_string(),
        slots: 1,
        topics: vec![],
    };
    create_new_conference_at(&mut store, &form, 0).unwrap();
    assert!(service.publish_slot_available_at(&mut store, "RustConf", 0).is_empty());
    create_booking_atomic_at(&mut store, 1, "bob", 1).unwrap();
    create_booking_atomic_at(&mut store, 1, "ann", 2).unwrap();
    assert!(service.publish_slot_available_at(&mut store, "RustConf", 3).is_empty());
    assert_eq!(store.bookings()[1].status, BookingStatus::WAITLISTED);
}

#[test]
fn a_failed_request_is_tried_twice() {
    assert_eq!(MAX_ATTEMPTS, 2);
    assert_eq!(FIRST_RETRY_DELAY_MS, 25);
    assert_eq!(safe_queue_operation(1, 25, true), RetryStep::Done);
    assert_eq!(
        safe_queue_operation(1, 25, false),
        RetryStep::RetryAfter { delay_ms: 25, attempt: 2, next_delay_ms: 50 }
    );
    assert_eq!(safe_queue_operation(2, 50, true), RetryStep::Done);
    assert_eq!(safe_queue_operation(2, 50, false), RetryStep::GiveUp);
    assert_eq!(safe_queue_operation(3, 100, false), RetryStep::GiveUp);
    assert_eq!(
        safe_queue_operation(0, u64::MAX, false),
        RetryStep::RetryAfter { delay_ms: u64::MAX, attempt: 1, next_delay_ms: u64::MAX }
    );
}

#[test]
fn the_start_of_an_unknown_conference_comes_again() {
    let mut store = Store::new();
    let consumer = ConferenceStartConsumer::new("conference.".to_string());
    assert_eq!(consumer.handle_conference_start(&mut store, None, 0), (Delivery::NackDrop, None));
    let message = ConferenceStartMessage { conference_name: "Nowhere".to_string(), start_time: 0 };
    assert_eq!(consumer.handle_conference_start(&mut store, Some(&message), 0), (Delivery::NackRequeue, None));
    assert_eq!(consumer.process_conference_start(&mut store, "Nowhere", 0), Err(Error::ConferenceNotFound));
}

#[test]
fn the_expiry_consumer_arms_its_windows_in_the_timer_queue() {
    let consumer = ExpiredConfirmationConsumer::new();
    assert_eq!(consumer.confirmation_timer_queue, "confirmation.timer");
    let mut store = Store::new();
    assert_eq!(
        consumer.promote_next_waitlisted_person(&mut store, "Nowhere", 0),
        Err(Error::ConferenceNotFound)
    );
}

#[test]
fn the_confirmation_window_can_be_chosen() {
    let mut service = WaitlistQueueService::new();
    service.confirmation_window_ms = 30_000;
    let mut store = Store::new();
    let form = NewConference {
        name: "RustConf".to_string(),
        location: "Berlin".to_string(),
        start: "2030-01-01 10:00:00".to_string(),
        end: "2030-01-01 12:00:00".to_string(),
        slots: 1,
        topics: vec![],
    };
    create_new_conference_at(&mut store, &form, 0).unwrap();
    let holder = create_booking_atomic_at(&mut store, 1, "bob", 1).unwrap();
    let waiting = create_booking_atomic_at(&mut store, 1, "ann", 2).unwrap();
    let now = 1_000 * SECOND;
    let request = conference_booking::models::BookingIdRequest { booking_id: holder.booking_id };
    let (_, plan) =
        conference_booking::handlers::cancel_booking_request_at(&mut store, &service, &request, now).unwrap();
    assert_eq!(plan.len(), 2);
    assert_eq!(plan, service.arm_offer(waiting.booking_id, "RustConf", now));
    assert_eq!(
        plan[1],
        BrokerCommand::Publish {
            routing_key: "confirmation.timer".to_string(),
            ttl_ms: Some(30_000),
            payload: Payload::ConfirmationExpiration(ConfirmationExpirationMessage {
                booking_id: waiting.booking_id,
                expiration_time: now + 30 * SECOND,
                conference_name: "RustConf".to_string(),
            }),
        }
    );
    assert_eq!(store.bookings()[1].waitlist_confirmation_deadline, Some(now + 30 * SECOND));

    let mut consumer = ExpiredConfirmationConsumer::new();
    assert_eq!(consumer.confirmation_window_ms, 10_000);
    consumer.confirmation_window_ms = 2_500;
    let message = ConfirmationExpirationMessage {
        booking_id: waiting.booking_id,
        expiration_time: now + 30 * SECOND,
        conference_name: "RustConf".to_string(),
    };
    let later = now + 31 * SECOND;
    let (_, plan) = consumer.handle_expired_confirmation(&mut store, Some(&message), later);
    assert_eq!(
        plan,
        vec![arm_expiry("confirmation.timer", waiting.booking_id, later + 2_500_000, "RustConf", 2_500)]
    );
    assert_eq!(store.bookings()[1].waitlist_confirmation_deadline, Some(later + 2_500_000));
}
