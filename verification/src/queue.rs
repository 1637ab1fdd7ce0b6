//! The timer and event bus: which exchanges and queues the broker holds,
//! which messages are published to arm a timer, and what a consumer does
//! with a message that a timer has released. The library decides; the
//! program around it talks to the broker.

use vstd::prelude::*;
use vstd::string::StringExecFns;
use crate::actions::{
    can_promote, cancel_unconfirmed_bookings, confirmation_deadline, expiry_due, expiry_result,
    find_booking, get_conference_by_name, is_expirable, move_booking_to_waitlist_end, open_seats,
    promote_result, promote_waitlist_head_at, purge_result, requeue_result, waitlist_head,
};
use crate::clock::utc_now_micros;
use crate::errors::Error;
use crate::models::{Booking, BookingStatus, BookingView};
use crate::state::{
    booking_of, conference_named, count_in, fair, has_booking, has_conference_named, next_position,
    seats_reserved, Store, StoreView,
};
use crate::transitions::{deadline_after, DEFAULT_CONFIRMATION_WINDOW_MS};

verus! {

/// Sent to a conference's waitlist queue when a booking joins the waitlist.
#[derive(Debug, PartialEq, Eq)]
pub struct SlotAvailableMessage {
    pub booking_id: i32,
    pub user_id: String,
    pub conference_name: String,
    pub confirmation_deadline: i64,
}

/// Arms the end of a confirmation window.
#[derive(Debug, PartialEq, Eq)]
pub struct ConfirmationExpirationMessage {
    pub booking_id: i32,
    pub expiration_time: i64,
    pub conference_name: String,
}

/// Arms the start of a conference.
#[derive(Debug, PartialEq, Eq)]
pub struct ConferenceStartMessage {
    pub conference_name: String,
    pub start_time: i64,
}

/// What a published message carries.
#[derive(Debug, PartialEq, Eq)]
pub enum Payload {
    SlotAvailable(SlotAvailableMessage),
    ConfirmationExpiration(ConfirmationExpirationMessage),
    ConferenceStart(ConferenceStartMessage),
}

/// The view of what a message carries, with its texts as sequences of characters.
pub enum PayloadView {
    SlotAvailable {
        booking_id: i32,
        user_id: Seq<char>,
        conference_name: Seq<char>,
        confirmation_deadline: i64,
    },
    ConfirmationExpiration { booking_id: i32, expiration_time: i64, conference_name: Seq<char> },
    ConferenceStart { conference_name: Seq<char>, start_time: i64 },
}

impl View for Payload {
    type V = PayloadView;

    open spec fn view(&self) -> PayloadView {
        match self {
            Payload::SlotAvailable(m) => PayloadView::SlotAvailable {
                booking_id: m.booking_id,
                user_id: m.user_id@,
                conference_name: m.conference_name@,
                confirmation_deadline: m.confirmation_deadline,
            },
            Payload::ConfirmationExpiration(m) => PayloadView::ConfirmationExpiration {
                booking_id: m.booking_id,
                expiration_time: m.expiration_time,
                conference_name: m.conference_name@,
            },
            Payload::ConferenceStart(m) => PayloadView::ConferenceStart {
                conference_name: m.conference_name@,
                start_time: m.start_time,
            },
        }
    }
}

/// How an exchange routes.
#[derive(Clone, Copy, Debug, PartialEq, Eq, Structural)]
pub enum ExchangeKind {
    Topic,
    Direct,
}

/// One request to the broker. Exchanges and queues are declared durable,
/// messages are published persistent to the default exchange, and consumers
/// acknowledge by hand.
#[derive(Debug, PartialEq, Eq)]
pub enum BrokerCommand {
    DeclareExchange { name: String, kind: ExchangeKind },
    /// Declares a queue; `dead_letter` is the exchange and the routing key
    /// to which the queue hands the messages whose time has run out.
    DeclareQueue { name: String, dead_letter: Option<(String, String)> },
    BindQueue { queue: String, exchange: String, routing_key: String },
    /// Publishes to the queue `routing_key`; `ttl_ms` is the time in
    /// milliseconds after which the message leaves that queue.
    Publish { routing_key: String, ttl_ms: Option<i64>, payload: Payload },
    /// Deletes a queue, be it empty and unused or not.
    DeleteQueue { name: String },
    Consume { queue: String, consumer_tag: String },
}

/// The view of a request to the broker, with its texts as sequences of characters.
pub enum BrokerCommandView {
    DeclareExchange { name: Seq<char>, kind: ExchangeKind },
    DeclareQueue { name: Seq<char>, dead_letter: Option<(Seq<char>, Seq<char>)> },
    BindQueue { queue: Seq<char>, exchange: Seq<char>, routing_key: Seq<char> },
    Publish { routing_key: Seq<char>, ttl_ms: Option<i64>, payload: PayloadView },
    DeleteQueue { name: Seq<char> },
    Consume { queue: Seq<char>, consumer_tag: Seq<char> },
}

impl View for BrokerCommand {
    type V = BrokerCommandView;

    open spec fn view(&self) -> BrokerCommandView {
        match self {
            BrokerCommand::DeclareExchange { name, kind } => BrokerCommandView::DeclareExchange {
                name: name@,
                kind: *kind,
            },
            BrokerCommand::DeclareQueue { name, dead_letter } => BrokerCommandView::DeclareQueue {
                name: name@,
                dead_letter: match dead_letter {
                    Some((exchange, routing_key)) => Some((exchange@, routing_key@)),
                    None => None,
                },
            },
            BrokerCommand::BindQueue { queue, exchange,
                routing_key } => BrokerCommandView::BindQueue {
                queue: queue@,
                exchange: exchange@,
                routing_key: routing_key@,
            },
            BrokerCommand::Publish { routing_key, ttl_ms, payload } => BrokerCommandView::Publish {
                routing_key: routing_key@,
                ttl_ms: *ttl_ms,
                payload: payload@,
            },
            BrokerCommand::DeleteQueue { name } => BrokerCommandView::DeleteQueue { name: name@ },
            BrokerCommand::Consume { queue, consumer_tag } => BrokerCommandView::Consume {
                queue: queue@,
                consumer_tag: consumer_tag@,
            },
        }
    }
}

/// The views of a list of requests.
pub open spec fn commands_view(commands: Seq<BrokerCommand>) -> Seq<BrokerCommandView> {
    Seq::new(commands.len(), |i: int| commands[i]@)
}

/// The routing key under which the dead-letter exchange hands on the
/// messages of closed confirmation windows.
pub const EXPIRED_ROUTING_KEY: &'static str = "confirmation.expired";

/// The routing key under which the start queue is bound to the conference
/// exchange.
pub const START_ROUTING_KEY: &'static str = "conference.start";

/// The queue that holds the start messages until the conferences start.
pub const START_TIMER_QUEUE: &'static str = "conference.start.timer";

/// The names of the broker's objects, and whether the objects have been
/// declared.
#[derive(Debug, PartialEq, Eq)]
pub struct WaitlistQueueService {
    pub initialized: bool,
    pub max_channels: usize,
    /// The length of a confirmation window in milliseconds.
    pub confirmation_window_ms: u32,
    pub conference_exchange: String,
    pub booking_exchange: String,
    pub waitlist_queue_prefix: String,
    pub confirmation_timer_queue: String,
    pub dead_letter_exchange: String,
    pub dead_letter_queue: String,
    pub conference_start_queue: String,
}

/// The view of the service, with its texts as sequences of characters.
pub struct WaitlistQueueServiceView {
    pub initialized: bool,
    pub max_channels: usize,
    pub confirmation_window_ms: u32,
    pub conference_exchange: Seq<char>,
    pub booking_exchange: Seq<char>,
    pub waitlist_queue_prefix: Seq<char>,
    pub confirmation_timer_queue: Seq<char>,
    pub dead_letter_exchange: Seq<char>,
    pub dead_letter_queue: Seq<char>,
    pub conference_start_queue: Seq<char>,
}

impl View for WaitlistQueueService {
    type V = WaitlistQueueServiceView;

    open spec fn view(&self) -> WaitlistQueueServiceView {
        WaitlistQueueServiceView {
            initialized: self.initialized,
            max_channels: self.max_channels,
            confirmation_window_ms: self.confirmation_window_ms,
            conference_exchange: self.conference_exchange@,
            booking_exchange: self.booking_exchange@,
            waitlist_queue_prefix: self.waitlist_queue_prefix@,
            confirmation_timer_queue: self.confirmation_timer_queue@,
            dead_letter_exchange: self.dead_letter_exchange@,
            dead_letter_queue: self.dead_letter_queue@,
            conference_start_queue: self.conference_start_queue@,
        }
    }
}

/// The names that the system uses.
pub open spec fn standard_names() -> WaitlistQueueServiceView {
    WaitlistQueueServiceView {
        initialized: false,
        max_channels: 10,
        confirmation_window_ms: DEFAULT_CONFIRMATION_WINDOW_MS,
        conference_exchange: "conference.events"@,
        booking_exchange: "booking.events"@,
        waitlist_queue_prefix: "conference."@,
        confirmation_timer_queue: "confirmation.timer"@,
        dead_letter_exchange: "dead.letter.exchange"@,
        dead_letter_queue: "confirmation.expired"@,
        conference_start_queue: "conference.starts"@,
    }
}

/// The requests that set the broker up: the three exchanges; the queue of
/// closed confirmation windows, bound to the dead-letter exchange; the queue
/// that holds the messages of open confirmation windows and hands them to
/// the dead-letter exchange when their time has run out; and the queue of
/// conference starts, bound to the conference exchange.
pub open spec fn topology(names: WaitlistQueueServiceView) -> Seq<BrokerCommandView> {
    seq![
        BrokerCommandView::DeclareExchange {
            name: names.conference_exchange,
            kind: ExchangeKind::Topic,
        },
        BrokerCommandView::DeclareExchange {
            name: names.booking_exchange,
            kind: ExchangeKind::Direct,
        },
        BrokerCommandView::DeclareExchange {
            name: names.dead_letter_exchange,
            kind: ExchangeKind::Direct,
        },
        BrokerCommandView::DeclareQueue { name: names.dead_letter_queue, dead_letter: None },
        BrokerCommandView::BindQueue {
            queue: names.dead_letter_queue,
            exchange: names.dead_letter_exchange,
            routing_key: EXPIRED_ROUTING_KEY@,
        },
        BrokerCommandView::DeclareQueue {
            name: names.confirmation_timer_queue,
            dead_letter: Some((names.dead_letter_exchange, EXPIRED_ROUTING_KEY@)),
        },
        BrokerCommandView::DeclareQueue { name: names.conference_start_queue, dead_letter: None },
        BrokerCommandView::BindQueue {
            queue: names.conference_start_queue,
            exchange: names.conference_exchange,
            routing_key: START_ROUTING_KEY@,
        },
    ]
}

impl WaitlistQueueService {
    /// A service with the names that the system uses, not yet initialized.
    pub fn new() -> (r: Self)
        ensures
            r@ == standard_names(),
    {
        WaitlistQueueService {
            initialized: false,
            max_channels: 10,
            confirmation_window_ms: DEFAULT_CONFIRMATION_WINDOW_MS,
            conference_exchange: "conference.events".to_owned(),
            booking_exchange: "booking.events".to_owned(),
            waitlist_queue_prefix: "conference.".to_owned(),
            confirmation_timer_queue: "confirmation.timer".to_owned(),
            dead_letter_exchange: "dead.letter.exchange".to_owned(),
            dead_letter_queue: "confirmation.expired".to_owned(),
            conference_start_queue: "conference.starts".to_owned(),
        }
    }

    /// Hands out the requests that set the broker up, in the order in which
    /// they are to be made, and takes the service as initialized.
    pub fn initialize(&mut self) -> (r: Vec<BrokerCommand>)
        ensures
            final(self)@ == (WaitlistQueueServiceView { initialized: true, ..old(self)@ }),
            commands_view(r@) == topology(old(self)@),
    {
        let mut plan: Vec<BrokerCommand> = Vec::new();
        plan.push(
            BrokerCommand::DeclareExchange {
                name: self.conference_exchange.clone(),
                kind: ExchangeKind::Topic,
            },
        );
        plan.push(
            BrokerCommand::DeclareExchange {
                name: self.booking_exchange.clone(),
                kind: ExchangeKind::Direct,
            },
        );
        plan.push(
            BrokerCommand::DeclareExchange {
                name: self.dead_letter_exchange.clone(),
                kind: ExchangeKind::Direct,
            },
        );
        plan.push(
            BrokerCommand::DeclareQueue { name: self.dead_letter_queue.clone(), dead_letter: None },
        );
        plan.push(
            BrokerCommand::BindQueue {
                queue: self.dead_letter_queue.clone(),
                exchange: self.dead_letter_exchange.clone(),
                routing_key: EXPIRED_ROUTING_KEY.to_owned(),
            },
        );
        plan.push(
            BrokerCommand::DeclareQueue {
                name: self.confirmation_timer_queue.clone(),
                dead_letter: Some(
                    (self.dead_letter_exchange.clone(), EXPIRED_ROUTING_KEY.to_owned()),
                ),
            },
        );
        plan.push(
            BrokerCommand::DeclareQueue {
                name: self.conference_start_queue.clone(),
                dead_letter: None,
            },
        );
        plan.push(
            BrokerCommand::BindQueue {
                queue: self.conference_start_queue.clone(),
                exchange: self.conference_exchange.clone(),
                routing_key: START_ROUTING_KEY.to_owned(),
            },
        );
        self.initialized = true;
        proof {
            assert(commands_view(plan@) =~= topology(old(self)@));
        }
        plan
    }
}

// ---------------------------------------------------------------------------
// Names and messages
// ---------------------------------------------------------------------------

/// The name of a conference's waitlist queue: the prefix, the name of the
/// conference, and `.waitlist`.
pub open spec fn waitlist_queue(prefix: Seq<char>, conference_name: Seq<char>) -> Seq<char> {
    prefix + conference_name + ".waitlist"@
}

/// Builds the name of a conference's waitlist queue.
pub fn waitlist_queue_name(prefix: &str, conference_name: &str) -> (r: String)
    ensures
        r@ == waitlist_queue(prefix@, conference_name@),
{
    let mut name = prefix.to_owned();
    name.append(conference_name);
    name.append(".waitlist");
    name
}

/// The message that arms the end of a confirmation window: it is held in the
/// timer queue for the length of the window.
pub open spec fn expiry_arming(
    timer_queue: Seq<char>,
    booking_id: i32,
    deadline: i64,
    conference_name: Seq<char>,
    window_ms: u32,
) -> BrokerCommandView {
    BrokerCommandView::Publish {
        routing_key: timer_queue,
        ttl_ms: Some(window_ms as i64),
        payload: PayloadView::ConfirmationExpiration {
            booking_id,
            expiration_time: deadline,
            conference_name,
        },
    }
}

/// Builds the message that arms the end of a confirmation window.
pub fn arm_expiry(
    timer_queue: &str,
    booking_id: i32,
    deadline: i64,
    conference_name: &str,
    window_ms: u32,
) -> (r: BrokerCommand)
    ensures
        r@ == expiry_arming(timer_queue@, booking_id, deadline, conference_name@, window_ms),
{
    BrokerCommand::Publish {
        routing_key: timer_queue.to_owned(),
        ttl_ms: Some(window_ms as i64),
        payload: Payload::ConfirmationExpiration(
            ConfirmationExpirationMessage {
                booking_id,
                expiration_time: deadline,
                conference_name: conference_name.to_owned(),
            },
        ),
    }
}

/// The time in milliseconds for which the start message of a conference is
/// held back: the time from `now` to the start in whole milliseconds, and at
/// least one millisecond.
pub open spec fn start_ttl_ms(now: i64, start_time: i64) -> int {
    let whole = (start_time - now) / 1000;
    if whole < 1 {
        1
    } else {
        whole
    }
}

/// The requests that announce the start of a conference: while the start
/// lies ahead, the start queue and the timer queue that hands its messages
/// on to it are declared and the message is held in the timer queue until
/// the start; from the start on, the message goes to the start queue at
/// once.
pub open spec fn start_schedule(
    start_queue: Seq<char>,
    conference_name: Seq<char>,
    start_time: i64,
    now: i64,
) -> Seq<BrokerCommandView> {
    let payload = PayloadView::ConferenceStart { conference_name, start_time };
    if now < start_time {
        seq![
            BrokerCommandView::DeclareQueue { name: start_queue, dead_letter: None },
            BrokerCommandView::DeclareQueue {
                name: START_TIMER_QUEUE@,
                dead_letter: Some((Seq::<char>::empty(), start_queue)),
            },
            BrokerCommandView::Publish {
                routing_key: START_TIMER_QUEUE@,
                ttl_ms: Some(start_ttl_ms(now, start_time) as i64),
                payload,
            },
        ]
    } else {
        seq![BrokerCommandView::Publish { routing_key: start_queue, ttl_ms: None, payload }]
    }
}

/// The requests that tell a conference's waitlist queue of a booking.
pub open spec fn waitlist_notice(
    prefix: Seq<char>,
    b: BookingView,
    conference_name: Seq<char>,
    now: i64,
) -> Seq<BrokerCommandView> {
    seq![
        BrokerCommandView::DeclareQueue {
            name: waitlist_queue(prefix, conference_name),
            dead_letter: None,
        },
        BrokerCommandView::Publish {
            routing_key: waitlist_queue(prefix, conference_name),
            ttl_ms: None,
            payload: PayloadView::SlotAvailable {
                booking_id: b.booking_id,
                user_id: b.user_id,
                conference_name,
                confirmation_deadline: now,
            },
        },
    ]
}

/// The request that arms the confirmation window of the booking that a
/// promotion at `now` picks, if it picks one.
pub open spec fn promotion_arming(
    timer_queue: Seq<char>,
    s: StoreView,
    conference_id: i32,
    conference_name: Seq<char>,
    now: i64,
    window_ms: u32,
) -> Seq<BrokerCommandView> {
    if can_promote(s, conference_id) {
        seq![
            expiry_arming(
                timer_queue,
                s.bookings[waitlist_head(s.bookings, conference_id)].booking_id,
                deadline_after(now, window_ms),
                conference_name,
                window_ms,
            ),
        ]
    } else {
        Seq::empty()
    }
}

/// The state after a seat of the conference was offered at `now`, if one
/// could be.
pub open spec fn promotion_result(
    s: StoreView,
    conference_id: i32,
    now: i64,
    window_ms: u32,
) -> StoreView {
    if can_promote(s, conference_id) {
        promote_result(s, conference_id, now, window_ms)
    } else {
        s
    }
}

// ---------------------------------------------------------------------------
// The service
// ---------------------------------------------------------------------------

/// The requests that go with the offer of a seat to a booking at `now`:
/// the timer queue is declared, and the end of the confirmation window is
/// armed in it.
pub open spec fn seat_offer(
    names: WaitlistQueueServiceView,
    booking_id: i32,
    conference_name: Seq<char>,
    now: i64,
) -> Seq<BrokerCommandView> {
    seq![
        BrokerCommandView::DeclareQueue {
            name: names.confirmation_timer_queue,
            dead_letter: Some((names.dead_letter_exchange, EXPIRED_ROUTING_KEY@)),
        },
        expiry_arming(
            names.confirmation_timer_queue,
            booking_id,
            deadline_after(now, names.confirmation_window_ms),
            conference_name,
            names.confirmation_window_ms,
        ),
    ]
}

/// What publishing a free seat does at `now`: where the conference is
/// stored, has a free seat and somebody waits, the head of its waitlist is
/// pending confirmation, the timer queue is declared and the end of the
/// window is armed; else nothing changes and nothing is sent.
pub open spec fn slot_available_post(
    names: WaitlistQueueServiceView,
    before: StoreView,
    conference_name: Seq<char>,
    now: i64,
    after: StoreView,
    commands: Seq<BrokerCommandView>,
) -> bool {
    let conference_id = conference_named(before.conferences, conference_name).conference_id;
    if has_conference_named(before.conferences, conference_name) && can_promote(
        before,
        conference_id,
    ) {
        &&& after == promote_result(before, conference_id, now, names.confirmation_window_ms)
        &&& commands == seat_offer(
            names,
            before.bookings[waitlist_head(before.bookings, conference_id)].booking_id,
            conference_name,
            now,
        )
    } else {
        after == before && commands == Seq::<BrokerCommandView>::empty()
    }
}

impl WaitlistQueueService {
    /// The requests that tell the conference's waitlist queue, at the time
    /// `now`, of a booking that joined the waitlist.
    pub fn add_to_waitlist_at(&self, booking: &Booking, conference_name: &str, now: i64) -> (r: Vec<
        BrokerCommand,
    >)
        ensures
            commands_view(r@) == waitlist_notice(
                self@.waitlist_queue_prefix,
                booking@,
                conference_name@,
                now,
            ),
    {
        let mut plan: Vec<BrokerCommand> = Vec::new();
        plan.push(
            BrokerCommand::DeclareQueue {
                name: waitlist_queue_name(self.waitlist_queue_prefix.as_str(), conference_name),
                dead_letter: None,
            },
        );
        plan.push(
            BrokerCommand::Publish {
                routing_key: waitlist_queue_name(
                    self.waitlist_queue_prefix.as_str(),
                    conference_name,
                ),
                ttl_ms: None,
                payload: Payload::SlotAvailable(
                    SlotAvailableMessage {
                        booking_id: booking.booking_id,
                        user_id: booking.user_id.clone(),
                        conference_name: conference_name.to_owned(),
                        confirmation_deadline: now,
                    },
                ),
            },
        );
        proof {
            assert(commands_view(plan@) =~= waitlist_notice(
                self@.waitlist_queue_prefix,
                booking@,
                conference_name@,
                now,
            ));
        }
        plan
    }

    /// The same at the time of the system clock.
    pub fn add_to_waitlist(&self, booking: &Booking, conference_name: &str) -> (r: Vec<
        BrokerCommand,
    >)
        ensures
            exists|now: i64|
                commands_view(r@) == #[trigger] waitlist_notice(
                    self@.waitlist_queue_prefix,
                    booking@,
                    conference_name@,
                    now,
                ),
    {
        let now = utc_now_micros();
        self.add_to_waitlist_at(booking, conference_name, now)
    }

    /// The requests that tell the conference's waitlist queue of the booking
    /// with this id, at the time `now`; an unknown booking is refused.
    pub fn add_to_waitlist_by_booking_id_at(
        &self,
        store: &Store,
        booking_id: i32,
        conference_name: &str,
        now: i64,
    ) -> (r: Result<Vec<BrokerCommand>, Error>)
        requires
            store.wf(),
        ensures
            match r {
                Ok(plan) => has_booking(store@.bookings, booking_id) && commands_view(plan@)
                    == waitlist_notice(
                    self@.waitlist_queue_prefix,
                    booking_of(store@.bookings, booking_id),
                    conference_name@,
                    now,
                ),
                Err(e) => e == Error::BookingNotFound && !has_booking(store@.bookings, booking_id),
            },
    {
        match find_booking(store, booking_id) {
            Some(i) => Ok(self.add_to_waitlist_at(store.booking_at(i), conference_name, now)),
            None => Err(Error::BookingNotFound),
        }
    }

    /// The same at the time of the system clock.
    pub fn add_to_waitlist_by_booking_id(
        &self,
        store: &Store,
        booking_id: i32,
        conference_name: &str,
    ) -> (r: Result<Vec<BrokerCommand>, Error>)
        requires
            store.wf(),
        ensures
            match r {
                Ok(plan) => has_booking(store@.bookings, booking_id) && exists|now: i64|
                    commands_view(plan@) == #[trigger] waitlist_notice(
                        self@.waitlist_queue_prefix,
                        booking_of(store@.bookings, booking_id),
                        conference_name@,
                        now,
                    ),
                Err(e) => e == Error::BookingNotFound && !has_booking(store@.bookings, booking_id),
            },
    {
        let now = utc_now_micros();
        self.add_to_waitlist_by_booking_id_at(store, booking_id, conference_name, now)
    }

    /// The requests that go with the offer of a seat to the booking at the
    /// time `now`.
    pub fn arm_offer(&self, booking_id: i32, conference_name: &str, now: i64) -> (r: Vec<
        BrokerCommand,
    >)
        ensures
            commands_view(r@) == seat_offer(self@, booking_id, conference_name@, now),
    {
        let mut plan: Vec<BrokerCommand> = Vec::new();
        plan.push(
            BrokerCommand::DeclareQueue {
                name: self.confirmation_timer_queue.clone(),
                dead_letter: Some(
                    (self.dead_letter_exchange.clone(), EXPIRED_ROUTING_KEY.to_owned()),
                ),
            },
        );
        plan.push(
            arm_expiry(
                self.confirmation_timer_queue.as_str(),
                booking_id,
                confirmation_deadline(now, self.confirmation_window_ms),
                conference_name,
                self.confirmation_window_ms,
            ),
        );
        proof {
            assert(commands_view(plan@) =~= seat_offer(self@, booking_id, conference_name@, now));
        }
        plan
    }

    /// Offers a free seat of the conference called `conference_name`, at
    /// the time `now`, to the head of its waitlist, and hands out the
    /// requests that arm the end of the confirmation window. Every pending
    /// confirmation keeps its seat if the offer follows a release: if a
    /// seat was open before.
    pub fn publish_slot_available_at(
        &self,
        store: &mut Store,
        conference_name: &str,
        now: i64,
    ) -> (r: Vec<BrokerCommand>)
        requires
            old(store).wf(),
        ensures
            final(store).wf(),
            fair(old(store)@) ==> fair(final(store)@),
            seats_reserved(old(store)@) && open_seats(
                old(store)@,
                conference_named(old(store)@.conferences, conference_name@).conference_id,
            ) > 0 ==> seats_reserved(final(store)@),
            slot_available_post(
                self@,
                old(store)@,
                conference_name@,
                now,
                final(store)@,
                commands_view(r@),
            ),
    {
        let conference = match get_conference_by_name(store, conference_name) {
            Ok(c) => Some(c),
            Err(_) => None,
        };
        let offered = match conference {
            Some(c) => promote_waitlist_head_at(
                store,
                c.conference_id,
                now,
                self.confirmation_window_ms,
            ),
            None => None,
        };
        match offered {
            Some(booking) => self.arm_offer(booking.booking_id, conference_name, now),
            None => {
                let plan: Vec<BrokerCommand> = Vec::new();
                proof {
                    assert(commands_view(plan@) =~= Seq::<BrokerCommandView>::empty());
                }
                plan
            },
        }
    }

    /// The same at the time of the system clock.
    pub fn publish_slot_available(&self, store: &mut Store, conference_name: &str) -> (r: Vec<
        BrokerCommand,
    >)
        requires
            old(store).wf(),
        ensures
            final(store).wf(),
            fair(old(store)@) ==> fair(final(store)@),
            seats_reserved(old(store)@) && open_seats(
                old(store)@,
                conference_named(old(store)@.conferences, conference_name@).conference_id,
            ) > 0 ==> seats_reserved(final(store)@),
            exists|now: i64| #[trigger]
                slot_available_post(
                    self@,
                    old(store)@,
                    conference_name@,
                    now,
                    final(store)@,
                    commands_view(r@),
                ),
    {
        let now = utc_now_micros();
        self.publish_slot_available_at(store, conference_name, now)
    }

    /// The requests that announce the start of a conference, made at the
    /// time `now`.
    pub fn schedule_conference_start_event_at(
        &self,
        conference_name: &str,
        start_time: i64,
        now: i64,
    ) -> (r: Vec<BrokerCommand>)
        ensures
            commands_view(r@) == start_schedule(
                self@.conference_start_queue,
                conference_name@,
                start_time,
                now,
            ),
    {
        let mut plan: Vec<BrokerCommand> = Vec::new();
        if now < start_time {
            let whole: i128 = (start_time as i128 - now as i128) / 1000;
            let ttl: i64 = if whole < 1 {
                1
            } else {
                whole as i64
            };
            plan.push(
                BrokerCommand::DeclareQueue {
                    name: self.conference_start_queue.clone(),
                    dead_letter: None,
                },
            );
            plan.push(
                BrokerCommand::DeclareQueue {
                    name: START_TIMER_QUEUE.to_owned(),
                    dead_letter: Some((String::new(), self.conference_start_queue.clone())),
                },
            );
            plan.push(
                BrokerCommand::Publish {
                    routing_key: START_TIMER_QUEUE.to_owned(),
                    ttl_ms: Some(ttl),
                    payload: Payload::ConferenceStart(
                        ConferenceStartMessage {
                            conference_name: conference_name.to_owned(),
                            start_time,
                        },
                    ),
                },
            );
        } else {
            plan.push(
                BrokerCommand::Publish {
                    routing_key: self.conference_start_queue.clone(),
                    ttl_ms: None,
                    payload: Payload::ConferenceStart(
                        ConferenceStartMessage {
                            conference_name: conference_name.to_owned(),
                            start_time,
                        },
                    ),
                },
            );
        }
        proof {
            assert(commands_view(plan@) =~= start_schedule(
                self@.conference_start_queue,
                conference_name@,
                start_time,
                now,
            ));
        }
        plan
    }

    /// The same at the time of the system clock.
    pub fn schedule_conference_start_event(&self, conference_name: &str, start_time: i64) -> (r:
        Vec<BrokerCommand>)
        ensures
            exists|now: i64|
                commands_view(r@) == #[trigger] start_schedule(
                    self@.conference_start_queue,
                    conference_name@,
                    start_time,
                    now,
                ),
    {
        let now = utc_now_micros();
        self.schedule_conference_start_event_at(conference_name, start_time, now)
    }

    /// The request that starts the consumer of closed confirmation windows:
    /// it reads the dead-letter queue under a tag that ends in a fresh
    /// random id. Refused before the service is initialized.
    pub fn start_consuming_expired_confirmations(&self) -> (r: Result<BrokerCommand, Error>)
        ensures
            match r {
                Ok(c) => self.initialized && exists|id: Seq<char>|
                    c@ == #[trigger] consumer_start(
                        self@.dead_letter_queue,
                        EXPIRED_CONSUMER_TAG@,
                        id,
                    ),
                Err(e) => !self.initialized && e == Error::NotInitialized,
            },
    {
        if !self.initialized {
            return Err(Error::NotInitialized);
        }
        let id = random_id();
        let command = start_consumer(
            self.dead_letter_queue.as_str(),
            EXPIRED_CONSUMER_TAG,
            id.as_str(),
        );
        proof {
            assert(command@ == consumer_start(
                self@.dead_letter_queue,
                EXPIRED_CONSUMER_TAG@,
                id@,
            ));
        }
        Ok(command)
    }

    /// The request that starts the consumer of conference starts: it reads
    /// the start queue under a tag that ends in a fresh random id. Refused
    /// before the service is initialized.
    pub fn start_consuming_conference_events(&self) -> (r: Result<BrokerCommand, Error>)
        ensures
            match r {
                Ok(c) => self.initialized && exists|id: Seq<char>|
                    c@ == #[trigger] consumer_start(
                        self@.conference_start_queue,
                        START_CONSUMER_TAG@,
                        id,
                    ),
                Err(e) => !self.initialized && e == Error::NotInitialized,
            },
    {
        if !self.initialized {
            return Err(Error::NotInitialized);
        }
        let id = random_id();
        let command = start_consumer(
            self.conference_start_queue.as_str(),
            START_CONSUMER_TAG,
            id.as_str(),
        );
        proof {
            assert(command@ == consumer_start(
                self@.conference_start_queue,
                START_CONSUMER_TAG@,
                id@,
            ));
        }
        Ok(command)
    }
}

/// How the tag of the consumer of closed confirmation windows begins.
pub const EXPIRED_CONSUMER_TAG: &'static str = "expired_confirmation_consumer_";

/// How the tag of the consumer of conference starts begins.
pub const START_CONSUMER_TAG: &'static str = "conference_start_consumer_";

/// A random id as text, from `uuid::Uuid::new_v4`. Nothing is claimed of
/// it: two calls give different ids.
#[verifier::external_body]
pub(crate) fn random_id() -> String {
    uuid::Uuid::new_v4().to_string()
}

/// The request that starts a consumer on `queue` under the tag made of
/// `tag` and `id`.
pub open spec fn consumer_start(
    queue: Seq<char>,
    tag: Seq<char>,
    id: Seq<char>,
) -> BrokerCommandView {
    BrokerCommandView::Consume { queue, consumer_tag: tag + id }
}

/// Builds the request that starts a consumer.
pub fn start_consumer(queue: &str, tag: &str, id: &str) -> (r: BrokerCommand)
    ensures
        r@ == consumer_start(queue@, tag@, id@),
{
    let mut consumer_tag = tag.to_owned();
    consumer_tag.append(id);
    BrokerCommand::Consume { queue: queue.to_owned(), consumer_tag }
}

// ---------------------------------------------------------------------------
// Retrying a request to the broker
// ---------------------------------------------------------------------------

/// How often a request to the broker is tried.
pub const MAX_ATTEMPTS: u32 = 2;

/// The pause in milliseconds before the second attempt; it doubles from
/// attempt to attempt.
pub const FIRST_RETRY_DELAY_MS: u64 = 25;

/// What to do after an attempt.
#[derive(Clone, Copy, Debug, PartialEq, Eq, Structural)]
pub enum RetryStep {
    /// The request went through.
    Done,
    /// Pause for `delay_ms`, then make attempt number `attempt` with
    /// `next_delay_ms` as the pause after it.
    RetryAfter { delay_ms: u64, attempt: u32, next_delay_ms: u64 },
    /// The request is abandoned; the caller goes on as if it had gone
    /// through.
    GiveUp,
}

/// The step after attempt number `attempt` (from 1) with the pause
/// `delay_ms` at hand: done where it went through; else another attempt
/// after the pause, with the pause doubled, while attempts are left; else
/// the request is given up.
pub open spec fn retry_step(attempt: u32, delay_ms: u64, succeeded: bool) -> RetryStep {
    if succeeded {
        RetryStep::Done
    } else if attempt < MAX_ATTEMPTS {
        RetryStep::RetryAfter {
            delay_ms,
            attempt: (attempt + 1) as u32,
            next_delay_ms: if delay_ms * 2 > u64::MAX {
                u64::MAX
            } else {
                (delay_ms * 2) as u64
            },
        }
    } else {
        RetryStep::GiveUp
    }
}

/// Decides how a request to the broker goes on after an attempt. The first
/// attempt has the number 1 and the pause `FIRST_RETRY_DELAY_MS`.
pub fn safe_queue_operation(attempt: u32, delay_ms: u64, succeeded: bool) -> (r: RetryStep)
    ensures
        r == retry_step(attempt, delay_ms, succeeded),
{
    if succeeded {
        RetryStep::Done
    } else if attempt < MAX_ATTEMPTS {
        let next_delay_ms = if delay_ms > u64::MAX / 2 {
            u64::MAX
        } else {
            delay_ms * 2
        };
        RetryStep::RetryAfter { delay_ms, attempt: attempt + 1, next_delay_ms }
    } else {
        RetryStep::GiveUp
    }
}

// ---------------------------------------------------------------------------
// Consumers
// ---------------------------------------------------------------------------

/// What a consumer answers to the broker for a message.
#[derive(Clone, Copy, Debug, PartialEq, Eq, Structural)]
pub enum Delivery {
    /// The message is handled.
    Ack,
    /// The message could not be handled now and is to come again.
    NackRequeue,
    /// The message is malformed and is dropped.
    NackDrop,
}

/// Handles the messages of closed confirmation windows.
#[derive(Debug, PartialEq, Eq)]
pub struct ExpiredConfirmationConsumer {
    pub confirmation_timer_queue: String,
    /// The length of a confirmation window in milliseconds.
    pub confirmation_window_ms: u32,
}

/// What offering a seat of the named conference at `now` does: an unknown
/// conference is an error; else the seat is offered if it can be, and the
/// end of the confirmation window is armed.
pub open spec fn promote_next_post(
    timer_queue: Seq<char>,
    before: StoreView,
    conference_name: Seq<char>,
    now: i64,
    window_ms: u32,
    after: StoreView,
    r: Result<Vec<BrokerCommand>, Error>,
) -> bool {
    let conference_id = conference_named(before.conferences, conference_name).conference_id;
    match r {
        Ok(plan) => has_conference_named(before.conferences, conference_name) && after
            == promotion_result(before, conference_id, now, window_ms) && commands_view(plan@)
            == promotion_arming(timer_queue, before, conference_id, conference_name, now,
                window_ms),
        Err(e) => e == Error::ConferenceNotFound && !has_conference_named(
            before.conferences,
            conference_name,
        ) && after == before,
    }
}

/// What the answer to a message of a closed confirmation window is: a
/// message that could not be read is dropped; one that names an unknown
/// conference, or that finds no position left at the end of the waitlist,
/// is to come again; every other is handled.
pub open spec fn expiry_delivery(s: StoreView, message: Option<(i32, Seq<char>)>) -> Delivery {
    match message {
        None => Delivery::NackDrop,
        Some((booking_id, conference_name)) => {
            let conference_id = conference_named(s.conferences, conference_name).conference_id;
            if !has_conference_named(s.conferences, conference_name) {
                Delivery::NackRequeue
            } else if is_expirable(s, booking_id, conference_id) && next_position(
                s.bookings,
                conference_id,
            ) > i32::MAX {
                Delivery::NackRequeue
            } else {
                Delivery::Ack
            }
        },
    }
}

/// The request that a handled message of a closed confirmation window
/// leads to: where it took effect and a seat could be offered, the arming
/// of the next window.
pub open spec fn expiry_arming_after(
    timer_queue: Seq<char>,
    s: StoreView,
    booking_id: i32,
    conference_name: Seq<char>,
    now: i64,
    window_ms: u32,
) -> Seq<BrokerCommandView> {
    if expiry_due(s, booking_id, conference_name) {
        promotion_arming(
            timer_queue,
            requeue_result(s, booking_id),
            conference_named(s.conferences, conference_name).conference_id,
            conference_name,
            now,
            window_ms,
        )
    } else {
        Seq::empty()
    }
}

impl ExpiredConfirmationConsumer {
    /// A consumer that arms confirmation windows of ten seconds in the
    /// queue `confirmation.timer`.
    pub fn new() -> (r: Self)
        ensures
            r.confirmation_timer_queue@ == "confirmation.timer"@,
            r.confirmation_window_ms == DEFAULT_CONFIRMATION_WINDOW_MS,
    {
        ExpiredConfirmationConsumer {
            confirmation_timer_queue: "confirmation.timer".to_owned(),
            confirmation_window_ms: DEFAULT_CONFIRMATION_WINDOW_MS,
        }
    }

    /// Offers a seat of the conference with this id and name, at the time
    /// `now`, to the head of its waitlist, and hands out the request that
    /// arms the end of the confirmation window.
    pub fn promote_and_arm(
        &self,
        store: &mut Store,
        conference_id: i32,
        conference_name: &str,
        now: i64,
    ) -> (r: Vec<BrokerCommand>)
        requires
            old(store).wf(),
        ensures
            final(store).wf(),
            fair(old(store)@) ==> fair(final(store)@),
            seats_reserved(old(store)@) && open_seats(old(store)@, conference_id) > 0
                ==> seats_reserved(final(store)@),
            final(store)@
                == promotion_result(old(store)@, conference_id, now, self.confirmation_window_ms),
            commands_view(r@) == promotion_arming(
                self.confirmation_timer_queue@,
                old(store)@,
                conference_id,
                conference_name@,
                now,
                self.confirmation_window_ms,
            ),
    {
        let mut plan: Vec<BrokerCommand> = Vec::new();
        match promote_waitlist_head_at(store, conference_id, now, self.confirmation_window_ms) {
            Some(booking) => {
                plan.push(
                    arm_expiry(
                        self.confirmation_timer_queue.as_str(),
                        booking.booking_id,
                        confirmation_deadline(now, self.confirmation_window_ms),
                        conference_name,
                        self.confirmation_window_ms,
                    ),
                );
                proof {
                    assert(commands_view(plan@) =~= promotion_arming(
                        self.confirmation_timer_queue@,
                        old(store)@,
                        conference_id,
                        conference_name@,
                        now,
                        self.confirmation_window_ms,
                    ));
                }
            },
            None => {
                proof {
                    assert(commands_view(plan@) =~= Seq::<BrokerCommandView>::empty());
                }
            },
        }
        plan
    }

    /// Offers a seat of the conference called `conference_name`, at the
    /// time `now`, to the head of its waitlist, and hands out the request
    /// that arms the end of the confirmation window.
    pub fn promote_next_waitlisted_person(
        &self,
        store: &mut Store,
        conference_name: &str,
        now: i64,
    ) -> (r: Result<Vec<BrokerCommand>, Error>)
        requires
            old(store).wf(),
        ensures
            final(store).wf(),
            fair(old(store)@) ==> fair(final(store)@),
            seats_reserved(old(store)@) && open_seats(
                old(store)@,
                conference_named(old(store)@.conferences, conference_name@).conference_id,
            ) > 0 ==> seats_reserved(final(store)@),
            promote_next_post(
                self.confirmation_timer_queue@,
                old(store)@,
                conference_name@,
                now,
                self.confirmation_window_ms,
                final(store)@,
                r,
            ),
    {
        match get_conference_by_name(store, conference_name) {
            Ok(conference) => Ok(
                self.promote_and_arm(store, conference.conference_id, conference_name, now),
            ),
            Err(e) => Err(e),
        }
    }

    /// Handles, at the time `now`, a message that says that a confirmation
    /// window may have closed; `None` stands for a message that could not
    /// be read. A booking that is still pending confirmation goes to the
    /// end of its waitlist and the next in line is offered the seat; any
    /// other booking stays as it is.
    pub fn handle_expired_confirmation(
        &self,
        store: &mut Store,
        message: Option<&ConfirmationExpirationMessage>,
        now: i64,
    ) -> (r: (Delivery, Vec<BrokerCommand>))
        requires
            old(store).wf(),
        ensures
            final(store).wf(),
            fair(old(store)@) ==> fair(final(store)@),
            seats_reserved(old(store)@) ==> seats_reserved(final(store)@),
            match message {
                None => r.0 == Delivery::NackDrop && final(store)@ == old(store)@ && r.1@.len()
                    == 0,
                Some(m) => r.0 == expiry_delivery(
                    old(store)@,
                    Some((m.booking_id, m.conference_name@)),
                ) && final(store)@ == expiry_result(
                    old(store)@,
                    m.booking_id,
                    m.conference_name@,
                    now,
                    self.confirmation_window_ms,
                ) && commands_view(r.1@) == expiry_arming_after(
                    self.confirmation_timer_queue@,
                    old(store)@,
                    m.booking_id,
                    m.conference_name@,
                    now,
                    self.confirmation_window_ms,
                ),
            },
    {
        let none: Vec<BrokerCommand> = Vec::new();
        proof {
            assert(commands_view(none@) =~= Seq::<BrokerCommandView>::empty());
        }
        let m = match message {
            Some(m) => m,
            None => {
                return (Delivery::NackDrop, none);
            },
        };
        let conference = match get_conference_by_name(store, m.conference_name.as_str()) {
            Ok(c) => c,
            Err(_) => {
                return (Delivery::NackRequeue, none);
            },
        };
        match move_booking_to_waitlist_end(store, m.booking_id, m.conference_name.as_str()) {
            Ok(true) => {
                let plan = self.promote_and_arm(
                    store,
                    conference.conference_id,
                    m.conference_name.as_str(),
                    now,
                );
                (Delivery::Ack, plan)
            },
            Ok(false) => (Delivery::Ack, none),
            Err(_) => (Delivery::NackRequeue, none),
        }
    }
}

/// Handles the messages of conference starts.
#[derive(Debug, PartialEq, Eq)]
pub struct ConferenceStartConsumer {
    pub waitlist_queue_prefix: String,
}

/// What the start of the named conference does at `now`: an unknown
/// conference is an error and nothing changes; else its waiting and pending
/// bookings are cancelled and counted, and its waitlist queue is to be
/// deleted.
pub open spec fn conference_start_post(
    prefix: Seq<char>,
    before: StoreView,
    conference_name: Seq<char>,
    now: i64,
    after: StoreView,
    r: Result<(usize, BrokerCommand), Error>,
) -> bool {
    let conference_id = conference_named(before.conferences, conference_name).conference_id;
    match r {
        Ok((cancelled, command)) => has_conference_named(before.conferences, conference_name)
            && after == purge_result(before, conference_id, now) && cancelled == count_in(
            before.bookings,
            conference_id,
            BookingStatus::WAITLISTED,
        ) + count_in(before.bookings, conference_id, BookingStatus::ConfirmationPending)
            && command@ == (BrokerCommandView::DeleteQueue {
            name: waitlist_queue(prefix, conference_name),
        }),
        Err(e) => e == Error::ConferenceNotFound && !has_conference_named(
            before.conferences,
            conference_name,
        ) && after == before,
    }
}

impl ConferenceStartConsumer {
    /// A consumer for waitlist queues whose names begin with the prefix.
    pub fn new(waitlist_queue_prefix: String) -> (r: Self)
        ensures
            r.waitlist_queue_prefix == waitlist_queue_prefix,
    {
        ConferenceStartConsumer { waitlist_queue_prefix }
    }

    /// Cancels, at the time `now`, the waiting and pending bookings of the
    /// conference called `conference_name`, counts them, and hands out the
    /// request that deletes its waitlist queue.
    pub fn process_conference_start(
        &self,
        store: &mut Store,
        conference_name: &str,
        now: i64,
    ) -> (r: Result<(usize, BrokerCommand), Error>)
        requires
            old(store).wf(),
        ensures
            final(store).wf(),
            fair(old(store)@) ==> fair(final(store)@),
            seats_reserved(old(store)@) ==> seats_reserved(final(store)@),
            conference_start_post(
                self.waitlist_queue_prefix@,
                old(store)@,
                conference_name@,
                now,
                final(store)@,
                r,
            ),
    {
        let conference = match get_conference_by_name(store, conference_name) {
            Ok(c) => c,
            Err(e) => {
                return Err(e);
            },
        };
        let cancelled = cancel_unconfirmed_bookings(store, conference.conference_id, now);
        let command = BrokerCommand::DeleteQueue {
            name: waitlist_queue_name(self.waitlist_queue_prefix.as_str(), conference_name),
        };
        Ok((cancelled, command))
    }

    /// Handles, at the time `now`, the message that says that a conference
    /// starts; `None` stands for a message that could not be read, which is
    /// dropped. A message that names an unknown conference is to come
    /// again.
    pub fn handle_conference_start(
        &self,
        store: &mut Store,
        message: Option<&ConferenceStartMessage>,
        now: i64,
    ) -> (r: (Delivery, Option<BrokerCommand>))
        requires
            old(store).wf(),
        ensures
            final(store).wf(),
            fair(old(store)@) ==> fair(final(store)@),
            seats_reserved(old(store)@) ==> seats_reserved(final(store)@),
            match message {
                None => r.0 == Delivery::NackDrop && final(store)@ == old(store)@ && r.1 is None,
                Some(m) => if has_conference_named(old(store)@.conferences, m.conference_name@) {
                    r.0 == Delivery::Ack && final(store)@ == purge_result(
                        old(store)@,
                        conference_named(old(store)@.conferences, m.conference_name@).conference_id,
                        now,
                    ) && r.1 is Some && r.1->0@ == (BrokerCommandView::DeleteQueue {
                        name: waitlist_queue(self.waitlist_queue_prefix@, m.conference_name@),
                    })
                } else {
                    r.0 == Delivery::NackRequeue && final(store)@ == old(store)@ && r.1 is None
                },
            },
    {
        let m = match message {
            Some(m) => m,
            None => {
                return (Delivery::NackDrop, None);
            },
        };
        match self.process_conference_start(store, m.conference_name.as_str(), now) {
            Ok((_, command)) => (Delivery::Ack, Some(command)),
            Err(_) => (Delivery::NackRequeue, None),
        }
    }
}

} // verus!
