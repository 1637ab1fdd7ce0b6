//! What each request of the interface does: the checks, the step on the
//! state, the answer, and the requests to the broker that follow.

use vstd::prelude::*;
use crate::actions::{
    booking_refusal, booking_result, cancel_booking_at, cancel_offers, cancel_refusal,
    cancel_result, cancel_step, confirm_refusal, confirm_result, confirm_waitlist_booking_secure_at,
    create_booking_atomic_at, create_conference_refusal, create_conference_result,
    get_conference_by_name, get_user_by_id, insert_new_user, insert_user_result, waitlist_head,
};
use crate::clock::{parse_timestamp, parsed_timestamp, utc_now_micros, TIMESTAMP_FORMAT};
use crate::errors::Error;
use crate::models::{
    texts_view, ApiResponse, BookConferenceRequest, BookConferenceResponse, Booking,
    BookingIdRequest, BookingStatus, BookingStatusResponse, BookingView, ConfirmBookingRequest,
    NewConference, NewUser,
};
use crate::queue::{
    commands_view, seat_offer, start_schedule, waitlist_notice, BrokerCommand, BrokerCommandView,
    WaitlistQueueService, WaitlistQueueServiceView,
};
use crate::state::{
    booking_of, conference_named, conference_of, fair, has_booking, has_conference_named, has_user,
    seats_reserved, Store, StoreView,
};
use crate::validation::{
    check_conference_form, conference_form_fault, user_form_fault, validate_new_user,
};

verus! {

/// The requests of the interface.
#[derive(Clone, Copy, Debug, PartialEq, Eq, Structural)]
pub enum Endpoint {
    AddUser,
    AddConference,
    Book,
    BookingStatus,
    Confirm,
    Cancel,
    ConferenceBookings,
}

/// The HTTP status under which a request that succeeded is answered: 201
/// where it created a user, a conference or a booking, else 200.
pub open spec fn status_of_success(endpoint: Endpoint) -> u16 {
    match endpoint {
        Endpoint::AddUser | Endpoint::AddConference | Endpoint::Book => 201,
        _ => 200,
    }
}

/// The HTTP status under which a request that succeeded is answered.
pub fn success_status(endpoint: Endpoint) -> (r: u16)
    ensures
        r == status_of_success(endpoint),
{
    match endpoint {
        Endpoint::AddUser | Endpoint::AddConference | Endpoint::Book => 201,
        _ => 200,
    }
}

// ---------------------------------------------------------------------------
// Users and conferences
// ---------------------------------------------------------------------------

/// Registers a user: the request is checked, then stored.
pub fn add_user(store: &mut Store, form: &NewUser) -> (r: Result<ApiResponse, Error>)
    requires
        old(store).wf(),
    ensures
        final(store).wf(),
        fair(old(store)@) ==> fair(final(store)@),
        seats_reserved(old(store)@) ==> seats_reserved(final(store)@),
        match r {
            Ok(reply) => user_form_fault(form@) is None && !has_user(
                old(store)@.users,
                form.user_id@,
            ) && reply.message@ == "User added successfully"@ && final(store)@
                == insert_user_result(old(store)@, form.user_id@, texts_view(form.topics@)),
            Err(e) => final(store)@ == old(store)@ && if user_form_fault(form@) is Some {
                user_form_fault(form@) == Some(e)
            } else {
                e == Error::UserExists && has_user(old(store)@.users, form.user_id@)
            },
        },
{
    match validate_new_user(form) {
        Ok(_) => {},
        Err(e) => {
            return Err(e);
        },
    }
    match insert_new_user(store, form.user_id.as_str(), &form.topics) {
        Ok(_) => Ok(ApiResponse { message: "User added successfully".to_owned() }),
        Err(e) => Err(e),
    }
}

/// What creating a conference on request does at `now`, given what was
/// read of its two times: a request that passes the checks of the form and
/// of the store is stored and its start is announced to the broker; else
/// nothing changes and the first fault is the reason.
pub open spec fn add_conference_post(
    names: WaitlistQueueServiceView,
    before: StoreView,
    form: crate::models::NewConferenceView,
    start: Option<i64>,
    end: Option<i64>,
    now: i64,
    after: StoreView,
    r: Result<(ApiResponse, Vec<BrokerCommand>), Error>,
) -> bool {
    match r {
        Ok((reply, plan)) => conference_form_fault(form, start, end) is None
            && create_conference_refusal(before, form, start, end) is None
            && reply.message@ == "conference added successfully"@ && after
            == create_conference_result(before, form, start->0, end->0, now) && commands_view(
            plan@,
        ) == start_schedule(
            names.conference_start_queue,
            form.name,
            start->0,
            now,
        ),
        Err(e) => after == before && if conference_form_fault(form, start, end) is Some {
            conference_form_fault(form, start, end) == Some(e)
        } else {
            create_conference_refusal(before, form, start, end) == Some(e)
        },
    }
}

/// Creates a conference at the time `now`, where `start` and `end` are what
/// was read of the two times in the form.
pub fn add_conference_from(
    store: &mut Store,
    service: &WaitlistQueueService,
    form: &NewConference,
    start: Option<i64>,
    end: Option<i64>,
    now: i64,
) -> (r: Result<(ApiResponse, Vec<BrokerCommand>), Error>)
    requires
        old(store).wf(),
    ensures
        final(store).wf(),
        fair(old(store)@) ==> fair(final(store)@),
        seats_reserved(old(store)@) ==> seats_reserved(final(store)@),
        add_conference_post(service@, old(store)@, form@, start, end, now, final(store)@, r),
{
    match check_conference_form(form, start, end) {
        Ok(_) => {},
        Err(e) => {
            return Err(e);
        },
    }
    let conference = match crate::actions::create_conference_from(store, form, start, end, now) {
        Ok(c) => c,
        Err(e) => {
            return Err(e);
        },
    };
    let plan = service.schedule_conference_start_event_at(
        conference.name.as_str(),
        conference.start_timestamp,
        now,
    );
    Ok((ApiResponse { message: "conference added successfully".to_owned() }, plan))
}

/// Creates a conference at the time `now`. The two times of the form are
/// read as `YYYY-MM-DD HH:MM:SS`.
pub fn add_conference_at(
    store: &mut Store,
    service: &WaitlistQueueService,
    form: &NewConference,
    now: i64,
) -> (r: Result<(ApiResponse, Vec<BrokerCommand>), Error>)
    requires
        old(store).wf(),
    ensures
        final(store).wf(),
        fair(old(store)@) ==> fair(final(store)@),
        seats_reserved(old(store)@) ==> seats_reserved(final(store)@),
        add_conference_post(
            service@,
            old(store)@,
            form@,
            parsed_timestamp(form.start@, TIMESTAMP_FORMAT@),
            parsed_timestamp(form.end@, TIMESTAMP_FORMAT@),
            now,
            final(store)@,
            r,
        ),
{
    let start = parse_timestamp(form.start.as_str(), TIMESTAMP_FORMAT);
    let end = parse_timestamp(form.end.as_str(), TIMESTAMP_FORMAT);
    add_conference_from(store, service, form, start, end, now)
}

/// Creates a conference at the time of the system clock.
pub fn add_conference(
    store: &mut Store,
    service: &WaitlistQueueService,
    form: &NewConference,
) -> (r: Result<(ApiResponse, Vec<BrokerCommand>), Error>)
    requires
        old(store).wf(),
    ensures
        final(store).wf(),
        fair(old(store)@) ==> fair(final(store)@),
        seats_reserved(old(store)@) ==> seats_reserved(final(store)@),
        exists|now: i64| #[trigger]
            add_conference_post(
                service@,
                old(store)@,
                form@,
                parsed_timestamp(form.start@, TIMESTAMP_FORMAT@),
                parsed_timestamp(form.end@, TIMESTAMP_FORMAT@),
                now,
                final(store)@,
                r,
            ),
{
    let now = utc_now_micros();
    add_conference_at(store, service, form, now)
}

// ---------------------------------------------------------------------------
// Booking
// ---------------------------------------------------------------------------

/// Why a request to book is refused at `now`, if it is: the conference or
/// the user is unknown, the conference has started, or the booking rules
/// stand against it.
pub open spec fn book_refusal(
    s: StoreView,
    conference_name: Seq<char>,
    user_id: Seq<char>,
    now: i64,
) -> Option<Error> {
    if !has_conference_named(s.conferences, conference_name) {
        Some(Error::ConferenceNotFound)
    } else if !has_user(s.users, user_id) {
        Some(Error::UserNotFound)
    } else if conference_named(s.conferences, conference_name).start_timestamp <= now {
        Some(Error::ConferenceStarted)
    } else {
        booking_refusal(
            s,
            conference_named(s.conferences, conference_name).conference_id,
            user_id,
        )
    }
}

/// What the user is told of a new booking.
pub open spec fn booking_message(status: BookingStatus) -> Seq<char> {
    match status {
        BookingStatus::CONFIRMED => "Booking confirmed successfully"@,
        BookingStatus::WAITLISTED => "Added to waitlist"@,
        _ => "Booking created"@,
    }
}

/// What a request to book does at `now`: where nothing stands against it
/// the booking is made and described in the answer, and a booking that
/// joined the waitlist is told to the conference's waitlist queue; else
/// nothing changes and the reason is given.
pub open spec fn book_post(
    names: WaitlistQueueServiceView,
    before: StoreView,
    conference_name: Seq<char>,
    user_id: Seq<char>,
    now: i64,
    after: StoreView,
    r: Result<(BookConferenceResponse, Vec<BrokerCommand>), Error>,
) -> bool {
    let conference_id = conference_named(before.conferences, conference_name).conference_id;
    match r {
        Ok((reply, plan)) => {
            let b = after.bookings.last();
            &&& book_refusal(before, conference_name, user_id, now) is None
            &&& after == booking_result(before, conference_id, user_id, now)
            &&& reply.booking_id == b.booking_id
            &&& reply.status == b.status
            &&& reply.waitlist_position == b.waitlist_position
            &&& reply.message@ == booking_message(b.status)
            &&& commands_view(plan@) == if b.status == BookingStatus::WAITLISTED {
                waitlist_notice(names.waitlist_queue_prefix, b, conference_name, now)
            } else {
                Seq::<BrokerCommandView>::empty()
            }
        },
        Err(e) => book_refusal(before, conference_name, user_id, now) == Some(e) && after
            == before,
    }
}

/// Books a seat at the time `now`.
pub fn book_conference_at(
    store: &mut Store,
    service: &WaitlistQueueService,
    form: &BookConferenceRequest,
    now: i64,
) -> (r: Result<(BookConferenceResponse, Vec<BrokerCommand>), Error>)
    requires
        old(store).wf(),
    ensures
        final(store).wf(),
        fair(old(store)@) ==> fair(final(store)@),
        seats_reserved(old(store)@) ==> seats_reserved(final(store)@),
        book_post(service@, old(store)@, form.name@, form.user_id@, now, final(store)@, r),
{
    let conference = match get_conference_by_name(store, form.name.as_str()) {
        Ok(c) => c,
        Err(e) => {
            return Err(e);
        },
    };
    match get_user_by_id(store, form.user_id.as_str()) {
        Ok(_) => {},
        Err(e) => {
            return Err(e);
        },
    }
    if conference.start_timestamp <= now {
        return Err(Error::ConferenceStarted);
    }
    let booking = match create_booking_atomic_at(
        store,
        conference.conference_id,
        form.user_id.as_str(),
        now,
    ) {
        Ok(b) => b,
        Err(e) => {
            return Err(e);
        },
    };
    let status = booking.status;
    let message = match status {
        BookingStatus::CONFIRMED => "Booking confirmed successfully".to_owned(),
        BookingStatus::WAITLISTED => "Added to waitlist".to_owned(),
        _ => "Booking created".to_owned(),
    };
    let plan = if status == BookingStatus::WAITLISTED {
        service.add_to_waitlist_at(&booking, form.name.as_str(), now)
    } else {
        let none: Vec<BrokerCommand> = Vec::new();
        proof {
            assert(commands_view(none@) =~= Seq::<BrokerCommandView>::empty());
        }
        none
    };
    Ok(
        (
            BookConferenceResponse {
                booking_id: booking.booking_id,
                status,
                message,
                waitlist_position: booking.waitlist_position,
            },
            plan,
        ),
    )
}

/// Books a seat at the time of the system clock.
pub fn book_conference(
    store: &mut Store,
    service: &WaitlistQueueService,
    form: &BookConferenceRequest,
) -> (r: Result<(BookConferenceResponse, Vec<BrokerCommand>), Error>)
    requires
        old(store).wf(),
    ensures
        final(store).wf(),
        fair(old(store)@) ==> fair(final(store)@),
        seats_reserved(old(store)@) ==> seats_reserved(final(store)@),
        exists|now: i64| #[trigger]
            book_post(service@, old(store)@, form.name@, form.user_id@, now, final(store)@, r),
{
    let now = utc_now_micros();
    book_conference_at(store, service, form, now)
}

/// What a user is told of the booking: its status, the name of its
/// conference, whether it can be confirmed, by when, and its place on the
/// waitlist.
pub fn get_booking_status(
    store: &Store,
    booking_id: i32,
) -> (r: Result<BookingStatusResponse, Error>)
    requires
        store.wf(),
    ensures
        match r {
            Ok(reply) => {
                let b = booking_of(store@.bookings, booking_id);
                &&& has_booking(store@.bookings, booking_id)
                &&& reply.booking_id == booking_id
                &&& reply.status == b.status
                &&& reply.conference_name@ == conference_of(
                    store@.conferences,
                    b.conference_id,
                ).name
                &&& reply.can_confirm == (b.can_confirm == Some(true))
                &&& reply.confirmation_deadline == b.waitlist_confirmation_deadline
                &&& reply.waitlist_position == b.waitlist_position
            },
            Err(e) => e == Error::BookingNotFound && !has_booking(store@.bookings, booking_id),
        },
{
    let (booking, conference_name) = match crate::actions::get_booking_with_conference_name(
        store,
        booking_id,
    ) {
        Ok(found) => found,
        Err(e) => {
            return Err(e);
        },
    };
    proof {
        let i = crate::state::booking_index(store@.bookings, booking_id);
        assert(crate::state::is_booking_at(store@.bookings, booking_id, i));
    }
    let can_confirm = match booking.can_confirm {
        Some(flag) => flag,
        None => false,
    };
    Ok(
        BookingStatusResponse {
            booking_id: booking.booking_id,
            status: booking.status,
            conference_name,
            can_confirm,
            confirmation_deadline: booking.waitlist_confirmation_deadline,
            waitlist_position: booking.waitlist_position,
        },
    )
}

// ---------------------------------------------------------------------------
// Confirming and cancelling
// ---------------------------------------------------------------------------

/// What a request to confirm does at `now`: a booking that its user can
/// confirm is confirmed; else nothing changes and the reason is given.
pub open spec fn confirm_request_post(
    before: StoreView,
    booking_id: i32,
    user_id: Seq<char>,
    now: i64,
    after: StoreView,
    r: Result<ApiResponse, Error>,
) -> bool {
    match r {
        Ok(reply) => confirm_refusal(before, booking_id, user_id, now) is None && after
            == confirm_result(before, booking_id, now) && reply.message@
            == "Booking confirmed successfully"@,
        Err(e) => confirm_refusal(before, booking_id, user_id, now) == Some(e) && after == before,
    }
}

/// Confirms a booking on request at the time `now`: only the user who owns
/// the booking can, while it is pending confirmation, up to its deadline and
/// before the conference starts.
pub fn confirm_waitlist_booking_at(store: &mut Store, form: &ConfirmBookingRequest, now: i64) -> (r:
    Result<ApiResponse, Error>)
    requires
        old(store).wf(),
    ensures
        final(store).wf(),
        fair(old(store)@) ==> fair(final(store)@),
        seats_reserved(old(store)@) ==> seats_reserved(final(store)@),
        confirm_request_post(
            old(store)@,
            form.booking_id,
            form.user_id@,
            now,
            final(store)@,
            r,
        ),
{
    match confirm_waitlist_booking_secure_at(store, form.booking_id, form.user_id.as_str(), now) {
        Ok(_) => Ok(ApiResponse { message: "Booking confirmed successfully".to_owned() }),
        Err(e) => Err(e),
    }
}

/// Confirms a booking on request at the time of the system clock.
pub fn confirm_waitlist_booking(store: &mut Store, form: &ConfirmBookingRequest) -> (r: Result<
    ApiResponse,
    Error,
>)
    requires
        old(store).wf(),
    ensures
        final(store).wf(),
        fair(old(store)@) ==> fair(final(store)@),
        seats_reserved(old(store)@) ==> seats_reserved(final(store)@),
        exists|now: i64| #[trigger]
            confirm_request_post(
                old(store)@,
                form.booking_id,
                form.user_id@,
                now,
                final(store)@,
                r,
            ),
{
    let now = utc_now_micros();
    confirm_waitlist_booking_at(store, form, now)
}

/// What a request to cancel does at `now`: a booking that can be cancelled
/// is; if that gave a seat back and the conference then has a free seat and
/// somebody waiting, the seat is offered to the head of the waitlist and the
/// end of the confirmation window is armed. Else nothing changes and the
/// reason is given.
pub open spec fn cancel_request_post(
    names: WaitlistQueueServiceView,
    before: StoreView,
    booking_id: i32,
    now: i64,
    after: StoreView,
    r: Result<(ApiResponse, Vec<BrokerCommand>), Error>,
) -> bool {
    match r {
        Ok((reply, plan)) => {
            let b = booking_of(before.bookings, booking_id);
            let struck = cancel_step(before, booking_id, now);
            &&& cancel_refusal(before, booking_id) is None
            &&& reply.message@ == "Booking canceled successfully"@
            &&& after == cancel_result(before, booking_id, now, names.confirmation_window_ms)
            &&& commands_view(plan@) == if cancel_offers(before, booking_id, now) {
                seat_offer(
                    names,
                    struck.bookings[waitlist_head(struck.bookings, b.conference_id)].booking_id,
                    conference_of(before.conferences, b.conference_id).name,
                    now,
                )
            } else {
                Seq::<BrokerCommandView>::empty()
            }
        },
        Err(e) => cancel_refusal(before, booking_id) == Some(e) && after == before,
    }
}

/// Cancels a booking on request at the time `now`.
pub fn cancel_booking_request_at(
    store: &mut Store,
    service: &WaitlistQueueService,
    form: &BookingIdRequest,
    now: i64,
) -> (r: Result<(ApiResponse, Vec<BrokerCommand>), Error>)
    requires
        old(store).wf(),
    ensures
        final(store).wf(),
        fair(old(store)@) ==> fair(final(store)@),
        seats_reserved(old(store)@) ==> seats_reserved(final(store)@),
        cancel_request_post(service@, old(store)@, form.booking_id, now, final(store)@, r),
{
    let (_, conference_name) = match crate::actions::get_booking_with_conference_name(
        store,
        form.booking_id,
    ) {
        Ok(found) => found,
        Err(e) => {
            return Err(e);
        },
    };
    let offered = match cancel_booking_at(
        store,
        form.booking_id,
        now,
        service.confirmation_window_ms,
    ) {
        Ok((_, offered)) => offered,
        Err(e) => {
            return Err(e);
        },
    };
    proof {
        let before = old(store)@;
        let i = crate::state::booking_index(before.bookings, form.booking_id);
        assert(crate::state::is_booking_at(before.bookings, form.booking_id, i));
        if cancel_offers(before, form.booking_id, now) {
            let struck = cancel_step(before, form.booking_id, now);
            let c = before.bookings[i].conference_id;
            let h = waitlist_head(struck.bookings, c);
            assert(crate::state::is_waitlist_head(struck.bookings, c, h));
        }
    }
    let plan = match offered {
        Some(booking) => service.arm_offer(booking.booking_id, conference_name.as_str(), now),
        None => {
            let none: Vec<BrokerCommand> = Vec::new();
            proof {
                assert(commands_view(none@) =~= Seq::<BrokerCommandView>::empty());
            }
            none
        },
    };
    Ok((ApiResponse { message: "Booking canceled successfully".to_owned() }, plan))
}

/// Cancels a booking on request at the time of the system clock.
pub fn cancel_booking_request(
    store: &mut Store,
    service: &WaitlistQueueService,
    form: &BookingIdRequest,
) -> (r: Result<(ApiResponse, Vec<BrokerCommand>), Error>)
    requires
        old(store).wf(),
    ensures
        final(store).wf(),
        fair(old(store)@) ==> fair(final(store)@),
        seats_reserved(old(store)@) ==> seats_reserved(final(store)@),
        exists|now: i64| #[trigger]
            cancel_request_post(service@, old(store)@, form.booking_id, now, final(store)@, r),
{
    let now = utc_now_micros();
    cancel_booking_request_at(store, service, form, now)
}

// ---------------------------------------------------------------------------
// The bookings of a conference
// ---------------------------------------------------------------------------

/// The bookings on the conference, in the order of their rows.
pub open spec fn bookings_on(bookings: Seq<BookingView>, conference_id: i32) -> Seq<BookingView>
    decreases bookings.len(),
{
    if bookings.len() == 0 {
        Seq::empty()
    } else if bookings.last().conference_id == conference_id {
        bookings_on(bookings.drop_last(), conference_id).push(bookings.last())
    } else {
        bookings_on(bookings.drop_last(), conference_id)
    }
}

/// Lists the bookings of the conference called `conference_name`, whatever
/// their status.
pub fn get_conference_bookings(store: &Store, conference_name: &str) -> (r: Result<
    Vec<Booking>,
    Error,
>)
    requires
        store.wf(),
    ensures
        match r {
            Ok(rows) => has_conference_named(store@.conferences, conference_name@)
                && crate::state::bookings_view(rows@) == bookings_on(
                store@.bookings,
                conference_named(store@.conferences, conference_name@).conference_id,
            ),
            Err(e) => e == Error::ConferenceNotFound && !has_conference_named(
                store@.conferences,
                conference_name@,
            ),
        },
{
    let conference = match get_conference_by_name(store, conference_name) {
        Ok(c) => c,
        Err(e) => {
            return Err(e);
        },
    };
    let mut rows: Vec<Booking> = Vec::new();
    let n = store.booking_count();
    let mut i: usize = 0;
    proof {
        assert(crate::state::bookings_view(rows@) =~= bookings_on(
            store@.bookings.subrange(0, 0),
            conference.conference_id,
        ));
    }
    while i < n
        invariant
            n == store@.bookings.len(),
            i <= n,
            crate::state::bookings_view(rows@) == bookings_on(
                store@.bookings.subrange(0, i as int),
                conference.conference_id,
            ),
        decreases n - i,
    {
        let b = store.booking_at(i);
        proof {
            assert(store@.bookings.subrange(0, i + 1).drop_last() =~= store@.bookings.subrange(
                0,
                i as int,
            ));
        }
        if b.conference_id == conference.conference_id {
            let ghost prev = rows@;
            rows.push(b.clone());
            proof {
                assert(crate::state::bookings_view(rows@) =~= crate::state::bookings_view(
                    prev,
                ).push(b@));
            }
        }
        i += 1;
    }
    proof {
        assert(store@.bookings.subrange(0, n as int) =~= store@.bookings);
    }
    Ok(rows)
}

} // verus!
