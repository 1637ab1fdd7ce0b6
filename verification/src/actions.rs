//! The typed operations on the state: queries, and the steps by which
//! bookings are made, confirmed, cancelled and moved along the waitlist.

use vstd::prelude::*;
use crate::clock::{parse_timestamp, parsed_timestamp, utc_now_micros, TIMESTAMP_FORMAT};
use crate::errors::Error;
use crate::laws::{
    law_booking_keeps_fair, law_cascade_keeps_fair, law_confirm_keeps_fair,
    law_create_conference_keeps_fair, law_promote_keeps_fair, law_purge_keeps_fair,
    law_requeue_keeps_fair, law_strike_keeps_fair, lemma_only_cancels_keeps_fair,
    lemma_same_booking_keeps_fair, lemma_same_rows_keep_fair,
};
use crate::lemmas::{
    lemma_booking_id_at_least, lemma_booking_row, lemma_conference_name_row, lemma_conference_row,
    lemma_count_bound, lemma_count_zero, lemma_max_position, lemma_waitlist_head_unique, one_if_in,
};
use crate::models::{
    texts_view, Booking, BookingStatus, BookingView, Conference, ConferenceTopic,
    ConferenceTopicView, ConferenceView, NewConference, NewConferenceInternal, NewConferenceView,
    User, UserInterest, UserInterestView, UserView,
};
use crate::state::{
    booking_index, booking_meets, booking_of, conference_consistent, conference_ids_increasing,
    conference_index, conference_named, conference_of, count_in, fair, has_booking, has_conference,
    has_conference_named, has_user, is_active, is_booking_at, is_conference_at,
    is_conference_named_at, is_in, is_waitlist_head, max_position, next_booking_id,
    next_conference_id, next_position, position_key, seats_reserved, user_ids_distinct, valid,
    Store, StoreView,
};
use crate::transitions::{
    canceled, confirmed, confirmed_row, deadline_after, lemma_free_seats_same,
    lemma_only_cancels_valid, lemma_push_booking_valid, lemma_push_conference_valid,
    lemma_replace_booking_valid, lemma_update_booking_valid, only_cancels, promoted, requeued,
    waitlisted_row, with_booking, with_booking_at, with_free_seats,
};
use crate::validation::MAX_CONFERENCE_TOPICS;

verus! {

// ---------------------------------------------------------------------------
// Finding rows
// ---------------------------------------------------------------------------

/// The row of the conference with this id.
pub(crate) fn find_conference(store: &Store, conference_id: i32) -> (r: Option<usize>)
    requires
        store.wf(),
    ensures
        match r {
            Some(i) => {
                &&& is_conference_at(store@.conferences, conference_id, i as int)
                &&& has_conference(store@.conferences, conference_id)
                &&& conference_index(store@.conferences, conference_id) == i
            },
            None => !has_conference(store@.conferences, conference_id),
        },
{
    let n = store.conference_count();
    let mut i: usize = 0;
    while i < n
        invariant
            store.wf(),
            n == store@.conferences.len(),
            i <= n,
            forall|j: int| 0 <= j < i ==> !is_conference_at(store@.conferences, conference_id, j),
        decreases n - i,
    {
        if store.conference_at(i).conference_id == conference_id {
            proof {
                lemma_conference_row(store@, conference_id, i as int);
            }
            return Some(i);
        }
        i += 1;
    }
    None
}

/// The row of a conference that is known to be stored.
pub(crate) fn row_of_conference(store: &Store, conference_id: i32) -> (k: usize)
    requires
        store.wf(),
        has_conference(store@.conferences, conference_id),
    ensures
        is_conference_at(store@.conferences, conference_id, k as int),
        conference_index(store@.conferences, conference_id) == k,
{
    let n = store.conference_count();
    let mut k: usize = 0;
    proof {
        assert(is_conference_at(
            store@.conferences,
            conference_id,
            conference_index(store@.conferences, conference_id),
        ));
    }
    loop
        invariant
            store.wf(),
            n == store@.conferences.len(),
            is_conference_at(
                store@.conferences,
                conference_id,
                conference_index(store@.conferences, conference_id),
            ),
            k <= conference_index(store@.conferences, conference_id),
        decreases conference_index(store@.conferences, conference_id) - k,
    {
        if store.conference_at(k).conference_id == conference_id {
            proof {
                lemma_conference_row(store@, conference_id, k as int);
            }
            return k;
        }
        proof {
            let found = conference_index(store@.conferences, conference_id);
            assert(store@.conferences[found].conference_id == conference_id);
            assert(k < n);
        }
        k += 1;
    }
}

/// The row of the conference with this name.
pub(crate) fn find_conference_named(store: &Store, name: &String) -> (r: Option<usize>)
    requires
        store.wf(),
    ensures
        match r {
            Some(i) => {
                &&& is_conference_named_at(store@.conferences, name@, i as int)
                &&& has_conference_named(store@.conferences, name@)
                &&& conference_named(store@.conferences, name@) == store@.conferences[i as int]
            },
            None => !has_conference_named(store@.conferences, name@),
        },
{
    let n = store.conference_count();
    let mut i: usize = 0;
    while i < n
        invariant
            store.wf(),
            n == store@.conferences.len(),
            i <= n,
            forall|j: int| 0 <= j < i ==> !is_conference_named_at(store@.conferences, name@, j),
        decreases n - i,
    {
        if store.conference_at(i).name == *name {
            proof {
                lemma_conference_name_row(store@, name@, i as int);
            }
            return Some(i);
        }
        i += 1;
    }
    None
}

/// The row of the booking with this id.
pub(crate) fn find_booking(store: &Store, booking_id: i32) -> (r: Option<usize>)
    requires
        store.wf(),
    ensures
        match r {
            Some(i) => {
                &&& is_booking_at(store@.bookings, booking_id, i as int)
                &&& has_booking(store@.bookings, booking_id)
                &&& booking_index(store@.bookings, booking_id) == i
            },
            None => !has_booking(store@.bookings, booking_id),
        },
{
    let n = store.booking_count();
    let mut i: usize = 0;
    while i < n
        invariant
            store.wf(),
            n == store@.bookings.len(),
            i <= n,
            forall|j: int| 0 <= j < i ==> !is_booking_at(store@.bookings, booking_id, j),
        decreases n - i,
    {
        if store.booking_at(i).booking_id == booking_id {
            proof {
                lemma_booking_row(store@, booking_id, i as int);
            }
            return Some(i);
        }
        i += 1;
    }
    None
}

// ---------------------------------------------------------------------------
// Queries
// ---------------------------------------------------------------------------

/// Looks a conference up by its name.
pub fn get_conference_by_name(store: &Store, conference_name: &str) -> (r: Result<
    Conference,
    Error,
>)
    requires
        store.wf(),
    ensures
        match r {
            Ok(c) => {
                &&& has_conference_named(store@.conferences, conference_name@)
                &&& c@ == conference_named(store@.conferences, conference_name@)
            },
            Err(e) => {
                &&& e == Error::ConferenceNotFound
                &&& !has_conference_named(store@.conferences, conference_name@)
            },
        },
{
    let name = conference_name.to_owned();
    match find_conference_named(store, &name) {
        Some(i) => Ok(store.conference_at(i).clone()),
        None => Err(Error::ConferenceNotFound),
    }
}

/// Looks a user up by id.
pub fn get_user_by_id(store: &Store, uid: &str) -> (r: Result<User, Error>)
    requires
        store.wf(),
    ensures
        match r {
            Ok(u) => has_user(store@.users, uid@) && u@.user_id == uid@,
            Err(e) => e == Error::UserNotFound && !has_user(store@.users, uid@),
        },
{
    let id = uid.to_owned();
    let n = store.user_count();
    let mut i: usize = 0;
    while i < n
        invariant
            n == store@.users.len(),
            i <= n,
            id@ == uid@,
            forall|j: int| 0 <= j < i ==> (#[trigger] store@.users[j]).user_id != uid@,
        decreases n - i,
    {
        if store.user_at(i).user_id == id {
            proof {
                assert(store@.users[i as int].user_id == uid@);
            }
            return Ok(store.user_at(i).clone());
        }
        i += 1;
    }
    Err(Error::UserNotFound)
}

/// Looks a booking up by id.
pub fn get_booking_by_id(store: &Store, booking_id: i32) -> (r: Result<Booking, Error>)
    requires
        store.wf(),
    ensures
        match r {
            Ok(b) => has_booking(store@.bookings, booking_id)
                && b@ == booking_of(store@.bookings, booking_id),
            Err(e) => e == Error::BookingNotFound && !has_booking(store@.bookings, booking_id),
        },
{
    match find_booking(store, booking_id) {
        Some(i) => Ok(store.booking_at(i).clone()),
        None => Err(Error::BookingNotFound),
    }
}

/// Looks a booking up by id, together with the name of its conference.
pub fn get_booking_with_conference_name(store: &Store, booking_id: i32) -> (r: Result<
    (Booking, String),
    Error,
>)
    requires
        store.wf(),
    ensures
        match r {
            Ok((b, name)) => {
                &&& has_booking(store@.bookings, booking_id)
                &&& b@ == booking_of(store@.bookings, booking_id)
                &&& name@ == conference_of(store@.conferences, b.conference_id).name
            },
            Err(e) => e == Error::BookingNotFound && !has_booking(store@.bookings, booking_id),
        },
{
    match find_booking(store, booking_id) {
        Some(i) => {
            let booking = store.booking_at(i).clone();
            proof {
                assert(has_conference(store@.conferences, store@.bookings[i as int].conference_id));
            }
            let k = row_of_conference(store, booking.conference_id);
            let name = store.conference_at(k).name.clone();
            Ok((booking, name))
        },
        None => Err(Error::BookingNotFound),
    }
}

/// Row `i` is an active booking of the user on a conference whose time meets
/// `[start, end)`.
pub open spec fn is_overlapping_at(
    s: StoreView,
    user_id: Seq<char>,
    start: i64,
    end: i64,
    i: int,
) -> bool {
    &&& 0 <= i < s.bookings.len()
    &&& is_active(s.bookings[i])
    &&& s.bookings[i].user_id == user_id
    &&& booking_meets(s.conferences, s.bookings[i], start, end)
}

/// The user has an active booking on a conference whose time meets
/// `[start, end)`.
pub open spec fn has_overlapping_booking(
    s: StoreView,
    user_id: Seq<char>,
    start: i64,
    end: i64,
) -> bool {
    exists|i: int| is_overlapping_at(s, user_id, start, end, i)
}

/// Whether the conference of booking row `i` meets `[start, end)`.
pub(crate) fn row_meets(store: &Store, i: usize, start: i64, end: i64) -> (r: bool)
    requires
        store.wf(),
        i < store@.bookings.len(),
    ensures
        r == booking_meets(store@.conferences, store@.bookings[i as int], start, end),
{
    proof {
        assert(has_conference(store@.conferences, store@.bookings[i as int].conference_id));
    }
    let c = store.conference_at(row_of_conference(store, store.booking_at(i).conference_id));
    c.start_timestamp < end && start < c.end_timestamp
}

/// The first active booking of the user, in the order of the rows, on a
/// conference whose time overlaps `[conference_start, conference_end)`.
pub fn check_user_has_overlapping_booking(
    store: &Store,
    user_id: &str,
    conference_start: i64,
    conference_end: i64,
) -> (r: Option<i32>)
    requires
        store.wf(),
    ensures
        r is Some <==> has_overlapping_booking(
            store@,
            user_id@,
            conference_start,
            conference_end,
        ),
        r matches Some(id) ==> exists|i: int|
            #![trigger store@.bookings[i]]
            is_overlapping_at(store@, user_id@, conference_start, conference_end, i)
                && store@.bookings[i].booking_id == id && forall|j: int|
                0 <= j < i ==> !is_overlapping_at(
                    store@,
                    user_id@,
                    conference_start,
                    conference_end,
                    j,
                ),
{
    let uid = user_id.to_owned();
    let n = store.booking_count();
    let mut i: usize = 0;
    while i < n
        invariant
            store.wf(),
            n == store@.bookings.len(),
            i <= n,
            uid@ == user_id@,
            forall|j: int|
                0 <= j < i ==> !is_overlapping_at(
                    store@,
                    user_id@,
                    conference_start,
                    conference_end,
                    j,
                ),
        decreases n - i,
    {
        let b = store.booking_at(i);
        if b.status != BookingStatus::CANCELED && b.user_id == uid && row_meets(
            store,
            i,
            conference_start,
            conference_end,
        ) {
            proof {
                assert(is_overlapping_at(
                    store@,
                    user_id@,
                    conference_start,
                    conference_end,
                    i as int,
                ));
            }
            return Some(b.booking_id);
        }
        i += 1;
    }
    None
}

/// Row `i` is an active booking of the user on the conference.
pub open spec fn is_active_booking_at(
    s: StoreView,
    user_id: Seq<char>,
    conference_id: i32,
    i: int,
) -> bool {
    &&& 0 <= i < s.bookings.len()
    &&& is_active(s.bookings[i])
    &&& s.bookings[i].user_id == user_id
    &&& s.bookings[i].conference_id == conference_id
}

/// The user has an active booking on the conference.
pub open spec fn has_active_booking(s: StoreView, user_id: Seq<char>, conference_id: i32) -> bool {
    exists|i: int| is_active_booking_at(s, user_id, conference_id, i)
}

/// The first active booking of the user on the conference, in the order of
/// the rows.
pub fn check_existing_active_booking(store: &Store, user_id: &str, conference_id: i32) -> (r:
    Option<i32>)
    requires
        store.wf(),
    ensures
        r is Some <==> has_active_booking(store@, user_id@, conference_id),
        r matches Some(id) ==> exists|i: int|
            #![trigger store@.bookings[i]]
            is_active_booking_at(store@, user_id@, conference_id, i)
                && store@.bookings[i].booking_id == id && forall|j: int|
                0 <= j < i ==> !is_active_booking_at(store@, user_id@, conference_id, j),
{
    let uid = user_id.to_owned();
    let n = store.booking_count();
    let mut i: usize = 0;
    while i < n
        invariant
            n == store@.bookings.len(),
            i <= n,
            uid@ == user_id@,
            forall|j: int| 0 <= j < i ==> !is_active_booking_at(store@, user_id@, conference_id, j),
        decreases n - i,
    {
        let b = store.booking_at(i);
        if b.status != BookingStatus::CANCELED && b.conference_id == conference_id && b.user_id
            == uid {
            proof {
                assert(is_active_booking_at(store@, user_id@, conference_id, i as int));
            }
            return Some(b.booking_id);
        }
        i += 1;
    }
    None
}

/// How many bookings of the conference are in the status.
pub fn count_bookings(store: &Store, conference_id: i32, status: BookingStatus) -> (r: usize)
    ensures
        r == count_in(store@.bookings, conference_id, status),
{
    let n = store.booking_count();
    let mut count: usize = 0;
    let mut i: usize = 0;
    while i < n
        invariant
            n == store@.bookings.len(),
            i <= n,
            count <= i,
            count == count_in(store@.bookings.subrange(0, i as int), conference_id, status),
        decreases n - i,
    {
        let b = store.booking_at(i);
        proof {
            assert(store@.bookings.subrange(0, i + 1).drop_last() =~= store@.bookings.subrange(
                0,
                i as int,
            ));
        }
        if b.conference_id == conference_id && b.status == status {
            count += 1;
        }
        i += 1;
    }
    proof {
        assert(store@.bookings.subrange(0, n as int) =~= store@.bookings);
    }
    count
}

/// The seats of the conference that a newcomer could be given: its free
/// seats less those that are held for pending confirmations.
pub open spec fn open_seats(s: StoreView, conference_id: i32) -> int {
    conference_of(s.conferences, conference_id).available_slots - count_in(
        s.bookings,
        conference_id,
        BookingStatus::ConfirmationPending,
    )
}

/// The seats of the conference that are neither taken by a confirmed booking
/// nor held for a pending confirmation; `None` for an unknown conference.
pub fn get_open_seats(store: &Store, conference_id: i32) -> (r: Option<i64>)
    requires
        store.wf(),
    ensures
        match r {
            Some(n) => has_conference(store@.conferences, conference_id) && n == open_seats(
                store@,
                conference_id,
            ),
            None => !has_conference(store@.conferences, conference_id),
        },
{
    let k = match find_conference(store, conference_id) {
        Some(k) => k,
        None => {
            return None;
        },
    };
    let pending = count_bookings(store, conference_id, BookingStatus::ConfirmationPending);
    proof {
        lemma_count_bound(store@.bookings, conference_id, BookingStatus::ConfirmationPending);
        if store@.bookings.len() > 0 {
            lemma_booking_id_at_least(store@, store@.bookings.len() - 1);
        }
    }
    Some(store.conference_at(k).available_slots as i64 - pending as i64)
}

/// The largest position held on the conference's waitlist, 0 where none is.
pub(crate) fn largest_position(store: &Store, conference_id: i32) -> (r: i32)
    ensures
        r == max_position(store@.bookings, conference_id),
{
    let n = store.booking_count();
    let mut largest: i32 = 0;
    let mut i: usize = 0;
    while i < n
        invariant
            n == store@.bookings.len(),
            i <= n,
            largest == max_position(store@.bookings.subrange(0, i as int), conference_id),
        decreases n - i,
    {
        let b = store.booking_at(i);
        proof {
            assert(store@.bookings.subrange(0, i + 1).drop_last() =~= store@.bookings.subrange(
                0,
                i as int,
            ));
        }
        if b.conference_id == conference_id && b.status == BookingStatus::WAITLISTED {
            match b.waitlist_position {
                Some(p) => {
                    if p > largest {
                        largest = p;
                    }
                },
                None => {},
            }
        }
        i += 1;
    }
    proof {
        assert(store@.bookings.subrange(0, n as int) =~= store@.bookings);
    }
    largest
}

/// The position behind the conference's waitlist: one more than the largest
/// position held, 1 where the waitlist is empty. No position is left where
/// the largest is the largest number there is.
pub fn next_waitlist_position(store: &Store, conference_id: i32) -> (r: Result<i32, Error>)
    ensures
        match r {
            Ok(p) => p == next_position(store@.bookings, conference_id),
            Err(e) => e == Error::StorageExhausted && next_position(store@.bookings, conference_id)
                > i32::MAX,
        },
{
    let largest = largest_position(store, conference_id);
    if largest == i32::MAX {
        Err(Error::StorageExhausted)
    } else {
        Ok(largest + 1)
    }
}

/// The place of a booking in the order in which a waitlist is served.
pub(crate) fn serving_key(b: &Booking) -> (r: i64)
    ensures
        r == position_key(b@),
{
    match b.waitlist_position {
        Some(p) => p as i64,
        None => i32::MAX as i64 + 1,
    }
}

/// The row at the head of the conference's waitlist.
pub(crate) fn find_waitlist_head(store: &Store, conference_id: i32) -> (r: Option<usize>)
    ensures
        match r {
            Some(i) => is_waitlist_head(store@.bookings, conference_id, i as int),
            None => forall|j: int|
                0 <= j < store@.bookings.len() ==> !is_in(
                    #[trigger] store@.bookings[j],
                    conference_id,
                    BookingStatus::WAITLISTED,
                ),
        },
{
    let n = store.booking_count();
    let mut head: Option<usize> = None;
    let mut i: usize = 0;
    while i < n
        invariant
            n == store@.bookings.len(),
            i <= n,
            match head {
                Some(h) => h < i && is_in(
                    store@.bookings[h as int],
                    conference_id,
                    BookingStatus::WAITLISTED,
                ) && forall|j: int|
                    0 <= j < i && is_in(
                        #[trigger] store@.bookings[j],
                        conference_id,
                        BookingStatus::WAITLISTED,
                    ) ==> position_key(store@.bookings[h as int]) < position_key(
                        store@.bookings[j],
                    ) || (position_key(store@.bookings[h as int]) == position_key(
                        store@.bookings[j],
                    ) && h <= j),
                None => forall|j: int|
                    0 <= j < i ==> !is_in(
                        #[trigger] store@.bookings[j],
                        conference_id,
                        BookingStatus::WAITLISTED,
                    ),
            },
        decreases n - i,
    {
        let b = store.booking_at(i);
        if b.conference_id == conference_id && b.status == BookingStatus::WAITLISTED {
            match head {
                Some(h) => {
                    if serving_key(b) < serving_key(store.booking_at(h)) {
                        head = Some(i);
                    }
                },
                None => {
                    head = Some(i);
                },
            }
        }
        i += 1;
    }
    head
}

/// The booking that is served next from the conference's waitlist: the
/// waitlisted booking with the smallest position.
pub fn get_next_waitlist_booking(store: &Store, conference_id: i32) -> (r: Option<Booking>)
    ensures
        match r {
            Some(b) => exists|i: int|
                #![trigger store@.bookings[i]]
                is_waitlist_head(store@.bookings, conference_id, i) && store@.bookings[i] == b@,
            None => count_in(store@.bookings, conference_id, BookingStatus::WAITLISTED) == 0,
        },
{
    match find_waitlist_head(store, conference_id) {
        Some(i) => Some(store.booking_at(i).clone()),
        None => {
            proof {
                lemma_count_zero(
                    store@.bookings,
                    conference_id,
                    BookingStatus::WAITLISTED,
                );
            }
            None
        },
    }
}

// ---------------------------------------------------------------------------
// Cancelling
// ---------------------------------------------------------------------------

/// Gives the conference in row `k` another number of free seats.
pub(crate) fn set_free_seats(store: &mut Store, k: usize, available_slots: i32)
    requires
        conference_ids_increasing(old(store)@),
        k < old(store)@.conferences.len(),
    ensures
        final(store)@ == with_free_seats(
            old(store)@,
            old(store)@.conferences[k as int].conference_id,
            available_slots,
        ),
{
    let mut c = store.conference_at(k).clone();
    proof {
        lemma_conference_row(store@, c.conference_id, k as int);
    }
    c.available_slots = available_slots;
    store.put_conference(k, c);
}

/// A copy of the booking, cancelled at `now`.
pub(crate) fn canceled_copy(b: &Booking, now: i64) -> (r: Booking)
    ensures
        r@ == canceled(b@, now),
{
    let mut r = b.clone();
    r.status = BookingStatus::CANCELED;
    r.canceled_at = Some(now);
    r.waitlist_position = None;
    r.can_confirm = Some(false);
    r.waitlist_confirmation_deadline = None;
    r
}

/// Why a booking cannot be cancelled, if it cannot: it is unknown, or it is
/// cancelled already.
pub open spec fn cancel_refusal(s: StoreView, booking_id: i32) -> Option<Error> {
    if !has_booking(s.bookings, booking_id) {
        Some(Error::BookingNotFound)
    } else if booking_of(s.bookings, booking_id).status == BookingStatus::CANCELED {
        Some(Error::AlreadyCanceled)
    } else {
        None
    }
}

/// The state after the booking was struck at `now`: the booking is
/// cancelled, and if it was confirmed its conference has one more free seat.
pub open spec fn cancel_step(s: StoreView, booking_id: i32, now: i64) -> StoreView {
    let b = booking_of(s.bookings, booking_id);
    with_booking_at(
        with_free_seats(
            s,
            b.conference_id,
            (conference_of(s.conferences, b.conference_id).available_slots + one_if_in(
                b,
                b.conference_id,
                BookingStatus::CONFIRMED,
            )) as i32,
        ),
        booking_index(s.bookings, booking_id),
        canceled(b, now),
    )
}

/// A cancelled booking gives a seat back: it was confirmed, or it was
/// pending confirmation and held a seat in reserve.
pub open spec fn releases_seat(b: BookingView) -> bool {
    b.status == BookingStatus::CONFIRMED || b.status == BookingStatus::ConfirmationPending
}

/// Cancelling the booking ends in an offer: the booking gives a seat back,
/// and after it was struck a seat of its conference can be offered.
pub open spec fn cancel_offers(s: StoreView, booking_id: i32, now: i64) -> bool {
    let b = booking_of(s.bookings, booking_id);
    releases_seat(b) && can_promote(cancel_step(s, booking_id, now), b.conference_id)
}

/// The state after the booking was cancelled at `now`: the booking is
/// struck, and if that gave a seat back, the seat is offered to the head of
/// the conference's waitlist for a window of `window_ms` milliseconds.
pub open spec fn cancel_result(
    s: StoreView,
    booking_id: i32,
    now: i64,
    window_ms: u32,
) -> StoreView {
    let struck = cancel_step(s, booking_id, now);
    if cancel_offers(s, booking_id, now) {
        promote_result(
            struck,
            booking_of(s.bookings, booking_id).conference_id,
            now,
            window_ms,
        )
    } else {
        struck
    }
}

/// What cancelling at `now` does: a booking that can be cancelled is, and is
/// handed back as it is stored, together with the booking to which the seat
/// was offered, if one was; else nothing changes and the reason is given.
pub open spec fn cancel_post(
    before: StoreView,
    booking_id: i32,
    now: i64,
    window_ms: u32,
    after: StoreView,
    r: Result<(Booking, Option<Booking>), Error>,
) -> bool {
    match r {
        Ok((b, offered)) => {
            let old_row = booking_of(before.bookings, booking_id);
            let struck = cancel_step(before, booking_id, now);
            &&& cancel_refusal(before, booking_id) is None
            &&& after == cancel_result(before, booking_id, now, window_ms)
            &&& b@ == canceled(old_row, now)
            &&& (offered is Some) == cancel_offers(before, booking_id, now)
            &&& offered matches Some(p) ==> p@ == after.bookings[waitlist_head(
                struck.bookings,
                old_row.conference_id,
            )]
        },
        Err(e) => cancel_refusal(before, booking_id) == Some(e) && after == before,
    }
}

/// Strikes a booking at the time `now`, without offering the seat on, and
/// says whether that gave a seat back.
pub(crate) fn strike_booking(store: &mut Store, booking_id: i32, now: i64) -> (r: Result<
    (Booking, bool),
    Error,
>)
    requires
        old(store).wf(),
    ensures
        final(store).wf(),
        fair(old(store)@) ==> fair(final(store)@),
        seats_reserved(old(store)@) ==> seats_reserved(final(store)@),
        match r {
            Ok((b, released)) => {
                let old_row = booking_of(old(store)@.bookings, booking_id);
                &&& cancel_refusal(old(store)@, booking_id) is None
                &&& final(store)@ == cancel_step(old(store)@, booking_id, now)
                &&& b@ == canceled(old_row, now)
                &&& released == releases_seat(old_row)
                &&& seats_reserved(old(store)@) && releases_seat(old_row) ==> open_seats(
                    final(store)@,
                    old_row.conference_id,
                ) > 0
            },
            Err(e) => cancel_refusal(old(store)@, booking_id) == Some(e) && final(store)@ == old(
                store,
            )@,
        },
{
    let i = match find_booking(store, booking_id) {
        Some(i) => i,
        None => {
            return Err(Error::BookingNotFound);
        },
    };
    let booking = store.booking_at(i).clone();
    if booking.status == BookingStatus::CANCELED {
        return Err(Error::AlreadyCanceled);
    }
    let updated = canceled_copy(&booking, now);
    proof {
        assert(has_conference(store@.conferences, store@.bookings[i as int].conference_id));
    }
    let ghost before = store@;
    let ghost c = booking.conference_id;
    if booking.status == BookingStatus::CONFIRMED {
        let k = row_of_conference(store, booking.conference_id);
        let seats = store.conference_at(k).available_slots;
        proof {
            lemma_count_zero(before.bookings, c, BookingStatus::CONFIRMED);
            assert(is_in(before.bookings[i as int], c, BookingStatus::CONFIRMED));
            assert(before.conferences[k as int].available_slots + count_in(
                before.bookings,
                c,
                BookingStatus::CONFIRMED,
            ) == before.conferences[k as int].total_slots);
        }
        set_free_seats(store, k, seats + 1);
        proof {
            lemma_replace_booking_valid(before, i as int, updated@, (seats + 1) as i32);
        }
    } else {
        proof {
            lemma_free_seats_same(before, c);
            lemma_update_booking_valid(before, i as int, updated@);
        }
    }
    store.put_booking(i, updated.clone());
    proof {
        law_strike_keeps_fair(before, booking_id, now);
    }
    let released = booking.status == BookingStatus::CONFIRMED || booking.status
        == BookingStatus::ConfirmationPending;
    Ok((updated, released))
}

/// Cancels a booking at the time `now`. If that gives a seat back, the seat
/// is offered to the head of the conference's waitlist for a window of
/// `window_ms` milliseconds.
pub fn cancel_booking_at(
    store: &mut Store,
    booking_id: i32,
    now: i64,
    window_ms: u32,
) -> (r: Result<(Booking, Option<Booking>), Error>)
    requires
        old(store).wf(),
    ensures
        final(store).wf(),
        cancel_post(old(store)@, booking_id, now, window_ms, final(store)@, r),
        fair(old(store)@) ==> fair(final(store)@),
        seats_reserved(old(store)@) ==> seats_reserved(final(store)@),
{
    let (cancelled, released) = match strike_booking(store, booking_id, now) {
        Ok(struck) => struck,
        Err(e) => {
            return Err(e);
        },
    };
    let offered = if released {
        promote_waitlist_head_at(store, cancelled.conference_id, now, window_ms)
    } else {
        None
    };
    Ok((cancelled, offered))
}

// ---------------------------------------------------------------------------
// Clearing a user's overlapping waitlist entries
// ---------------------------------------------------------------------------

/// The booking is a waitlist entry of the user, on another conference than
/// `except`, whose time meets `[start, end)`.
pub open spec fn is_cascaded(
    conferences: Seq<ConferenceView>,
    b: BookingView,
    user_id: Seq<char>,
    start: i64,
    end: i64,
    except: i32,
) -> bool {
    &&& b.status == BookingStatus::WAITLISTED
    &&& b.user_id == user_id
    &&& b.conference_id != except
    &&& booking_meets(conferences, b, start, end)
}

/// The bookings after those of the rows before `upto` were cancelled at
/// `now` that are such entries.
pub open spec fn cascade_bookings(
    conferences: Seq<ConferenceView>,
    bookings: Seq<BookingView>,
    user_id: Seq<char>,
    start: i64,
    end: i64,
    except: i32,
    now: i64,
    upto: int,
) -> Seq<BookingView> {
    Seq::new(
        bookings.len(),
        |i: int|
            if i < upto && is_cascaded(conferences, bookings[i], user_id, start, end, except) {
                canceled(bookings[i], now)
            } else {
                bookings[i]
            },
    )
}

/// The state after every waitlist entry of the user on another conference
/// than `except` whose time meets `[start, end)` was cancelled at `now`.
pub open spec fn cascade_result(
    s: StoreView,
    user_id: Seq<char>,
    start: i64,
    end: i64,
    except: i32,
    now: i64,
) -> StoreView {
    StoreView {
        bookings: cascade_bookings(
            s.conferences,
            s.bookings,
            user_id,
            start,
            end,
            except,
            now,
            s.bookings.len() as int,
        ),
        ..s
    }
}

/// Cancels, at the time `now`, the user's waitlist entries on conferences
/// that overlap `[confirmed_conference_start, confirmed_conference_end)`,
/// but for the conference `exclude_conference_id`.
pub fn remove_from_overlapping_waitlists_at(
    store: &mut Store,
    user_id: &str,
    confirmed_conference_start: i64,
    confirmed_conference_end: i64,
    exclude_conference_id: i32,
    now: i64,
)
    requires
        old(store).wf(),
    ensures
        final(store).wf(),
        final(store)@ == cascade_result(
            old(store)@,
            user_id@,
            confirmed_conference_start,
            confirmed_conference_end,
            exclude_conference_id,
            now,
        ),
        fair(old(store)@) ==> fair(final(store)@),
        seats_reserved(old(store)@) ==> seats_reserved(final(store)@),
{
    let ghost before = store@;
    let uid = user_id.to_owned();
    let n = store.booking_count();
    let mut i: usize = 0;
    proof {
        assert(cascade_bookings(
            before.conferences,
            before.bookings,
            user_id@,
            confirmed_conference_start,
            confirmed_conference_end,
            exclude_conference_id,
            now,
            0,
        ) =~= before.bookings);
    }
    while i < n
        invariant
            valid(before),
            store.wf(),
            n == before.bookings.len(),
            i <= n,
            uid@ == user_id@,
            store@ == (StoreView {
                bookings: cascade_bookings(
                    before.conferences,
                    before.bookings,
                    user_id@,
                    confirmed_conference_start,
                    confirmed_conference_end,
                    exclude_conference_id,
                    now,
                    i as int,
                ),
                ..before
            }),
        decreases n - i,
    {
        let b = store.booking_at(i);
        let ghost prev = store@;
        let hit = b.status == BookingStatus::WAITLISTED && b.user_id == uid && b.conference_id
            != exclude_conference_id && row_meets(
            store,
            i,
            confirmed_conference_start,
            confirmed_conference_end,
        );
        if hit {
            let updated = canceled_copy(b, now);
            store.put_booking(i, updated);
        }
        proof {
            assert(store@.bookings =~= cascade_bookings(
                before.conferences,
                before.bookings,
                user_id@,
                confirmed_conference_start,
                confirmed_conference_end,
                exclude_conference_id,
                now,
                i + 1,
            ));
            assert(only_cancels(before, store@, now));
            lemma_only_cancels_valid(before, store@, now);
        }
        i += 1;
    }
    proof {
        law_cascade_keeps_fair(
                before,
                user_id@,
                confirmed_conference_start,
                confirmed_conference_end,
                exclude_conference_id,
                now,
            );
    }
}

// ---------------------------------------------------------------------------
// Confirming
// ---------------------------------------------------------------------------

/// Why the user cannot confirm the booking at `now`, if they cannot: the
/// booking is unknown, it is not theirs, it is not pending confirmation, its
/// deadline has passed, or its conference has started. The first that applies
/// is the reason.
pub open spec fn confirm_refusal(
    s: StoreView,
    booking_id: i32,
    user_id: Seq<char>,
    now: i64,
) -> Option<Error> {
    if !has_booking(s.bookings, booking_id) {
        Some(Error::BookingNotFound)
    } else {
        let b = booking_of(s.bookings, booking_id);
        if b.user_id != user_id {
            Some(Error::NotOwner)
        } else if b.status != BookingStatus::ConfirmationPending || b.can_confirm != Some(true) {
            Some(Error::NotPending)
        } else if b.waitlist_confirmation_deadline is Some && now
            > b.waitlist_confirmation_deadline->0 {
            Some(Error::DeadlineExpired)
        } else if now >= conference_of(s.conferences, b.conference_id).start_timestamp {
            Some(Error::ConferenceStarted)
        } else {
            None
        }
    }
}

/// The state after the booking was confirmed at `now`: its conference has
/// one free seat less, the booking is confirmed, and the waitlist entries of
/// its user on other conferences that overlap with this one are cancelled.
pub open spec fn confirm_result(s: StoreView, booking_id: i32, now: i64) -> StoreView {
    let b = booking_of(s.bookings, booking_id);
    let c = conference_of(s.conferences, b.conference_id);
    cascade_result(
        with_booking_at(
            with_free_seats(s, b.conference_id, (c.available_slots - 1) as i32),
            booking_index(s.bookings, booking_id),
            confirmed(b),
        ),
        b.user_id,
        c.start_timestamp,
        c.end_timestamp,
        b.conference_id,
        now,
    )
}

/// What confirming at `now` does: a booking that its user can confirm is
/// confirmed, and is handed back as it is stored; else nothing changes and
/// the reason is given.
pub open spec fn confirm_post(
    before: StoreView,
    booking_id: i32,
    user_id: Seq<char>,
    now: i64,
    after: StoreView,
    r: Result<Booking, Error>,
) -> bool {
    match r {
        Ok(b) => confirm_refusal(before, booking_id, user_id, now) is None && after
            == confirm_result(before, booking_id, now) && b@ == confirmed(
            booking_of(before.bookings, booking_id),
        ),
        Err(e) => confirm_refusal(before, booking_id, user_id, now) == Some(e) && after == before,
    }
}

/// A copy of the booking, confirmed.
pub(crate) fn confirmed_copy(b: &Booking) -> (r: Booking)
    ensures
        r@ == confirmed(b@),
{
    let mut r = b.clone();
    r.status = BookingStatus::CONFIRMED;
    r.waitlist_position = None;
    r.can_confirm = Some(false);
    r.waitlist_confirmation_deadline = None;
    r
}

/// Confirms, at the time `now`, a booking that is pending confirmation, on
/// behalf of `user_id`.
pub fn confirm_waitlist_booking_secure_at(
    store: &mut Store,
    booking_id: i32,
    user_id: &str,
    now: i64,
) -> (r: Result<Booking, Error>)
    requires
        old(store).wf(),
    ensures
        final(store).wf(),
        confirm_post(old(store)@, booking_id, user_id@, now, final(store)@, r),
        fair(old(store)@) ==> fair(final(store)@),
        seats_reserved(old(store)@) ==> seats_reserved(final(store)@),
{
    let i = match find_booking(store, booking_id) {
        Some(i) => i,
        None => {
            return Err(Error::BookingNotFound);
        },
    };
    let booking = store.booking_at(i).clone();
    let uid = user_id.to_owned();
    if !(booking.user_id == uid) {
        return Err(Error::NotOwner);
    }
    if booking.status != BookingStatus::ConfirmationPending {
        return Err(Error::NotPending);
    }
    match booking.can_confirm {
        Some(true) => {},
        _ => {
            return Err(Error::NotPending);
        },
    }
    match booking.waitlist_confirmation_deadline {
        Some(deadline) => {
            if now > deadline {
                return Err(Error::DeadlineExpired);
            }
        },
        None => {},
    }
    proof {
        assert(has_conference(store@.conferences, store@.bookings[i as int].conference_id));
    }
    let k = row_of_conference(store, booking.conference_id);
    let conference = store.conference_at(k).clone();
    if now >= conference.start_timestamp {
        return Err(Error::ConferenceStarted);
    }
    let ghost before = store@;
    let updated = confirmed_copy(&booking);
    proof {
        let c = booking.conference_id;
        lemma_count_bound(before.bookings, c, BookingStatus::CONFIRMED);
        lemma_booking_id_at_least(before, before.bookings.len() - 1);
        assert(before.conferences[k as int].available_slots + count_in(
            before.bookings,
            c,
            BookingStatus::CONFIRMED,
        ) == before.conferences[k as int].total_slots);
        assert(conference_consistent(before.conferences[k as int]));
    }
    set_free_seats(store, k, conference.available_slots - 1);
    store.put_booking(i, updated.clone());
    proof {
        lemma_replace_booking_valid(
            before,
            i as int,
            updated@,
            (conference.available_slots - 1) as i32,
        );
    }
    remove_from_overlapping_waitlists_at(
        store,
        user_id,
        conference.start_timestamp,
        conference.end_timestamp,
        conference.conference_id,
        now,
    );
    proof {
        law_confirm_keeps_fair(before, booking_id, user_id@, now);
    }
    Ok(updated)
}

// ---------------------------------------------------------------------------
// Creating bookings
// ---------------------------------------------------------------------------

/// The id for the next booking, unless the ids are used up.
pub(crate) fn fresh_booking_id(store: &Store) -> (r: Option<i32>)
    requires
        store.wf(),
    ensures
        match r {
            Some(id) => id == next_booking_id(store@.bookings),
            None => next_booking_id(store@.bookings) > i32::MAX,
        },
        store@.bookings.len() < next_booking_id(store@.bookings),
{
    let n = store.booking_count();
    if n == 0 {
        Some(1)
    } else {
        proof {
            lemma_booking_id_at_least(store@, n - 1);
        }
        let last = store.booking_at(n - 1).booking_id;
        if last == i32::MAX {
            None
        } else {
            Some(last + 1)
        }
    }
}

/// Why a confirmed booking cannot be stored, if it cannot: the conference is
/// unknown, or the booking ids are used up.
pub open spec fn create_confirmed_refusal(s: StoreView, conference_id: i32) -> Option<Error> {
    if !has_conference(s.conferences, conference_id) {
        Some(Error::ConferenceNotFound)
    } else if next_booking_id(s.bookings) > i32::MAX {
        Some(Error::StorageExhausted)
    } else {
        None
    }
}

/// The state after a confirmed booking of the user was stored at `now`: the
/// conference has one free seat less, and the booking is the last row.
pub open spec fn create_confirmed_result(
    s: StoreView,
    conference_id: i32,
    user_id: Seq<char>,
    now: i64,
) -> StoreView {
    with_booking(
        with_free_seats(
            s,
            conference_id,
            (conference_of(s.conferences, conference_id).available_slots - 1) as i32,
        ),
        confirmed_row(next_booking_id(s.bookings) as i32, conference_id, user_id, now),
    )
}

/// What storing a confirmed booking does.
pub open spec fn create_confirmed_post(
    before: StoreView,
    conference_id: i32,
    user_id: Seq<char>,
    now: i64,
    after: StoreView,
    r: Result<Booking, Error>,
) -> bool {
    match r {
        Ok(b) => create_confirmed_refusal(before, conference_id) is None && after
            == create_confirmed_result(before, conference_id, user_id, now) && b@
            == after.bookings.last(),
        Err(e) => create_confirmed_refusal(before, conference_id) == Some(e) && after == before,
    }
}

/// Stores, at the time `now`, a confirmed booking of the user and takes a
/// seat of the conference for it. The booking rules are not applied: whether
/// the user may book, and whether a seat is free, is for the caller to know.
pub fn create_confirmed_booking_at(store: &mut Store, conf_id: i32, uid: &str, now: i64) -> (r:
    Result<Booking, Error>)
    requires
        old(store).wf(),
    ensures
        final(store).wf(),
        create_confirmed_post(old(store)@, conf_id, uid@, now, final(store)@, r),
{
    let k = match find_conference(store, conf_id) {
        Some(k) => k,
        None => {
            return Err(Error::ConferenceNotFound);
        },
    };
    let id = match fresh_booking_id(store) {
        Some(id) => id,
        None => {
            return Err(Error::StorageExhausted);
        },
    };
    let ghost before = store@;
    let seats = store.conference_at(k).available_slots;
    proof {
        lemma_count_bound(before.bookings, conf_id, BookingStatus::CONFIRMED);
        assert(before.conferences[k as int].available_slots + count_in(
            before.bookings,
            conf_id,
            BookingStatus::CONFIRMED,
        ) == before.conferences[k as int].total_slots);
        assert(conference_consistent(before.conferences[k as int]));
    }
    let booking = Booking {
        booking_id: id,
        conference_id: conf_id,
        user_id: uid.to_owned(),
        status: BookingStatus::CONFIRMED,
        created_at: Some(now),
        waitlist_confirmation_deadline: None,
        canceled_at: None,
        can_confirm: Some(false),
        waitlist_position: None,
    };
    set_free_seats(store, k, seats - 1);
    store.push_booking(booking.clone());
    proof {
        lemma_push_booking_valid(before, booking@, (seats - 1) as i32);
    }
    Ok(booking)
}

/// Why a booking cannot join the waitlist, if it cannot: the conference is
/// unknown, or the booking ids or the positions are used up.
pub open spec fn create_waitlist_refusal(s: StoreView, conference_id: i32) -> Option<Error> {
    if !has_conference(s.conferences, conference_id) {
        Some(Error::ConferenceNotFound)
    } else if next_booking_id(s.bookings) > i32::MAX || next_position(s.bookings, conference_id)
        > i32::MAX {
        Some(Error::StorageExhausted)
    } else {
        None
    }
}

/// The state after a booking of the user joined the conference's waitlist at
/// `now`: the booking is the last row and stands behind every position held.
pub open spec fn create_waitlist_result(
    s: StoreView,
    conference_id: i32,
    user_id: Seq<char>,
    now: i64,
) -> StoreView {
    with_booking(
        s,
        waitlisted_row(
            next_booking_id(s.bookings) as i32,
            conference_id,
            user_id,
            now,
            next_position(s.bookings, conference_id) as i32,
        ),
    )
}

/// What putting a booking on the waitlist does.
pub open spec fn create_waitlist_post(
    before: StoreView,
    conference_id: i32,
    user_id: Seq<char>,
    now: i64,
    after: StoreView,
    r: Result<Booking, Error>,
) -> bool {
    match r {
        Ok(b) => create_waitlist_refusal(before, conference_id) is None && after
            == create_waitlist_result(before, conference_id, user_id, now) && b@
            == after.bookings.last(),
        Err(e) => create_waitlist_refusal(before, conference_id) == Some(e) && after == before,
    }
}

/// Stores, at the time `now`, a booking of the user at the end of the
/// conference's waitlist. The booking rules are not applied.
pub fn create_waitlist_booking_at(store: &mut Store, conf_id: i32, uid: &str, now: i64) -> (r:
    Result<Booking, Error>)
    requires
        old(store).wf(),
    ensures
        final(store).wf(),
        create_waitlist_post(old(store)@, conf_id, uid@, now, final(store)@, r),
{
    if find_conference(store, conf_id).is_none() {
        return Err(Error::ConferenceNotFound);
    }
    let id = match fresh_booking_id(store) {
        Some(id) => id,
        None => {
            return Err(Error::StorageExhausted);
        },
    };
    let position = match next_waitlist_position(store, conf_id) {
        Ok(p) => p,
        Err(e) => {
            return Err(e);
        },
    };
    let ghost before = store@;
    let booking = Booking {
        booking_id: id,
        conference_id: conf_id,
        user_id: uid.to_owned(),
        status: BookingStatus::WAITLISTED,
        created_at: Some(now),
        waitlist_confirmation_deadline: None,
        canceled_at: None,
        can_confirm: Some(false),
        waitlist_position: Some(position),
    };
    store.push_booking(booking.clone());
    proof {
        lemma_max_position(before.bookings, conf_id);
        lemma_free_seats_same(before, conf_id);
        lemma_push_booking_valid(
            before,
            booking@,
            conference_of(before.conferences, conf_id).available_slots,
        );
    }
    Ok(booking)
}

/// A new booking is confirmed at once where the conference has a free seat
/// and nobody is pending confirmation or waiting.
pub open spec fn admits_directly(s: StoreView, conference_id: i32) -> bool {
    &&& conference_of(s.conferences, conference_id).available_slots > 0
    &&& count_in(s.bookings, conference_id, BookingStatus::ConfirmationPending) == 0
    &&& count_in(s.bookings, conference_id, BookingStatus::WAITLISTED) == 0
}

/// Why the user cannot book the conference, if they cannot: the conference is
/// unknown, they hold an active booking on it, they hold an active booking
/// on a conference that overlaps with it, or the store is full.
pub open spec fn booking_refusal(s: StoreView, conference_id: i32, user_id: Seq<char>) -> Option<
    Error,
> {
    if !has_conference(s.conferences, conference_id) {
        Some(Error::ConferenceNotFound)
    } else if has_active_booking(s, user_id, conference_id) {
        Some(Error::DuplicateBooking)
    } else if has_overlapping_booking(
        s,
        user_id,
        conference_of(s.conferences, conference_id).start_timestamp,
        conference_of(s.conferences, conference_id).end_timestamp,
    ) {
        Some(Error::OverlappingBooking)
    } else if admits_directly(s, conference_id) {
        create_confirmed_refusal(s, conference_id)
    } else {
        create_waitlist_refusal(s, conference_id)
    }
}

/// The state after the user booked the conference at `now`: confirmed at
/// once, with the user's overlapping waitlist entries elsewhere cancelled, or
/// at the end of the waitlist.
pub open spec fn booking_result(
    s: StoreView,
    conference_id: i32,
    user_id: Seq<char>,
    now: i64,
) -> StoreView {
    if admits_directly(s, conference_id) {
        cascade_result(
            create_confirmed_result(s, conference_id, user_id, now),
            user_id,
            conference_of(s.conferences, conference_id).start_timestamp,
            conference_of(s.conferences, conference_id).end_timestamp,
            conference_id,
            now,
        )
    } else {
        create_waitlist_result(s, conference_id, user_id, now)
    }
}

/// What booking at `now` does: where nothing stands against it the booking
/// is stored as the last row and handed back; else nothing changes and the
/// reason is given.
pub open spec fn booking_post(
    before: StoreView,
    conference_id: i32,
    user_id: Seq<char>,
    now: i64,
    after: StoreView,
    r: Result<Booking, Error>,
) -> bool {
    match r {
        Ok(b) => booking_refusal(before, conference_id, user_id) is None && after
            == booking_result(before, conference_id, user_id, now) && b@ == after.bookings.last(),
        Err(e) => booking_refusal(before, conference_id, user_id) == Some(e) && after == before,
    }
}

/// Books the conference for the user at the time `now`, as one step: the
/// booking is confirmed at once or joins the waitlist, by the rule of
/// `admits_directly`.
pub fn create_booking_atomic_at(
    store: &mut Store,
    conference_id: i32,
    user_id: &str,
    now: i64,
) -> (r: Result<Booking, Error>)
    requires
        old(store).wf(),
    ensures
        final(store).wf(),
        booking_post(old(store)@, conference_id, user_id@, now, final(store)@, r),
        fair(old(store)@) ==> fair(final(store)@),
        seats_reserved(old(store)@) ==> seats_reserved(final(store)@),
{
    let k = match find_conference(store, conference_id) {
        Some(k) => k,
        None => {
            return Err(Error::ConferenceNotFound);
        },
    };
    let conference = store.conference_at(k).clone();
    if check_existing_active_booking(store, user_id, conference_id).is_some() {
        return Err(Error::DuplicateBooking);
    }
    if check_user_has_overlapping_booking(
        store,
        user_id,
        conference.start_timestamp,
        conference.end_timestamp,
    ).is_some() {
        return Err(Error::OverlappingBooking);
    }
    let pending = count_bookings(store, conference_id, BookingStatus::ConfirmationPending);
    let waiting = count_bookings(store, conference_id, BookingStatus::WAITLISTED);
    proof {
        if booking_refusal(store@, conference_id, user_id@) is None {
            law_booking_keeps_fair(store@, conference_id, user_id@, now);
        }
    }
    if conference.available_slots > 0 && pending == 0 && waiting == 0 {
        match create_confirmed_booking_at(store, conference_id, user_id, now) {
            Ok(booking) => {
                remove_from_overlapping_waitlists_at(
                    store,
                    user_id,
                    conference.start_timestamp,
                    conference.end_timestamp,
                    conference_id,
                    now,
                );
                Ok(booking)
            },
            Err(e) => Err(e),
        }
    } else {
        create_waitlist_booking_at(store, conference_id, user_id, now)
    }
}

// ---------------------------------------------------------------------------
// Serving the waitlist
// ---------------------------------------------------------------------------

/// The conference's waitlist has a head.
pub open spec fn has_waitlist_head(bookings: Seq<BookingView>, conference_id: i32) -> bool {
    exists|i: int| is_waitlist_head(bookings, conference_id, i)
}

/// The row at the head of the conference's waitlist; meaningful where it has
/// one.
pub open spec fn waitlist_head(bookings: Seq<BookingView>, conference_id: i32) -> int {
    choose|i: int| is_waitlist_head(bookings, conference_id, i)
}

/// A seat of the conference can be offered: the conference is stored, it has
/// a free seat, and somebody is waiting.
pub open spec fn can_promote(s: StoreView, conference_id: i32) -> bool {
    &&& has_conference(s.conferences, conference_id)
    &&& conference_of(s.conferences, conference_id).available_slots > 0
    &&& has_waitlist_head(s.bookings, conference_id)
}

/// The state after the head of the conference's waitlist was offered a seat
/// at `now`.
pub open spec fn promote_result(
    s: StoreView,
    conference_id: i32,
    now: i64,
    window_ms: u32,
) -> StoreView {
    with_booking_at(
        s,
        waitlist_head(s.bookings, conference_id),
        promoted(s.bookings[waitlist_head(s.bookings, conference_id)], deadline_after(now,
            window_ms)),
    )
}

/// What serving the waitlist at `now` does: where a seat can be offered the
/// head of the waitlist is pending confirmation and handed back; else
/// nothing changes.
pub open spec fn promote_post(
    before: StoreView,
    conference_id: i32,
    now: i64,
    window_ms: u32,
    after: StoreView,
    r: Option<Booking>,
) -> bool {
    match r {
        Some(b) => can_promote(before, conference_id) && after == promote_result(
            before,
            conference_id,
            now,
            window_ms,
        ) && b@ == after.bookings[waitlist_head(before.bookings, conference_id)],
        None => !can_promote(before, conference_id) && after == before,
    }
}

/// When a confirmation window of `window_ms` milliseconds that opens at
/// `now` closes.
pub fn confirmation_deadline(now: i64, window_ms: u32) -> (r: i64)
    ensures
        r == deadline_after(now, window_ms),
{
    let span: i64 = window_ms as i64 * 1000;
    if now > i64::MAX - span {
        i64::MAX
    } else {
        now + span
    }
}

/// Offers a free seat of the conference, at the time `now`, to the head of
/// its waitlist: the booking becomes pending confirmation for a window of
/// `window_ms` milliseconds. Nothing happens where the conference has no
/// free seat or nobody waits. Every pending confirmation keeps its seat if
/// the offer follows a release: if a seat was open before.
pub fn promote_waitlist_head_at(
    store: &mut Store,
    conference_id: i32,
    now: i64,
    window_ms: u32,
) -> (r: Option<Booking>)
    requires
        old(store).wf(),
    ensures
        final(store).wf(),
        promote_post(old(store)@, conference_id, now, window_ms, final(store)@, r),
        fair(old(store)@) ==> fair(final(store)@),
        seats_reserved(old(store)@) && open_seats(old(store)@, conference_id) > 0
            ==> seats_reserved(final(store)@),
{
    let k = match find_conference(store, conference_id) {
        Some(k) => k,
        None => {
            return None;
        },
    };
    if store.conference_at(k).available_slots <= 0 {
        return None;
    }
    let i = match find_waitlist_head(store, conference_id) {
        Some(i) => i,
        None => {
            proof {
                assert forall|j: int| !is_waitlist_head(store@.bookings, conference_id, j) by {
                    if is_waitlist_head(store@.bookings, conference_id, j) {
                        assert(is_in(
                            store@.bookings[j],
                            conference_id,
                            BookingStatus::WAITLISTED,
                        ));
                    }
                }
            }
            return None;
        },
    };
    let ghost before = store@;
    proof {
        lemma_waitlist_head_unique(
            before.bookings,
            conference_id,
            i as int,
            waitlist_head(before.bookings, conference_id),
        );
    }
    let mut updated = store.booking_at(i).clone();
    updated.status = BookingStatus::ConfirmationPending;
    updated.waitlist_position = None;
    updated.can_confirm = Some(true);
    updated.waitlist_confirmation_deadline = Some(confirmation_deadline(now, window_ms));
    store.put_booking(i, updated.clone());
    proof {
        lemma_update_booking_valid(before, i as int, updated@);
        law_promote_keeps_fair(before, conference_id, now, window_ms);
    }
    Some(updated)
}

/// The booking can go back to the waitlist of the conference: it is stored,
/// it is pending confirmation, and it is on that conference.
pub open spec fn is_expirable(s: StoreView, booking_id: i32, conference_id: i32) -> bool {
    &&& has_booking(s.bookings, booking_id)
    &&& booking_of(s.bookings, booking_id).status == BookingStatus::ConfirmationPending
    &&& booking_of(s.bookings, booking_id).conference_id == conference_id
}

/// The state after the booking went back to the end of its conference's
/// waitlist.
pub open spec fn requeue_result(s: StoreView, booking_id: i32) -> StoreView {
    let b = booking_of(s.bookings, booking_id);
    with_booking_at(
        s,
        booking_index(s.bookings, booking_id),
        requeued(b, next_position(s.bookings, b.conference_id) as i32),
    )
}

/// What the end of a confirmation window does to the booking: if it is still
/// pending confirmation on the named conference it goes to the end of the
/// waitlist, and the answer is `true`; else nothing changes and the answer
/// is `false`. An unknown conference, or positions that are used up, is an
/// error, and nothing changes.
pub open spec fn requeue_post(
    before: StoreView,
    booking_id: i32,
    conference_name: Seq<char>,
    after: StoreView,
    r: Result<bool, Error>,
) -> bool {
    let conference_id = conference_named(before.conferences, conference_name).conference_id;
    let due = has_conference_named(before.conferences, conference_name) && is_expirable(
        before,
        booking_id,
        conference_id,
    );
    let full = next_position(before.bookings, conference_id) > i32::MAX;
    match r {
        Ok(moved) => moved == due && has_conference_named(before.conferences, conference_name)
            && !(due && full) && after == if due {
            requeue_result(before, booking_id)
        } else {
            before
        },
        Err(e) => after == before && if !has_conference_named(
            before.conferences,
            conference_name,
        ) {
            e == Error::ConferenceNotFound
        } else {
            due && full && e == Error::StorageExhausted
        },
    }
}

/// Moves a booking whose confirmation window has closed to the end of the
/// waitlist of the conference called `conference_name`, if the booking is
/// still pending confirmation there. The seat that it held is open then.
pub fn move_booking_to_waitlist_end(
    store: &mut Store,
    booking_id: i32,
    conference_name: &str,
) -> (r: Result<bool, Error>)
    requires
        old(store).wf(),
    ensures
        final(store).wf(),
        requeue_post(old(store)@, booking_id, conference_name@, final(store)@, r),
        fair(old(store)@) ==> fair(final(store)@),
        seats_reserved(old(store)@) ==> seats_reserved(final(store)@),
        seats_reserved(old(store)@) && r == Ok::<bool, Error>(true) ==> open_seats(
            final(store)@,
            conference_named(old(store)@.conferences, conference_name@).conference_id,
        ) > 0,
{
    let conference = match get_conference_by_name(store, conference_name) {
        Ok(c) => c,
        Err(e) => {
            return Err(e);
        },
    };
    let i = match find_booking(store, booking_id) {
        Some(i) => i,
        None => {
            return Ok(false);
        },
    };
    let booking = store.booking_at(i).clone();
    if booking.status != BookingStatus::ConfirmationPending || booking.conference_id
        != conference.conference_id {
        return Ok(false);
    }
    let position = match next_waitlist_position(store, conference.conference_id) {
        Ok(p) => p,
        Err(e) => {
            return Err(e);
        },
    };
    let ghost before = store@;
    let mut updated = booking;
    updated.status = BookingStatus::WAITLISTED;
    updated.waitlist_position = Some(position);
    updated.can_confirm = Some(false);
    updated.waitlist_confirmation_deadline = None;
    store.put_booking(i, updated);
    proof {
        lemma_max_position(before.bookings, conference.conference_id);
        lemma_update_booking_valid(before, i as int, store@.bookings[i as int]);
        law_requeue_keeps_fair(before, booking_id);
    }
    Ok(true)
}

/// The end of the booking's confirmation window takes effect: the named
/// conference is stored, the booking is still pending confirmation on it,
/// and a position is left at the end of its waitlist.
pub open spec fn expiry_due(s: StoreView, booking_id: i32, conference_name: Seq<char>) -> bool {
    &&& has_conference_named(s.conferences, conference_name)
    &&& is_expirable(
        s,
        booking_id,
        conference_named(s.conferences, conference_name).conference_id,
    )
    &&& next_position(
        s.bookings,
        conference_named(s.conferences, conference_name).conference_id,
    ) <= i32::MAX
}

/// The state after the end of the booking's confirmation window was
/// handled at `now`: where it takes effect the booking is at the end of the
/// waitlist and, if a seat can be offered, the head of the waitlist is
/// pending confirmation; else nothing has changed.
pub open spec fn expiry_result(
    s: StoreView,
    booking_id: i32,
    conference_name: Seq<char>,
    now: i64,
    window_ms: u32,
) -> StoreView {
    let conference_id = conference_named(s.conferences, conference_name).conference_id;
    if expiry_due(s, booking_id, conference_name) {
        let t = requeue_result(s, booking_id);
        if can_promote(t, conference_id) {
            promote_result(t, conference_id, now, window_ms)
        } else {
            t
        }
    } else {
        s
    }
}

/// What a request to set whether a booking can be confirmed, and by when,
/// comes to: nothing for an unknown booking; for a pending confirmation it
/// must say that the booking can be confirmed and give the deadline, which
/// is stored; for any other booking it must say that the booking cannot be
/// confirmed and give no deadline, which is what is stored already. Any
/// other request does not fit the status of the booking.
pub open spec fn can_confirm_update_post(
    before: StoreView,
    booking_id: i32,
    can_confirm_flag: bool,
    deadline: Option<i64>,
    after: StoreView,
    r: Result<(), Error>,
) -> bool {
    let b = booking_of(before.bookings, booking_id);
    let pending = has_booking(before.bookings, booking_id) && b.status
        == BookingStatus::ConfirmationPending;
    let fits = !has_booking(before.bookings, booking_id) || if pending {
        can_confirm_flag && deadline is Some
    } else {
        !can_confirm_flag && deadline is None
    };
    match r {
        Ok(_) => fits && after == if pending {
            with_booking_at(
                before,
                booking_index(before.bookings, booking_id),
                promoted(b, deadline->0),
            )
        } else {
            before
        },
        Err(e) => !fits && e == Error::StatusMismatch && after == before,
    }
}

/// Sets whether a booking can be confirmed, and by when, as far as the
/// status of the booking allows it.
pub fn update_booking_can_confirm(
    store: &mut Store,
    booking_id: i32,
    can_confirm_flag: bool,
    deadline: Option<i64>,
) -> (r: Result<(), Error>)
    requires
        old(store).wf(),
    ensures
        final(store).wf(),
        fair(old(store)@) ==> fair(final(store)@),
        seats_reserved(old(store)@) ==> seats_reserved(final(store)@),
        can_confirm_update_post(
            old(store)@,
            booking_id,
            can_confirm_flag,
            deadline,
            final(store)@,
            r,
        ),
{
    let i = match find_booking(store, booking_id) {
        Some(i) => i,
        None => {
            return Ok(());
        },
    };
    let booking = store.booking_at(i).clone();
    if booking.status == BookingStatus::ConfirmationPending {
        match deadline {
            Some(d) => {
                if !can_confirm_flag {
                    return Err(Error::StatusMismatch);
                }
                let ghost before = store@;
                let mut updated = booking;
                updated.waitlist_confirmation_deadline = Some(d);
                proof {
                    assert(updated@ == promoted(before.bookings[i as int], d));
                    lemma_update_booking_valid(before, i as int, updated@);
                    lemma_same_booking_keeps_fair(before, i as int, updated@);
                }
                store.put_booking(i, updated);
                Ok(())
            },
            None => Err(Error::StatusMismatch),
        }
    } else if can_confirm_flag || deadline.is_some() {
        Err(Error::StatusMismatch)
    } else {
        Ok(())
    }
}

// ---------------------------------------------------------------------------
// When a conference starts
// ---------------------------------------------------------------------------

/// The booking is waiting or pending confirmation on the conference.
pub open spec fn is_unconfirmed(b: BookingView, conference_id: i32) -> bool {
    is_in(b, conference_id, BookingStatus::WAITLISTED) || is_in(
        b,
        conference_id,
        BookingStatus::ConfirmationPending,
    )
}

/// The bookings after those of the rows before `upto` were cancelled at
/// `now` that are waiting or pending confirmation on the conference.
pub open spec fn purge_bookings(
    bookings: Seq<BookingView>,
    conference_id: i32,
    now: i64,
    upto: int,
) -> Seq<BookingView> {
    Seq::new(
        bookings.len(),
        |i: int|
            if i < upto && is_unconfirmed(bookings[i], conference_id) {
                canceled(bookings[i], now)
            } else {
                bookings[i]
            },
    )
}

/// The state after every booking that was waiting or pending confirmation on
/// the conference was cancelled at `now`.
pub open spec fn purge_result(s: StoreView, conference_id: i32, now: i64) -> StoreView {
    StoreView {
        bookings: purge_bookings(s.bookings, conference_id, now, s.bookings.len() as int),
        ..s
    }
}

/// Cancels, at the time `now`, every booking of the conference that is
/// waiting or pending confirmation, and says how many there were. Confirmed
/// bookings stay.
pub fn cancel_unconfirmed_bookings(store: &mut Store, conference_id: i32, now: i64) -> (r: usize)
    requires
        old(store).wf(),
    ensures
        final(store).wf(),
        final(store)@ == purge_result(old(store)@, conference_id, now),
        fair(old(store)@) ==> fair(final(store)@),
        seats_reserved(old(store)@) ==> seats_reserved(final(store)@),
        r == count_in(old(store)@.bookings, conference_id, BookingStatus::WAITLISTED) + count_in(
            old(store)@.bookings,
            conference_id,
            BookingStatus::ConfirmationPending,
        ),
{
    let ghost before = store@;
    let n = store.booking_count();
    let mut cancelled: usize = 0;
    let mut i: usize = 0;
    proof {
        assert(purge_bookings(before.bookings, conference_id, now, 0) =~= before.bookings);
    }
    while i < n
        invariant
            valid(before),
            store.wf(),
            n == before.bookings.len(),
            i <= n,
            cancelled <= i,
            cancelled == count_in(
                before.bookings.subrange(0, i as int),
                conference_id,
                BookingStatus::WAITLISTED,
            ) + count_in(
                before.bookings.subrange(0, i as int),
                conference_id,
                BookingStatus::ConfirmationPending,
            ),
            store@ == (StoreView {
                bookings: purge_bookings(before.bookings, conference_id, now, i as int),
                ..before
            }),
        decreases n - i,
    {
        let b = store.booking_at(i);
        proof {
            assert(before.bookings.subrange(0, i + 1).drop_last() =~= before.bookings.subrange(
                0,
                i as int,
            ));
        }
        if b.conference_id == conference_id && (b.status == BookingStatus::WAITLISTED || b.status
            == BookingStatus::ConfirmationPending) {
            let updated = canceled_copy(b, now);
            store.put_booking(i, updated);
            cancelled += 1;
        }
        proof {
            assert(store@.bookings =~= purge_bookings(before.bookings, conference_id, now, i + 1));
            assert(only_cancels(before, store@, now));
            lemma_only_cancels_valid(before, store@, now);
        }
        i += 1;
    }
    proof {
        assert(before.bookings.subrange(0, n as int) =~= before.bookings);
        law_purge_keeps_fair(before, conference_id, now);
    }
    cancelled
}

// ---------------------------------------------------------------------------
// Users and conferences
// ---------------------------------------------------------------------------

/// One row for each topic in which the user is interested.
pub open spec fn interest_rows(user_id: Seq<char>, topics: Seq<Seq<char>>) -> Seq<
    UserInterestView,
> {
    Seq::new(topics.len(), |i: int| UserInterestView { user_id, topic: topics[i] })
}

/// The state after the user was registered: the user is the last row, and
/// one row for each topic follows the interests stored before, in the order
/// given.
pub open spec fn insert_user_result(
    s: StoreView,
    user_id: Seq<char>,
    topics: Seq<Seq<char>>,
) -> StoreView {
    StoreView {
        users: s.users.push(UserView { user_id }),
        user_interests: s.user_interests + interest_rows(user_id, topics),
        ..s
    }
}

/// What registering a user does: a new id is stored with its topics; an id
/// that is taken is refused and nothing changes.
pub open spec fn insert_user_post(
    before: StoreView,
    user_id: Seq<char>,
    topics: Seq<Seq<char>>,
    after: StoreView,
    r: Result<User, Error>,
) -> bool {
    match r {
        Ok(u) => !has_user(before.users, user_id) && u@.user_id == user_id && after
            == insert_user_result(before, user_id, topics),
        Err(e) => e == Error::UserExists && has_user(before.users, user_id) && after == before,
    }
}

/// Registers a user with the topics that interest them.
pub fn insert_new_user(
    store: &mut Store,
    nm: &str,
    topics: &Vec<String>,
) -> (r: Result<User, Error>)
    requires
        old(store).wf(),
    ensures
        final(store).wf(),
        fair(old(store)@) ==> fair(final(store)@),
        seats_reserved(old(store)@) ==> seats_reserved(final(store)@),
        insert_user_post(old(store)@, nm@, texts_view(topics@), final(store)@, r),
{
    match get_user_by_id(store, nm) {
        Ok(_) => {
            return Err(Error::UserExists);
        },
        Err(_) => {},
    }
    let ghost before = store@;
    let user = User { user_id: nm.to_owned() };
    store.push_user(user.clone());
    proof {
        assert(user_ids_distinct(store@)) by {
            assert forall|x: int, y: int| 0 <= x < y < store@.users.len()
                implies #[trigger] store@.users[x].user_id
                != #[trigger] store@.users[y].user_id by {
                if y == before.users.len() {
                    assert(before.users[x].user_id != nm@);
                }
            }
        }
        assert(store@.user_interests =~= before.user_interests + interest_rows(
            nm@,
            texts_view(topics@).subrange(0, 0),
        ));
        lemma_same_rows_keep_fair(before, store@);
    }
    let mut i: usize = 0;
    while i < topics.len()
        invariant
            i <= topics.len(),
            store.wf(),
            fair(before) ==> fair(store@),
            seats_reserved(before) ==> seats_reserved(store@),
            store@ == (StoreView {
                users: before.users.push(UserView { user_id: nm@ }),
                user_interests: before.user_interests + interest_rows(
                    nm@,
                    texts_view(topics@).subrange(0, i as int),
                ),
                ..before
            }),
        decreases topics.len() - i,
    {
        store.push_user_interest(UserInterest { user_id: nm.to_owned(), topic: topics[i].clone() });
        proof {
            assert(store@.user_interests =~= before.user_interests + interest_rows(
                nm@,
                texts_view(topics@).subrange(0, i + 1),
            ));
            lemma_same_rows_keep_fair(before, store@);
        }
        i += 1;
    }
    proof {
        assert(texts_view(topics@).subrange(0, topics@.len() as int) =~= texts_view(topics@));
    }
    Ok(user)
}

/// The longest that a conference may last: twelve hours.
pub const MAX_CONFERENCE_MICROS: i64 = 43_200_000_000;

/// One row for each topic of the conference.
pub open spec fn topic_rows(conference_id: i32, topics: Seq<Seq<char>>) -> Seq<
    ConferenceTopicView,
> {
    Seq::new(topics.len(), |i: int| ConferenceTopicView { conference_id, topic: topics[i] })
}

/// Why a conference cannot be created, if it cannot, given what was read of
/// its start and end: a time that was not understood, a start that is not
/// before the end, more than twelve hours, no seat, more than ten topics, a
/// name that is taken, or ids that are used up. The first that applies is
/// the reason.
pub open spec fn create_conference_refusal(
    s: StoreView,
    form: NewConferenceView,
    start: Option<i64>,
    end: Option<i64>,
) -> Option<Error> {
    if start is None {
        Some(Error::InvalidStart)
    } else if end is None {
        Some(Error::InvalidEnd)
    } else if start->0 >= end->0 {
        Some(Error::StartNotBeforeEnd)
    } else if end->0 - start->0 > MAX_CONFERENCE_MICROS {
        Some(Error::DurationTooLong)
    } else if form.slots <= 0 {
        Some(Error::SlotsNotPositive)
    } else if form.topics.len() > MAX_CONFERENCE_TOPICS {
        Some(Error::TooManyTopics)
    } else if has_conference_named(s.conferences, form.name) {
        Some(Error::ConferenceExists)
    } else if next_conference_id(s.conferences) > i32::MAX {
        Some(Error::StorageExhausted)
    } else {
        None
    }
}

/// The conference that a request makes, created at `now`, with all its
/// seats free.
pub open spec fn conference_row(
    conference_id: i32,
    form: NewConferenceView,
    start: i64,
    end: i64,
    now: i64,
) -> ConferenceView {
    ConferenceView {
        conference_id,
        name: form.name,
        location: form.location,
        start_timestamp: start,
        end_timestamp: end,
        total_slots: form.slots,
        available_slots: form.slots,
        created_at: Some(now),
    }
}

/// The state after the conference was created at `now`: the conference is
/// the last row, with the next id, and one row for each topic follows the
/// topics stored before.
pub open spec fn create_conference_result(
    s: StoreView,
    form: NewConferenceView,
    start: i64,
    end: i64,
    now: i64,
) -> StoreView {
    let id = next_conference_id(s.conferences) as i32;
    StoreView {
        conferences: s.conferences.push(conference_row(id, form, start, end, now)),
        conference_topics: s.conference_topics + topic_rows(id, form.topics),
        ..s
    }
}

/// What creating a conference does, given what was read of its start and
/// end: where nothing stands against it the conference is stored and handed
/// back; else nothing changes and the reason is given.
pub open spec fn create_conference_post(
    before: StoreView,
    form: NewConferenceView,
    start: Option<i64>,
    end: Option<i64>,
    now: i64,
    after: StoreView,
    r: Result<Conference, Error>,
) -> bool {
    match r {
        Ok(c) => create_conference_refusal(before, form, start, end) is None && after
            == create_conference_result(before, form, start->0, end->0, now) && c@
            == after.conferences.last(),
        Err(e) => create_conference_refusal(before, form, start, end) == Some(e) && after
            == before,
    }
}

/// The id for the next conference, unless the ids are used up.
pub(crate) fn fresh_conference_id(store: &Store) -> (r: Option<i32>)
    ensures
        match r {
            Some(id) => id == next_conference_id(store@.conferences),
            None => next_conference_id(store@.conferences) > i32::MAX,
        },
{
    let n = store.conference_count();
    if n == 0 {
        Some(1)
    } else {
        let last = store.conference_at(n - 1).conference_id;
        if last == i32::MAX {
            None
        } else {
            Some(last + 1)
        }
    }
}

/// Creates, at the time `now`, the conference that `form` describes, where
/// `start` and `end` are what was read of the two times in the form.
pub fn create_conference_from(
    store: &mut Store,
    form: &NewConference,
    start: Option<i64>,
    end: Option<i64>,
    now: i64,
) -> (r: Result<Conference, Error>)
    requires
        old(store).wf(),
    ensures
        final(store).wf(),
        fair(old(store)@) ==> fair(final(store)@),
        seats_reserved(old(store)@) ==> seats_reserved(final(store)@),
        create_conference_post(old(store)@, form@, start, end, now, final(store)@, r),
{
    let start_time = match start {
        Some(t) => t,
        None => {
            return Err(Error::InvalidStart);
        },
    };
    let end_time = match end {
        Some(t) => t,
        None => {
            return Err(Error::InvalidEnd);
        },
    };
    if start_time >= end_time {
        return Err(Error::StartNotBeforeEnd);
    }
    if end_time as i128 - start_time as i128 > MAX_CONFERENCE_MICROS as i128 {
        return Err(Error::DurationTooLong);
    }
    if form.slots <= 0 {
        return Err(Error::SlotsNotPositive);
    }
    if form.topics.len() > MAX_CONFERENCE_TOPICS {
        return Err(Error::TooManyTopics);
    }
    if find_conference_named(store, &form.name).is_some() {
        return Err(Error::ConferenceExists);
    }
    let id = match fresh_conference_id(store) {
        Some(id) => id,
        None => {
            return Err(Error::StorageExhausted);
        },
    };
    let ghost before = store@;
    let new_conf = NewConferenceInternal {
        name: form.name.clone(),
        location: form.location.clone(),
        start_timestamp: start_time,
        end_timestamp: end_time,
        total_slots: form.slots,
        available_slots: form.slots,
    };
    let conference = Conference {
        conference_id: id,
        name: new_conf.name,
        location: new_conf.location,
        start_timestamp: new_conf.start_timestamp,
        end_timestamp: new_conf.end_timestamp,
        total_slots: new_conf.total_slots,
        available_slots: new_conf.available_slots,
        created_at: Some(now),
    };
    store.push_conference(conference.clone());
    proof {
        lemma_push_conference_valid(before, conference@);
        assert(store@.conference_topics =~= before.conference_topics + topic_rows(
            id,
            form@.topics.subrange(0, 0),
        ));
        law_create_conference_keeps_fair(before, conference@);
    }
    let ghost pushed = store@;
    let mut i: usize = 0;
    while i < form.topics.len()
        invariant
            i <= form.topics.len(),
            store.wf(),
            fair(before) ==> fair(pushed) && fair(store@),
            seats_reserved(before) ==> seats_reserved(pushed) && seats_reserved(store@),
            pushed.conferences == before.conferences.push(conference@),
            pushed.bookings == before.bookings,
            store@ == (StoreView {
                conferences: before.conferences.push(conference@),
                conference_topics: before.conference_topics + topic_rows(
                    id,
                    form@.topics.subrange(0, i as int),
                ),
                ..before
            }),
        decreases form.topics.len() - i,
    {
        store.push_conference_topic(
            ConferenceTopic { conference_id: id, topic: form.topics[i].clone() },
        );
        proof {
            assert(store@.conference_topics =~= before.conference_topics + topic_rows(
                id,
                form@.topics.subrange(0, i + 1),
            ));
            lemma_same_rows_keep_fair(pushed, store@);
        }
        i += 1;
    }
    proof {
        assert(form@.topics.subrange(0, form.topics@.len() as int) =~= form@.topics);
    }
    Ok(conference)
}

/// Creates, at the time `now`, the conference that `form` describes. The
/// two times of the form are read as `YYYY-MM-DD HH:MM:SS`.
pub fn create_new_conference_at(store: &mut Store, form: &NewConference, now: i64) -> (r: Result<
    Conference,
    Error,
>)
    requires
        old(store).wf(),
    ensures
        final(store).wf(),
        fair(old(store)@) ==> fair(final(store)@),
        seats_reserved(old(store)@) ==> seats_reserved(final(store)@),
        create_conference_post(
            old(store)@,
            form@,
            parsed_timestamp(form.start@, TIMESTAMP_FORMAT@),
            parsed_timestamp(form.end@, TIMESTAMP_FORMAT@),
            now,
            final(store)@,
            r,
        ),
{
    let start = parse_timestamp(form.start.as_str(), TIMESTAMP_FORMAT);
    let end = parse_timestamp(form.end.as_str(), TIMESTAMP_FORMAT);
    create_conference_from(store, form, start, end, now)
}

// ---------------------------------------------------------------------------
// When a conference has started
// ---------------------------------------------------------------------------

/// The booking waits for a stored conference that has started by `now`.
pub open spec fn is_swept(conferences: Seq<ConferenceView>, b: BookingView, now: i64) -> bool {
    &&& b.status == BookingStatus::WAITLISTED
    &&& has_conference(conferences, b.conference_id)
    &&& conference_of(conferences, b.conference_id).start_timestamp <= now
}

/// The bookings after those of the rows before `upto` were cancelled at
/// `now` that wait for a conference that has started.
pub open spec fn sweep_bookings(
    conferences: Seq<ConferenceView>,
    bookings: Seq<BookingView>,
    now: i64,
    upto: int,
) -> Seq<BookingView> {
    Seq::new(
        bookings.len(),
        |i: int|
            if i < upto && is_swept(conferences, bookings[i], now) {
                canceled(bookings[i], now)
            } else {
                bookings[i]
            },
    )
}

/// The state after every booking that waited for a conference that has
/// started by `now` was cancelled.
pub open spec fn sweep_result(s: StoreView, now: i64) -> StoreView {
    StoreView {
        bookings: sweep_bookings(s.conferences, s.bookings, now, s.bookings.len() as int),
        ..s
    }
}

/// The names of the conferences, in the order of their rows, that have
/// started by `now` and have somebody waiting.
pub open spec fn swept_names(
    conferences: Seq<ConferenceView>,
    bookings: Seq<BookingView>,
    now: i64,
) -> Seq<Seq<char>>
    decreases conferences.len(),
{
    if conferences.len() == 0 {
        Seq::empty()
    } else {
        let rest = swept_names(conferences.drop_last(), bookings, now);
        let c = conferences.last();
        if c.start_timestamp <= now && count_in(
            bookings,
            c.conference_id,
            BookingStatus::WAITLISTED,
        ) > 0 {
            rest.push(c.name)
        } else {
            rest
        }
    }
}

/// Cancels every waitlisted booking of every conference that has started by
/// `now`, and names the conferences that had such bookings.
pub fn auto_cancel_expired_conferences_at(store: &mut Store, now: i64) -> (r: Vec<String>)
    requires
        old(store).wf(),
    ensures
        final(store).wf(),
        final(store)@ == sweep_result(old(store)@, now),
        texts_view(r@) == swept_names(old(store)@.conferences, old(store)@.bookings, now),
        fair(old(store)@) ==> fair(final(store)@),
        seats_reserved(old(store)@) ==> seats_reserved(final(store)@),
{
    let ghost before = store@;
    let mut names: Vec<String> = Vec::new();
    let m = store.conference_count();
    let mut k: usize = 0;
    proof {
        assert(texts_view(names@) =~= swept_names(
            before.conferences.subrange(0, 0),
            before.bookings,
            now,
        ));
    }
    while k < m
        invariant
            store@ == before,
            m == before.conferences.len(),
            k <= m,
            texts_view(names@) == swept_names(
                before.conferences.subrange(0, k as int),
                before.bookings,
                now,
            ),
        decreases m - k,
    {
        let c = store.conference_at(k);
        proof {
            assert(before.conferences.subrange(0, k + 1).drop_last()
                =~= before.conferences.subrange(0, k as int));
        }
        if c.start_timestamp <= now && count_bookings(
            store,
            c.conference_id,
            BookingStatus::WAITLISTED,
        ) > 0 {
            let ghost prev = names@;
            names.push(c.name.clone());
            proof {
                assert(texts_view(names@) =~= texts_view(prev).push(c.name@));
            }
        }
        k += 1;
    }
    proof {
        assert(before.conferences.subrange(0, m as int) =~= before.conferences);
        assert(sweep_bookings(before.conferences, before.bookings, now, 0) =~= before.bookings);
    }
    let n = store.booking_count();
    let mut i: usize = 0;
    while i < n
        invariant
            valid(before),
            store.wf(),
            n == before.bookings.len(),
            i <= n,
            store@ == (StoreView {
                bookings: sweep_bookings(before.conferences, before.bookings, now, i as int),
                ..before
            }),
        decreases n - i,
    {
        let b = store.booking_at(i);
        if b.status == BookingStatus::WAITLISTED {
            proof {
                assert(has_conference(store@.conferences, store@.bookings[i as int].conference_id));
            }
            let w = row_of_conference(store, b.conference_id);
            if store.conference_at(w).start_timestamp <= now {
                let updated = canceled_copy(b, now);
                store.put_booking(i, updated);
            }
        }
        proof {
            assert(store@.bookings =~= sweep_bookings(
                before.conferences,
                before.bookings,
                now,
                i + 1,
            ));
            assert(only_cancels(before, store@, now));
            lemma_only_cancels_valid(before, store@, now);
        }
        i += 1;
    }
    proof {
        assert(only_cancels(before, store@, now));
        lemma_only_cancels_keeps_fair(before, store@, now);
    }
    names
}

// ---------------------------------------------------------------------------
// The same steps at the time of the system clock
// ---------------------------------------------------------------------------

/// Creates the conference that `form` describes, at the time of the system
/// clock.
pub fn create_new_conference(store: &mut Store, form: &NewConference) -> (r: Result<
    Conference,
    Error,
>)
    requires
        old(store).wf(),
    ensures
        final(store).wf(),
        fair(old(store)@) ==> fair(final(store)@),
        seats_reserved(old(store)@) ==> seats_reserved(final(store)@),
        exists|now: i64| #[trigger]
            create_conference_post(
                old(store)@,
                form@,
                parsed_timestamp(form.start@, TIMESTAMP_FORMAT@),
                parsed_timestamp(form.end@, TIMESTAMP_FORMAT@),
                now,
                final(store)@,
                r,
            ),
{
    let now = utc_now_micros();
    create_new_conference_at(store, form, now)
}

/// Stores a confirmed booking at the time of the system clock; see
/// `create_confirmed_booking_at`.
pub fn create_confirmed_booking(store: &mut Store, conf_id: i32, uid: &str) -> (r: Result<
    Booking,
    Error,
>)
    requires
        old(store).wf(),
    ensures
        final(store).wf(),
        exists|now: i64| #[trigger]
            create_confirmed_post(old(store)@, conf_id, uid@, now, final(store)@, r),
{
    let now = utc_now_micros();
    create_confirmed_booking_at(store, conf_id, uid, now)
}

/// Stores a waitlisted booking at the time of the system clock; see
/// `create_waitlist_booking_at`.
pub fn create_waitlist_booking(store: &mut Store, conf_id: i32, uid: &str) -> (r: Result<
    Booking,
    Error,
>)
    requires
        old(store).wf(),
    ensures
        final(store).wf(),
        exists|now: i64| #[trigger]
            create_waitlist_post(old(store)@, conf_id, uid@, now, final(store)@, r),
{
    let now = utc_now_micros();
    create_waitlist_booking_at(store, conf_id, uid, now)
}

/// Books the conference for the user at the time of the system clock.
pub fn create_booking_atomic(store: &mut Store, conference_id: i32, user_id: &str) -> (r: Result<
    Booking,
    Error,
>)
    requires
        old(store).wf(),
    ensures
        final(store).wf(),
        fair(old(store)@) ==> fair(final(store)@),
        seats_reserved(old(store)@) ==> seats_reserved(final(store)@),
        exists|now: i64| #[trigger]
            booking_post(old(store)@, conference_id, user_id@, now, final(store)@, r),
{
    let now = utc_now_micros();
    create_booking_atomic_at(store, conference_id, user_id, now)
}

/// Confirms a pending booking on behalf of `user_id` at the time of the
/// system clock.
pub fn confirm_waitlist_booking_secure(store: &mut Store, booking_id: i32, user_id: &str) -> (r:
    Result<Booking, Error>)
    requires
        old(store).wf(),
    ensures
        final(store).wf(),
        fair(old(store)@) ==> fair(final(store)@),
        seats_reserved(old(store)@) ==> seats_reserved(final(store)@),
        exists|now: i64| #[trigger]
            confirm_post(old(store)@, booking_id, user_id@, now, final(store)@, r),
{
    let now = utc_now_micros();
    confirm_waitlist_booking_secure_at(store, booking_id, user_id, now)
}

/// Cancels a booking at the time of the system clock; a seat that this
/// gives back is offered on for a window of `window_ms` milliseconds.
pub fn cancel_booking(store: &mut Store, booking_id: i32, window_ms: u32) -> (r: Result<
    (Booking, Option<Booking>),
    Error,
>)
    requires
        old(store).wf(),
    ensures
        final(store).wf(),
        fair(old(store)@) ==> fair(final(store)@),
        seats_reserved(old(store)@) ==> seats_reserved(final(store)@),
        exists|now: i64| #[trigger]
            cancel_post(old(store)@, booking_id, now, window_ms, final(store)@, r),
{
    let now = utc_now_micros();
    cancel_booking_at(store, booking_id, now, window_ms)
}

/// Cancels the user's overlapping waitlist entries at the time of the system
/// clock; see `remove_from_overlapping_waitlists_at`.
pub fn remove_from_overlapping_waitlists(
    store: &mut Store,
    user_id: &str,
    confirmed_conference_start: i64,
    confirmed_conference_end: i64,
    exclude_conference_id: i32,
)
    requires
        old(store).wf(),
    ensures
        final(store).wf(),
        fair(old(store)@) ==> fair(final(store)@),
        seats_reserved(old(store)@) ==> seats_reserved(final(store)@),
        exists|now: i64|
            final(store)@ == #[trigger] cascade_result(
                old(store)@,
                user_id@,
                confirmed_conference_start,
                confirmed_conference_end,
                exclude_conference_id,
                now,
            ),
{
    let now = utc_now_micros();
    remove_from_overlapping_waitlists_at(
        store,
        user_id,
        confirmed_conference_start,
        confirmed_conference_end,
        exclude_conference_id,
        now,
    )
}

/// Cancels the waitlisted bookings of the conferences that have started by
/// the time of the system clock, and names those conferences.
pub fn auto_cancel_expired_conferences(store: &mut Store) -> (r: Vec<String>)
    requires
        old(store).wf(),
    ensures
        final(store).wf(),
        fair(old(store)@) ==> fair(final(store)@),
        seats_reserved(old(store)@) ==> seats_reserved(final(store)@),
        exists|now: i64|
            final(store)@ == #[trigger] sweep_result(old(store)@, now) && texts_view(r@)
                == swept_names(old(store)@.conferences, old(store)@.bookings, now),
{
    let now = utc_now_micros();
    auto_cancel_expired_conferences_at(store, now)
}

} // verus!
