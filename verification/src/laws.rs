//! What the booking rules guarantee, stated over the steps of
//! `crate::actions` and proved for every valid state.

use vstd::prelude::*;
use crate::actions::{
    admits_directly, booking_post, booking_refusal, booking_result, can_promote, cancel_offers,
    cancel_refusal, cancel_result, cancel_step, cascade_result, confirm_post, confirm_refusal,
    confirm_result, create_confirmed_result, create_waitlist_result, expiry_due, expiry_result,
    has_active_booking, has_overlapping_booking, is_active_booking_at, is_expirable,
    is_overlapping_at, open_seats, promote_post, promote_result, purge_result, releases_seat,
    requeue_result, waitlist_head,
};
use crate::errors::Error;
use crate::lemmas::{
    lemma_booking_row, lemma_conference_row, lemma_count_le, lemma_count_push, lemma_count_update,
    lemma_count_zero, lemma_max_position, lemma_max_position_zero, one_if_in,
};
use crate::models::{Booking, BookingStatus, BookingView, ConferenceView};
use crate::state::{
    booking_index, booking_meets, booking_of, bookings_unique, conference_ids_increasing,
    conference_index, conference_named, conference_of, count_in, fair, has_booking, has_conference,
    has_conference_named, is_active, is_booking_at, is_conference_at, is_in, is_waitlist_head,
    max_position, next_position, no_user_overlap, position_key, seats_reserved, valid, StoreView,
};
use crate::transitions::{
    canceled, confirmed, deadline_after, lemma_free_seats_frame, lemma_free_seats_same,
    only_cancels, promoted, requeued, with_booking_at, with_free_seats,
};

verus! {

/// The two states hold the same conferences at the same times; only the
/// numbers of free seats may differ.
pub open spec fn same_schedule(a: Seq<ConferenceView>, b: Seq<ConferenceView>) -> bool {
    &&& a.len() == b.len()
    &&& forall|k: int|
        0 <= k < a.len() ==> (#[trigger] b[k]).conference_id == a[k].conference_id
            && b[k].start_timestamp == a[k].start_timestamp && b[k].end_timestamp
            == a[k].end_timestamp
}

/// Row by row the two states hold the same bookings of the same users on the
/// same conferences, and no booking that is active in `t` was cancelled in
/// `s`.
pub open spec fn no_new_active(s: Seq<BookingView>, t: Seq<BookingView>) -> bool {
    &&& s.len() == t.len()
    &&& forall|i: int|
        0 <= i < s.len() ==> (#[trigger] t[i]).user_id == s[i].user_id && t[i].conference_id
            == s[i].conference_id && (is_active(t[i]) ==> is_active(s[i]))
}

/// Conferences with the same ids at the same times are met by the same
/// bookings.
pub proof fn lemma_same_schedule(s: StoreView, t: StoreView)
    requires
        conference_ids_increasing(s),
        same_schedule(s.conferences, t.conferences),
    ensures
        conference_ids_increasing(t),
        forall|id: i32| has_conference(s.conferences, id)
            == #[trigger] has_conference(t.conferences, id),
        forall|id: i32|
            has_conference(s.conferences, id) ==> #[trigger] conference_index(t.conferences, id)
                == conference_index(s.conferences, id),
        forall|b: BookingView, start: i64, end: i64|
            booking_meets(s.conferences, b, start, end) == #[trigger] booking_meets(
                t.conferences,
                b,
                start,
                end,
            ),
{
    assert forall|k: int| 0 <= k < s.conferences.len()
        implies (#[trigger] t.conferences[k]).conference_id
        == s.conferences[k].conference_id by {}
    assert(conference_ids_increasing(t));
    assert forall|id: i32| has_conference(s.conferences, id) == #[trigger] has_conference(
        t.conferences,
        id,
    ) by {
        if has_conference(s.conferences, id) {
            let i = conference_index(s.conferences, id);
            assert(is_conference_at(s.conferences, id, i));
            assert(is_conference_at(t.conferences, id, i));
        }
        if has_conference(t.conferences, id) {
            let i = conference_index(t.conferences, id);
            assert(is_conference_at(t.conferences, id, i));
            assert(is_conference_at(s.conferences, id, i));
        }
    }
    assert forall|id: i32| has_conference(s.conferences, id) implies #[trigger] conference_index(
        t.conferences,
        id,
    ) == conference_index(s.conferences, id) by {
        let i = conference_index(s.conferences, id);
        assert(is_conference_at(s.conferences, id, i));
        assert(is_conference_at(t.conferences, id, i));
        lemma_conference_row(t, id, i);
    }
    assert forall|b: BookingView, start: i64, end: i64|
        booking_meets(s.conferences, b, start, end) == #[trigger] booking_meets(
            t.conferences,
            b,
            start,
            end,
        ) by {
        if has_conference(s.conferences, b.conference_id) {
            let i = conference_index(s.conferences, b.conference_id);
            assert(is_conference_at(s.conferences, b.conference_id, i));
            assert(conference_index(t.conferences, b.conference_id) == i);
        }
    }
}

/// A step that keeps every booking with its user and conference, makes no
/// cancelled booking active, and keeps the times of the conferences, keeps
/// bookings unique and free of overlap.
pub proof fn lemma_no_new_active_keeps(s: StoreView, t: StoreView)
    requires
        valid(s),
        bookings_unique(s),
        no_user_overlap(s),
        same_schedule(s.conferences, t.conferences),
        no_new_active(s.bookings, t.bookings),
    ensures
        bookings_unique(t),
        no_user_overlap(t),
{
    lemma_same_schedule(s, t);
    assert forall|i: int, j: int|
        0 <= i < j < t.bookings.len() && is_active(#[trigger] t.bookings[i]) && is_active(
            #[trigger] t.bookings[j],
        ) && t.bookings[i].user_id == t.bookings[j].user_id implies t.bookings[i].conference_id
        != t.bookings[j].conference_id by {
        assert(is_active(s.bookings[i]) && is_active(s.bookings[j]));
    }
    assert forall|i: int, j: int|
        0 <= i < j < t.bookings.len() && is_active(#[trigger] t.bookings[i]) && is_active(
            #[trigger] t.bookings[j],
        ) && t.bookings[i].user_id == t.bookings[j].user_id implies !booking_meets(
        t.conferences,
        t.bookings[i],
        conference_of(t.conferences, t.bookings[j].conference_id).start_timestamp,
        conference_of(t.conferences, t.bookings[j].conference_id).end_timestamp,
    ) by {
        assert(is_active(s.bookings[i]) && is_active(s.bookings[j]));
        assert(has_conference(s.conferences, s.bookings[j].conference_id));
        let k = conference_index(s.conferences, s.bookings[j].conference_id);
        assert(is_conference_at(s.conferences, s.bookings[j].conference_id, k));
        assert(conference_index(t.conferences, s.bookings[j].conference_id) == k);
        assert(!booking_meets(
            s.conferences,
            s.bookings[i],
            conference_of(s.conferences, s.bookings[j].conference_id).start_timestamp,
            conference_of(s.conferences, s.bookings[j].conference_id).end_timestamp,
        ));
        assert(t.bookings[i].conference_id == s.bookings[i].conference_id);
        assert(booking_meets(
            s.conferences,
            t.bookings[i],
            conference_of(s.conferences, s.bookings[j].conference_id).start_timestamp,
            conference_of(s.conferences, s.bookings[j].conference_id).end_timestamp,
        ) == booking_meets(
            s.conferences,
            s.bookings[i],
            conference_of(s.conferences, s.bookings[j].conference_id).start_timestamp,
            conference_of(s.conferences, s.bookings[j].conference_id).end_timestamp,
        ));
    }
}

/// Slot conservation: in a valid state the free seats of every conference
/// and its confirmed bookings add up to its capacity. Every operation of the
/// library hands a valid state on.
pub proof fn law_slot_conservation(s: StoreView, conference_id: i32)
    requires
        valid(s),
        has_conference(s.conferences, conference_id),
    ensures
        conference_of(s.conferences, conference_id).available_slots + count_in(
            s.bookings,
            conference_id,
            BookingStatus::CONFIRMED,
        ) == conference_of(s.conferences, conference_id).total_slots,
{
    let k = conference_index(s.conferences, conference_id);
    assert(is_conference_at(s.conferences, conference_id, k));
}

/// Capacity: in a valid state in which every pending confirmation has its
/// seat, no conference has more confirmed bookings than seats, and its
/// confirmed and pending bookings together do not exceed its seats.
pub proof fn law_capacity(s: StoreView, conference_id: i32)
    requires
        valid(s),
        seats_reserved(s),
        has_conference(s.conferences, conference_id),
    ensures
        count_in(s.bookings, conference_id, BookingStatus::CONFIRMED) + count_in(
            s.bookings,
            conference_id,
            BookingStatus::ConfirmationPending,
        ) <= conference_of(s.conferences, conference_id).total_slots,
        conference_of(s.conferences, conference_id).available_slots >= 0,
{
    let k = conference_index(s.conferences, conference_id);
    assert(is_conference_at(s.conferences, conference_id, k));
    if seats_reserved(s) {
        assert(count_in(s.bookings, s.conferences[k].conference_id,
            BookingStatus::ConfirmationPending)
            <= s.conferences[k].available_slots);
    }
}

/// Cancelling waitlisted and pending bookings keeps the state fair and its
/// seats reserved.
pub proof fn lemma_only_cancels_keeps_fair(s: StoreView, t: StoreView, now: i64)
    requires
        valid(s),
        only_cancels(s, t, now),
    ensures
        fair(s) ==> fair(t),
        seats_reserved(s) ==> seats_reserved(t),
{
    assert(no_new_active(s.bookings, t.bookings)) by {
        assert forall|i: int| 0 <= i < s.bookings.len() implies (#[trigger] t.bookings[i]).user_id
            == s.bookings[i].user_id && t.bookings[i].conference_id == s.bookings[i].conference_id
            && (is_active(t.bookings[i]) ==> is_active(s.bookings[i])) by {
            assert(t.bookings[i] == s.bookings[i] || t.bookings[i] == canceled(
                s.bookings[i],
                now,
            ));
        }
    }
    if fair(s) {
        lemma_no_new_active_keeps(s, t);
    }
    assert forall|k: int| 0 <= k < t.conferences.len() && seats_reserved(s) implies count_in(
        t.bookings,
        (#[trigger] t.conferences[k]).conference_id,
        BookingStatus::ConfirmationPending,
    ) <= t.conferences[k].available_slots by {
        let id = s.conferences[k].conference_id;
        assert forall|i: int|
            0 <= i < s.bookings.len() && is_in(
                #[trigger] t.bookings[i],
                id,
                BookingStatus::ConfirmationPending,
            ) implies is_in(s.bookings[i], id, BookingStatus::ConfirmationPending) by {
            assert(t.bookings[i] == s.bookings[i] || t.bookings[i] == canceled(
                s.bookings[i],
                now,
            ));
        }
        lemma_count_le(s.bookings, t.bookings, id, BookingStatus::ConfirmationPending);
        if seats_reserved(s) {
            assert(count_in(s.bookings, s.conferences[k].conference_id,
                BookingStatus::ConfirmationPending)
                <= s.conferences[k].available_slots);
        }
    }
}

/// Replacing one booking by one of the same user on the same conference
/// that is active only if the old one was keeps the state fair; it keeps the
/// seats reserved if the free seats of that conference cover its pending
/// confirmations afterwards.
pub proof fn lemma_replace_keeps_fair(s: StoreView, i: int, b: BookingView, available_slots: i32)
    requires
        valid(s),
        0 <= i < s.bookings.len(),
        b.user_id == s.bookings[i].user_id,
        b.conference_id == s.bookings[i].conference_id,
        is_active(b) ==> is_active(s.bookings[i]),
    ensures
        fair(s) ==> fair(with_booking_at(with_free_seats(s, b.conference_id, available_slots), i,
            b)),
        seats_reserved(s)
            && count_in(s.bookings, b.conference_id, BookingStatus::ConfirmationPending)
            - one_if_in(s.bookings[i], b.conference_id, BookingStatus::ConfirmationPending)
            + one_if_in(b, b.conference_id, BookingStatus::ConfirmationPending) <= available_slots
            ==> seats_reserved(
            with_booking_at(with_free_seats(s, b.conference_id, available_slots), i, b),
        ),
{
    let c = b.conference_id;
    let m = with_free_seats(s, c, available_slots);
    let t = with_booking_at(m, i, b);
    assert(has_conference(s.conferences, s.bookings[i].conference_id));
    lemma_free_seats_frame(s, c, available_slots);
    assert(same_schedule(s.conferences, t.conferences));
    assert(no_new_active(s.bookings, t.bookings));
    if fair(s) {
        lemma_no_new_active_keeps(s, t);
    }
    assert forall|k: int|
        0 <= k < t.conferences.len() && seats_reserved(s) && count_in(
            s.bookings,
            c,
            BookingStatus::ConfirmationPending,
        ) - one_if_in(s.bookings[i], c, BookingStatus::ConfirmationPending) + one_if_in(
            b,
            c,
            BookingStatus::ConfirmationPending,
        ) <= available_slots implies count_in(
        t.bookings,
        (#[trigger] t.conferences[k]).conference_id,
        BookingStatus::ConfirmationPending,
    ) <= t.conferences[k].available_slots by {
        let id = s.conferences[k].conference_id;
        lemma_count_update(s.bookings, i, b, id, BookingStatus::ConfirmationPending);
        if seats_reserved(s) {
            assert(count_in(s.bookings, s.conferences[k].conference_id,
                BookingStatus::ConfirmationPending)
                <= s.conferences[k].available_slots);
        }
    }
}

/// Striking a booking keeps the state valid and fair and its seats
/// reserved, and if the booking gave a seat back, a seat of its conference
/// is open afterwards.
pub proof fn law_strike_keeps_fair(s: StoreView, booking_id: i32, now: i64)
    requires
        valid(s),
        cancel_refusal(s, booking_id) is None,
    ensures
        valid(cancel_step(s, booking_id, now)),
        fair(s) ==> fair(cancel_step(s, booking_id, now)),
        seats_reserved(s) ==> seats_reserved(cancel_step(s, booking_id, now)),
        seats_reserved(s) && releases_seat(booking_of(s.bookings, booking_id)) ==> open_seats(
            cancel_step(s, booking_id, now),
            booking_of(s.bookings, booking_id).conference_id,
        ) > 0,
{
    let i = booking_index(s.bookings, booking_id);
    assert(is_booking_at(s.bookings, booking_id, i));
    let b = s.bookings[i];
    let c = b.conference_id;
    assert(has_conference(s.conferences, s.bookings[i].conference_id));
    let k = conference_index(s.conferences, c);
    assert(is_conference_at(s.conferences, c, k));
    assert(s.conferences[k].available_slots + count_in(
        s.bookings,
        s.conferences[k].conference_id,
        BookingStatus::CONFIRMED,
    ) == s.conferences[k].total_slots);
    if seats_reserved(s) {
        assert(count_in(
            s.bookings,
            s.conferences[k].conference_id,
            BookingStatus::ConfirmationPending,
        ) <= s.conferences[k].available_slots);
    }
    if b.status == BookingStatus::CONFIRMED {
        lemma_count_zero(s.bookings, c, BookingStatus::CONFIRMED);
        assert(is_in(s.bookings[i], c, BookingStatus::CONFIRMED));
    }
    let freed = one_if_in(b, c, BookingStatus::CONFIRMED);
    let seats = (s.conferences[k].available_slots + freed) as i32;
    let t = cancel_step(s, booking_id, now);
    crate::transitions::lemma_replace_booking_valid(s, i, canceled(b, now), seats);
    lemma_replace_keeps_fair(s, i, canceled(b, now), seats);
    lemma_free_seats_frame(s, c, seats);
    lemma_count_update(s.bookings, i, canceled(b, now), c, BookingStatus::ConfirmationPending);
    assert(is_conference_at(t.conferences, c, k));
    lemma_conference_row(t, c, k);
}

/// Offering a seat to the head of a waitlist keeps the state valid and
/// fair. It keeps the seats reserved if a seat of the conference was open:
/// if the conference had more free seats than pending confirmations.
pub proof fn law_promote_keeps_fair(s: StoreView, conference_id: i32, now: i64, window_ms: u32)
    requires
        valid(s),
        can_promote(s, conference_id),
    ensures
        valid(promote_result(s, conference_id, now, window_ms)),
        fair(s) ==> fair(promote_result(s, conference_id, now, window_ms)),
        seats_reserved(s) && open_seats(s, conference_id) > 0 ==> seats_reserved(
            promote_result(s, conference_id, now, window_ms),
        ),
{
    let h = waitlist_head(s.bookings, conference_id);
    assert(is_waitlist_head(s.bookings, conference_id, h));
    let b = promoted(s.bookings[h], deadline_after(now, window_ms));
    lemma_free_seats_same(s, conference_id);
    crate::transitions::lemma_update_booking_valid(s, h, b);
    lemma_replace_keeps_fair(
        s,
        h,
        b,
        conference_of(s.conferences, conference_id).available_slots,
    );
}

/// Cancelling a booking, with the offer of the seat that it gives back,
/// keeps the state valid and fair and its seats reserved.
pub proof fn law_cancel_keeps_fair(s: StoreView, booking_id: i32, now: i64, window_ms: u32)
    requires
        valid(s),
        cancel_refusal(s, booking_id) is None,
    ensures
        valid(cancel_result(s, booking_id, now, window_ms)),
        fair(s) ==> fair(cancel_result(s, booking_id, now, window_ms)),
        seats_reserved(s) ==> seats_reserved(cancel_result(s, booking_id, now, window_ms)),
{
    law_strike_keeps_fair(s, booking_id, now);
    if cancel_offers(s, booking_id, now) {
        law_promote_keeps_fair(
            cancel_step(s, booking_id, now),
            booking_of(s.bookings, booking_id).conference_id,
            now,
            window_ms,
        );
    }
}

/// Sending a pending confirmation back to the waitlist keeps the state fair
/// and its seats reserved, and a seat of its conference is open afterwards.
pub proof fn law_requeue_keeps_fair(s: StoreView, booking_id: i32)
    requires
        valid(s),
        has_booking(s.bookings, booking_id),
        booking_of(s.bookings, booking_id).status == BookingStatus::ConfirmationPending,
    ensures
        fair(s) ==> fair(requeue_result(s, booking_id)),
        seats_reserved(s) ==> seats_reserved(requeue_result(s, booking_id)),
        seats_reserved(s) ==> open_seats(
            requeue_result(s, booking_id),
            booking_of(s.bookings, booking_id).conference_id,
        ) > 0,
{
    let i = booking_index(s.bookings, booking_id);
    assert(is_booking_at(s.bookings, booking_id, i));
    let c = s.bookings[i].conference_id;
    let b = requeued(s.bookings[i], next_position(s.bookings, c) as i32);
    assert(has_conference(s.conferences, s.bookings[i].conference_id));
    let k = conference_index(s.conferences, c);
    assert(is_conference_at(s.conferences, c, k));
    if seats_reserved(s) {
        assert(count_in(s.bookings, s.conferences[k].conference_id,
            BookingStatus::ConfirmationPending)
            <= s.conferences[k].available_slots);
    }
    lemma_free_seats_same(s, c);
    lemma_replace_keeps_fair(s, i, b, s.conferences[k].available_slots);
    lemma_count_update(s.bookings, i, b, c, BookingStatus::ConfirmationPending);
}

/// Clearing a user's overlapping waitlist entries keeps the state fair.
pub proof fn law_cascade_keeps_fair(
    s: StoreView,
    user_id: Seq<char>,
    start: i64,
    end: i64,
    except: i32,
    now: i64,
)
    requires
        valid(s),
    ensures
        fair(s) ==> fair(cascade_result(s, user_id, start, end, except, now)),
        seats_reserved(s) ==> seats_reserved(cascade_result(s, user_id, start, end, except, now)),
{
    let t = cascade_result(s, user_id, start, end, except, now);
    assert(only_cancels(s, t, now));
    lemma_only_cancels_keeps_fair(s, t, now);
}

/// Cancelling the unconfirmed bookings of a conference keeps the state fair.
pub proof fn law_purge_keeps_fair(s: StoreView, conference_id: i32, now: i64)
    requires
        valid(s),
    ensures
        fair(s) ==> fair(purge_result(s, conference_id, now)),
        seats_reserved(s) ==> seats_reserved(purge_result(s, conference_id, now)),
{
    let t = purge_result(s, conference_id, now);
    assert(only_cancels(s, t, now));
    lemma_only_cancels_keeps_fair(s, t, now);
}

/// Confirming a pending booking keeps the state fair.
pub proof fn law_confirm_keeps_fair(
    s: StoreView,
    booking_id: i32,
    user_id: Seq<char>,
    now: i64,
)
    requires
        valid(s),
        confirm_refusal(s, booking_id, user_id, now) is None,
    ensures
        valid(confirm_result(s, booking_id, now)),
        fair(s) ==> fair(confirm_result(s, booking_id, now)),
        seats_reserved(s) ==> seats_reserved(confirm_result(s, booking_id, now)),
{
    let i = booking_index(s.bookings, booking_id);
    assert(is_booking_at(s.bookings, booking_id, i));
    let b = s.bookings[i];
    let c = b.conference_id;
    assert(has_conference(s.conferences, s.bookings[i].conference_id));
    let k = conference_index(s.conferences, c);
    assert(is_conference_at(s.conferences, c, k));
    let conference = s.conferences[k];
    if seats_reserved(s) {
        assert(count_in(s.bookings, s.conferences[k].conference_id,
            BookingStatus::ConfirmationPending)
            <= s.conferences[k].available_slots);
    }
    lemma_count_zero(s.bookings, c, BookingStatus::ConfirmationPending);
    assert(is_in(s.bookings[i], c, BookingStatus::ConfirmationPending));
    assert(s.conferences[k].available_slots + count_in(
        s.bookings,
        s.conferences[k].conference_id,
        BookingStatus::CONFIRMED,
    ) == s.conferences[k].total_slots);
    crate::lemmas::lemma_count_bound(s.bookings, c, BookingStatus::CONFIRMED);
    crate::lemmas::lemma_booking_id_at_least(s, s.bookings.len() - 1);
    let seats = (conference.available_slots - 1) as i32;
    let t1 = with_booking_at(with_free_seats(s, c, seats), i, confirmed(b));
    lemma_replace_keeps_fair(s, i, confirmed(b), seats);
    crate::transitions::lemma_replace_booking_valid(s, i, confirmed(b), seats);
    let t = cascade_result(
        t1,
        b.user_id,
        conference.start_timestamp,
        conference.end_timestamp,
        c,
        now,
    );
    assert(only_cancels(t1, t, now));
    lemma_only_cancels_keeps_fair(t1, t, now);
    crate::transitions::lemma_only_cancels_valid(t1, t, now);
}

/// Appending an active booking of a user who holds no active booking on the
/// conference, nor on one that overlaps with it, keeps bookings unique and
/// free of overlap.
pub proof fn lemma_push_keeps_unique(s: StoreView, t: StoreView, b: BookingView)
    requires
        valid(s),
        bookings_unique(s),
        no_user_overlap(s),
        same_schedule(s.conferences, t.conferences),
        t.bookings == s.bookings.push(b),
        has_conference(s.conferences, b.conference_id),
        !has_active_booking(s, b.user_id, b.conference_id),
        !has_overlapping_booking(
            s,
            b.user_id,
            conference_of(s.conferences, b.conference_id).start_timestamp,
            conference_of(s.conferences, b.conference_id).end_timestamp,
        ),
    ensures
        bookings_unique(t),
        no_user_overlap(t),
{
    lemma_same_schedule(s, t);
    let n = s.bookings.len() as int;
    let c = b.conference_id;
    let k = conference_index(s.conferences, c);
    assert(is_conference_at(s.conferences, c, k));
    assert(conference_index(t.conferences, c) == k);
    assert forall|i: int, j: int|
        0 <= i < j < t.bookings.len() && is_active(#[trigger] t.bookings[i]) && is_active(
            #[trigger] t.bookings[j],
        ) && t.bookings[i].user_id == t.bookings[j].user_id implies t.bookings[i].conference_id
        != t.bookings[j].conference_id by {
        if j == n {
            assert(t.bookings[i] == s.bookings[i]);
            assert(!is_active_booking_at(s, b.user_id, c, i));
        } else {
            assert(t.bookings[i] == s.bookings[i]);
            assert(t.bookings[j] == s.bookings[j]);
        }
    }
    assert forall|i: int, j: int|
        0 <= i < j < t.bookings.len() && is_active(#[trigger] t.bookings[i]) && is_active(
            #[trigger] t.bookings[j],
        ) && t.bookings[i].user_id == t.bookings[j].user_id implies !booking_meets(
        t.conferences,
        t.bookings[i],
        conference_of(t.conferences, t.bookings[j].conference_id).start_timestamp,
        conference_of(t.conferences, t.bookings[j].conference_id).end_timestamp,
    ) by {
        assert(t.bookings[i] == s.bookings[i]);
        if j == n {
            assert(!is_overlapping_at(
                s,
                b.user_id,
                conference_of(s.conferences, c).start_timestamp,
                conference_of(s.conferences, c).end_timestamp,
                i,
            ));
        } else {
            assert(t.bookings[j] == s.bookings[j]);
            assert(has_conference(s.conferences, s.bookings[j].conference_id));
            let w = conference_index(s.conferences, s.bookings[j].conference_id);
            assert(is_conference_at(s.conferences, s.bookings[j].conference_id, w));
            assert(conference_index(t.conferences, s.bookings[j].conference_id) == w);
            assert(!booking_meets(
                s.conferences,
                s.bookings[i],
                conference_of(s.conferences, s.bookings[j].conference_id).start_timestamp,
                conference_of(s.conferences, s.bookings[j].conference_id).end_timestamp,
            ));
        }
    }
}

/// Booking keeps the state valid and fair: a user never gets a second active
/// booking on a conference, nor one that overlaps with another of theirs.
pub proof fn law_booking_keeps_fair(
    s: StoreView,
    conference_id: i32,
    user_id: Seq<char>,
    now: i64,
)
    requires
        valid(s),
        booking_refusal(s, conference_id, user_id) is None,
    ensures
        valid(booking_result(s, conference_id, user_id, now)),
        fair(s) ==> fair(booking_result(s, conference_id, user_id, now)),
        seats_reserved(s) ==> seats_reserved(booking_result(s, conference_id, user_id, now)),
{
    let c = conference_id;
    let k = conference_index(s.conferences, c);
    assert(is_conference_at(s.conferences, c, k));
    let conference = s.conferences[k];
    if seats_reserved(s) {
        assert(count_in(s.bookings, s.conferences[k].conference_id,
            BookingStatus::ConfirmationPending)
            <= s.conferences[k].available_slots);
    }
    lemma_max_position(s.bookings, c);
    if admits_directly(s, c) {
        let seats = (conference.available_slots - 1) as i32;
        let t1 = create_confirmed_result(s, c, user_id, now);
        let b = t1.bookings.last();
        lemma_free_seats_frame(s, c, seats);
        crate::transitions::lemma_push_booking_valid(s, b, seats);
        if fair(s) {
            lemma_push_keeps_unique(s, t1, b);
        }
        assert(seats_reserved(s) ==> seats_reserved(t1)) by {
            assert forall|x: int| 0 <= x < t1.conferences.len() && seats_reserved(s)
                implies count_in(
                t1.bookings,
                (#[trigger] t1.conferences[x]).conference_id,
                BookingStatus::ConfirmationPending,
            ) <= t1.conferences[x].available_slots by {
                let id = s.conferences[x].conference_id;
                lemma_count_push(s.bookings, b, id, BookingStatus::ConfirmationPending);
                if seats_reserved(s) {
                    assert(count_in(
                        s.bookings,
                        s.conferences[x].conference_id,
                        BookingStatus::ConfirmationPending,
                    ) <= s.conferences[x].available_slots);
                }
                if id == c {
                    lemma_conference_row(s, c, x);
                }
            }
        }
        let t = booking_result(s, c, user_id, now);
        assert(only_cancels(t1, t, now));
        lemma_only_cancels_keeps_fair(t1, t, now);
        crate::transitions::lemma_only_cancels_valid(t1, t, now);
    } else {
        let t = create_waitlist_result(s, c, user_id, now);
        let b = t.bookings.last();
        lemma_free_seats_same(s, c);
        crate::transitions::lemma_push_booking_valid(s, b, conference.available_slots);
        if fair(s) {
            lemma_push_keeps_unique(s, t, b);
        }
        assert(seats_reserved(s) ==> seats_reserved(t)) by {
            assert forall|x: int| 0 <= x < t.conferences.len() && seats_reserved(s)
                implies count_in(
                t.bookings,
                (#[trigger] t.conferences[x]).conference_id,
                BookingStatus::ConfirmationPending,
            ) <= t.conferences[x].available_slots by {
                let id = s.conferences[x].conference_id;
                lemma_count_push(s.bookings, b, id, BookingStatus::ConfirmationPending);
                if seats_reserved(s) {
                    assert(count_in(
                        s.bookings,
                        s.conferences[x].conference_id,
                        BookingStatus::ConfirmationPending,
                    ) <= s.conferences[x].available_slots);
                }
            }
        }
    }
}

/// Uniqueness: in a fair state a user has at most one active booking on a
/// conference.
pub proof fn law_uniqueness(s: StoreView, i: int, j: int)
    requires
        fair(s),
        0 <= i < s.bookings.len(),
        0 <= j < s.bookings.len(),
        i != j,
        is_active(s.bookings[i]),
        is_active(s.bookings[j]),
        s.bookings[i].user_id == s.bookings[j].user_id,
    ensures
        s.bookings[i].conference_id != s.bookings[j].conference_id,
{
    if i < j {
        assert(is_active(s.bookings[i]) && is_active(s.bookings[j]));
    } else {
        assert(is_active(s.bookings[j]) && is_active(s.bookings[i]));
    }
}

/// No overlap: in a valid and fair state the conferences of two active
/// bookings of one user do not overlap in time.
pub proof fn law_no_user_overlap(s: StoreView, i: int, j: int)
    requires
        valid(s),
        fair(s),
        0 <= i < s.bookings.len(),
        0 <= j < s.bookings.len(),
        i != j,
        is_active(s.bookings[i]),
        is_active(s.bookings[j]),
        s.bookings[i].user_id == s.bookings[j].user_id,
    ensures
        !crate::state::intervals_overlap(
            conference_of(s.conferences, s.bookings[i].conference_id).start_timestamp as int,
            conference_of(s.conferences, s.bookings[i].conference_id).end_timestamp as int,
            conference_of(s.conferences, s.bookings[j].conference_id).start_timestamp as int,
            conference_of(s.conferences, s.bookings[j].conference_id).end_timestamp as int,
        ),
{
    assert(has_conference(s.conferences, s.bookings[i].conference_id));
    assert(has_conference(s.conferences, s.bookings[j].conference_id));
    if i < j {
        assert(is_active(s.bookings[i]) && is_active(s.bookings[j]));
        assert(!booking_meets(
            s.conferences,
            s.bookings[i],
            conference_of(s.conferences, s.bookings[j].conference_id).start_timestamp,
            conference_of(s.conferences, s.bookings[j].conference_id).end_timestamp,
        ));
    } else {
        assert(is_active(s.bookings[j]) && is_active(s.bookings[i]));
        assert(!booking_meets(
            s.conferences,
            s.bookings[j],
            conference_of(s.conferences, s.bookings[i].conference_id).start_timestamp,
            conference_of(s.conferences, s.bookings[i].conference_id).end_timestamp,
        ));
    }
}

/// Ownership: a request to confirm a booking on behalf of a user who does
/// not own it is refused for that reason and changes nothing, whatever the
/// time and the state of the booking.
pub proof fn law_ownership(
    s: StoreView,
    booking_id: i32,
    user_id: Seq<char>,
    now: i64,
    after: StoreView,
    r: Result<Booking, Error>,
)
    requires
        confirm_post(s, booking_id, user_id, now, after, r),
        has_booking(s.bookings, booking_id),
        booking_of(s.bookings, booking_id).user_id != user_id,
    ensures
        r == Err::<Booking, Error>(Error::NotOwner),
        after == s,
{
}

/// The guard on direct confirmation: while a booking of the conference is
/// pending confirmation or waiting, no request to book it is confirmed at
/// once, however it ends. The free seats and the confirmed bookings of the
/// conference stay as they are; a request that is granted joins the
/// waitlist behind every position held; one that is refused changes nothing.
pub proof fn law_direct_confirm_guard(
    s: StoreView,
    conference_id: i32,
    user_id: Seq<char>,
    now: i64,
    after: StoreView,
    r: Result<Booking, Error>,
)
    requires
        valid(s),
        booking_post(s, conference_id, user_id, now, after, r),
        count_in(s.bookings, conference_id, BookingStatus::ConfirmationPending) + count_in(
            s.bookings,
            conference_id,
            BookingStatus::WAITLISTED,
        ) > 0,
    ensures
        after.conferences == s.conferences,
        count_in(after.bookings, conference_id, BookingStatus::CONFIRMED) == count_in(
            s.bookings,
            conference_id,
            BookingStatus::CONFIRMED,
        ),
        r is Err ==> after == s,
        r matches Ok(b) ==> {
            &&& b.status == BookingStatus::WAITLISTED
            &&& b.waitlist_position == Some(next_position(s.bookings, conference_id) as i32)
            &&& after.bookings == s.bookings.push(b@)
            &&& forall|i: int|
                0 <= i < s.bookings.len() && is_in(
                    #[trigger] s.bookings[i],
                    conference_id,
                    BookingStatus::WAITLISTED,
                ) ==> position_key(s.bookings[i]) < position_key(b@)
        },
{
    lemma_max_position(s.bookings, conference_id);
    match r {
        Ok(b) => {
            lemma_count_push(s.bookings, b@, conference_id, BookingStatus::CONFIRMED);
            assert forall|i: int|
                0 <= i < s.bookings.len() && is_in(
                    #[trigger] s.bookings[i],
                    conference_id,
                    BookingStatus::WAITLISTED,
                ) implies position_key(s.bookings[i]) < position_key(b@) by {
                assert(crate::state::booking_consistent(s.bookings[i]));
            }
        },
        Err(_) => {},
    }
}

/// Forfeit: however the end of a confirmation window is handled for a
/// booking that is still pending on the named conference, the booking
/// either goes behind all who wait for that conference, with a position one
/// above the largest held, no deadline and no right to confirm, or, where
/// no position is left, nothing changes and the outcome is an error.
pub proof fn law_forfeit_to_tail(
    s: StoreView,
    booking_id: i32,
    conference_name: Seq<char>,
    after: StoreView,
    r: Result<bool, Error>,
)
    requires
        valid(s),
        crate::actions::requeue_post(s, booking_id, conference_name, after, r),
        has_conference_named(s.conferences, conference_name),
        is_expirable(
            s,
            booking_id,
            conference_named(s.conferences, conference_name).conference_id,
        ),
    ensures
        ({
            let c = conference_named(s.conferences, conference_name).conference_id;
            let i = booking_index(s.bookings, booking_id);
            match r {
                Ok(moved) => {
                    &&& moved
                    &&& max_position(s.bookings, c) < i32::MAX
                    &&& after.conferences == s.conferences
                    &&& after.bookings == s.bookings.update(i, after.bookings[i])
                    &&& after.bookings[i].status == BookingStatus::WAITLISTED
                    &&& after.bookings[i].waitlist_position == Some(
                        (max_position(s.bookings, c) + 1) as i32,
                    )
                    &&& after.bookings[i].can_confirm == Some(false)
                    &&& after.bookings[i].waitlist_confirmation_deadline is None
                    &&& forall|j: int|
                        0 <= j < s.bookings.len() && j != i && is_in(
                            #[trigger] after.bookings[j],
                            c,
                            BookingStatus::WAITLISTED,
                        ) ==> position_key(after.bookings[j]) < position_key(after.bookings[i])
                },
                Err(e) => e == Error::StorageExhausted && max_position(s.bookings, c) == i32::MAX
                    && after == s,
            }
        }),
{
    let c = conference_named(s.conferences, conference_name).conference_id;
    let i = booking_index(s.bookings, booking_id);
    assert(is_booking_at(s.bookings, booking_id, i));
    lemma_max_position(s.bookings, c);
    if r is Ok {
        assert forall|j: int|
            0 <= j < s.bookings.len() && j != i && is_in(
                #[trigger] after.bookings[j],
                c,
                BookingStatus::WAITLISTED,
            ) implies position_key(after.bookings[j]) < position_key(after.bookings[i]) by {
            assert(after.bookings[j] == s.bookings[j]);
            assert(crate::state::booking_consistent(s.bookings[j]));
        }
    }
}

/// Seats are conserved from the start: however the creation of a conference
/// ends, the state stays valid. A conference that is created has the name,
/// the place, the times and the seats asked for, all seats free and no
/// booking; where it is refused nothing changes.
pub proof fn law_created_conference_conserves(
    s: StoreView,
    form: crate::models::NewConferenceView,
    start: Option<i64>,
    end: Option<i64>,
    now: i64,
    after: StoreView,
    r: Result<crate::models::Conference, Error>,
)
    requires
        valid(s),
        crate::actions::create_conference_post(s, form, start, end, now, after, r),
    ensures
        valid(after),
        r is Err ==> after == s,
        r matches Ok(c) ==> {
            &&& c@.name == form.name
            &&& c@.location == form.location
            &&& c.start_timestamp == start->0
            &&& c.end_timestamp == end->0
            &&& c.start_timestamp < c.end_timestamp
            &&& c.total_slots == form.slots
            &&& c.total_slots >= 1
            &&& c.available_slots == c.total_slots
            &&& after.bookings == s.bookings
            &&& has_conference(after.conferences, c.conference_id)
            &&& forall|i: int|
                0 <= i < after.bookings.len() ==> (#[trigger] after.bookings[i]).conference_id
                    != c.conference_id
            &&& count_in(after.bookings, c.conference_id, BookingStatus::CONFIRMED) == 0
        },
{
    match r {
        Ok(c) => {
            let row = c@;
            let t = crate::transitions::with_conference(s, row);
            crate::transitions::lemma_push_conference_valid(s, row);
            assert(after.users == t.users && after.conferences == t.conferences && after.bookings
                == t.bookings);
            let n = s.conferences.len() as int;
            assert(after.conferences[n] == row);
            assert(after.conferences[n].available_slots + count_in(
                after.bookings,
                after.conferences[n].conference_id,
                BookingStatus::CONFIRMED,
            ) == after.conferences[n].total_slots);
            assert forall|i: int| 0 <= i < after.bookings.len() implies (
            #[trigger] after.bookings[i]).conference_id != c.conference_id by {
                assert(has_conference(s.conferences, s.bookings[i].conference_id));
                let w = conference_index(s.conferences, s.bookings[i].conference_id);
                assert(is_conference_at(s.conferences, s.bookings[i].conference_id, w));
                if w < n - 1 {
                    assert(s.conferences[w].conference_id < s.conferences[n - 1].conference_id);
                }
            }
        },
        Err(_) => {},
    }
}

/// First come, first served: when a seat is offered, it goes to a waitlisted
/// booking of the conference that no other precedes, and every other
/// waitlisted booking keeps its place. So of two bookings that wait, the one
/// with the smaller position is offered a seat first.
pub proof fn law_fifo_promotion(
    s: StoreView,
    conference_id: i32,
    now: i64,
    window_ms: u32,
    after: StoreView,
    r: Option<Booking>,
)
    requires
        valid(s),
        promote_post(s, conference_id, now, window_ms, after, r),
        r is Some,
    ensures
        ({
            let h = waitlist_head(s.bookings, conference_id);
            &&& is_in(s.bookings[h], conference_id, BookingStatus::WAITLISTED)
            &&& after.bookings[h].status == BookingStatus::ConfirmationPending
            &&& r->Some_0.booking_id == s.bookings[h].booking_id
            &&& forall|j: int|
                0 <= j < s.bookings.len() && j != h && is_in(
                    #[trigger] s.bookings[j],
                    conference_id,
                    BookingStatus::WAITLISTED,
                ) ==> s.bookings[h].waitlist_position->0 < s.bookings[j].waitlist_position->0
                    && after.bookings[j] == s.bookings[j]
        }),
{
    let h = waitlist_head(s.bookings, conference_id);
    assert(is_waitlist_head(s.bookings, conference_id, h));
    assert forall|j: int|
        0 <= j < s.bookings.len() && j != h && is_in(
            #[trigger] s.bookings[j],
            conference_id,
            BookingStatus::WAITLISTED,
        ) implies s.bookings[h].waitlist_position->0 < s.bookings[j].waitlist_position->0
        && after.bookings[j] == s.bookings[j] by {
        assert(crate::state::booking_consistent(s.bookings[j]));
        assert(crate::state::booking_consistent(s.bookings[h]));
        if h < j {
            assert(s.bookings[h].waitlist_position != s.bookings[j].waitlist_position);
        } else {
            assert(s.bookings[j].waitlist_position != s.bookings[h].waitlist_position);
        }
    }
}

/// Idempotent expiry: handling the end of a booking's confirmation window a
/// second time, at the same moment, changes nothing. At a later moment it
/// changes nothing either, unless the first handling offered the seat to
/// the same booking again (it was the only one waiting): that booking is
/// then pending once more, and a replay at a moment with a later deadline
/// moves its deadline.
pub proof fn law_expiry_idempotent(
    s: StoreView,
    booking_id: i32,
    conference_name: Seq<char>,
    now: i64,
    window_ms: u32,
    later: i64,
)
    requires
        valid(s),
    ensures
        ({
            let once = expiry_result(s, booking_id, conference_name, now, window_ms);
            &&& valid(once)
            &&& expiry_result(once, booking_id, conference_name, now, window_ms) == once
            &&& (!expiry_due(once, booking_id, conference_name) || deadline_after(later, window_ms)
                == deadline_after(now, window_ms)) ==> expiry_result(
                once,
                booking_id,
                conference_name,
                later,
                window_ms,
            ) == once
        }),
{
    let once = expiry_result(s, booking_id, conference_name, now, window_ms);
    let cid = conference_named(s.conferences, conference_name).conference_id;
    if expiry_due(s, booking_id, conference_name) {
        let i = booking_index(s.bookings, booking_id);
        assert(is_booking_at(s.bookings, booking_id, i));
        let b = s.bookings[i];
        let p = next_position(s.bookings, cid) as i32;
        let waiting = requeued(b, p);
        let t = requeue_result(s, booking_id);
        lemma_max_position(s.bookings, cid);
        crate::transitions::lemma_update_booking_valid(s, i, waiting);
        assert(is_booking_at(t.bookings, booking_id, i));
        lemma_booking_row(t, booking_id, i);
        if can_promote(t, cid) {
            let h = waitlist_head(t.bookings, cid);
            assert(is_waitlist_head(t.bookings, cid, h));
            let offered = promoted(t.bookings[h], deadline_after(now, window_ms));
            crate::transitions::lemma_update_booking_valid(t, h, offered);
            assert(is_booking_at(once.bookings, booking_id, i));
            lemma_booking_row(once, booking_id, i);
            if h == i {
                assert forall|j: int| 0 <= j < s.bookings.len() implies !is_in(
                    #[trigger] s.bookings[j],
                    cid,
                    BookingStatus::WAITLISTED,
                ) by {
                    if j != i && is_in(s.bookings[j], cid, BookingStatus::WAITLISTED) {
                        assert(t.bookings[j] == s.bookings[j]);
                        assert(is_in(t.bookings[j], cid, BookingStatus::WAITLISTED));
                        assert(crate::state::booking_consistent(s.bookings[j]));
                    }
                }
                lemma_max_position_zero(s.bookings, cid);
                assert forall|j: int| 0 <= j < once.bookings.len() implies !is_in(
                    #[trigger] once.bookings[j],
                    cid,
                    BookingStatus::WAITLISTED,
                ) by {
                    if j != i {
                        assert(once.bookings[j] == s.bookings[j]);
                    }
                }
                lemma_max_position_zero(once.bookings, cid);
                assert(requeued(offered, 1) == waiting);
                assert(requeue_result(once, booking_id).bookings =~= t.bookings);
                assert(requeue_result(once, booking_id) == t);
                assert(expiry_due(once, booking_id, conference_name));
                assert(promote_result(t, cid, later, window_ms).bookings == t.bookings.update(
                    h,
                    promoted(t.bookings[h], deadline_after(later, window_ms)),
                ));
            } else {
                assert(once.bookings[i] == waiting);
            }
        } else {
            assert(once == t);
        }
    }
}

/// Handling the end of a confirmation window keeps the state valid and fair.
pub proof fn law_expiry_keeps_fair(
    s: StoreView,
    booking_id: i32,
    conference_name: Seq<char>,
    now: i64,
    window_ms: u32,
)
    requires
        valid(s),
    ensures
        valid(expiry_result(s, booking_id, conference_name, now, window_ms)),
        fair(s) ==> fair(expiry_result(s, booking_id, conference_name, now, window_ms)),
        seats_reserved(s)
            ==> seats_reserved(expiry_result(s, booking_id, conference_name, now, window_ms)),
{
    let cid = conference_named(s.conferences, conference_name).conference_id;
    if expiry_due(s, booking_id, conference_name) {
        let i = booking_index(s.bookings, booking_id);
        assert(is_booking_at(s.bookings, booking_id, i));
        let t = requeue_result(s, booking_id);
        lemma_max_position(s.bookings, cid);
        crate::transitions::lemma_update_booking_valid(s, i, t.bookings[i]);
        law_requeue_keeps_fair(s, booking_id);
        if can_promote(t, cid) {
            law_promote_keeps_fair(t, cid, now, window_ms);
        }
    }
}

/// A state with the same conferences and bookings is as fair, and has its
/// seats as reserved.
pub proof fn lemma_same_rows_keep_fair(s: StoreView, t: StoreView)
    requires
        t.conferences == s.conferences,
        t.bookings == s.bookings,
    ensures
        fair(s) ==> fair(t),
        seats_reserved(s) ==> seats_reserved(t),
{
}

/// Replacing a pending confirmation by the same booking with another
/// deadline keeps the state fair.
pub proof fn lemma_same_booking_keeps_fair(s: StoreView, i: int, b: BookingView)
    requires
        valid(s),
        0 <= i < s.bookings.len(),
        s.bookings[i].status == BookingStatus::ConfirmationPending,
        b == (BookingView {
            waitlist_confirmation_deadline: b.waitlist_confirmation_deadline,
            ..promoted(s.bookings[i], 0)
        }),
    ensures
        fair(s) ==> fair(with_booking_at(s, i, b)),
        seats_reserved(s) ==> seats_reserved(with_booking_at(s, i, b)),
{
    let c = b.conference_id;
    assert(has_conference(s.conferences, s.bookings[i].conference_id));
    let k = conference_index(s.conferences, c);
    assert(is_conference_at(s.conferences, c, k));
    if seats_reserved(s) {
        assert(count_in(s.bookings, s.conferences[k].conference_id,
            BookingStatus::ConfirmationPending)
            <= s.conferences[k].available_slots);
    }
    lemma_free_seats_same(s, c);
    lemma_replace_keeps_fair(s, i, b, s.conferences[k].available_slots);
}

/// Appending a conference to a valid and fair state keeps the state fair.
pub proof fn law_create_conference_keeps_fair(s: StoreView, c: ConferenceView)
    requires
        valid(s),
        c.conference_id == crate::state::next_conference_id(s.conferences),
        c.available_slots >= 0,
    ensures
        fair(s) ==> fair(crate::transitions::with_conference(s, c)),
        seats_reserved(s) ==> seats_reserved(crate::transitions::with_conference(s, c)),
{
    let t = crate::transitions::with_conference(s, c);
    let n = s.conferences.len() as int;
    assert forall|id: i32| has_conference(s.conferences, id) implies has_conference(
        t.conferences,
        id,
    ) && conference_of(t.conferences, id) == conference_of(s.conferences, id) by {
        let k = conference_index(s.conferences, id);
        assert(is_conference_at(s.conferences, id, k));
        assert(is_conference_at(t.conferences, id, k));
        if k < n - 1 {
            assert(s.conferences[k].conference_id < s.conferences[n - 1].conference_id);
        }
        let w = conference_index(t.conferences, id);
        assert(is_conference_at(t.conferences, id, w));
        if w == n {
            assert(t.conferences[w].conference_id == c.conference_id);
        } else if w < k {
            assert(s.conferences[w].conference_id < s.conferences[k].conference_id);
        } else if k < w {
            assert(s.conferences[k].conference_id < s.conferences[w].conference_id);
        }
    }
    assert forall|i: int, j: int|
        fair(s) && 0 <= i < j < t.bookings.len() && is_active(#[trigger] t.bookings[i])
            && is_active(#[trigger] t.bookings[j]) && t.bookings[i].user_id
            == t.bookings[j].user_id implies !booking_meets(
        t.conferences,
        t.bookings[i],
        conference_of(t.conferences, t.bookings[j].conference_id).start_timestamp,
        conference_of(t.conferences, t.bookings[j].conference_id).end_timestamp,
    ) by {
        assert(has_conference(s.conferences, s.bookings[i].conference_id));
        assert(has_conference(s.conferences, s.bookings[j].conference_id));
        assert(!booking_meets(
            s.conferences,
            s.bookings[i],
            conference_of(s.conferences, s.bookings[j].conference_id).start_timestamp,
            conference_of(s.conferences, s.bookings[j].conference_id).end_timestamp,
        ));
    }
    assert forall|k: int| 0 <= k < t.conferences.len() && seats_reserved(s) implies count_in(
        t.bookings,
        (#[trigger] t.conferences[k]).conference_id,
        BookingStatus::ConfirmationPending,
    ) <= t.conferences[k].available_slots by {
        if k < n {
            if seats_reserved(s) {
                assert(count_in(
                    s.bookings,
                    s.conferences[k].conference_id,
                    BookingStatus::ConfirmationPending,
                ) <= s.conferences[k].available_slots);
            }
        } else {
            lemma_count_zero(s.bookings, c.conference_id, BookingStatus::ConfirmationPending);
            assert forall|x: int| 0 <= x < s.bookings.len() implies !is_in(
                #[trigger] s.bookings[x],
                c.conference_id,
                BookingStatus::ConfirmationPending,
            ) by {
                assert(has_conference(s.conferences, s.bookings[x].conference_id));
                let w = conference_index(s.conferences, s.bookings[x].conference_id);
                assert(is_conference_at(s.conferences, s.bookings[x].conference_id, w));
                if w < n - 1 {
                    assert(s.conferences[w].conference_id < s.conferences[n - 1].conference_id);
                }
            }
        }
    }
}

/// Positions grow: a booking that joins a waitlist, be it new or sent back
/// from a pending confirmation, gets a position above every position held
/// on that waitlist, so it is served after all who wait there.
pub proof fn law_positions_grow(bookings: Seq<BookingView>, conference_id: i32, i: int)
    requires
        0 <= i < bookings.len(),
        is_in(bookings[i], conference_id, BookingStatus::WAITLISTED),
    ensures
        position_key(bookings[i]) == i32::MAX + 1 || position_key(bookings[i]) < next_position(
            bookings,
            conference_id,
        ),
{
    lemma_max_position(bookings, conference_id);
}

/// Every booking that is cancelled in `s` is the same row in `t`.
pub open spec fn keeps_cancelled(s: Seq<BookingView>, t: Seq<BookingView>) -> bool {
    forall|i: int|
        0 <= i < s.len() && (#[trigger] s[i]).status == BookingStatus::CANCELED ==> i < t.len()
            && t[i] == s[i]
}

/// Cancelled is final: no step changes a booking that is cancelled.
pub proof fn law_cancelled_is_final(
    s: StoreView,
    booking_id: i32,
    conference_id: i32,
    conference_name: Seq<char>,
    user_id: Seq<char>,
    start: i64,
    end: i64,
    now: i64,
    window_ms: u32,
)
    requires
        valid(s),
    ensures
        cancel_refusal(s, booking_id) is None ==> keeps_cancelled(
            s.bookings,
            cancel_result(s, booking_id, now, window_ms).bookings,
        ),
        confirm_refusal(s, booking_id, user_id, now) is None ==> keeps_cancelled(
            s.bookings,
            confirm_result(s, booking_id, now).bookings,
        ),
        booking_refusal(s, conference_id, user_id) is None ==> keeps_cancelled(
            s.bookings,
            booking_result(s, conference_id, user_id, now).bookings,
        ),
        can_promote(s, conference_id) ==> keeps_cancelled(
            s.bookings,
            promote_result(s, conference_id, now, window_ms).bookings,
        ),
        keeps_cancelled(s.bookings, expiry_result(s, booking_id, conference_name, now,
            window_ms).bookings),
        keeps_cancelled(s.bookings, purge_result(s, conference_id, now).bookings),
        keeps_cancelled(
            s.bookings,
            cascade_result(s, user_id, start, end, conference_id, now).bookings,
        ),
        keeps_cancelled(s.bookings, crate::actions::sweep_result(s, now).bookings),
{
    if cancel_refusal(s, booking_id) is None {
        let i = booking_index(s.bookings, booking_id);
        assert(is_booking_at(s.bookings, booking_id, i));
        if cancel_offers(s, booking_id, now) {
            let struck = cancel_step(s, booking_id, now);
            let c = s.bookings[i].conference_id;
            let h = waitlist_head(struck.bookings, c);
            assert(is_waitlist_head(struck.bookings, c, h));
        }
    }
    if confirm_refusal(s, booking_id, user_id, now) is None {
        let i = booking_index(s.bookings, booking_id);
        assert(is_booking_at(s.bookings, booking_id, i));
    }
    if can_promote(s, conference_id) {
        let h = waitlist_head(s.bookings, conference_id);
        assert(is_waitlist_head(s.bookings, conference_id, h));
    }
    if expiry_due(s, booking_id, conference_name) {
        let cid = conference_named(s.conferences, conference_name).conference_id;
        let i = booking_index(s.bookings, booking_id);
        assert(is_booking_at(s.bookings, booking_id, i));
        let t = requeue_result(s, booking_id);
        if can_promote(t, cid) {
            let h = waitlist_head(t.bookings, cid);
            assert(is_waitlist_head(t.bookings, cid, h));
        }
    }
}

/// Nothing is offered where nothing is free: a conference without a free
/// seat has no seat to offer, whoever waits.
pub proof fn law_nothing_to_offer(s: StoreView, conference_id: i32)
    requires
        conference_of(s.conferences, conference_id).available_slots <= 0,
    ensures
        !can_promote(s, conference_id),
{
}

/// A seat is offered wherever one is free and somebody waits: the head of
/// the conference's waitlist becomes pending confirmation until the end of
/// the window, and nothing else changes.
pub proof fn law_free_seat_is_offered(
    s: StoreView,
    conference_id: i32,
    now: i64,
    window_ms: u32,
)
    requires
        valid(s),
        has_conference(s.conferences, conference_id),
        conference_of(s.conferences, conference_id).available_slots > 0,
        count_in(s.bookings, conference_id, BookingStatus::WAITLISTED) > 0,
    ensures
        can_promote(s, conference_id),
        ({
            let h = waitlist_head(s.bookings, conference_id);
            let t = promote_result(s, conference_id, now, window_ms);
            &&& is_waitlist_head(s.bookings, conference_id, h)
            &&& t.conferences == s.conferences
            &&& t.bookings == s.bookings.update(
                h,
                promoted(s.bookings[h], deadline_after(now, window_ms)),
            )
        }),
{
    crate::lemmas::lemma_waitlist_head_exists(s.bookings, conference_id);
    let h = waitlist_head(s.bookings, conference_id);
    assert(is_waitlist_head(s.bookings, conference_id, h));
}

/// A released seat is offered: after a confirmed or pending booking of a
/// conference was struck in a valid state, a seat of that conference can be
/// offered exactly if the conference has a free seat then and somebody
/// waits; where every pending confirmation had its seat, it has a free
/// seat, so that cancelling offers the seat exactly if somebody waits.
pub proof fn law_release_offers_seat(s: StoreView, booking_id: i32, now: i64)
    requires
        valid(s),
        cancel_refusal(s, booking_id) is None,
        releases_seat(booking_of(s.bookings, booking_id)),
    ensures
        cancel_offers(s, booking_id, now) <==> conference_of(
            cancel_step(s, booking_id, now).conferences,
            booking_of(s.bookings, booking_id).conference_id,
        ).available_slots > 0 && count_in(
            s.bookings,
            booking_of(s.bookings, booking_id).conference_id,
            BookingStatus::WAITLISTED,
        ) > 0,
        seats_reserved(s) ==> (cancel_offers(s, booking_id, now) <==> count_in(
            s.bookings,
            booking_of(s.bookings, booking_id).conference_id,
            BookingStatus::WAITLISTED,
        ) > 0),
{
    let i = booking_index(s.bookings, booking_id);
    assert(is_booking_at(s.bookings, booking_id, i));
    let b = s.bookings[i];
    let c = b.conference_id;
    assert(has_conference(s.conferences, s.bookings[i].conference_id));
    let k = conference_index(s.conferences, c);
    assert(is_conference_at(s.conferences, c, k));
    law_strike_keeps_fair(s, booking_id, now);
    let freed = one_if_in(b, c, BookingStatus::CONFIRMED);
    let seats = (s.conferences[k].available_slots + freed) as i32;
    let t = cancel_step(s, booking_id, now);
    lemma_free_seats_frame(s, c, seats);
    lemma_count_update(s.bookings, i, canceled(b, now), c, BookingStatus::WAITLISTED);
    assert(is_conference_at(t.conferences, c, k));
    lemma_same_schedule(s, t);
    crate::lemmas::lemma_waitlist_head_exists(t.bookings, c);
}

/// A forfeited seat is offered: after a pending confirmation went back to
/// the waitlist in a valid state in which every pending confirmation had
/// its seat, a seat of its conference can be offered, to that booking if
/// nobody else waits.
pub proof fn law_forfeit_offers_seat(s: StoreView, booking_id: i32)
    requires
        valid(s),
        seats_reserved(s),
        has_booking(s.bookings, booking_id),
        booking_of(s.bookings, booking_id).status == BookingStatus::ConfirmationPending,
        next_position(s.bookings, booking_of(s.bookings, booking_id).conference_id) <= i32::MAX,
    ensures
        can_promote(
            requeue_result(s, booking_id),
            booking_of(s.bookings, booking_id).conference_id,
        ),
{
    let i = booking_index(s.bookings, booking_id);
    assert(is_booking_at(s.bookings, booking_id, i));
    let b = s.bookings[i];
    let c = b.conference_id;
    assert(has_conference(s.conferences, s.bookings[i].conference_id));
    let k = conference_index(s.conferences, c);
    assert(is_conference_at(s.conferences, c, k));
    assert(count_in(s.bookings, s.conferences[k].conference_id, BookingStatus::ConfirmationPending)
        <= s.conferences[k].available_slots);
    lemma_count_zero(s.bookings, c, BookingStatus::ConfirmationPending);
    assert(is_in(s.bookings[i], c, BookingStatus::ConfirmationPending));
    let t = requeue_result(s, booking_id);
    lemma_max_position(s.bookings, c);
    lemma_count_update(s.bookings, i, t.bookings[i], c, BookingStatus::WAITLISTED);
    crate::lemmas::lemma_waitlist_head_exists(t.bookings, c);
}

/// Validity is kept: every step takes a valid state to a valid state, so
/// that seats stay conserved, rows stay consistent and waitlist positions
/// stay apart whatever is done in whatever order.
pub proof fn law_steps_keep_valid(
    s: StoreView,
    booking_id: i32,
    conference_id: i32,
    conference_name: Seq<char>,
    user_id: Seq<char>,
    start: i64,
    end: i64,
    now: i64,
    window_ms: u32,
)
    requires
        valid(s),
    ensures
        cancel_refusal(s, booking_id) is None ==> valid(
            cancel_result(s, booking_id, now, window_ms),
        ),
        confirm_refusal(s, booking_id, user_id, now) is None ==> valid(
            confirm_result(s, booking_id, now),
        ),
        booking_refusal(s, conference_id, user_id) is None ==> valid(
            booking_result(s, conference_id, user_id, now),
        ),
        can_promote(s, conference_id) ==> valid(promote_result(s, conference_id, now, window_ms)),
        valid(expiry_result(s, booking_id, conference_name, now, window_ms)),
        valid(purge_result(s, conference_id, now)),
        valid(cascade_result(s, user_id, start, end, conference_id, now)),
        valid(crate::actions::sweep_result(s, now)),
{
    if cancel_refusal(s, booking_id) is None {
        law_cancel_keeps_fair(s, booking_id, now, window_ms);
    }
    if confirm_refusal(s, booking_id, user_id, now) is None {
        let i = booking_index(s.bookings, booking_id);
        assert(is_booking_at(s.bookings, booking_id, i));
        let b = s.bookings[i];
        let c = b.conference_id;
        assert(has_conference(s.conferences, s.bookings[i].conference_id));
        let k = conference_index(s.conferences, c);
        assert(is_conference_at(s.conferences, c, k));
        assert(s.conferences[k].available_slots + count_in(
            s.bookings,
            s.conferences[k].conference_id,
            BookingStatus::CONFIRMED,
        ) == s.conferences[k].total_slots);
        crate::lemmas::lemma_count_bound(s.bookings, c, BookingStatus::CONFIRMED);
        crate::lemmas::lemma_booking_id_at_least(s, s.bookings.len() - 1);
        let seats = (s.conferences[k].available_slots - 1) as i32;
        crate::transitions::lemma_replace_booking_valid(s, i, confirmed(b), seats);
        let t1 = with_booking_at(with_free_seats(s, c, seats), i, confirmed(b));
        let t = confirm_result(s, booking_id, now);
        assert(only_cancels(t1, t, now));
        crate::transitions::lemma_only_cancels_valid(t1, t, now);
    }
    if booking_refusal(s, conference_id, user_id) is None {
        let c = conference_id;
        let k = conference_index(s.conferences, c);
        assert(is_conference_at(s.conferences, c, k));
        assert(s.conferences[k].available_slots + count_in(
            s.bookings,
            s.conferences[k].conference_id,
            BookingStatus::CONFIRMED,
        ) == s.conferences[k].total_slots);
        lemma_max_position(s.bookings, c);
        if admits_directly(s, c) {
            let seats = (s.conferences[k].available_slots - 1) as i32;
            let t1 = create_confirmed_result(s, c, user_id, now);
            crate::transitions::lemma_push_booking_valid(s, t1.bookings.last(), seats);
            let t = booking_result(s, c, user_id, now);
            assert(only_cancels(t1, t, now));
            crate::transitions::lemma_only_cancels_valid(t1, t, now);
        } else {
            let t = create_waitlist_result(s, c, user_id, now);
            lemma_free_seats_same(s, c);
            crate::transitions::lemma_push_booking_valid(
                s,
                t.bookings.last(),
                s.conferences[k].available_slots,
            );
        }
    }
    if can_promote(s, conference_id) {
        let h = waitlist_head(s.bookings, conference_id);
        assert(is_waitlist_head(s.bookings, conference_id, h));
        crate::transitions::lemma_update_booking_valid(
            s,
            h,
            promoted(s.bookings[h], deadline_after(now, window_ms)),
        );
    }
    law_expiry_idempotent(s, booking_id, conference_name, now, window_ms, now);
    let purged = purge_result(s, conference_id, now);
    assert(only_cancels(s, purged, now));
    crate::transitions::lemma_only_cancels_valid(s, purged, now);
    let cleared = cascade_result(s, user_id, start, end, conference_id, now);
    assert(only_cancels(s, cleared, now));
    crate::transitions::lemma_only_cancels_valid(s, cleared, now);
    let swept = crate::actions::sweep_result(s, now);
    assert(only_cancels(s, swept, now));
    crate::transitions::lemma_only_cancels_valid(s, swept, now);
}

} // verus!
