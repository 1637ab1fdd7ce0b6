//! The steps by which the state changes, as functions on its view, and the
//! proof that each of them keeps the state valid.

use vstd::prelude::*;
use crate::lemmas::{
    lemma_conference_row, lemma_count_push, lemma_count_same, lemma_count_update, lemma_count_zero,
    lemma_max_position, one_if_in,
};
use crate::models::{BookingStatus, BookingView, ConferenceView};
use crate::state::{
    booking_consistent, booking_ids_increasing, bookings_refer_to_conferences,
    conference_consistent, conference_ids_increasing, conference_index, conference_names_distinct,
    conference_of, count_in, has_conference, has_conference_named, is_conference_at,
    is_conference_named_at, is_in, max_position, next_booking_id, next_conference_id,
    slots_conserved, user_ids_distinct, valid, waitlist_positions_distinct, StoreView,
};

verus! {

/// The length of a confirmation window where no other is chosen: ten
/// seconds, in milliseconds.
pub const DEFAULT_CONFIRMATION_WINDOW_MS: u32 = 10_000;

/// When a confirmation window of `window_ms` milliseconds that opens at
/// `now` closes; the last moment that can be told where the sum cannot.
pub open spec fn deadline_after(now: i64, window_ms: u32) -> i64 {
    if now + window_ms * 1000 > i64::MAX {
        i64::MAX
    } else {
        (now + window_ms * 1000) as i64
    }
}

// ---------------------------------------------------------------------------
// Rows
// ---------------------------------------------------------------------------

/// A booking that was confirmed at once.
pub open spec fn confirmed_row(
    booking_id: i32,
    conference_id: i32,
    user_id: Seq<char>,
    now: i64,
) -> BookingView {
    BookingView {
        booking_id,
        conference_id,
        user_id,
        status: BookingStatus::CONFIRMED,
        created_at: Some(now),
        waitlist_confirmation_deadline: None,
        canceled_at: None,
        can_confirm: Some(false),
        waitlist_position: None,
    }
}

/// A booking that joined a waitlist at `position`.
pub open spec fn waitlisted_row(
    booking_id: i32,
    conference_id: i32,
    user_id: Seq<char>,
    now: i64,
    position: i32,
) -> BookingView {
    BookingView {
        booking_id,
        conference_id,
        user_id,
        status: BookingStatus::WAITLISTED,
        created_at: Some(now),
        waitlist_confirmation_deadline: None,
        canceled_at: None,
        can_confirm: Some(false),
        waitlist_position: Some(position),
    }
}

/// The booking after it was cancelled at `now`.
pub open spec fn canceled(b: BookingView, now: i64) -> BookingView {
    BookingView {
        status: BookingStatus::CANCELED,
        canceled_at: Some(now),
        waitlist_position: None,
        can_confirm: Some(false),
        waitlist_confirmation_deadline: None,
        ..b
    }
}

/// The booking after it was confirmed.
pub open spec fn confirmed(b: BookingView) -> BookingView {
    BookingView {
        status: BookingStatus::CONFIRMED,
        waitlist_position: None,
        can_confirm: Some(false),
        waitlist_confirmation_deadline: None,
        ..b
    }
}

/// The booking after it was offered a seat, to be confirmed by `deadline`.
pub open spec fn promoted(b: BookingView, deadline: i64) -> BookingView {
    BookingView {
        status: BookingStatus::ConfirmationPending,
        waitlist_position: None,
        can_confirm: Some(true),
        waitlist_confirmation_deadline: Some(deadline),
        ..b
    }
}

/// The booking after it went back to the waitlist at `position`.
pub open spec fn requeued(b: BookingView, position: i32) -> BookingView {
    BookingView {
        status: BookingStatus::WAITLISTED,
        waitlist_position: Some(position),
        can_confirm: Some(false),
        waitlist_confirmation_deadline: None,
        ..b
    }
}

// ---------------------------------------------------------------------------
// States
// ---------------------------------------------------------------------------

/// The state with one more booking.
pub open spec fn with_booking(s: StoreView, b: BookingView) -> StoreView {
    StoreView { bookings: s.bookings.push(b), ..s }
}

/// The state with `b` in row `i` of the bookings.
pub open spec fn with_booking_at(s: StoreView, i: int, b: BookingView) -> StoreView {
    StoreView { bookings: s.bookings.update(i, b), ..s }
}

/// The conference with another number of free seats.
pub open spec fn with_seats(c: ConferenceView, available_slots: i32) -> ConferenceView {
    ConferenceView { available_slots, ..c }
}

/// The state in which the conference has `available_slots` free seats.
pub open spec fn with_free_seats(
    s: StoreView,
    conference_id: i32,
    available_slots: i32,
) -> StoreView {
    StoreView {
        conferences: s.conferences.update(
            conference_index(s.conferences, conference_id),
            with_seats(conference_of(s.conferences, conference_id), available_slots),
        ),
        ..s
    }
}

/// The state with one more conference.
pub open spec fn with_conference(s: StoreView, c: ConferenceView) -> StoreView {
    StoreView { conferences: s.conferences.push(c), ..s }
}

/// `after` is `before` with some waitlisted and pending bookings cancelled at
/// `now`, and nothing else changed.
pub open spec fn only_cancels(before: StoreView, after: StoreView, now: i64) -> bool {
    &&& after == (StoreView { bookings: after.bookings, ..before })
    &&& after.bookings.len() == before.bookings.len()
    &&& forall|i: int|
        0 <= i < before.bookings.len() ==> #[trigger] after.bookings[i] == before.bookings[i] || ((
        before.bookings[i].status == BookingStatus::WAITLISTED || before.bookings[i].status
            == BookingStatus::ConfirmationPending) && after.bookings[i] == canceled(
            before.bookings[i],
            now,
        ))
}

// ---------------------------------------------------------------------------
// Validity is kept
// ---------------------------------------------------------------------------

/// Changing the free seats of a conference leaves every row where it was and
/// every other column as it was.
pub proof fn lemma_free_seats_frame(s: StoreView, conference_id: i32, available_slots: i32)
    requires
        conference_ids_increasing(s),
        has_conference(s.conferences, conference_id),
    ensures
        ({
            let t = with_free_seats(s, conference_id, available_slots);
            &&& t.conferences.len() == s.conferences.len()
            &&& forall|i: int|
                0 <= i < s.conferences.len() ==> {
                    let before = s.conferences[i];
                    let after = #[trigger] t.conferences[i];
                    &&& after.conference_id == before.conference_id
                    &&& after.name == before.name
                    &&& after.start_timestamp == before.start_timestamp
                    &&& after.end_timestamp == before.end_timestamp
                    &&& after.total_slots == before.total_slots
                    &&& before.conference_id != conference_id ==> after == before
                    &&& before.conference_id == conference_id ==> after.available_slots
                        == available_slots
                }
            &&& conference_ids_increasing(t)
            &&& forall|id: i32|
                has_conference(s.conferences, id) == #[trigger] has_conference(t.conferences, id)
            &&& forall|id: i32|
                has_conference(s.conferences, id) ==> #[trigger] conference_index(
                    t.conferences,
                    id,
                ) == conference_index(s.conferences, id)
        }),
{
    let t = with_free_seats(s, conference_id, available_slots);
    let k = conference_index(s.conferences, conference_id);
    assert(is_conference_at(s.conferences, conference_id, k));
    assert forall|i: int| 0 <= i < s.conferences.len()
        implies (#[trigger] t.conferences[i]).conference_id
        == s.conferences[i].conference_id by {}
    assert(conference_ids_increasing(t));
    assert forall|id: i32| has_conference(s.conferences, id)
        == #[trigger] has_conference(t.conferences, id) by {
        if has_conference(s.conferences, id) {
            let i = conference_index(s.conferences, id);
            assert(is_conference_at(s.conferences, id, i));
            assert(is_conference_at(t.conferences, id, i));
        }
        if has_conference(t.conferences, id) {
            let i = conference_index(t.conferences, id);
            assert(is_conference_at(t.conferences, id, i));
            assert(is_conference_at(s.conferences, id, i));
        }
    }
    assert forall|id: i32| has_conference(s.conferences, id)
        implies #[trigger] conference_index(t.conferences, id)
        == conference_index(s.conferences, id) by {
        let i = conference_index(s.conferences, id);
        assert(is_conference_at(s.conferences, id, i));
        assert(is_conference_at(t.conferences, id, i));
        lemma_conference_row(t, id, i);
    }
}

/// Giving a conference the free seats that it has changes nothing.
pub proof fn lemma_free_seats_same(s: StoreView, conference_id: i32)
    requires
        has_conference(s.conferences, conference_id),
    ensures
        with_free_seats(s, conference_id, conference_of(s.conferences,
            conference_id).available_slots) == s,
{
    let k = conference_index(s.conferences, conference_id);
    assert(is_conference_at(s.conferences, conference_id, k));
    assert(with_free_seats(
        s,
        conference_id,
        conference_of(s.conferences, conference_id).available_slots,
    ).conferences =~= s.conferences);
}

/// Replacing a booking by one with the same id on the same conference, and
/// moving the free seats of that conference by as much as its confirmed
/// bookings changed, keeps the state valid. A booking that takes a new place
/// on the waitlist must take one behind every place that is held.
pub proof fn lemma_replace_booking_valid(s: StoreView, i: int, b: BookingView, available_slots: i32)
    requires
        valid(s),
        0 <= i < s.bookings.len(),
        b.booking_id == s.bookings[i].booking_id,
        b.conference_id == s.bookings[i].conference_id,
        booking_consistent(b),
        available_slots
            == conference_of(s.conferences, b.conference_id).available_slots + one_if_in(
            s.bookings[i],
            b.conference_id,
            BookingStatus::CONFIRMED,
        ) - one_if_in(b, b.conference_id, BookingStatus::CONFIRMED),
        b.status == BookingStatus::WAITLISTED ==> (s.bookings[i].status == BookingStatus::WAITLISTED
            && s.bookings[i].waitlist_position == b.waitlist_position) || b.waitlist_position->0
            > max_position(s.bookings, b.conference_id),
    ensures
        valid(with_booking_at(with_free_seats(s, b.conference_id, available_slots), i, b)),
{
    let c = b.conference_id;
    let m = with_free_seats(s, c, available_slots);
    let t = with_booking_at(m, i, b);
    assert(has_conference(s.conferences, s.bookings[i].conference_id));
    lemma_free_seats_frame(s, c, available_slots);
    let k = conference_index(s.conferences, c);
    assert(is_conference_at(s.conferences, c, k));
    assert(user_ids_distinct(t));
    assert(conference_ids_increasing(t)) by {
        assert(t.conferences == m.conferences);
    }
    assert(conference_names_distinct(t));
    assert(booking_ids_increasing(t));
    assert(bookings_refer_to_conferences(t)) by {
        assert forall|j: int| 0 <= j < t.bookings.len() implies has_conference(t.conferences,
            #[trigger] t.bookings[j].conference_id,
        ) by {
            assert(has_conference(s.conferences, s.bookings[j].conference_id));
            assert(has_conference(m.conferences, s.bookings[j].conference_id));
            let w = conference_index(m.conferences, s.bookings[j].conference_id);
            assert(is_conference_at(m.conferences, s.bookings[j].conference_id, w));
            assert(is_conference_at(t.conferences, t.bookings[j].conference_id, w));
        }
    }
    assert forall|j: int| 0 <= j < t.bookings.len() implies booking_consistent(
        #[trigger] t.bookings[j],
    ) by {
        if j != i {
            assert(t.bookings[j] == s.bookings[j]);
        }
    }
    assert forall|j: int| 0 <= j < t.conferences.len() implies conference_consistent(
        #[trigger] t.conferences[j],
    ) by {
        assert(conference_consistent(s.conferences[j]));
    }
    assert(slots_conserved(t)) by {
        assert forall|j: int| 0 <= j < t.conferences.len()
            implies (#[trigger] t.conferences[j]).available_slots as int
            + count_in(t.bookings, t.conferences[j].conference_id, BookingStatus::CONFIRMED)
            == t.conferences[j].total_slots by {
            let id = s.conferences[j].conference_id;
            lemma_count_update(s.bookings, i, b, id, BookingStatus::CONFIRMED);
            assert(s.conferences[j].available_slots as int + count_in(
                s.bookings,
                id,
                BookingStatus::CONFIRMED,
            ) == s.conferences[j].total_slots);
            if id == c {
                lemma_conference_row(s, c, j);
            }
        }
    }
    assert(waitlist_positions_distinct(t)) by {
        lemma_max_position(s.bookings, c);
        assert forall|x: int, y: int|
            0 <= x < y < t.bookings.len() && (#[trigger] t.bookings[x]).status
                == BookingStatus::WAITLISTED && (#[trigger] t.bookings[y]).status
                == BookingStatus::WAITLISTED && t.bookings[x].conference_id
                == t.bookings[y].conference_id implies t.bookings[x].waitlist_position
            != t.bookings[y].waitlist_position by {
            assert(booking_consistent(s.bookings[x]));
            assert(booking_consistent(s.bookings[y]));
            if x != i && y != i {
                assert(t.bookings[x] == s.bookings[x]);
                assert(t.bookings[y] == s.bookings[y]);
            } else if x == i {
                assert(t.bookings[y] == s.bookings[y]);
                assert(is_in(s.bookings[y], c, BookingStatus::WAITLISTED));
            } else {
                assert(t.bookings[x] == s.bookings[x]);
                assert(is_in(s.bookings[x], c, BookingStatus::WAITLISTED));
            }
        }
    }
}

/// Replacing a booking without touching the confirmed ones keeps the state
/// valid.
pub proof fn lemma_update_booking_valid(s: StoreView, i: int, b: BookingView)
    requires
        valid(s),
        0 <= i < s.bookings.len(),
        b.booking_id == s.bookings[i].booking_id,
        b.conference_id == s.bookings[i].conference_id,
        booking_consistent(b),
        (s.bookings[i].status == BookingStatus::CONFIRMED) == (b.status
            == BookingStatus::CONFIRMED),
        b.status == BookingStatus::WAITLISTED ==> (s.bookings[i].status == BookingStatus::WAITLISTED
            && s.bookings[i].waitlist_position == b.waitlist_position) || b.waitlist_position->0
            > max_position(s.bookings, b.conference_id),
    ensures
        valid(with_booking_at(s, i, b)),
{
    let c = b.conference_id;
    assert(has_conference(s.conferences, s.bookings[i].conference_id));
    let seats = conference_of(s.conferences, c).available_slots;
    lemma_replace_booking_valid(s, i, b, seats);
    let k = conference_index(s.conferences, c);
    assert(is_conference_at(s.conferences, c, k));
    assert(with_free_seats(s, c, seats).conferences =~= s.conferences);
}

/// Appending a booking with the next id on a stored conference, and taking
/// a seat of that conference if the booking is confirmed, keeps the state
/// valid. A waitlisted booking must take a place behind every place held.
pub proof fn lemma_push_booking_valid(s: StoreView, b: BookingView, available_slots: i32)
    requires
        valid(s),
        b.booking_id == next_booking_id(s.bookings),
        has_conference(s.conferences, b.conference_id),
        booking_consistent(b),
        available_slots
            == conference_of(s.conferences, b.conference_id).available_slots - one_if_in(
            b,
            b.conference_id,
            BookingStatus::CONFIRMED,
        ),
        b.status == BookingStatus::WAITLISTED ==> b.waitlist_position->0 > max_position(
            s.bookings,
            b.conference_id,
        ),
    ensures
        valid(with_booking(with_free_seats(s, b.conference_id, available_slots), b)),
{
    let c = b.conference_id;
    let m = with_free_seats(s, c, available_slots);
    let t = with_booking(m, b);
    lemma_free_seats_frame(s, c, available_slots);
    let k = conference_index(s.conferences, c);
    assert(is_conference_at(s.conferences, c, k));
    assert(user_ids_distinct(t));
    assert(conference_ids_increasing(t)) by {
        assert(t.conferences == m.conferences);
    }
    assert(conference_names_distinct(t));
    assert(booking_ids_increasing(t)) by {
        assert forall|x: int, y: int| 0 <= x < y < t.bookings.len()
            implies #[trigger] t.bookings[x].booking_id
            < #[trigger] t.bookings[y].booking_id by {
            if y == s.bookings.len() {
                if x < s.bookings.len() - 1 {
                    assert(s.bookings[x].booking_id < s.bookings[s.bookings.len() - 1].booking_id);
                }
            }
        }
        assert forall|x: int| 0 <= x < t.bookings.len() implies #[trigger] t.bookings[x].booking_id
            >= 1 by {
            if x == s.bookings.len() && s.bookings.len() > 0 {
                assert(s.bookings[s.bookings.len() - 1].booking_id >= 1);
            }
        }
    }
    assert(bookings_refer_to_conferences(t)) by {
        assert forall|j: int| 0 <= j < t.bookings.len() implies has_conference(t.conferences,
            #[trigger] t.bookings[j].conference_id,
        ) by {
            if j < s.bookings.len() {
                assert(has_conference(s.conferences, s.bookings[j].conference_id));
            }
            assert(has_conference(m.conferences, t.bookings[j].conference_id));
            let w = conference_index(m.conferences, t.bookings[j].conference_id);
            assert(is_conference_at(m.conferences, t.bookings[j].conference_id, w));
            assert(is_conference_at(t.conferences, t.bookings[j].conference_id, w));
        }
    }
    assert forall|j: int| 0 <= j < t.bookings.len() implies booking_consistent(
        #[trigger] t.bookings[j],
    ) by {
        if j < s.bookings.len() {
            assert(t.bookings[j] == s.bookings[j]);
        }
    }
    assert forall|j: int| 0 <= j < t.conferences.len() implies conference_consistent(
        #[trigger] t.conferences[j],
    ) by {
        assert(conference_consistent(s.conferences[j]));
    }
    assert(slots_conserved(t)) by {
        assert forall|j: int| 0 <= j < t.conferences.len()
            implies (#[trigger] t.conferences[j]).available_slots as int
            + count_in(t.bookings, t.conferences[j].conference_id, BookingStatus::CONFIRMED)
            == t.conferences[j].total_slots by {
            let id = s.conferences[j].conference_id;
            lemma_count_push(s.bookings, b, id, BookingStatus::CONFIRMED);
            assert(s.conferences[j].available_slots as int + count_in(
                s.bookings,
                id,
                BookingStatus::CONFIRMED,
            ) == s.conferences[j].total_slots);
            if id == c {
                lemma_conference_row(s, c, j);
            }
        }
    }
    assert(waitlist_positions_distinct(t)) by {
        lemma_max_position(s.bookings, c);
        assert forall|x: int, y: int|
            0 <= x < y < t.bookings.len() && (#[trigger] t.bookings[x]).status
                == BookingStatus::WAITLISTED && (#[trigger] t.bookings[y]).status
                == BookingStatus::WAITLISTED && t.bookings[x].conference_id
                == t.bookings[y].conference_id implies t.bookings[x].waitlist_position
            != t.bookings[y].waitlist_position by {
            assert(t.bookings[x] == s.bookings[x]);
            assert(booking_consistent(s.bookings[x]));
            if y < s.bookings.len() {
                assert(t.bookings[y] == s.bookings[y]);
            } else {
                assert(is_in(s.bookings[x], c, BookingStatus::WAITLISTED));
            }
        }
    }
}

/// Cancelling waitlisted and pending bookings keeps the state valid.
pub proof fn lemma_only_cancels_valid(s: StoreView, t: StoreView, now: i64)
    requires
        valid(s),
        only_cancels(s, t, now),
    ensures
        valid(t),
{
    assert(bookings_refer_to_conferences(t)) by {
        assert forall|j: int| 0 <= j < t.bookings.len() implies has_conference(t.conferences,
            #[trigger] t.bookings[j].conference_id,
        ) by {
            assert(t.bookings[j].conference_id == s.bookings[j].conference_id);
            assert(has_conference(s.conferences, s.bookings[j].conference_id));
            let w = conference_index(s.conferences, s.bookings[j].conference_id);
            assert(is_conference_at(s.conferences, s.bookings[j].conference_id, w));
            assert(is_conference_at(t.conferences, t.bookings[j].conference_id, w));
        }
    }
    assert(booking_ids_increasing(t)) by {
        assert forall|x: int| 0 <= x < t.bookings.len()
            implies (#[trigger] t.bookings[x]).booking_id
            == s.bookings[x].booking_id by {}
    }
    assert forall|j: int| 0 <= j < t.bookings.len() implies booking_consistent(
        #[trigger] t.bookings[j],
    ) by {
        assert(booking_consistent(s.bookings[j]));
    }
    assert(slots_conserved(t)) by {
        assert forall|j: int| 0 <= j < t.conferences.len()
            implies (#[trigger] t.conferences[j]).available_slots as int
            + count_in(t.bookings, t.conferences[j].conference_id, BookingStatus::CONFIRMED)
            == t.conferences[j].total_slots by {
            let id = s.conferences[j].conference_id;
            assert forall|x: int| 0 <= x < s.bookings.len() implies is_in(
                #[trigger] s.bookings[x],
                id,
                BookingStatus::CONFIRMED,
            ) == is_in(t.bookings[x], id, BookingStatus::CONFIRMED) by {
                assert(t.bookings[x] == s.bookings[x] || t.bookings[x] == canceled(
                    s.bookings[x],
                    now,
                ));
            }
            lemma_count_same(s.bookings, t.bookings, id, BookingStatus::CONFIRMED);
            assert(s.conferences[j].available_slots as int + count_in(
                s.bookings,
                id,
                BookingStatus::CONFIRMED,
            ) == s.conferences[j].total_slots);
        }
    }
    assert(waitlist_positions_distinct(t)) by {
        assert forall|x: int, y: int|
            0 <= x < y < t.bookings.len() && (#[trigger] t.bookings[x]).status
                == BookingStatus::WAITLISTED && (#[trigger] t.bookings[y]).status
                == BookingStatus::WAITLISTED && t.bookings[x].conference_id
                == t.bookings[y].conference_id implies t.bookings[x].waitlist_position
            != t.bookings[y].waitlist_position by {
            assert(t.bookings[x] == s.bookings[x]);
            assert(t.bookings[y] == s.bookings[y]);
        }
    }
}

/// Appending a conference with the next id, a name that no conference has,
/// and all its seats free keeps the state valid.
pub proof fn lemma_push_conference_valid(s: StoreView, c: ConferenceView)
    requires
        valid(s),
        c.conference_id == next_conference_id(s.conferences),
        !has_conference_named(s.conferences, c.name),
        conference_consistent(c),
        c.available_slots == c.total_slots,
    ensures
        valid(with_conference(s, c)),
        has_conference(with_conference(s, c).conferences, c.conference_id),
        conference_of(with_conference(s, c).conferences, c.conference_id) == c,
{
    let t = with_conference(s, c);
    let n = s.conferences.len() as int;
    assert(t.conferences[n] == c);
    assert(conference_ids_increasing(t)) by {
        assert forall|x: int, y: int| 0 <= x < y < t.conferences.len()
            implies #[trigger] t.conferences[x].conference_id
            < #[trigger] t.conferences[y].conference_id by {
            if y == n {
                if x < n - 1 {
                    assert(s.conferences[x].conference_id < s.conferences[n - 1].conference_id);
                }
            }
        }
        assert forall|x: int| 0 <= x < t.conferences.len()
            implies #[trigger] t.conferences[x].conference_id
            >= 1 by {
            if x == n && n > 0 {
                assert(s.conferences[n - 1].conference_id >= 1);
            }
        }
    }
    assert(is_conference_at(t.conferences, c.conference_id, n));
    lemma_conference_row(t, c.conference_id, n);
    assert(conference_names_distinct(t)) by {
        assert forall|x: int, y: int| 0 <= x < y < t.conferences.len()
            implies #[trigger] t.conferences[x].name
            != #[trigger] t.conferences[y].name by {
            if y == n {
                assert(!is_conference_named_at(s.conferences, c.name, x));
            }
        }
    }
    assert(bookings_refer_to_conferences(t)) by {
        assert forall|j: int| 0 <= j < t.bookings.len() implies has_conference(
            t.conferences,
            #[trigger] t.bookings[j].conference_id,
        ) by {
            assert(has_conference(s.conferences, s.bookings[j].conference_id));
            let w = conference_index(s.conferences, s.bookings[j].conference_id);
            assert(is_conference_at(s.conferences, s.bookings[j].conference_id, w));
            assert(is_conference_at(t.conferences, t.bookings[j].conference_id, w));
        }
    }
    assert forall|j: int| 0 <= j < t.conferences.len() implies conference_consistent(
        #[trigger] t.conferences[j],
    ) by {
        if j < n {
            assert(conference_consistent(s.conferences[j]));
        }
    }
    assert(slots_conserved(t)) by {
        assert forall|j: int| 0 <= j < t.conferences.len()
            implies (#[trigger] t.conferences[j]).available_slots as int
            + count_in(t.bookings, t.conferences[j].conference_id, BookingStatus::CONFIRMED)
            == t.conferences[j].total_slots by {
            if j < n {
                assert(s.conferences[j].available_slots as int + count_in(
                    s.bookings,
                    s.conferences[j].conference_id,
                    BookingStatus::CONFIRMED,
                ) == s.conferences[j].total_slots);
            } else {
                lemma_count_zero(s.bookings, c.conference_id, BookingStatus::CONFIRMED);
                assert forall|x: int| 0 <= x < s.bookings.len() implies !is_in(
                    #[trigger] s.bookings[x],
                    c.conference_id,
                    BookingStatus::CONFIRMED,
                ) by {
                    assert(has_conference(s.conferences, s.bookings[x].conference_id));
                    let w = conference_index(s.conferences, s.bookings[x].conference_id);
                    assert(is_conference_at(s.conferences, s.bookings[x].conference_id, w));
                    if w < n - 1 {
                        assert(s.conferences[w].conference_id < s.conferences[n - 1].conference_id);
                    }
                }
            }
        }
    }
}

} // verus!
