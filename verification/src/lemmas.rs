//! Facts about the state that the proofs of the operations share.

use vstd::prelude::*;
use crate::models::{BookingStatus, BookingView};
use crate::state::{
    booking_ids_increasing, booking_index, booking_of, conference_ids_increasing, conference_index,
    conference_named, conference_names_distinct, conference_of, count_in, has_booking,
    has_conference, has_conference_named, is_booking_at, is_conference_at, is_conference_named_at,
    is_in, is_waitlist_head, max_position, position_key, StoreView,
};

verus! {

/// 1 where the booking is on the conference and in the status, else 0.
pub open spec fn one_if_in(b: BookingView, conference_id: i32, status: BookingStatus) -> int {
    if is_in(b, conference_id, status) {
        1
    } else {
        0
    }
}

/// Where ids grow along the rows, a conference id names one row.
pub proof fn lemma_conference_row(s: StoreView, conference_id: i32, i: int)
    requires
        conference_ids_increasing(s),
        is_conference_at(s.conferences, conference_id, i),
    ensures
        has_conference(s.conferences, conference_id),
        conference_index(s.conferences, conference_id) == i,
        conference_of(s.conferences, conference_id) == s.conferences[i],
{
    let j = conference_index(s.conferences, conference_id);
    assert(is_conference_at(s.conferences, conference_id, j));
    if i < j {
        assert(s.conferences[i].conference_id < s.conferences[j].conference_id);
    } else if j < i {
        assert(s.conferences[j].conference_id < s.conferences[i].conference_id);
    }
}

/// Where names are not shared, a conference name names one row.
pub proof fn lemma_conference_name_row(s: StoreView, name: Seq<char>, i: int)
    requires
        conference_names_distinct(s),
        is_conference_named_at(s.conferences, name, i),
    ensures
        has_conference_named(s.conferences, name),
        conference_named(s.conferences, name) == s.conferences[i],
{
    let j = choose|j: int| is_conference_named_at(s.conferences, name, j);
    assert(is_conference_named_at(s.conferences, name, j));
    if i < j {
        assert(s.conferences[i].name != s.conferences[j].name);
    } else if j < i {
        assert(s.conferences[j].name != s.conferences[i].name);
    }
}

/// Where ids grow along the rows, a booking id names one row.
pub proof fn lemma_booking_row(s: StoreView, booking_id: i32, i: int)
    requires
        booking_ids_increasing(s),
        is_booking_at(s.bookings, booking_id, i),
    ensures
        has_booking(s.bookings, booking_id),
        booking_index(s.bookings, booking_id) == i,
        booking_of(s.bookings, booking_id) == s.bookings[i],
{
    let j = booking_index(s.bookings, booking_id);
    assert(is_booking_at(s.bookings, booking_id, j));
    if i < j {
        assert(s.bookings[i].booking_id < s.bookings[j].booking_id);
    } else if j < i {
        assert(s.bookings[j].booking_id < s.bookings[i].booking_id);
    }
}

/// Where ids grow along the rows, row `i` holds an id of at least `i + 1`, so
/// the number of rows is at most the last id.
pub proof fn lemma_booking_id_at_least(s: StoreView, i: int)
    requires
        booking_ids_increasing(s),
        0 <= i < s.bookings.len(),
    ensures
        s.bookings[i].booking_id >= i + 1,
    decreases i,
{
    if i > 0 {
        lemma_booking_id_at_least(s, i - 1);
        assert(s.bookings[i - 1].booking_id < s.bookings[i].booking_id);
    }
}

/// A count is at most the number of rows.
pub proof fn lemma_count_bound(
    bookings: Seq<BookingView>,
    conference_id: i32,
    status: BookingStatus,
)
    ensures
        count_in(bookings, conference_id, status) <= bookings.len(),
    decreases bookings.len(),
{
    if bookings.len() > 0 {
        lemma_count_bound(bookings.drop_last(), conference_id, status);
    }
}

/// A new row adds itself to the count that it belongs to.
pub proof fn lemma_count_push(
    bookings: Seq<BookingView>,
    b: BookingView,
    conference_id: i32,
    status: BookingStatus,
)
    ensures
        count_in(bookings.push(b), conference_id, status) == count_in(
            bookings,
            conference_id,
            status,
        ) + one_if_in(b, conference_id, status),
{
    assert(bookings.push(b).drop_last() =~= bookings);
}

/// Replacing a row takes the old row out of its count and puts the new one
/// into its own.
pub proof fn lemma_count_update(
    bookings: Seq<BookingView>,
    i: int,
    b: BookingView,
    conference_id: i32,
    status: BookingStatus,
)
    requires
        0 <= i < bookings.len(),
    ensures
        count_in(bookings.update(i, b), conference_id, status) == count_in(
            bookings,
            conference_id,
            status,
        ) - one_if_in(bookings[i], conference_id, status) + one_if_in(b, conference_id, status),
    decreases bookings.len(),
{
    if i == bookings.len() - 1 {
        assert(bookings.update(i, b).drop_last() =~= bookings.drop_last());
    } else {
        lemma_count_update(bookings.drop_last(), i, b, conference_id, status);
        assert(bookings.update(i, b).drop_last() =~= bookings.drop_last().update(i, b));
    }
}

/// Two sequences that agree row by row on who is counted have equal counts.
pub proof fn lemma_count_same(
    a: Seq<BookingView>,
    b: Seq<BookingView>,
    conference_id: i32,
    status: BookingStatus,
)
    requires
        a.len() == b.len(),
        forall|i: int|
            0 <= i < a.len() ==> is_in(#[trigger] a[i], conference_id, status) == is_in(
                b[i],
                conference_id,
                status,
            ),
    ensures
        count_in(a, conference_id, status) == count_in(b, conference_id, status),
    decreases a.len(),
{
    if a.len() > 0 {
        assert(is_in(a[a.len() - 1], conference_id, status) == is_in(
            b[a.len() - 1],
            conference_id,
            status,
        ));
        assert forall|i: int| 0 <= i < a.drop_last().len() implies is_in(
            #[trigger] a.drop_last()[i],
            conference_id,
            status,
        ) == is_in(b.drop_last()[i], conference_id, status) by {
            assert(a.drop_last()[i] == a[i]);
        }
        lemma_count_same(a.drop_last(), b.drop_last(), conference_id, status);
    }
}

/// A count is zero exactly where no row is counted.
pub proof fn lemma_count_zero(bookings: Seq<BookingView>, conference_id: i32, status: BookingStatus)
    ensures
        count_in(bookings, conference_id, status) == 0 <==> forall|i: int|
            0 <= i < bookings.len() ==> !is_in(#[trigger] bookings[i], conference_id, status),
    decreases bookings.len(),
{
    if bookings.len() > 0 {
        lemma_count_zero(bookings.drop_last(), conference_id, status);
        if count_in(bookings, conference_id, status) == 0 {
            assert forall|i: int| 0 <= i < bookings.len() implies !is_in(
                #[trigger] bookings[i],
                conference_id,
                status,
            ) by {
                if i < bookings.len() - 1 {
                    assert(bookings.drop_last()[i] == bookings[i]);
                }
            }
        } else {
            if !is_in(bookings.last(), conference_id, status) {
                let k = choose|k: int|
                    0 <= k < bookings.drop_last().len() && is_in(
                        #[trigger] bookings.drop_last()[k],
                        conference_id,
                        status,
                    );
                assert(bookings[k] == bookings.drop_last()[k]);
            }
        }
    }
}

/// No waitlisted booking of the conference holds a position above the
/// largest, which is no position of its own where the waitlist is empty.
pub proof fn lemma_max_position(bookings: Seq<BookingView>, conference_id: i32)
    ensures
        0 <= max_position(bookings, conference_id) <= i32::MAX,
        forall|i: int|
            0 <= i < bookings.len() && is_in(
                #[trigger] bookings[i],
                conference_id,
                BookingStatus::WAITLISTED,
            ) && bookings[i].waitlist_position is Some ==> bookings[i].waitlist_position->0
                <= max_position(bookings, conference_id),
    decreases bookings.len(),
{
    if bookings.len() > 0 {
        lemma_max_position(bookings.drop_last(), conference_id);
        assert forall|i: int|
            0 <= i < bookings.len() && is_in(
                #[trigger] bookings[i],
                conference_id,
                BookingStatus::WAITLISTED,
            ) && bookings[i].waitlist_position is Some implies bookings[i].waitlist_position->0
            <= max_position(bookings, conference_id) by {
            if i < bookings.len() - 1 {
                assert(bookings.drop_last()[i] == bookings[i]);
            }
        }
    }
}

/// At most one row is the head of a conference's waitlist.
pub proof fn lemma_waitlist_head_unique(
    bookings: Seq<BookingView>,
    conference_id: i32,
    i: int,
    j: int,
)
    requires
        is_waitlist_head(bookings, conference_id, i),
        is_waitlist_head(bookings, conference_id, j),
    ensures
        i == j,
{
    assert(is_in(bookings[i], conference_id, BookingStatus::WAITLISTED));
    assert(is_in(bookings[j], conference_id, BookingStatus::WAITLISTED));
}

/// Where every row counted in `b` is counted in `a`, the count of `b` is at
/// most that of `a`.
pub proof fn lemma_count_le(
    a: Seq<BookingView>,
    b: Seq<BookingView>,
    conference_id: i32,
    status: BookingStatus,
)
    requires
        a.len() == b.len(),
        forall|i: int|
            0 <= i < a.len() && is_in(#[trigger] b[i], conference_id, status) ==> is_in(
                a[i],
                conference_id,
                status,
            ),
    ensures
        count_in(b, conference_id, status) <= count_in(a, conference_id, status),
    decreases a.len(),
{
    if a.len() > 0 {
        assert(is_in(b[a.len() - 1], conference_id, status) ==> is_in(
            a[a.len() - 1],
            conference_id,
            status,
        ));
        assert forall|i: int|
            0 <= i < a.drop_last().len() && is_in(
                #[trigger] b.drop_last()[i],
                conference_id,
                status,
            ) implies is_in(a.drop_last()[i], conference_id, status) by {
            assert(b.drop_last()[i] == b[i]);
            assert(a.drop_last()[i] == a[i]);
        }
        lemma_count_le(a.drop_last(), b.drop_last(), conference_id, status);
    }
}

/// Where the conference's waitlist is empty no position is held on it, and
/// where every waitlisted booking has a position of at least 1 the converse
/// holds too.
pub proof fn lemma_max_position_zero(bookings: Seq<BookingView>, conference_id: i32)
    ensures
        (forall|i: int|
            0 <= i < bookings.len() ==> !is_in(
                #[trigger] bookings[i],
                conference_id,
                BookingStatus::WAITLISTED,
            )) ==> max_position(bookings, conference_id) == 0,
    decreases bookings.len(),
{
    if bookings.len() > 0 {
        lemma_max_position_zero(bookings.drop_last(), conference_id);
        if forall|i: int|
            0 <= i < bookings.len() ==> !is_in(
                #[trigger] bookings[i],
                conference_id,
                BookingStatus::WAITLISTED,
            ) {
            assert forall|i: int| 0 <= i < bookings.drop_last().len() implies !is_in(
                #[trigger] bookings.drop_last()[i],
                conference_id,
                BookingStatus::WAITLISTED,
            ) by {
                assert(bookings.drop_last()[i] == bookings[i]);
            }
            assert(!is_in(bookings[bookings.len() - 1], conference_id, BookingStatus::WAITLISTED));
        }
    }
}

/// Among the first `n` rows, if some booking waits for the conference, one
/// of them precedes all others that wait for it.
pub proof fn lemma_first_in_line(bookings: Seq<BookingView>, conference_id: i32, n: int) -> (h: int)
    requires
        0 <= n <= bookings.len(),
        exists|i: int|
            0 <= i < n && is_in(#[trigger] bookings[i], conference_id, BookingStatus::WAITLISTED),
    ensures
        0 <= h < n,
        is_in(bookings[h], conference_id, BookingStatus::WAITLISTED),
        forall|j: int|
            0 <= j < n && is_in(#[trigger] bookings[j], conference_id, BookingStatus::WAITLISTED)
                ==> position_key(bookings[h]) < position_key(bookings[j]) || (position_key(
                bookings[h],
            ) == position_key(bookings[j]) && h <= j),
    decreases n,
{
    let last = n - 1;
    if exists|i: int|
        0 <= i < last && is_in(#[trigger] bookings[i], conference_id, BookingStatus::WAITLISTED) {
        let h = lemma_first_in_line(bookings, conference_id, last);
        if is_in(bookings[last], conference_id, BookingStatus::WAITLISTED) && position_key(
            bookings[last],
        ) < position_key(bookings[h]) {
            last
        } else {
            h
        }
    } else {
        let w = choose|i: int|
            0 <= i < n && is_in(#[trigger] bookings[i], conference_id, BookingStatus::WAITLISTED);
        assert(w == last);
        last
    }
}

/// A waitlist has a head exactly where somebody waits.
pub proof fn lemma_waitlist_head_exists(bookings: Seq<BookingView>, conference_id: i32)
    ensures
        (exists|h: int| is_waitlist_head(bookings, conference_id, h)) <==> count_in(
            bookings,
            conference_id,
            BookingStatus::WAITLISTED,
        ) > 0,
{
    lemma_count_zero(bookings, conference_id, BookingStatus::WAITLISTED);
    if count_in(bookings, conference_id, BookingStatus::WAITLISTED) > 0 {
        let h = lemma_first_in_line(bookings, conference_id, bookings.len() as int);
        assert(is_waitlist_head(bookings, conference_id, h));
    }
    if exists|h: int| is_waitlist_head(bookings, conference_id, h) {
        let h = choose|h: int| is_waitlist_head(bookings, conference_id, h);
        assert(is_in(bookings[h], conference_id, BookingStatus::WAITLISTED));
    }
}

} // verus!
