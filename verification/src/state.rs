//! The persisted state: five relations held in memory, their mathematical
//! view, and what it means for a state to be valid.

use vstd::prelude::*;
use crate::models::{
    Booking, BookingStatus, BookingView, Conference, ConferenceTopic, ConferenceTopicView,
    ConferenceView, User, UserInterest, UserInterestView, UserView,
};

verus! {

/// The five relations as sequences of rows, in the order in which the rows
/// were inserted.
pub struct StoreView {
    pub users: Seq<UserView>,
    pub user_interests: Seq<UserInterestView>,
    pub conferences: Seq<ConferenceView>,
    pub conference_topics: Seq<ConferenceTopicView>,
    pub bookings: Seq<BookingView>,
}

/// The state with no rows.
pub open spec fn empty_store() -> StoreView {
    StoreView {
        users: Seq::empty(),
        user_interests: Seq::empty(),
        conferences: Seq::empty(),
        conference_topics: Seq::empty(),
        bookings: Seq::empty(),
    }
}

// ---------------------------------------------------------------------------
// Rows and how they are found
// ---------------------------------------------------------------------------

/// Some user row has this id.
pub open spec fn has_user(users: Seq<UserView>, user_id: Seq<char>) -> bool {
    exists|i: int| 0 <= i < users.len() && #[trigger] users[i].user_id == user_id
}

/// Row `i` is the conference with this id.
pub open spec fn is_conference_at(
    conferences: Seq<ConferenceView>,
    conference_id: i32,
    i: int,
) -> bool {
    0 <= i < conferences.len() && conferences[i].conference_id == conference_id
}

/// Some conference row has this id.
pub open spec fn has_conference(conferences: Seq<ConferenceView>, conference_id: i32) -> bool {
    exists|i: int| is_conference_at(conferences, conference_id, i)
}

/// The row of the conference with this id; meaningful where there is one.
pub open spec fn conference_index(conferences: Seq<ConferenceView>, conference_id: i32) -> int {
    choose|i: int| is_conference_at(conferences, conference_id, i)
}

/// The conference with this id; meaningful where there is one.
pub open spec fn conference_of(
    conferences: Seq<ConferenceView>,
    conference_id: i32,
) -> ConferenceView {
    conferences[conference_index(conferences, conference_id)]
}

/// Row `i` is the conference with this name.
pub open spec fn is_conference_named_at(
    conferences: Seq<ConferenceView>,
    name: Seq<char>,
    i: int,
) -> bool {
    0 <= i < conferences.len() && conferences[i].name == name
}

/// Some conference row has this name.
pub open spec fn has_conference_named(conferences: Seq<ConferenceView>, name: Seq<char>) -> bool {
    exists|i: int| is_conference_named_at(conferences, name, i)
}

/// The conference with this name; meaningful where there is one.
pub open spec fn conference_named(
    conferences: Seq<ConferenceView>,
    name: Seq<char>,
) -> ConferenceView {
    conferences[choose|i: int| is_conference_named_at(conferences, name, i)]
}

/// Row `i` is the booking with this id.
pub open spec fn is_booking_at(bookings: Seq<BookingView>, booking_id: i32, i: int) -> bool {
    0 <= i < bookings.len() && bookings[i].booking_id == booking_id
}

/// Some booking row has this id.
pub open spec fn has_booking(bookings: Seq<BookingView>, booking_id: i32) -> bool {
    exists|i: int| is_booking_at(bookings, booking_id, i)
}

/// The row of the booking with this id; meaningful where there is one.
pub open spec fn booking_index(bookings: Seq<BookingView>, booking_id: i32) -> int {
    choose|i: int| is_booking_at(bookings, booking_id, i)
}

/// The booking with this id; meaningful where there is one.
pub open spec fn booking_of(bookings: Seq<BookingView>, booking_id: i32) -> BookingView {
    bookings[booking_index(bookings, booking_id)]
}

// ---------------------------------------------------------------------------
// Predicates on bookings
// ---------------------------------------------------------------------------

/// A booking that has not been cancelled.
pub open spec fn is_active(b: BookingView) -> bool {
    b.status != BookingStatus::CANCELED
}

/// The booking is on this conference and in this status.
pub open spec fn is_in(b: BookingView, conference_id: i32, status: BookingStatus) -> bool {
    b.conference_id == conference_id && b.status == status
}

/// The half-open intervals `[s1, e1)` and `[s2, e2)` share a point.
pub open spec fn intervals_overlap(s1: int, e1: int, s2: int, e2: int) -> bool {
    s1 < e2 && s2 < e1
}

/// The booking is on a stored conference whose time meets `[start, end)`.
pub open spec fn booking_meets(
    conferences: Seq<ConferenceView>,
    b: BookingView,
    start: i64,
    end: i64,
) -> bool {
    has_conference(conferences, b.conference_id) && intervals_overlap(
        conference_of(conferences, b.conference_id).start_timestamp as int,
        conference_of(conferences, b.conference_id).end_timestamp as int,
        start as int,
        end as int,
    )
}

/// How many of the bookings are on this conference and in this status.
pub open spec fn count_in(
    bookings: Seq<BookingView>,
    conference_id: i32,
    status: BookingStatus,
) -> nat
    decreases bookings.len(),
{
    if bookings.len() == 0 {
        0
    } else {
        count_in(bookings.drop_last(), conference_id, status) + if is_in(
            bookings.last(),
            conference_id,
            status,
        ) {
            1nat
        } else {
            0nat
        }
    }
}

/// The place of a booking in the order in which a waitlist is served: its
/// position, and after every position where it has none.
pub open spec fn position_key(b: BookingView) -> int {
    match b.waitlist_position {
        Some(p) => p as int,
        None => i32::MAX as int + 1,
    }
}

/// Row `i` is the head of the conference's waitlist: it is waitlisted there,
/// no waitlisted booking of the conference has a smaller position, and among
/// equal positions it is the earliest row.
pub open spec fn is_waitlist_head(bookings: Seq<BookingView>, conference_id: i32, i: int) -> bool {
    &&& 0 <= i < bookings.len()
    &&& is_in(bookings[i], conference_id, BookingStatus::WAITLISTED)
    &&& forall|j: int|
        0 <= j < bookings.len() && is_in(
            #[trigger] bookings[j],
            conference_id,
            BookingStatus::WAITLISTED,
        ) ==> position_key(bookings[i]) < position_key(bookings[j]) || (position_key(bookings[i])
            == position_key(bookings[j]) && i <= j)
}

/// The largest position that a waitlisted booking of the conference holds,
/// and 0 where none holds one.
pub open spec fn max_position(bookings: Seq<BookingView>, conference_id: i32) -> int
    decreases bookings.len(),
{
    if bookings.len() == 0 {
        0
    } else {
        let rest = max_position(bookings.drop_last(), conference_id);
        let b = bookings.last();
        if is_in(b, conference_id, BookingStatus::WAITLISTED) && b.waitlist_position is Some
            && b.waitlist_position->0 > rest {
            b.waitlist_position->0 as int
        } else {
            rest
        }
    }
}

/// The position that the next booking to join the conference's waitlist gets.
pub open spec fn next_position(bookings: Seq<BookingView>, conference_id: i32) -> int {
    max_position(bookings, conference_id) + 1
}

/// The id that the next booking gets.
pub open spec fn next_booking_id(bookings: Seq<BookingView>) -> int {
    if bookings.len() == 0 {
        1
    } else {
        bookings.last().booking_id + 1
    }
}

/// The id that the next conference gets.
pub open spec fn next_conference_id(conferences: Seq<ConferenceView>) -> int {
    if conferences.len() == 0 {
        1
    } else {
        conferences.last().conference_id + 1
    }
}

// ---------------------------------------------------------------------------
// Validity
// ---------------------------------------------------------------------------

/// The fields of a booking agree with its status: only a pending
/// confirmation can be confirmed and has a deadline, only a waitlisted booking
/// has a position, and a cancelled booking says when it was cancelled.
pub open spec fn booking_consistent(b: BookingView) -> bool {
    match b.status {
        BookingStatus::ConfirmationPending => {
            &&& b.can_confirm == Some(true)
            &&& b.waitlist_confirmation_deadline is Some
            &&& b.waitlist_position is None
        },
        BookingStatus::WAITLISTED => {
            &&& b.can_confirm == Some(false)
            &&& b.waitlist_confirmation_deadline is None
            &&& b.waitlist_position is Some
            &&& b.waitlist_position->0 >= 1
        },
        BookingStatus::CONFIRMED => {
            &&& b.can_confirm == Some(false)
            &&& b.waitlist_confirmation_deadline is None
            &&& b.waitlist_position is None
        },
        BookingStatus::CANCELED => {
            &&& b.can_confirm == Some(false)
            &&& b.waitlist_confirmation_deadline is None
            &&& b.waitlist_position is None
            &&& b.canceled_at is Some
        },
    }
}

/// A conference starts before it ends and has at least one seat.
pub open spec fn conference_consistent(c: ConferenceView) -> bool {
    c.start_timestamp < c.end_timestamp && c.total_slots >= 1
}

/// No two users share an id.
pub open spec fn user_ids_distinct(s: StoreView) -> bool {
    forall|i: int, j: int|
        0 <= i < j < s.users.len() ==> #[trigger] s.users[i].user_id
            != #[trigger] s.users[j].user_id
}

/// Conference ids are positive and grow along the rows.
pub open spec fn conference_ids_increasing(s: StoreView) -> bool {
    &&& forall|i: int| 0 <= i < s.conferences.len()
        ==> #[trigger] s.conferences[i].conference_id >= 1
    &&& forall|i: int, j: int|
        0 <= i < j < s.conferences.len() ==> #[trigger] s.conferences[i].conference_id
            < #[trigger] s.conferences[j].conference_id
}

/// No two conferences share a name.
pub open spec fn conference_names_distinct(s: StoreView) -> bool {
    forall|i: int, j: int|
        0 <= i < j < s.conferences.len() ==> #[trigger] s.conferences[i].name
            != #[trigger] s.conferences[j].name
}

/// Booking ids are positive and grow along the rows.
pub open spec fn booking_ids_increasing(s: StoreView) -> bool {
    &&& forall|i: int| 0 <= i < s.bookings.len() ==> #[trigger] s.bookings[i].booking_id >= 1
    &&& forall|i: int, j: int|
        0 <= i < j < s.bookings.len() ==> #[trigger] s.bookings[i].booking_id
            < #[trigger] s.bookings[j].booking_id
}

/// Every booking is on a stored conference.
pub open spec fn bookings_refer_to_conferences(s: StoreView) -> bool {
    forall|i: int|
        0 <= i < s.bookings.len()
            ==> has_conference(s.conferences, #[trigger] s.bookings[i].conference_id)
}

/// For every conference, the free seats and the confirmed bookings add up to
/// its capacity.
pub open spec fn slots_conserved(s: StoreView) -> bool {
    forall|i: int|
        0 <= i < s.conferences.len() ==> (#[trigger] s.conferences[i]).available_slots as int
            + count_in(s.bookings, s.conferences[i].conference_id, BookingStatus::CONFIRMED)
            == s.conferences[i].total_slots
}

/// Within a conference no two waitlisted bookings share a position.
pub open spec fn waitlist_positions_distinct(s: StoreView) -> bool {
    forall|i: int, j: int|
        0 <= i < j < s.bookings.len() && (#[trigger] s.bookings[i]).status
            == BookingStatus::WAITLISTED && (#[trigger] s.bookings[j]).status
            == BookingStatus::WAITLISTED && s.bookings[i].conference_id
            == s.bookings[j].conference_id ==> s.bookings[i].waitlist_position
            != s.bookings[j].waitlist_position
}

/// What holds of the state after every operation of this library: keys are
/// unique, bookings refer to stored conferences, each row is consistent in
/// itself, seats are conserved, and waitlist positions are not shared.
pub open spec fn valid(s: StoreView) -> bool {
    &&& user_ids_distinct(s)
    &&& conference_ids_increasing(s)
    &&& conference_names_distinct(s)
    &&& booking_ids_increasing(s)
    &&& bookings_refer_to_conferences(s)
    &&& forall|i: int| 0 <= i < s.bookings.len() ==> booking_consistent(#[trigger] s.bookings[i])
    &&& forall|i: int|
        0 <= i < s.conferences.len() ==> conference_consistent(#[trigger] s.conferences[i])
    &&& slots_conserved(s)
    &&& waitlist_positions_distinct(s)
}

/// No user holds two active bookings on one conference.
pub open spec fn bookings_unique(s: StoreView) -> bool {
    forall|i: int, j: int|
        0 <= i < j < s.bookings.len() && is_active(#[trigger] s.bookings[i]) && is_active(
            #[trigger] s.bookings[j],
        ) && s.bookings[i].user_id == s.bookings[j].user_id ==> s.bookings[i].conference_id
            != s.bookings[j].conference_id
}

/// No user holds active bookings on two conferences whose times overlap, nor
/// two on one conference.
pub open spec fn no_user_overlap(s: StoreView) -> bool {
    forall|i: int, j: int|
        0 <= i < j < s.bookings.len() && is_active(#[trigger] s.bookings[i]) && is_active(
            #[trigger] s.bookings[j],
        ) && s.bookings[i].user_id == s.bookings[j].user_id ==> !booking_meets(s.conferences,
            s.bookings[i],
            conference_of(s.conferences, s.bookings[j].conference_id).start_timestamp,
            conference_of(s.conferences, s.bookings[j].conference_id).end_timestamp,
        )
}

/// Every pending confirmation has a free seat held for it: no conference has
/// more pending confirmations than free seats. The booking rules keep this
/// as long as a seat is offered only after one was released.
pub open spec fn seats_reserved(s: StoreView) -> bool {
    forall|i: int|
        0 <= i < s.conferences.len() ==> count_in(
            s.bookings,
            (#[trigger] s.conferences[i]).conference_id,
            BookingStatus::ConfirmationPending,
        ) <= s.conferences[i].available_slots
}

/// What the booking rules keep of the bookings of each user: one active
/// booking for each user and conference, and no overlap for a user.
pub open spec fn fair(s: StoreView) -> bool {
    &&& bookings_unique(s)
    &&& no_user_overlap(s)
}

// ---------------------------------------------------------------------------
// The state in memory
// ---------------------------------------------------------------------------

/// The views of a sequence of users.
pub open spec fn users_view(rows: Seq<User>) -> Seq<UserView> {
    Seq::new(rows.len(), |i: int| rows[i]@)
}

/// The views of a sequence of interests.
pub open spec fn user_interests_view(rows: Seq<UserInterest>) -> Seq<UserInterestView> {
    Seq::new(rows.len(), |i: int| rows[i]@)
}

/// The views of a sequence of conferences.
pub open spec fn conferences_view(rows: Seq<Conference>) -> Seq<ConferenceView> {
    Seq::new(rows.len(), |i: int| rows[i]@)
}

/// The views of a sequence of topics.
pub open spec fn conference_topics_view(rows: Seq<ConferenceTopic>) -> Seq<ConferenceTopicView> {
    Seq::new(rows.len(), |i: int| rows[i]@)
}

/// The views of a sequence of bookings.
pub open spec fn bookings_view(rows: Seq<Booking>) -> Seq<BookingView> {
    Seq::new(rows.len(), |i: int| rows[i]@)
}

/// The persisted state. Its rows can be read through the query functions of
/// this library and change only through its operations, each of which keeps
/// the state valid.
pub struct Store {
    pub(crate) users: Vec<User>,
    pub(crate) user_interests: Vec<UserInterest>,
    pub(crate) conferences: Vec<Conference>,
    pub(crate) conference_topics: Vec<ConferenceTopic>,
    pub(crate) bookings: Vec<Booking>,
}

impl Store {
    /// The rows of the state.
    pub closed spec fn view(&self) -> StoreView {
        StoreView {
            users: users_view(self.users@),
            user_interests: user_interests_view(self.user_interests@),
            conferences: conferences_view(self.conferences@),
            conference_topics: conference_topics_view(self.conference_topics@),
            bookings: bookings_view(self.bookings@),
        }
    }

    /// The state is valid.
    pub open spec fn wf(&self) -> bool {
        valid(self@)
    }

    /// How the view is made of the rows in memory.
    pub(crate) proof fn unfold_view(&self)
        ensures
            self@.users == users_view(self.users@),
            self@.user_interests == user_interests_view(self.user_interests@),
            self@.conferences == conferences_view(self.conferences@),
            self@.conference_topics == conference_topics_view(self.conference_topics@),
            self@.bookings == bookings_view(self.bookings@),
    {
    }

    /// The number of user rows.
    pub(crate) fn user_count(&self) -> (r: usize)
        ensures
            r == self@.users.len(),
    {
        self.users.len()
    }

    /// The user in row `i`.
    pub(crate) fn user_at(&self, i: usize) -> (r: &User)
        requires
            i < self@.users.len(),
        ensures
            r@ == self@.users[i as int],
    {
        &self.users[i]
    }

    /// The number of conference rows.
    pub(crate) fn conference_count(&self) -> (r: usize)
        ensures
            r == self@.conferences.len(),
    {
        self.conferences.len()
    }

    /// The conference in row `i`.
    pub(crate) fn conference_at(&self, i: usize) -> (r: &Conference)
        requires
            i < self@.conferences.len(),
        ensures
            r@ == self@.conferences[i as int],
    {
        &self.conferences[i]
    }

    /// The number of booking rows.
    pub(crate) fn booking_count(&self) -> (r: usize)
        ensures
            r == self@.bookings.len(),
    {
        self.bookings.len()
    }

    /// The booking in row `i`.
    pub(crate) fn booking_at(&self, i: usize) -> (r: &Booking)
        requires
            i < self@.bookings.len(),
        ensures
            r@ == self@.bookings[i as int],
    {
        &self.bookings[i]
    }

    /// Appends a user row.
    pub(crate) fn push_user(&mut self, row: User)
        ensures
            final(self)@ == (StoreView { users: old(self)@.users.push(row@), ..old(self)@ }),
    {
        self.users.push(row);
        proof {
            assert(final(self)@.users =~= old(self)@.users.push(row@));
        }
    }

    /// Appends a row to the interests of users.
    pub(crate) fn push_user_interest(&mut self, row: UserInterest)
        ensures
            final(self)@ == (StoreView {
                user_interests: old(self)@.user_interests.push(row@),
                ..old(self)@
            }),
    {
        self.user_interests.push(row);
        proof {
            assert(final(self)@.user_interests =~= old(self)@.user_interests.push(row@));
        }
    }

    /// Appends a conference row.
    pub(crate) fn push_conference(&mut self, row: Conference)
        ensures
            final(self)@ == (StoreView {
                conferences: old(self)@.conferences.push(row@),
                ..old(self)@
            }),
    {
        self.conferences.push(row);
        proof {
            assert(final(self)@.conferences =~= old(self)@.conferences.push(row@));
        }
    }

    /// Appends a row to the topics of conferences.
    pub(crate) fn push_conference_topic(&mut self, row: ConferenceTopic)
        ensures
            final(self)@ == (StoreView {
                conference_topics: old(self)@.conference_topics.push(row@),
                ..old(self)@
            }),
    {
        self.conference_topics.push(row);
        proof {
            assert(final(self)@.conference_topics =~= old(self)@.conference_topics.push(row@));
        }
    }

    /// Appends a booking row.
    pub(crate) fn push_booking(&mut self, row: Booking)
        ensures
            final(self)@ == (StoreView { bookings: old(self)@.bookings.push(row@), ..old(self)@ }),
    {
        self.bookings.push(row);
        proof {
            assert(final(self)@.bookings =~= old(self)@.bookings.push(row@));
        }
    }

    /// Replaces the conference in row `i`.
    pub(crate) fn put_conference(&mut self, i: usize, row: Conference)
        requires
            i < old(self)@.conferences.len(),
        ensures
            final(self)@ == (StoreView {
                conferences: old(self)@.conferences.update(i as int, row@),
                ..old(self)@
            }),
    {
        self.conferences.set(i, row);
        proof {
            assert(final(self)@.conferences =~= old(self)@.conferences.update(i as int, row@));
        }
    }

    /// Replaces the booking in row `i`.
    pub(crate) fn put_booking(&mut self, i: usize, row: Booking)
        requires
            i < old(self)@.bookings.len(),
        ensures
            final(self)@ == (StoreView {
                bookings: old(self)@.bookings.update(i as int, row@),
                ..old(self)@
            }),
    {
        self.bookings.set(i, row);
        proof {
            assert(final(self)@.bookings =~= old(self)@.bookings.update(i as int, row@));
        }
    }

    /// A state with no rows.
    pub fn new() -> (r: Store)
        ensures
            r@ == empty_store(),
            r.wf(),
            fair(r@),
            seats_reserved(r@),
    {
        let r = Store {
            users: Vec::new(),
            user_interests: Vec::new(),
            conferences: Vec::new(),
            conference_topics: Vec::new(),
            bookings: Vec::new(),
        };
        proof {
            assert(r@.users =~= Seq::empty());
            assert(r@.user_interests =~= Seq::empty());
            assert(r@.conferences =~= Seq::empty());
            assert(r@.conference_topics =~= Seq::empty());
            assert(r@.bookings =~= Seq::empty());
            assert(count_in(r@.bookings, 0, BookingStatus::CONFIRMED) == 0);
        }
        r
    }
}

} // verus!
