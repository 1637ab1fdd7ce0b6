//! Taking rows in from outside and handing them out: a state is built only
//! from rows that form a valid state.

use vstd::prelude::*;
use crate::actions::{count_bookings, row_meets, row_of_conference};
use crate::models::{Booking, BookingStatus, Conference, ConferenceTopic, User, UserInterest};
use crate::state::{
    booking_consistent, booking_ids_increasing, booking_meets, bookings_refer_to_conferences,
    bookings_unique, bookings_view, conference_consistent, conference_ids_increasing,
    conference_names_distinct, conference_of, conference_topics_view, conferences_view, count_in,
    fair, has_conference, is_active, is_conference_at, no_user_overlap, seats_reserved,
    slots_conserved, user_ids_distinct, user_interests_view, users_view, valid,
    waitlist_positions_distinct, Store, StoreView,
};

verus! {

/// Whether no two users share an id.
fn check_user_ids(store: &Store) -> (r: bool)
    ensures
        r == user_ids_distinct(store@),
{
    let n = store.user_count();
    let mut j: usize = 0;
    while j < n
        invariant
            n == store@.users.len(),
            j <= n,
            forall|x: int, y: int|
                0 <= x < y < j ==> #[trigger] store@.users[x].user_id
                    != #[trigger] store@.users[y].user_id,
        decreases n - j,
    {
        let mut i: usize = 0;
        while i < j
            invariant
                n == store@.users.len(),
                j < n,
                i <= j,
                forall|x: int|
                    0 <= x < i
                        ==> #[trigger] store@.users[x].user_id != store@.users[j as int].user_id,
            decreases j - i,
        {
            if store.user_at(i).user_id == store.user_at(j).user_id {
                proof {
                    assert(store@.users[i as int].user_id == store@.users[j as int].user_id);
                }
                return false;
            }
            i += 1;
        }
        j += 1;
    }
    true
}

/// Whether no two conferences share a name.
fn check_conference_names(store: &Store) -> (r: bool)
    ensures
        r == conference_names_distinct(store@),
{
    let n = store.conference_count();
    let mut j: usize = 0;
    while j < n
        invariant
            n == store@.conferences.len(),
            j <= n,
            forall|x: int, y: int|
                0 <= x < y < j ==> #[trigger] store@.conferences[x].name
                    != #[trigger] store@.conferences[y].name,
        decreases n - j,
    {
        let mut i: usize = 0;
        while i < j
            invariant
                n == store@.conferences.len(),
                j < n,
                i <= j,
                forall|x: int|
                    0 <= x < i ==> #[trigger] store@.conferences[x].name
                        != store@.conferences[j as int].name,
            decreases j - i,
        {
            if store.conference_at(i).name == store.conference_at(j).name {
                proof {
                    assert(store@.conferences[i as int].name == store@.conferences[j as int].name);
                }
                return false;
            }
            i += 1;
        }
        j += 1;
    }
    true
}

/// Whether the conference ids are positive and grow along the rows, and
/// every conference is consistent in itself.
fn check_conferences(store: &Store) -> (r: bool)
    ensures
        r == (conference_ids_increasing(store@) && forall|i: int|
            0 <= i < store@.conferences.len() ==> conference_consistent(
                #[trigger] store@.conferences[i],
            )),
{
    let n = store.conference_count();
    let mut i: usize = 0;
    while i < n
        invariant
            n == store@.conferences.len(),
            i <= n,
            forall|x: int| 0 <= x < i ==> #[trigger] store@.conferences[x].conference_id >= 1,
            forall|x: int, y: int|
                0 <= x < y < i ==> #[trigger] store@.conferences[x].conference_id
                    < #[trigger] store@.conferences[y].conference_id,
            forall|x: int| 0 <= x < i ==> conference_consistent(#[trigger] store@.conferences[x]),
        decreases n - i,
    {
        let c = store.conference_at(i);
        if c.conference_id < 1 || !(c.start_timestamp < c.end_timestamp) || c.total_slots < 1 {
            proof {
                assert(store@.conferences[i as int].conference_id < 1 || !conference_consistent(
                    store@.conferences[i as int],
                ));
            }
            return false;
        }
        if i > 0 && store.conference_at(i - 1).conference_id >= c.conference_id {
            proof {
                assert(!(store@.conferences[i - 1].conference_id
                    < store@.conferences[i as int].conference_id));
            }
            return false;
        }
        proof {
            assert forall|x: int, y: int| 0 <= x < y < i + 1
                implies #[trigger] store@.conferences[x].conference_id
                < #[trigger] store@.conferences[y].conference_id by {
                if y == i && x < i - 1 {
                    assert(store@.conferences[x].conference_id < store@.conferences[i
                        - 1].conference_id);
                }
            }
        }
        i += 1;
    }
    true
}

/// Whether the fields of a booking agree with its status.
fn check_booking(b: &Booking) -> (r: bool)
    ensures
        r == booking_consistent(b@),
{
    match b.status {
        BookingStatus::ConfirmationPending => {
            let flag = match b.can_confirm {
                Some(true) => true,
                _ => false,
            };
            flag && b.waitlist_confirmation_deadline.is_some() && b.waitlist_position.is_none()
        },
        BookingStatus::WAITLISTED => {
            let flag = match b.can_confirm {
                Some(false) => true,
                _ => false,
            };
            let placed = match b.waitlist_position {
                Some(p) => p >= 1,
                None => false,
            };
            flag && b.waitlist_confirmation_deadline.is_none() && placed
        },
        BookingStatus::CONFIRMED => {
            let flag = match b.can_confirm {
                Some(false) => true,
                _ => false,
            };
            flag && b.waitlist_confirmation_deadline.is_none() && b.waitlist_position.is_none()
        },
        BookingStatus::CANCELED => {
            let flag = match b.can_confirm {
                Some(false) => true,
                _ => false,
            };
            flag && b.waitlist_confirmation_deadline.is_none() && b.waitlist_position.is_none()
                && b.canceled_at.is_some()
        },
    }
}

/// Whether some conference row has this id.
fn knows_conference(store: &Store, conference_id: i32) -> (r: bool)
    ensures
        r == has_conference(store@.conferences, conference_id),
{
    let n = store.conference_count();
    let mut i: usize = 0;
    while i < n
        invariant
            n == store@.conferences.len(),
            i <= n,
            forall|j: int| 0 <= j < i ==> !is_conference_at(store@.conferences, conference_id, j),
        decreases n - i,
    {
        if store.conference_at(i).conference_id == conference_id {
            proof {
                assert(is_conference_at(store@.conferences, conference_id, i as int));
            }
            return true;
        }
        i += 1;
    }
    false
}

/// Whether the booking ids are positive and grow along the rows, every
/// booking is on a stored conference, and every booking is consistent in
/// itself.
fn check_bookings(store: &Store) -> (r: bool)
    ensures
        r == (booking_ids_increasing(store@) && bookings_refer_to_conferences(store@)
            && forall|i: int|
            0 <= i < store@.bookings.len() ==> booking_consistent(#[trigger] store@.bookings[i])),
{
    let n = store.booking_count();
    let mut i: usize = 0;
    while i < n
        invariant
            n == store@.bookings.len(),
            i <= n,
            forall|x: int| 0 <= x < i ==> #[trigger] store@.bookings[x].booking_id >= 1,
            forall|x: int, y: int|
                0 <= x < y < i ==> #[trigger] store@.bookings[x].booking_id
                    < #[trigger] store@.bookings[y].booking_id,
            forall|x: int|
                0 <= x < i ==> has_conference(
                    store@.conferences,
                    #[trigger] store@.bookings[x].conference_id,
                ),
            forall|x: int| 0 <= x < i ==> booking_consistent(#[trigger] store@.bookings[x]),
        decreases n - i,
    {
        let b = store.booking_at(i);
        if b.booking_id < 1 || !check_booking(b) || !knows_conference(store, b.conference_id) {
            proof {
                assert(store@.bookings[i as int].booking_id < 1 || !booking_consistent(
                    store@.bookings[i as int],
                ) || !has_conference(store@.conferences, store@.bookings[i as int].conference_id));
            }
            return false;
        }
        if i > 0 && store.booking_at(i - 1).booking_id >= b.booking_id {
            proof {
                assert(!(store@.bookings[i - 1].booking_id < store@.bookings[i as int].booking_id));
            }
            return false;
        }
        proof {
            assert forall|x: int, y: int| 0 <= x < y < i + 1
                implies #[trigger] store@.bookings[x].booking_id
                < #[trigger] store@.bookings[y].booking_id by {
                if y == i && x < i - 1 {
                    assert(store@.bookings[x].booking_id < store@.bookings[i - 1].booking_id);
                }
            }
        }
        i += 1;
    }
    true
}

/// Whether the free seats and the confirmed bookings of every conference
/// add up to its capacity.
fn check_slots(store: &Store) -> (r: bool)
    ensures
        r == slots_conserved(store@),
{
    let n = store.conference_count();
    let mut i: usize = 0;
    while i < n
        invariant
            n == store@.conferences.len(),
            i <= n,
            forall|x: int|
                0 <= x < i ==> (#[trigger] store@.conferences[x]).available_slots as int + count_in(
                    store@.bookings,
                    store@.conferences[x].conference_id,
                    BookingStatus::CONFIRMED,
                ) == store@.conferences[x].total_slots,
        decreases n - i,
    {
        let c = store.conference_at(i);
        let confirmed = count_bookings(
            store,
            c.conference_id,
            BookingStatus::CONFIRMED,
        );
        if c.available_slots as i128 + confirmed as i128 != c.total_slots as i128 {
            proof {
                assert(store@.conferences[i as int].available_slots as int + count_in(
                    store@.bookings,
                    store@.conferences[i as int].conference_id,
                    BookingStatus::CONFIRMED,
                ) != store@.conferences[i as int].total_slots);
            }
            return false;
        }
        i += 1;
    }
    true
}

/// Whether no two waitlisted bookings of one conference share a position.
fn check_positions(store: &Store) -> (r: bool)
    ensures
        r == waitlist_positions_distinct(store@),
{
    let n = store.booking_count();
    let mut j: usize = 0;
    while j < n
        invariant
            n == store@.bookings.len(),
            j <= n,
            forall|x: int, y: int|
                0 <= x < y < j && (#[trigger] store@.bookings[x]).status
                    == BookingStatus::WAITLISTED && (#[trigger] store@.bookings[y]).status
                    == BookingStatus::WAITLISTED && store@.bookings[x].conference_id
                    == store@.bookings[y].conference_id ==> store@.bookings[x].waitlist_position
                    != store@.bookings[y].waitlist_position,
        decreases n - j,
    {
        let b = store.booking_at(j);
        if b.status == BookingStatus::WAITLISTED {
            let mut i: usize = 0;
            while i < j
                invariant
                    n == store@.bookings.len(),
                    j < n,
                    i <= j,
                    b@ == store@.bookings[j as int],
                    b.status == BookingStatus::WAITLISTED,
                    forall|x: int|
                        0 <= x < i && (#[trigger] store@.bookings[x]).status
                            == BookingStatus::WAITLISTED && store@.bookings[x].conference_id
                            == b.conference_id ==> store@.bookings[x].waitlist_position
                            != b.waitlist_position,
                decreases j - i,
            {
                let a = store.booking_at(i);
                let same = match (a.waitlist_position, b.waitlist_position) {
                    (Some(p), Some(q)) => p == q,
                    (None, None) => true,
                    _ => false,
                };
                if a.status == BookingStatus::WAITLISTED && a.conference_id == b.conference_id
                    && same {
                    proof {
                        assert(store@.bookings[i as int].waitlist_position
                            == store@.bookings[j as int].waitlist_position);
                    }
                    return false;
                }
                i += 1;
            }
        }
        j += 1;
    }
    true
}

impl Store {
    /// Builds a state from rows, given in the order of their ids; `None`
    /// where the rows do not form a valid state.
    pub fn from_rows(
        users: Vec<User>,
        user_interests: Vec<UserInterest>,
        conferences: Vec<Conference>,
        conference_topics: Vec<ConferenceTopic>,
        bookings: Vec<Booking>,
    ) -> (r: Option<Store>)
        ensures
            match r {
                Some(store) => store.wf() && store@ == (StoreView {
                    users: users_view(users@),
                    user_interests: user_interests_view(user_interests@),
                    conferences: conferences_view(conferences@),
                    conference_topics: conference_topics_view(conference_topics@),
                    bookings: bookings_view(bookings@),
                }),
                None => !valid(
                    StoreView {
                        users: users_view(users@),
                        user_interests: user_interests_view(user_interests@),
                        conferences: conferences_view(conferences@),
                        conference_topics: conference_topics_view(conference_topics@),
                        bookings: bookings_view(bookings@),
                    },
                ),
            },
    {
        let store = Store { users, user_interests, conferences, conference_topics, bookings };
        proof {
            store.unfold_view();
        }
        if check_user_ids(&store) && check_conferences(&store) && check_conference_names(&store)
            && check_bookings(&store) && check_slots(&store) && check_positions(&store) {
            Some(store)
        } else {
            None
        }
    }

    /// The users, in the order of their rows.
    pub fn users(&self) -> (r: Vec<User>)
        ensures
            users_view(r@) == self@.users,
    {
        let mut rows: Vec<User> = Vec::new();
        let n = self.user_count();
        let mut i: usize = 0;
        while i < n
            invariant
                n == self@.users.len(),
                i <= n,
                users_view(rows@) == self@.users.subrange(0, i as int),
            decreases n - i,
        {
            let ghost prev = rows@;
            rows.push(self.user_at(i).clone());
            proof {
                assert(users_view(rows@) =~= users_view(prev).push(self@.users[i as int]));
                assert(users_view(rows@) =~= self@.users.subrange(0, i + 1));
            }
            i += 1;
        }
        proof {
            assert(self@.users.subrange(0, n as int) =~= self@.users);
        }
        rows
    }

    /// The conferences, in the order of their rows.
    pub fn conferences(&self) -> (r: Vec<Conference>)
        ensures
            conferences_view(r@) == self@.conferences,
    {
        let mut rows: Vec<Conference> = Vec::new();
        let n = self.conference_count();
        let mut i: usize = 0;
        while i < n
            invariant
                n == self@.conferences.len(),
                i <= n,
                conferences_view(rows@) == self@.conferences.subrange(0, i as int),
            decreases n - i,
        {
            let ghost prev = rows@;
            rows.push(self.conference_at(i).clone());
            proof {
                assert(conferences_view(rows@) =~= conferences_view(prev).push(
                    self@.conferences[i as int]));
                assert(conferences_view(rows@) =~= self@.conferences.subrange(0, i + 1));
            }
            i += 1;
        }
        proof {
            assert(self@.conferences.subrange(0, n as int) =~= self@.conferences);
        }
        rows
    }

    /// The bookings, in the order of their rows.
    pub fn bookings(&self) -> (r: Vec<Booking>)
        ensures
            bookings_view(r@) == self@.bookings,
    {
        let mut rows: Vec<Booking> = Vec::new();
        let n = self.booking_count();
        let mut i: usize = 0;
        while i < n
            invariant
                n == self@.bookings.len(),
                i <= n,
                bookings_view(rows@) == self@.bookings.subrange(0, i as int),
            decreases n - i,
        {
            let ghost prev = rows@;
            rows.push(self.booking_at(i).clone());
            proof {
                assert(bookings_view(rows@) =~= bookings_view(prev).push(self@.bookings[i as int]));
                assert(bookings_view(rows@) =~= self@.bookings.subrange(0, i + 1));
            }
            i += 1;
        }
        proof {
            assert(self@.bookings.subrange(0, n as int) =~= self@.bookings);
        }
        rows
    }
}

impl Store {
    /// The interests of the users, in the order of their rows.
    pub fn user_interests(&self) -> (r: Vec<UserInterest>)
        ensures
            user_interests_view(r@) == self@.user_interests,
    {
        let mut rows: Vec<UserInterest> = Vec::new();
        let mut i: usize = 0;
        proof {
            self.unfold_view();
        }
        while i < self.user_interests.len()
            invariant
                i <= self.user_interests.len(),
                user_interests_view(rows@) == user_interests_view(self.user_interests@).subrange(
                    0,
                    i as int,
                ),
            decreases self.user_interests.len() - i,
        {
            let ghost prev = rows@;
            let row = &self.user_interests[i];
            rows.push(UserInterest { user_id: row.user_id.clone(), topic: row.topic.clone() });
            proof {
                assert(user_interests_view(rows@) =~= user_interests_view(prev).push(
                    self.user_interests@[i as int]@,
                ));
                assert(user_interests_view(rows@) =~= user_interests_view(
                    self.user_interests@,
                ).subrange(0, i + 1));
            }
            i += 1;
        }
        proof {
            assert(user_interests_view(self.user_interests@).subrange(
                0,
                self.user_interests@.len() as int,
            ) =~= user_interests_view(self.user_interests@));
        }
        rows
    }

    /// The topics of the conferences, in the order of their rows.
    pub fn conference_topics(&self) -> (r: Vec<ConferenceTopic>)
        ensures
            conference_topics_view(r@) == self@.conference_topics,
    {
        let mut rows: Vec<ConferenceTopic> = Vec::new();
        let mut i: usize = 0;
        proof {
            self.unfold_view();
        }
        while i < self.conference_topics.len()
            invariant
                i <= self.conference_topics.len(),
                conference_topics_view(rows@) == conference_topics_view(
                    self.conference_topics@,
                ).subrange(0, i as int),
            decreases self.conference_topics.len() - i,
        {
            let ghost prev = rows@;
            let row = &self.conference_topics[i];
            rows.push(
                ConferenceTopic { conference_id: row.conference_id, topic: row.topic.clone() },
            );
            proof {
                assert(conference_topics_view(rows@) =~= conference_topics_view(prev).push(
                    self.conference_topics@[i as int]@,
                ));
                assert(conference_topics_view(rows@) =~= conference_topics_view(
                    self.conference_topics@,
                ).subrange(0, i + 1));
            }
            i += 1;
        }
        proof {
            assert(conference_topics_view(self.conference_topics@).subrange(
                0,
                self.conference_topics@.len() as int,
            ) =~= conference_topics_view(self.conference_topics@));
        }
        rows
    }
}

/// Whether every conference has a free seat for each of its pending
/// confirmations.
fn check_reserved(store: &Store) -> (r: bool)
    ensures
        r == seats_reserved(store@),
{
    let n = store.conference_count();
    let mut i: usize = 0;
    while i < n
        invariant
            n == store@.conferences.len(),
            i <= n,
            forall|x: int|
                0 <= x < i ==> count_in(
                    store@.bookings,
                    (#[trigger] store@.conferences[x]).conference_id,
                    BookingStatus::ConfirmationPending,
                ) <= store@.conferences[x].available_slots,
        decreases n - i,
    {
        let c = store.conference_at(i);
        let pending = count_bookings(store, c.conference_id, BookingStatus::ConfirmationPending);
        if c.available_slots < 0 || pending > c.available_slots as usize {
            proof {
                assert(!(count_in(
                    store@.bookings,
                    store@.conferences[i as int].conference_id,
                    BookingStatus::ConfirmationPending,
                ) <= store@.conferences[i as int].available_slots));
            }
            return false;
        }
        i += 1;
    }
    true
}

/// Whether no user holds two active bookings on one conference or on
/// conferences that overlap.
fn check_user_bookings(store: &Store) -> (r: bool)
    requires
        store.wf(),
    ensures
        r == (bookings_unique(store@) && no_user_overlap(store@)),
{
    let n = store.booking_count();
    let mut j: usize = 0;
    while j < n
        invariant
            store.wf(),
            n == store@.bookings.len(),
            j <= n,
            forall|x: int, y: int|
                0 <= x < y < j && is_active(#[trigger] store@.bookings[x]) && is_active(
                    #[trigger] store@.bookings[y],
                ) && store@.bookings[x].user_id == store@.bookings[y].user_id ==> {
                    &&& store@.bookings[x].conference_id != store@.bookings[y].conference_id
                    &&& !booking_meets(
                        store@.conferences,
                        store@.bookings[x],
                        conference_of(
                            store@.conferences,
                            store@.bookings[y].conference_id,
                        ).start_timestamp,
                        conference_of(
                            store@.conferences,
                            store@.bookings[y].conference_id,
                        ).end_timestamp,
                    )
                },
        decreases n - j,
    {
        let b = store.booking_at(j);
        if b.status != BookingStatus::CANCELED {
            proof {
                assert(has_conference(store@.conferences, store@.bookings[j as int].conference_id));
            }
            let c = store.conference_at(row_of_conference(store, b.conference_id));
            let mut i: usize = 0;
            while i < j
                invariant
                    store.wf(),
                    n == store@.bookings.len(),
                    j < n,
                    i <= j,
                    b@ == store@.bookings[j as int],
                    is_active(b@),
                    c@ == conference_of(store@.conferences, b.conference_id),
                    forall|x: int|
                        0 <= x < i && is_active(#[trigger] store@.bookings[x])
                            && store@.bookings[x].user_id == b@.user_id ==> {
                            &&& store@.bookings[x].conference_id != b.conference_id
                            &&& !booking_meets(
                                store@.conferences,
                                store@.bookings[x],
                                c.start_timestamp,
                                c.end_timestamp,
                            )
                        },
                decreases j - i,
            {
                let a = store.booking_at(i);
                if a.status != BookingStatus::CANCELED && a.user_id == b.user_id && (
                a.conference_id == b.conference_id || row_meets(
                    store,
                    i,
                    c.start_timestamp,
                    c.end_timestamp,
                )) {
                    proof {
                        assert(is_active(store@.bookings[i as int]) && is_active(
                            store@.bookings[j as int],
                        ));
                    }
                    return false;
                }
                i += 1;
            }
        }
        j += 1;
    }
    true
}

impl Store {
    /// Whether the state is fair: no user holds two active bookings on one
    /// conference or on conferences that overlap.
    pub fn is_fair(&self) -> (r: bool)
        requires
            self.wf(),
        ensures
            r == fair(self@),
    {
        check_user_bookings(self)
    }

    /// Whether every pending confirmation has its seat: no conference has
    /// more pending confirmations than free seats.
    pub fn has_seats_reserved(&self) -> (r: bool)
        ensures
            r == seats_reserved(self@),
    {
        check_reserved(self)
    }
}

} // verus!
