//! The records of the booking system and the messages of its interface.
//!
//! Points in time are whole microseconds since the Unix epoch, UTC.  Every
//! record that holds text has a view in which the text is a sequence of
//! characters; contracts are stated over the views.

use vstd::prelude::*;

verus! {

/// Where a booking stands in its life cycle.
#[derive(Clone, Copy, Debug, PartialEq, Eq, Structural)]
pub enum BookingStatus {
    CONFIRMED,
    WAITLISTED,
    CANCELED,
    ConfirmationPending,
}

/// The stored name of a status.
pub open spec fn status_name(status: BookingStatus) -> Seq<char> {
    match status {
        BookingStatus::CONFIRMED => "CONFIRMED"@,
        BookingStatus::WAITLISTED => "WAITLISTED"@,
        BookingStatus::CANCELED => "CANCELED"@,
        BookingStatus::ConfirmationPending => "CONFIRMATION_PENDING"@,
    }
}

/// The status that a stored name stands for, if it is one of the four names.
pub open spec fn status_named(name: Seq<char>) -> Option<BookingStatus> {
    if name == "CONFIRMED"@ {
        Some(BookingStatus::CONFIRMED)
    } else if name == "WAITLISTED"@ {
        Some(BookingStatus::WAITLISTED)
    } else if name == "CANCELED"@ {
        Some(BookingStatus::CANCELED)
    } else if name == "CONFIRMATION_PENDING"@ {
        Some(BookingStatus::ConfirmationPending)
    } else {
        None
    }
}

/// Compares two pieces of text character by character.
pub fn text_eq(a: &str, b: &str) -> (r: bool)
    ensures
        r == (a@ == b@),
{
    a.to_owned() == b.to_owned()
}

/// Copies a list of texts.
pub fn clone_texts(texts: &Vec<String>) -> (r: Vec<String>)
    ensures
        r@ == texts@,
{
    let mut out: Vec<String> = Vec::new();
    let mut i: usize = 0;
    while i < texts.len()
        invariant
            i <= texts.len(),
            out@ == texts@.subrange(0, i as int),
        decreases texts.len() - i,
    {
        out.push(texts[i].clone());
        proof {
            assert(out@ =~= texts@.subrange(0, i + 1));
        }
        i = i + 1;
    }
    proof {
        assert(texts@.subrange(0, texts@.len() as int) =~= texts@);
    }
    out
}

/// A list of texts as a list of character sequences.
pub open spec fn texts_view(texts: Seq<String>) -> Seq<Seq<char>> {
    Seq::new(texts.len(), |i: int| texts[i]@)
}

impl BookingStatus {
    /// The name under which the status is stored and shown.
    pub fn as_str(&self) -> (r: &'static str)
        ensures
            r@ == status_name(*self),
    {
        match self {
            BookingStatus::CONFIRMED => "CONFIRMED",
            BookingStatus::WAITLISTED => "WAITLISTED",
            BookingStatus::CANCELED => "CANCELED",
            BookingStatus::ConfirmationPending => "CONFIRMATION_PENDING",
        }
    }

    /// Reads a stored name back; any other text is no status.
    pub fn parse(name: &str) -> (r: Option<BookingStatus>)
        ensures
            r == status_named(name@),
    {
        if text_eq(name, "CONFIRMED") {
            Some(BookingStatus::CONFIRMED)
        } else if text_eq(name, "WAITLISTED") {
            Some(BookingStatus::WAITLISTED)
        } else if text_eq(name, "CANCELED") {
            Some(BookingStatus::CANCELED)
        } else if text_eq(name, "CONFIRMATION_PENDING") {
            Some(BookingStatus::ConfirmationPending)
        } else {
            None
        }
    }
}

/// Every status is read back from its own name.
pub proof fn lemma_status_name_round_trip(status: BookingStatus)
    ensures
        status_named(status_name(status)) == Some(status),
{
    reveal_strlit("CONFIRMED");
    reveal_strlit("WAITLISTED");
    reveal_strlit("CANCELED");
    reveal_strlit("CONFIRMATION_PENDING");
    assert("CONFIRMED"@.len() == 9);
    assert("WAITLISTED"@.len() == 10);
    assert("CANCELED"@.len() == 8);
    assert("CONFIRMATION_PENDING"@.len() == 20);
}

/// A registered user.
#[derive(Debug, PartialEq, Eq)]
pub struct User {
    pub user_id: String,
}

/// The view of a user, with its texts as sequences of characters.
pub struct UserView {
    pub user_id: Seq<char>,
}

impl View for User {
    type V = UserView;

    open spec fn view(&self) -> UserView {
        UserView { user_id: self.user_id@ }
    }
}

impl Clone for User {
    fn clone(&self) -> (r: Self)
        ensures
            r == *self,
    {
        User { user_id: self.user_id.clone() }
    }
}

/// A request to register a user.
#[derive(Debug, PartialEq, Eq)]
pub struct NewUser {
    pub user_id: String,
    pub topics: Vec<String>,
}

/// The view of a request to register a user, with its texts as sequences of characters.
pub struct NewUserView {
    pub user_id: Seq<char>,
    pub topics: Seq<Seq<char>>,
}

impl View for NewUser {
    type V = NewUserView;

    open spec fn view(&self) -> NewUserView {
        NewUserView { user_id: self.user_id@, topics: texts_view(self.topics@) }
    }
}

impl Clone for NewUser {
    fn clone(&self) -> (r: Self)
        ensures
            r@ == self@,
    {
        NewUser { user_id: self.user_id.clone(), topics: clone_texts(&self.topics) }
    }
}

/// One topic that a user is interested in.
#[derive(Debug, PartialEq, Eq)]
pub struct UserInterest {
    pub user_id: String,
    pub topic: String,
}

/// The view of an interest of a user, with its texts as sequences of characters.
pub struct UserInterestView {
    pub user_id: Seq<char>,
    pub topic: Seq<char>,
}

impl View for UserInterest {
    type V = UserInterestView;

    open spec fn view(&self) -> UserInterestView {
        UserInterestView { user_id: self.user_id@, topic: self.topic@ }
    }
}

/// One topic of a conference.
#[derive(Debug, PartialEq, Eq)]
pub struct ConferenceTopic {
    pub conference_id: i32,
    pub topic: String,
}

/// The view of a topic of a conference, with its texts as sequences of characters.
pub struct ConferenceTopicView {
    pub conference_id: i32,
    pub topic: Seq<char>,
}

impl View for ConferenceTopic {
    type V = ConferenceTopicView;

    open spec fn view(&self) -> ConferenceTopicView {
        ConferenceTopicView { conference_id: self.conference_id, topic: self.topic@ }
    }
}

/// A stored conference. `available_slots` counts the seats that no confirmed
/// booking holds.
#[derive(Debug, PartialEq, Eq)]
pub struct Conference {
    pub conference_id: i32,
    pub name: String,
    pub location: String,
    pub start_timestamp: i64,
    pub end_timestamp: i64,
    pub total_slots: i32,
    pub available_slots: i32,
    pub created_at: Option<i64>,
}

/// The view of a conference, with its texts as sequences of characters.
pub struct ConferenceView {
    pub conference_id: i32,
    pub name: Seq<char>,
    pub location: Seq<char>,
    pub start_timestamp: i64,
    pub end_timestamp: i64,
    pub total_slots: i32,
    pub available_slots: i32,
    pub created_at: Option<i64>,
}

impl View for Conference {
    type V = ConferenceView;

    open spec fn view(&self) -> ConferenceView {
        ConferenceView {
            conference_id: self.conference_id,
            name: self.name@,
            location: self.location@,
            start_timestamp: self.start_timestamp,
            end_timestamp: self.end_timestamp,
            total_slots: self.total_slots,
            available_slots: self.available_slots,
            created_at: self.created_at,
        }
    }
}

impl Clone for Conference {
    fn clone(&self) -> (r: Self)
        ensures
            r == *self,
    {
        Conference {
            conference_id: self.conference_id,
            name: self.name.clone(),
            location: self.location.clone(),
            start_timestamp: self.start_timestamp,
            end_timestamp: self.end_timestamp,
            total_slots: self.total_slots,
            available_slots: self.available_slots,
            created_at: self.created_at,
        }
    }
}

/// A conference that has passed validation and is about to be stored.
#[derive(Debug, PartialEq, Eq)]
pub struct NewConferenceInternal {
    pub name: String,
    pub location: String,
    pub start_timestamp: i64,
    pub end_timestamp: i64,
    pub available_slots: i32,
    pub total_slots: i32,
}

/// A request to create a conference; `start` and `end` are text of the form
/// `YYYY-MM-DD HH:MM:SS`.
#[derive(Debug, PartialEq, Eq)]
pub struct NewConference {
    pub name: String,
    pub location: String,
    pub start: String,
    pub end: String,
    pub slots: i32,
    pub topics: Vec<String>,
}

/// The view of a request to create a conference, with its texts as sequences of characters.
pub struct NewConferenceView {
    pub name: Seq<char>,
    pub location: Seq<char>,
    pub start: Seq<char>,
    pub end: Seq<char>,
    pub slots: i32,
    pub topics: Seq<Seq<char>>,
}

impl View for NewConference {
    type V = NewConferenceView;

    open spec fn view(&self) -> NewConferenceView {
        NewConferenceView {
            name: self.name@,
            location: self.location@,
            start: self.start@,
            end: self.end@,
            slots: self.slots,
            topics: texts_view(self.topics@),
        }
    }
}

impl Clone for NewConference {
    fn clone(&self) -> (r: Self)
        ensures
            r@ == self@,
    {
        NewConference {
            name: self.name.clone(),
            location: self.location.clone(),
            start: self.start.clone(),
            end: self.end.clone(),
            slots: self.slots,
            topics: clone_texts(&self.topics),
        }
    }
}

/// A stored booking.
#[derive(Debug, PartialEq, Eq)]
pub struct Booking {
    pub booking_id: i32,
    pub conference_id: i32,
    pub user_id: String,
    pub status: BookingStatus,
    pub created_at: Option<i64>,
    pub waitlist_confirmation_deadline: Option<i64>,
    pub canceled_at: Option<i64>,
    pub can_confirm: Option<bool>,
    pub waitlist_position: Option<i32>,
}

/// The view of a booking, with its texts as sequences of characters.
pub struct BookingView {
    pub booking_id: i32,
    pub conference_id: i32,
    pub user_id: Seq<char>,
    pub status: BookingStatus,
    pub created_at: Option<i64>,
    pub waitlist_confirmation_deadline: Option<i64>,
    pub canceled_at: Option<i64>,
    pub can_confirm: Option<bool>,
    pub waitlist_position: Option<i32>,
}

impl View for Booking {
    type V = BookingView;

    open spec fn view(&self) -> BookingView {
        BookingView {
            booking_id: self.booking_id,
            conference_id: self.conference_id,
            user_id: self.user_id@,
            status: self.status,
            created_at: self.created_at,
            waitlist_confirmation_deadline: self.waitlist_confirmation_deadline,
            canceled_at: self.canceled_at,
            can_confirm: self.can_confirm,
            waitlist_position: self.waitlist_position,
        }
    }
}

impl Clone for Booking {
    fn clone(&self) -> (r: Self)
        ensures
            r == *self,
    {
        Booking {
            booking_id: self.booking_id,
            conference_id: self.conference_id,
            user_id: self.user_id.clone(),
            status: self.status,
            created_at: self.created_at,
            waitlist_confirmation_deadline: self.waitlist_confirmation_deadline,
            canceled_at: self.canceled_at,
            can_confirm: self.can_confirm,
            waitlist_position: self.waitlist_position,
        }
    }
}

/// A booking that is about to be stored.
#[derive(Debug, PartialEq, Eq)]
pub struct NewBooking {
    pub conference_id: i32,
    pub user_id: String,
    pub status: BookingStatus,
    pub waitlist_position: Option<i32>,
    pub can_confirm: Option<bool>,
}

/// A request to book a seat at the conference called `name`.
#[derive(Debug, PartialEq, Eq)]
pub struct BookConferenceRequest {
    pub name: String,
    pub user_id: String,
}

impl Clone for BookConferenceRequest {
    fn clone(&self) -> (r: Self)
        ensures
            r == *self,
    {
        BookConferenceRequest { name: self.name.clone(), user_id: self.user_id.clone() }
    }
}

/// The answer to a booking request.
#[derive(Debug, PartialEq, Eq)]
pub struct BookConferenceResponse {
    pub booking_id: i32,
    pub status: BookingStatus,
    pub message: String,
    pub waitlist_position: Option<i32>,
}

/// A request that names a booking.
#[derive(Debug, PartialEq, Eq)]
pub struct BookingIdRequest {
    pub booking_id: i32,
}

/// A request to confirm a booking; only the user who owns it may do so.
#[derive(Debug, PartialEq, Eq)]
pub struct ConfirmBookingRequest {
    pub booking_id: i32,
    pub user_id: String,
}

/// What a user is told of a booking.
#[derive(Debug, PartialEq, Eq)]
pub struct BookingStatusResponse {
    pub booking_id: i32,
    pub status: BookingStatus,
    pub conference_name: String,
    pub can_confirm: bool,
    pub confirmation_deadline: Option<i64>,
    pub waitlist_position: Option<i32>,
}

/// An answer that is a message only.
#[derive(Debug, PartialEq, Eq)]
pub struct ApiResponse {
    pub message: String,
}

} // verus!
