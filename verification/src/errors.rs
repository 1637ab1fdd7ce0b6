//! Why an operation was refused.

use vstd::prelude::*;

verus! {

/// The kinds of refusal; they decide how a refusal is reported.
#[derive(Clone, Copy, Debug, PartialEq, Eq, Structural)]
pub enum ErrorKind {
    /// The input is malformed or breaks a bound or a business rule.
    Validation,
    /// The user, conference or booking is unknown.
    NotFound,
    /// The request collides with what is stored.
    Conflict,
    /// The booking is not in a state that allows the request.
    StateViolation,
    /// The store or the broker cannot serve the request now.
    Transient,
}

/// The reasons for which an operation is refused.
#[derive(Clone, Copy, Debug, PartialEq, Eq, Structural)]
pub enum Error {
    InvalidUserId,
    InvalidName,
    InvalidLocation,
    InvalidTopic,
    NoTopics,
    TooManyTopics,
    InvalidStart,
    InvalidEnd,
    StartNotBeforeEnd,
    DurationTooLong,
    SlotsNotPositive,
    UserNotFound,
    ConferenceNotFound,
    BookingNotFound,
    UserExists,
    ConferenceExists,
    DuplicateBooking,
    OverlappingBooking,
    NotOwner,
    NotPending,
    DeadlineExpired,
    ConferenceStarted,
    AlreadyCanceled,
    StatusMismatch,
    StorageExhausted,
    NotInitialized,
}

/// The kind of each reason.
pub open spec fn kind_of(e: Error) -> ErrorKind {
    match e {
        Error::InvalidUserId
        | Error::InvalidName
        | Error::InvalidLocation
        | Error::InvalidTopic
        | Error::NoTopics
        | Error::TooManyTopics
        | Error::InvalidStart
        | Error::InvalidEnd
        | Error::StartNotBeforeEnd
        | Error::DurationTooLong
        | Error::SlotsNotPositive => ErrorKind::Validation,
        Error::UserNotFound
        | Error::ConferenceNotFound
        | Error::BookingNotFound => ErrorKind::NotFound,
        Error::UserExists
        | Error::ConferenceExists
        | Error::DuplicateBooking
        | Error::OverlappingBooking => ErrorKind::Conflict,
        Error::NotOwner
        | Error::NotPending
        | Error::DeadlineExpired
        | Error::ConferenceStarted
        | Error::AlreadyCanceled
        | Error::StatusMismatch => ErrorKind::StateViolation,
        Error::StorageExhausted | Error::NotInitialized => ErrorKind::Transient,
    }
}

/// The HTTP status under which a refusal of this kind is reported.
pub open spec fn status_of(kind: ErrorKind) -> u16 {
    match kind {
        ErrorKind::Validation => 400,
        ErrorKind::NotFound => 404,
        ErrorKind::Conflict => 400,
        ErrorKind::StateViolation => 400,
        ErrorKind::Transient => 500,
    }
}

/// The message that goes with each reason.
pub open spec fn message_of(e: Error) -> Seq<char> {
    match e {
        Error::InvalidUserId => "user id should be letters and digits"@,
        Error::InvalidName => "name should be letters, digits and spaces"@,
        Error::InvalidLocation => "location should be letters, digits and spaces"@,
        Error::InvalidTopic => "topics should be letters, digits and spaces"@,
        Error::NoTopics => "At least one topic is required"@,
        Error::TooManyTopics => "Too many topics"@,
        Error::InvalidStart => "start timestamp not in correct format"@,
        Error::InvalidEnd => "end timestamp not in correct format"@,
        Error::StartNotBeforeEnd => "Start timestamp must be before end timestamp"@,
        Error::DurationTooLong => "Duration should not exceed 12 hours"@,
        Error::SlotsNotPositive => "Available slots must be greater than 0"@,
        Error::UserNotFound => "User not found"@,
        Error::ConferenceNotFound => "Conference not found"@,
        Error::BookingNotFound => "Booking not found"@,
        Error::UserExists => "User already exists"@,
        Error::ConferenceExists => "conference already exists"@,
        Error::DuplicateBooking => "User already has an active booking for this conference"@,
        Error::OverlappingBooking => "User has an overlapping conference booking"@,
        Error::NotOwner => "Access denied: booking belongs to another user"@,
        Error::NotPending => "Booking is not in confirmation pending state"@,
        Error::DeadlineExpired => "Confirmation deadline has expired"@,
        Error::ConferenceStarted => "Conference has already started"@,
        Error::AlreadyCanceled => "Booking is already canceled"@,
        Error::StatusMismatch => "Values do not fit the status of the booking"@,
        Error::StorageExhausted => "Storage limit reached"@,
        Error::NotInitialized => "RabbitMQ connection not initialized"@,
    }
}

impl Error {
    /// The kind of this reason.
    pub fn kind(&self) -> (r: ErrorKind)
        ensures
            r == kind_of(*self),
    {
        match self {
            Error::InvalidUserId
            | Error::InvalidName
            | Error::InvalidLocation
            | Error::InvalidTopic
            | Error::NoTopics
            | Error::TooManyTopics
            | Error::InvalidStart
            | Error::InvalidEnd
            | Error::StartNotBeforeEnd
            | Error::DurationTooLong
            | Error::SlotsNotPositive => ErrorKind::Validation,
            Error::UserNotFound
        | Error::ConferenceNotFound
        | Error::BookingNotFound => ErrorKind::NotFound,
            Error::UserExists
            | Error::ConferenceExists
            | Error::DuplicateBooking
            | Error::OverlappingBooking => ErrorKind::Conflict,
            Error::NotOwner
            | Error::NotPending
                | Error::DeadlineExpired
            | Error::ConferenceStarted
            | Error::AlreadyCanceled
        | Error::StatusMismatch => ErrorKind::StateViolation,
            Error::StorageExhausted | Error::NotInitialized => ErrorKind::Transient,
        }
    }

    /// The HTTP status under which this refusal is reported.
    pub fn status_code(&self) -> (r: u16)
        ensures
            r == status_of(kind_of(*self)),
    {
        match self.kind() {
            ErrorKind::NotFound => 404,
            ErrorKind::Transient => 500,
            _ => 400,
        }
    }

    /// The message that tells the caller why.
    pub fn message(&self) -> (r: &'static str)
        ensures
            r@ == message_of(*self),
    {
        match self {
            Error::InvalidUserId => "user id should be letters and digits",
            Error::InvalidName => "name should be letters, digits and spaces",
            Error::InvalidLocation => "location should be letters, digits and spaces",
            Error::InvalidTopic => "topics should be letters, digits and spaces",
            Error::NoTopics => "At least one topic is required",
            Error::TooManyTopics => "Too many topics",
            Error::InvalidStart => "start timestamp not in correct format",
            Error::InvalidEnd => "end timestamp not in correct format",
            Error::StartNotBeforeEnd => "Start timestamp must be before end timestamp",
            Error::DurationTooLong => "Duration should not exceed 12 hours",
            Error::SlotsNotPositive => "Available slots must be greater than 0",
            Error::UserNotFound => "User not found",
            Error::ConferenceNotFound => "Conference not found",
            Error::BookingNotFound => "Booking not found",
            Error::UserExists => "User already exists",
            Error::ConferenceExists => "conference already exists",
            Error::DuplicateBooking => "User already has an active booking for this conference",
            Error::OverlappingBooking => "User has an overlapping conference booking",
            Error::NotOwner => "Access denied: booking belongs to another user",
            Error::NotPending => "Booking is not in confirmation pending state",
            Error::DeadlineExpired => "Confirmation deadline has expired",
            Error::ConferenceStarted => "Conference has already started",
            Error::AlreadyCanceled => "Booking is already canceled",
            Error::StatusMismatch => "Values do not fit the status of the booking",
            Error::StorageExhausted => "Storage limit reached",
            Error::NotInitialized => "RabbitMQ connection not initialized",
        }
    }
}

} // verus!
