//! Seat allocation for conferences with a bounded capacity, a first-come
//! waitlist and confirmation windows that a message broker times.
//!
//! The state of the system is a [`state::Store`]: users, conferences and
//! bookings. [`actions`] holds the steps that change it: booking,
//! confirming, cancelling, serving the waitlist. [`handlers`] holds what each
//! request of the interface does, [`queue`] what is asked of the broker and
//! what its messages lead to, and [`validation`] the grammar of request
//! texts. [`laws`] states what the booking rules guarantee. Every
//! operation is total on valid states and hands a valid state on.
//!
//! Reading the clock, reading a time from text and drawing a random id are
//! left to the crates `chrono` and `uuid`; see [`clock`] and
//! [`queue::WaitlistQueueService::start_consuming_expired_confirmations`].

pub mod actions;
pub mod clock;
pub mod errors;
pub mod handlers;
pub mod laws;
pub mod lemmas;
pub mod loading;
pub mod models;
pub mod queue;
pub mod state;
pub mod transitions;
pub mod validation;
