//! The synchronisation core of a shared listening session ("jam"): who may do
//! what, how the queue is ranked, and what every connected client is told.
//!
//! The shared state is held as plain tables in [`store::Store`]; every rule of
//! the session is a function on that state with a contract over its view.

pub mod types;
pub mod protocol;
pub mod text;
pub mod table;
pub mod store;
pub mod query;
pub mod mutation;
pub mod identity;
pub mod ranking;
pub mod song;
pub mod vote;
pub mod socket;
pub mod session;
pub mod player;
pub mod laws;
