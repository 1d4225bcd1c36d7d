//! Validation of the start-up arguments of a Zappy game server.
//!
//! The crate turns the text supplied for each command-line flag into a
//! [`args::ServerArgs`] value whose fields are known to be in range, or
//! reports the first problem as a [`error::ValidationError`].

pub mod args;
pub mod error;
pub mod field;
pub mod numeral;
pub mod teams;
