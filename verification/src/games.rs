//! The games that come with the server.

pub mod dumb;
pub mod gomoku;
