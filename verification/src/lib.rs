//! A turn-based multiplayer game server core: a registry of connected
//! players, a rotation of turns, a pluggable rule engine and the
//! orchestration state machine that ties them together.
//!
//! - [`gametraits`]: users, turn tokens, move results, and the capability
//!   set of a rule engine.
//! - [`turn_tracker`]: the rotation of one game.
//! - [`player_table`]: the registry of connected players and their
//!   display colors.
//! - [`controller`]: the state machine that owns registry and rule
//!   engine and decides what happens on every event.
//! - [`games`]: five in a row, and a counter game to try the server out.
//! - [`user_connection`]: what one connection does between a client and
//!   the controller.
//! - [`messages`], [`network_wrap`]: what travels to and from clients,
//!   and what a stream reports.
//!
//! Nothing here reads, writes, waits or sleeps. The state machines say
//! what is to be done, and a driver around them does it.

pub mod controller;
pub mod games;
pub mod gametraits;
pub mod messages;
pub mod network_wrap;
pub mod player_table;
pub mod turn_tracker;
pub mod user_connection;
