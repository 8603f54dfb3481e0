//! The messages that travel between the server and its clients.

use vstd::prelude::*;

verus! {

/// What a client sends before it may play.
#[derive(Debug, Clone, PartialEq, Eq)]
pub enum FromClient {
    Auth(Auth),
}

/// A move of type `T`.
#[derive(Debug, Clone, PartialEq, Eq)]
pub enum Move<T> {
    Move(T),
}

/// The credentials of a client.
#[derive(Debug, Clone, PartialEq, Eq)]
pub struct Auth {
    pub username: String,
    pub password: String,
}

/// What the server sends on its own account.
#[derive(Debug, Clone, PartialEq, Eq)]
pub enum ToClient {
    Error(Error),
    GameOver(GameOver),
}

/// The end of a game, with the reason in words.
#[derive(Debug, Clone, PartialEq, Eq)]
pub struct GameOver {
    pub reason: String,
}

/// The offer of a turn, with the state of the game.
#[derive(Debug, Clone, PartialEq, Eq)]
pub enum YourTurn<State> {
    YourTurn(State),
}

/// A refusal, with the reason in words.
#[derive(Debug, Clone, PartialEq, Eq)]
pub struct Error {
    pub reason: &'static str,
}

/// The refusal of a message that could not be read.
pub fn invalid_message_format() -> (refusal: ToClient)
    ensures
        refusal == ToClient::Error(Error { reason: "invalid message format" }),
{
    ToClient::Error(Error { reason: "invalid message format" })
}

/// The refusal of a password that is not the one on record.
pub fn wrong_password() -> (refusal: ToClient)
    ensures
        refusal == ToClient::Error(Error { reason: "wrong password" }),
{
    ToClient::Error(Error { reason: "wrong password" })
}

/// The refusal of a move that is against the rules.
pub fn invalid_move() -> (refusal: ToClient)
    ensures
        refusal == ToClient::Error(Error { reason: "invalid move" }),
{
    ToClient::Error(Error { reason: "invalid move" })
}

} // verus!
