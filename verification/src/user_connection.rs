//! What one connection does between the network and the controller: it
//! lets a client in, carries turns and moves back and forth, and puts
//! into words what the controller has to say.
//!
//! Reading, writing and waiting are work for the driver of the
//! connection. A [`Session`] takes what happened ([`SessionEvent`]) and
//! says what is to be done next ([`SessionAction`]).

use crate::controller::GameOverReason;
use crate::gametraits::{PlayerGameState, PlayerMove};
use crate::messages::{
    invalid_message_format, wrong_password, Auth, FromClient, GameOver, ToClient,
};
use vstd::hash_map::StringHashMap;
use vstd::prelude::*;
use vstd::string::StringExecFns;

verus! {

/// Why a connection ended.
#[derive(Debug)]
pub enum MyErr {
    AnyHow(String),
}

/// The passwords on record, by name.
pub struct UserPassDb {
    passwords: StringHashMap<String>,
}

impl View for UserPassDb {
    type V = Map<Seq<char>, String>;

    closed spec fn view(&self) -> Map<Seq<char>, String> {
        self.passwords@
    }
}

impl UserPassDb {
    /// A record without a name on it.
    pub fn new() -> (db: Self)
        ensures
            db@ == Map::<Seq<char>, String>::empty(),
    {
        Self { passwords: StringHashMap::new() }
    }

    /// The password on record for `username`, if there is one.
    pub fn password_of(&self, username: &str) -> (password: Option<&String>)
        ensures
            match password {
                Some(password) => self@.contains_key(username@) && *password == self@[username@],
                None => !self@.contains_key(username@),
            },
    {
        self.passwords.get(username)
    }

    /// Puts `password` on record for `username`, in place of an older
    /// one.
    pub fn record(&mut self, username: String, password: String)
        ensures
            final(self)@ == old(self)@.insert(username@, password),
    {
        self.passwords.insert(username, password);
    }
}

/// `err` as an error object in single quotes.
pub fn json_error(err: &str) -> (text: String)
    ensures
        text@ == "{'error': '"@ + err@ + "'}"@,
{
    let mut text = String::from_str("{'error': '");
    text.append(err);
    text.append("'}");
    text
}

/// The move that a client sent as `line`: the line as it is.
pub fn player_response_to_move(line: &str) -> (player_move: Result<PlayerMove, MyErr>)
    ensures
        player_move matches Ok(player_move) && player_move.serialized@ == line@,
{
    Ok(PlayerMove { serialized: String::from_str(line) })
}

/// The passwords on record after `message` was looked at: a name that
/// was not on record is now, with the password it came with.
pub open spec fn recorded(
    user_pass_db: Map<Seq<char>, String>,
    message: Option<FromClient>,
) -> Map<Seq<char>, String> {
    match message {
        Some(FromClient::Auth(auth)) if !user_pass_db.contains_key(auth.username@) => {
            user_pass_db.insert(auth.username@, auth.password)
        },
        _ => user_pass_db,
    }
}

/// Lets a client in or not. `message` is what the client sent first,
/// `None` where that could not be read. A name that is not on record is
/// let in and put on record with its password; a name on record is let
/// in with the password on record and with no other.
pub fn authorize(message: Option<FromClient>, user_pass_db: &mut UserPassDb) -> (result:
    Result<String, ToClient>)
    ensures
        final(user_pass_db)@ == recorded(old(user_pass_db)@, message),
        match message {
            Some(FromClient::Auth(auth)) => {
                if old(user_pass_db)@.contains_key(auth.username@) && old(
                    user_pass_db,
                )@[auth.username@]@ != auth.password@ {
                    result == Err::<String, ToClient>(
                        ToClient::Error(crate::messages::Error { reason: "wrong password" }),
                    )
                } else {
                    result == Ok::<String, ToClient>(auth.username)
                }
            },
            None => result == Err::<String, ToClient>(
                ToClient::Error(crate::messages::Error { reason: "invalid message format" }),
            ),
        },
{
    match message {
        Some(FromClient::Auth(Auth { username, password })) => {
            let known = match user_pass_db.password_of(username.as_str()) {
                Some(db_password) => Some(*db_password == password),
                None => None,
            };
            match known {
                Some(true) => Ok(username),
                Some(false) => Err(wrong_password()),
                None => {
                    user_pass_db.record(username.clone(), password);
                    Ok(username)
                },
            }
        },
        None => Err(invalid_message_format()),
    }
}

/// The words for `reason`.
pub open spec fn reason_text(reason: GameOverReason) -> Seq<char> {
    match reason {
        GameOverReason::Winner(winner) => "winner "@ + winner@,
        GameOverReason::Draw => "draw"@,
    }
}

/// The message that tells a client why a game ended.
pub fn game_over_message(reason: GameOverReason) -> (message: ToClient)
    ensures
        message matches ToClient::GameOver(game_over) && game_over.reason@ == reason_text(reason),
{
    let reason_str = match reason {
        GameOverReason::Winner(winner) => String::from_str("winner ").concat(winner.as_str()),
        GameOverReason::Draw => String::from_str("draw"),
    };
    ToClient::GameOver(GameOver { reason: reason_str })
}

/// Why a connection ended.
#[derive(Debug, Clone, Copy, PartialEq, Eq, Structural)]
pub enum Ending {
    /// The client closed the connection before it said who it is.
    ClosedBeforeAuth,
    /// The first line could not be read.
    ReadErrorBeforeAuth,
    /// The controller could not be told that the client is there.
    ControllerUnreachable,
    /// The client was not let in.
    AuthFailed,
    /// The controller let go of the client.
    ControllerDropped,
    /// What the controller had to say could not be sent to the client.
    PlayerDisconnected,
    /// The move could not be read.
    ReadError,
    /// The controller refused the move.
    MoveFailure,
    /// Something happened that cannot happen at this point.
    Unexpected,
}

/// The words for `ending`.
pub open spec fn ending_text(ending: Ending) -> Seq<char> {
    match ending {
        Ending::ClosedBeforeAuth => "Closed connection before auth"@,
        Ending::ReadErrorBeforeAuth => "Error reading line from connection before auth"@,
        Ending::ControllerUnreachable => "Failed sending player connected to controller"@,
        Ending::AuthFailed => "Auth failed"@,
        Ending::ControllerDropped => "Controlled dropped me"@,
        Ending::PlayerDisconnected => "Player disconnected"@,
        Ending::ReadError => "Error reading line from connection"@,
        Ending::MoveFailure => "Move failure"@,
        Ending::Unexpected => "Unexpected event"@,
    }
}

impl Ending {
    /// The ending as the error with which the connection is given up.
    pub fn to_error(self) -> (error: MyErr)
        ensures
            error matches MyErr::AnyHow(text) && text@ == ending_text(self),
    {
        let text = match self {
            Ending::ClosedBeforeAuth => "Closed connection before auth",
            Ending::ReadErrorBeforeAuth => "Error reading line from connection before auth",
            Ending::ControllerUnreachable => "Failed sending player connected to controller",
            Ending::AuthFailed => "Auth failed",
            Ending::ControllerDropped => "Controlled dropped me",
            Ending::PlayerDisconnected => "Player disconnected",
            Ending::ReadError => "Error reading line from connection",
            Ending::MoveFailure => "Move failure",
            Ending::Unexpected => "Unexpected event",
        };
        MyErr::AnyHow(String::from_str(text))
    }
}

/// Where a connection stands.
#[derive(Debug)]
pub enum Session {
    /// The first message of the client is awaited.
    AwaitingAuth,
    /// The client was let in under this name; the controller is being
    /// told.
    Registering(String),
    /// The controller has the word.
    AwaitingController(String),
    /// The state of the game is on its way to the client.
    SendingState(String),
    /// The move of the client is awaited.
    AwaitingMove(String),
    /// The controller has the move; its word on it is awaited.
    AwaitingVerdict(String),
    /// The end of a game is on its way to the client.
    SendingGameOver(String),
    /// The last message is on its way to the client, or the controller
    /// is being told that the client is gone; then the connection ends.
    Leaving(Ending),
    /// The connection ended.
    Closed,
}

/// What happened on a connection.
#[derive(Debug)]
pub enum SessionEvent {
    /// The first message arrived; `None` where it could not be read as
    /// one.
    FirstMessage(Option<FromClient>),
    /// A line arrived, here without the white space around it.
    Line(String),
    /// No line will arrive: the connection is closed, or broken.
    ReadFailed(crate::network_wrap::Error),
    /// What was to be sent to the client is sent.
    Written,
    /// What was to be sent to the client could not be sent.
    WriteFailed,
    /// The controller was told what it was to be told.
    Told,
    /// The controller is gone.
    ControllerGone,
    /// The controller offers a turn, with this state of the game.
    YourTurn(PlayerGameState),
    /// The controller says that a game ended.
    GameOver(GameOverReason),
    /// The controller refused the move with these words, or took it
    /// without a word.
    Verdict(Option<ToClient>),
}

/// What is to be done on a connection.
#[derive(Debug)]
pub enum SessionAction {
    /// Read the first message of the client.
    ReadFirstMessage,
    /// Tell the controller that the client is there under this name.
    Register(String),
    /// Wait for the controller.
    AwaitController,
    /// Send the state of the game to the client.
    SendState(PlayerGameState),
    /// Read a line from the client.
    ReadLine,
    /// Hand the move to the controller and wait for its word on it.
    SubmitMove(PlayerMove),
    /// Send this message to the client.
    Send(ToClient),
    /// Tell the controller that the client under this name is gone.
    Unregister(String),
    /// Give the connection up.
    Finish(Ending),
}

/// What a `SessionAction` is in contracts.
pub enum SessionActionView {
    ReadFirstMessage,
    Register(Seq<char>),
    AwaitController,
    SendState(Seq<char>),
    ReadLine,
    SubmitMove(Seq<char>),
    Send(ToClient),
    SendGameOver(Seq<char>),
    Unregister(Seq<char>),
    Finish(Ending),
}

impl View for SessionAction {
    type V = SessionActionView;

    open spec fn view(&self) -> SessionActionView {
        match self {
            SessionAction::ReadFirstMessage => SessionActionView::ReadFirstMessage,
            SessionAction::Register(name) => SessionActionView::Register(name@),
            SessionAction::AwaitController => SessionActionView::AwaitController,
            SessionAction::SendState(state) => SessionActionView::SendState(state.serialized@),
            SessionAction::ReadLine => SessionActionView::ReadLine,
            SessionAction::SubmitMove(player_move) => SessionActionView::SubmitMove(
                player_move.serialized@,
            ),
            SessionAction::Send(ToClient::GameOver(game_over)) => SessionActionView::SendGameOver(
                game_over.reason@,
            ),
            SessionAction::Send(message) => SessionActionView::Send(*message),
            SessionAction::Unregister(name) => SessionActionView::Unregister(name@),
            SessionAction::Finish(ending) => SessionActionView::Finish(*ending),
        }
    }
}

/// What a `Session` is in contracts.
pub enum SessionView {
    AwaitingAuth,
    Registering(Seq<char>),
    AwaitingController(Seq<char>),
    SendingState(Seq<char>),
    AwaitingMove(Seq<char>),
    AwaitingVerdict(Seq<char>),
    SendingGameOver(Seq<char>),
    Leaving(Ending),
    Closed,
}

impl View for Session {
    type V = SessionView;

    open spec fn view(&self) -> SessionView {
        match self {
            Session::AwaitingAuth => SessionView::AwaitingAuth,
            Session::Registering(name) => SessionView::Registering(name@),
            Session::AwaitingController(name) => SessionView::AwaitingController(name@),
            Session::SendingState(name) => SessionView::SendingState(name@),
            Session::AwaitingMove(name) => SessionView::AwaitingMove(name@),
            Session::AwaitingVerdict(name) => SessionView::AwaitingVerdict(name@),
            Session::SendingGameOver(name) => SessionView::SendingGameOver(name@),
            Session::Leaving(ending) => SessionView::Leaving(*ending),
            Session::Closed => SessionView::Closed,
        }
    }
}

/// Whether the client that sent `message` is let in, given the
/// passwords on record.
pub open spec fn lets_in(
    user_pass_db: Map<Seq<char>, String>,
    message: Option<FromClient>,
) -> bool {
    message matches Some(FromClient::Auth(auth)) && (user_pass_db.contains_key(auth.username@)
        ==> user_pass_db[auth.username@]@ == auth.password@)
}

/// Where a connection stands after `event`, and what is to be done
/// then. An event that cannot happen where the connection stands ends
/// it.
pub open spec fn session_step(
    session: SessionView,
    event: SessionEvent,
    user_pass_db: Map<Seq<char>, String>,
) -> (SessionView, SessionActionView) {
    match (session, event) {
        (SessionView::AwaitingAuth, SessionEvent::FirstMessage(message)) => {
            if lets_in(user_pass_db, message) {
                let name = message->0->0.username@;
                (SessionView::Registering(name), SessionActionView::Register(name))
            } else {
                (
                    SessionView::Leaving(Ending::AuthFailed),
                    SessionActionView::Send(
                        ToClient::Error(
                            crate::messages::Error {
                                reason: if message is Some {
                                    "wrong password"
                                } else {
                                    "invalid message format"
                                },
                            },
                        ),
                    ),
                )
            }
        },
        (SessionView::AwaitingAuth, SessionEvent::ReadFailed(error)) => (
            SessionView::Closed,
            SessionActionView::Finish(
                if error is ConnectionClosed {
                    Ending::ClosedBeforeAuth
                } else {
                    Ending::ReadErrorBeforeAuth
                },
            ),
        ),
        (SessionView::Registering(name), SessionEvent::Told) => (
            SessionView::AwaitingController(name),
            SessionActionView::AwaitController,
        ),
        (SessionView::Registering(_), SessionEvent::ControllerGone) => (
            SessionView::Closed,
            SessionActionView::Finish(Ending::ControllerUnreachable),
        ),
        (SessionView::AwaitingController(name), SessionEvent::YourTurn(state)) => (
            SessionView::SendingState(name),
            SessionActionView::SendState(state.serialized@),
        ),
        (SessionView::AwaitingController(name), SessionEvent::GameOver(reason)) => (
            SessionView::SendingGameOver(name),
            SessionActionView::SendGameOver(reason_text(reason)),
        ),
        (SessionView::AwaitingController(_), SessionEvent::ControllerGone) => (
            SessionView::Closed,
            SessionActionView::Finish(Ending::ControllerDropped),
        ),
        (SessionView::SendingState(name), SessionEvent::Written) => (
            SessionView::AwaitingMove(name),
            SessionActionView::ReadLine,
        ),
        (SessionView::SendingState(name), SessionEvent::WriteFailed) => (
            SessionView::Leaving(Ending::PlayerDisconnected),
            SessionActionView::Unregister(name),
        ),
        (SessionView::AwaitingMove(name), SessionEvent::Line(line)) => (
            SessionView::AwaitingVerdict(name),
            SessionActionView::SubmitMove(line@),
        ),
        (SessionView::AwaitingMove(name), SessionEvent::ReadFailed(_)) => (
            SessionView::Leaving(Ending::ReadError),
            SessionActionView::Unregister(name),
        ),
        (SessionView::AwaitingVerdict(_), SessionEvent::Verdict(Some(refusal))) => (
            SessionView::Leaving(Ending::MoveFailure),
            match refusal {
                ToClient::GameOver(game_over) => SessionActionView::SendGameOver(game_over.reason@),
                _ => SessionActionView::Send(refusal),
            },
        ),
        (SessionView::AwaitingVerdict(name), SessionEvent::Verdict(None)) => (
            SessionView::AwaitingController(name),
            SessionActionView::AwaitController,
        ),
        (SessionView::SendingGameOver(name), SessionEvent::Written) => (
            SessionView::AwaitingController(name),
            SessionActionView::AwaitController,
        ),
        (SessionView::SendingGameOver(_), SessionEvent::WriteFailed) => (
            SessionView::Closed,
            SessionActionView::Finish(Ending::PlayerDisconnected),
        ),
        (SessionView::Leaving(ending), _) => (
            SessionView::Closed,
            SessionActionView::Finish(ending),
        ),
        _ => (SessionView::Closed, SessionActionView::Finish(Ending::Unexpected)),
    }
}

impl Session {
    /// A connection that has just been accepted, and what is to be done
    /// first.
    pub fn new() -> (start: (Session, SessionAction))
        ensures
            start.0@ == SessionView::AwaitingAuth,
            start.1@ == SessionActionView::ReadFirstMessage,
    {
        (Session::AwaitingAuth, SessionAction::ReadFirstMessage)
    }

    /// Takes one event and says what is to be done next. The passwords
    /// on record change only when a first message is looked at.
    pub fn step(&mut self, event: SessionEvent, user_pass_db: &mut UserPassDb) -> (action:
        SessionAction)
        ensures
            (final(self)@, action@) == session_step(old(self)@, event, old(user_pass_db)@),
            final(user_pass_db)@ == if old(self)@ is AwaitingAuth && event is FirstMessage {
                recorded(old(user_pass_db)@, event->FirstMessage_0)
            } else {
                old(user_pass_db)@
            },
    {
        let mut session = Session::Closed;
        core::mem::swap(self, &mut session);
        let (next, action) = match (session, event) {
            (Session::AwaitingAuth, SessionEvent::FirstMessage(message)) => {
                match authorize(message, user_pass_db) {
                    Ok(name) => (Session::Registering(name.clone()), SessionAction::Register(name)),
                    Err(response) => (
                        Session::Leaving(Ending::AuthFailed),
                        SessionAction::Send(response),
                    ),
                }
            },
            (Session::AwaitingAuth, SessionEvent::ReadFailed(error)) => (
                Session::Closed,
                SessionAction::Finish(
                    match error {
                        crate::network_wrap::Error::ConnectionClosed => Ending::ClosedBeforeAuth,
                        _ => Ending::ReadErrorBeforeAuth,
                    },
                ),
            ),
            (Session::Registering(name), SessionEvent::Told) => (
                Session::AwaitingController(name),
                SessionAction::AwaitController,
            ),
            (Session::Registering(_), SessionEvent::ControllerGone) => (
                Session::Closed,
                SessionAction::Finish(Ending::ControllerUnreachable),
            ),
            (Session::AwaitingController(name), SessionEvent::YourTurn(state)) => (
                Session::SendingState(name),
                SessionAction::SendState(state),
            ),
            (Session::AwaitingController(name), SessionEvent::GameOver(reason)) => (
                Session::SendingGameOver(name),
                SessionAction::Send(game_over_message(reason)),
            ),
            (Session::AwaitingController(_), SessionEvent::ControllerGone) => (
                Session::Closed,
                SessionAction::Finish(Ending::ControllerDropped),
            ),
            (Session::SendingState(name), SessionEvent::Written) => (
                Session::AwaitingMove(name),
                SessionAction::ReadLine,
            ),
            (Session::SendingState(name), SessionEvent::WriteFailed) => (
                Session::Leaving(Ending::PlayerDisconnected),
                SessionAction::Unregister(name),
            ),
            (Session::AwaitingMove(name), SessionEvent::Line(line)) => {
                match player_response_to_move(line.as_str()) {
                    Ok(player_move) => (
                        Session::AwaitingVerdict(name),
                        SessionAction::SubmitMove(player_move),
                    ),
                    Err(_) => (Session::Closed, SessionAction::Finish(Ending::Unexpected)),
                }
            },
            (Session::AwaitingMove(name), SessionEvent::ReadFailed(_)) => (
                Session::Leaving(Ending::ReadError),
                SessionAction::Unregister(name),
            ),
            (Session::AwaitingVerdict(_), SessionEvent::Verdict(Some(refusal))) => (
                Session::Leaving(Ending::MoveFailure),
                SessionAction::Send(refusal),
            ),
            (Session::AwaitingVerdict(name), SessionEvent::Verdict(None)) => (
                Session::AwaitingController(name),
                SessionAction::AwaitController,
            ),
            (Session::SendingGameOver(name), SessionEvent::Written) => (
                Session::AwaitingController(name),
                SessionAction::AwaitController,
            ),
            (Session::SendingGameOver(_), SessionEvent::WriteFailed) => (
                Session::Closed,
                SessionAction::Finish(Ending::PlayerDisconnected),
            ),
            (Session::Leaving(ending), _) => (Session::Closed, SessionAction::Finish(ending)),
            _ => (Session::Closed, SessionAction::Finish(Ending::Unexpected)),
        };
        *self = next;
        action
    }
}

} // verus!
