//! The vocabulary shared by rule engines and the controller: users, turn
//! tokens, move results, and the capability set every rule engine offers.

use vstd::prelude::*;

verus! {

/// An opaque display color, held as its red, green and blue parts.
#[derive(Clone, Copy, Debug, PartialEq, Eq, Structural)]
pub struct Color {
    pub r: u8,
    pub g: u8,
    pub b: u8,
}

impl Color {
    /// The color with the given red, green and blue parts.
    pub fn rgb8(r: u8, g: u8, b: u8) -> (color: Color)
        ensures
            color == (Color { r, g, b }),
    {
        Color { r, g, b }
    }
}

/// What a `User` is in contracts: the characters of the name, and the
/// color.
pub struct UserView {
    pub name: Seq<char>,
    pub color: Color,
}

/// A connected player. The name is the identity; the color never changes
/// while the player stays connected.
#[derive(Debug)]
pub struct User {
    pub name: String,
    pub color: Color,
}

impl View for User {
    type V = UserView;

    open spec fn view(&self) -> UserView {
        UserView { name: self.name@, color: self.color }
    }
}

impl Clone for User {
    fn clone(&self) -> (copy: Self)
        ensures
            copy == *self,
    {
        User { name: self.name.clone(), color: self.color }
    }
}

impl PartialEq for User {
    fn eq(&self, other: &Self) -> (same: bool) {
        self.name == other.name && self.color == other.color
    }
}

impl Eq for User {}

impl vstd::std_specs::cmp::PartialEqSpecImpl for User {
    open spec fn obeys_eq_spec() -> bool {
        true
    }

    open spec fn eq_spec(&self, other: &Self) -> bool {
        self@ == other@
    }
}

/// The views of a sequence of users, in the same order.
pub open spec fn user_views(users: Seq<User>) -> Seq<UserView> {
    users.map_values(|u: User| u@)
}

/// What `==` answers on string slices (`PartialEq::eq` of `str`):
/// whether the two hold the same characters.
pub assume_specification[ <str as PartialEq>::eq ](a: &str, b: &str) -> (same: bool)
    ensures
        same == (a@ == b@),
;

/// Whether `user` goes by `name`.
pub fn has_name(user: &User, name: &str) -> (named: bool)
    ensures
        named == (user@.name == name@),
{
    *user.name.as_str() == *name
}

/// The proof that it is `user`'s turn. A rule engine makes one for every
/// turn it grants; the controller hands it back with the move, or when
/// the player is gone, and never uses it again.
#[derive(Debug, PartialEq, Eq)]
pub struct TurnToken {
    pub user: User,
}

/// A granted turn: the token, and the state of the game as the player on
/// turn is to see it.
#[derive(Debug, PartialEq, Eq)]
pub struct PlayerTurn<S> {
    pub token: TurnToken,
    pub state: S,
}

/// What a rule engine answers to a move.
#[derive(Debug, PartialEq, Eq)]
pub enum PlayerMoveResult<S> {
    /// The move stands and the game goes on with this turn.
    Accepted(PlayerTurn<S>),
    /// The move won the game for the mover.
    Win,
    /// The move ended the game without a winner.
    Draw,
    /// The move was understood and is against the rules. The mover is out
    /// of this game; the turn, if any, goes to the next player.
    InvalidMove(Option<PlayerTurn<S>>),
    /// The move could not be understood. The mover is out of this game;
    /// the turn, if any, goes to the next player.
    InvalidFormat(Option<PlayerTurn<S>>),
}

/// What a rule engine answered to a move, apart from the state that
/// goes with a turn: the kind of answer, and who is on turn next.
pub enum MoveOutcome {
    Accepted(UserView),
    Win,
    Draw,
    InvalidMove(Option<UserView>),
    InvalidFormat(Option<UserView>),
}

/// The player of `turn`, if there is a turn.
pub open spec fn turn_player<S>(turn: Option<PlayerTurn<S>>) -> Option<UserView> {
    match turn {
        Some(turn) => Some(turn.token.user@),
        None => None,
    }
}

impl<S> PlayerMoveResult<S> {
    /// The turn that comes with this answer, if one does.
    pub open spec fn turn(self) -> Option<PlayerTurn<S>> {
        match self {
            PlayerMoveResult::Accepted(turn) => Some(turn),
            PlayerMoveResult::InvalidMove(turn) => turn,
            PlayerMoveResult::InvalidFormat(turn) => turn,
            _ => None,
        }
    }

    /// The kind of answer, and who is on turn next.
    pub open spec fn outcome(self) -> MoveOutcome {
        match self {
            PlayerMoveResult::Accepted(turn) => MoveOutcome::Accepted(turn.token.user@),
            PlayerMoveResult::Win => MoveOutcome::Win,
            PlayerMoveResult::Draw => MoveOutcome::Draw,
            PlayerMoveResult::InvalidMove(turn) => MoveOutcome::InvalidMove(turn_player(turn)),
            PlayerMoveResult::InvalidFormat(turn) => MoveOutcome::InvalidFormat(turn_player(turn)),
        }
    }
}

/// The capability set of a rule engine. The controller owns one engine
/// and is the only caller of these methods.
///
/// A move reaches the engine decoded: `None` stands for a payload that
/// could not be read as a `Move`.
///
/// Beside each method stands a relation between the engine before the
/// call, what was handed to it, what it answered, and the engine after
/// the call. An engine says there what the method does; an engine that
/// says nothing promises nothing. What the controller promises of an
/// engine, it promises in these terms.
pub trait GameTrait: Sized {
    /// A move of this game.
    type Move;

    /// The state of this game as a player on turn sees it.
    type State;

    /// What the engine keeps true of itself between calls.
    open spec fn inv(&self) -> bool {
        true
    }

    /// What `player_moves` does.
    open spec fn moved(
        &self,
        player: UserView,
        player_move: Option<Self::Move>,
        result: PlayerMoveResult<Self::State>,
        after: &Self,
    ) -> bool {
        true
    }

    /// What `current_player_disconnected` does.
    open spec fn holder_left(
        &self,
        player: UserView,
        next: Option<PlayerTurn<Self::State>>,
        after: &Self,
    ) -> bool {
        true
    }

    /// What `try_start_game` does.
    open spec fn started(&self, first: Option<PlayerTurn<Self::State>>, after: &Self) -> bool {
        true
    }

    /// What `player_connected` does.
    open spec fn joined(&self, user: UserView, after: &Self) -> bool {
        true
    }

    /// What `player_disconnected` does.
    open spec fn left(&self, name: Seq<char>, after: &Self) -> bool {
        true
    }

    /// What `reset` does.
    open spec fn was_reset(&self, users: Seq<UserView>, after: &Self) -> bool {
        true
    }

    /// The player holding `turn_token` moved.
    fn player_moves(&mut self, turn_token: TurnToken, player_move: Option<Self::Move>) -> (result:
        PlayerMoveResult<Self::State>)
        requires
            old(self).inv(),
        ensures
            final(self).inv(),
            old(self).moved(turn_token.user@, player_move, result, final(self)),
    ;

    /// The player holding `turn_token` is gone. The answer is the turn of
    /// the next player, if the game goes on.
    fn current_player_disconnected(&mut self, turn_token: TurnToken) -> (next: Option<
        PlayerTurn<Self::State>,
    >)
        requires
            old(self).inv(),
        ensures
            final(self).inv(),
            old(self).holder_left(turn_token.user@, next, final(self)),
    ;

    /// Asks for the first turn of a game. `None` where the engine will
    /// not start one now.
    fn try_start_game(&mut self) -> (first: Option<PlayerTurn<Self::State>>)
        requires
            old(self).inv(),
        ensures
            final(self).inv(),
            old(self).started(first, final(self)),
    ;

    /// `user` joined.
    fn player_connected(&mut self, user: User)
        requires
            old(self).inv(),
        ensures
            final(self).inv(),
            old(self).joined(user@, final(self)),
    ;

    /// The player called `user`, who is not on turn, left.
    fn player_disconnected(&mut self, user: &str)
        requires
            old(self).inv(),
        ensures
            final(self).inv(),
            old(self).left(user@, final(self)),
    ;

    /// Ends the game and prepares the next one for `users`.
    fn reset(&mut self, users: Vec<User>)
        requires
            old(self).inv(),
        ensures
            final(self).inv(),
            old(self).was_reset(user_views(users@), final(self)),
    ;
}

/// The state of a game in the form in which it travels to a player.
#[derive(Clone, Debug, PartialEq, Eq)]
pub struct PlayerGameState {
    pub serialized: String,
}

/// A move in the form in which it arrived from a player.
#[derive(Debug)]
pub struct PlayerMove {
    pub serialized: String,
}

} // verus!
