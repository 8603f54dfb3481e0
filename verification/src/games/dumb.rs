//! The counter game: every move adds to one number that all players see.
//! Nobody ever wins; the game is there to try the server out.

use crate::gametraits::{
    turn_player, user_views, GameTrait, MoveOutcome, PlayerMoveResult, PlayerTurn, TurnToken, User,
    UserView,
};
use crate::turn_tracker::{TurnTracker, TurnTrackerView};
use vstd::prelude::*;

verus! {

/// What a player on turn sees: the number.
#[derive(Debug, Clone, Copy, PartialEq, Eq, Structural)]
pub struct PlayerState {
    pub num: u32,
}

/// A move: what to add to the number.
#[derive(Debug)]
pub struct PlayerMove {
    pub add: u32,
}

/// What a `Game` is in contracts: the number and the rotation.
pub struct GameView {
    pub count: PlayerState,
    pub players: TurnTrackerView,
}

/// The number after `add` was added to it. The sum starts again from
/// zero where it passes the largest `u32`.
pub open spec fn added(num: u32, add: u32) -> u32 {
    if num + add > u32::MAX {
        (num + add - u32::MAX - 1) as u32
    } else {
        (num + add) as u32
    }
}

impl GameView {
    /// A game at zero for `users`.
    pub open spec fn fresh(users: Seq<UserView>) -> GameView {
        GameView {
            count: PlayerState { num: 0 },
            players: TurnTrackerView { players: users, current: 0 },
        }
    }

    /// The game after `who` left the rotation and the turn passed on,
    /// and who is on turn then.
    pub open spec fn without(self, who: Seq<char>) -> (GameView, Option<UserView>) {
        (
            GameView { players: self.players.removed(who).advanced(), ..self },
            self.players.removed(who).next_player(),
        )
    }

    /// The game after the turn passed on, and who is on turn then.
    pub open spec fn passed_on(self) -> (GameView, Option<UserView>) {
        (GameView { players: self.players.advanced(), ..self }, self.players.next_player())
    }

    /// The game after `who` made `player_move`, and the answer. A move
    /// that cannot be read puts the mover out of the rotation. A move
    /// made while nobody is in the rotation to take the next turn is
    /// counted and answered like a refused one, with no turn to follow.
    pub open spec fn moved(self, who: UserView, player_move: Option<PlayerMove>) -> (
        GameView,
        MoveOutcome,
    ) {
        match player_move {
            None => (
                self.without(who.name).0,
                MoveOutcome::InvalidFormat(self.without(who.name).1),
            ),
            Some(player_move) => {
                let counted = GameView {
                    count: PlayerState { num: added(self.count.num, player_move.add) },
                    ..self
                };
                (
                    counted.passed_on().0,
                    match counted.passed_on().1 {
                        Some(next) => MoveOutcome::Accepted(next),
                        None => MoveOutcome::InvalidMove(None),
                    },
                )
            },
        }
    }
}

/// A counter game.
#[derive(Debug)]
pub struct Game {
    count: PlayerState,
    players: TurnTracker,
}

impl View for Game {
    type V = GameView;

    closed spec fn view(&self) -> GameView {
        GameView { count: self.count, players: self.players@ }
    }
}

impl Game {
    /// A game at zero with nobody in the rotation.
    pub fn new() -> (game: Self)
        ensures
            game@ == GameView::fresh(Seq::empty()),
    {
        let game = Game { count: PlayerState { num: 0 }, players: TurnTracker::new(Vec::new()) };
        assert(user_views(Seq::<User>::empty()) =~= Seq::<UserView>::empty());
        game
    }

    /// The number as it stands.
    pub fn count(&self) -> (count: PlayerState)
        ensures
            count == self@.count,
    {
        self.count
    }

    /// The turn of `user`, with the number as it stands.
    fn turn_of(&self, user: User) -> (turn: PlayerTurn<PlayerState>)
        ensures
            turn.token.user == user,
            turn.state == self@.count,
    {
        PlayerTurn { token: TurnToken { user }, state: self.count }
    }

    /// Takes `name` out of the rotation and passes the turn on.
    fn eliminate(&mut self, name: &str) -> (next: Option<PlayerTurn<PlayerState>>)
        ensures
            final(self)@ == old(self)@.without(name@).0,
            turn_player(next) == old(self)@.without(name@).1,
            next matches Some(turn) ==> turn.state == final(self)@.count,
    {
        self.players.remove_player(name);
        match self.players.advance_player() {
            Some(p) => Some(self.turn_of(p)),
            None => None,
        }
    }
}

/// Adds what `p_move` says to the number of `state`.
pub fn make_move(state: &mut Game, _user: &User, p_move: PlayerMove)
    ensures
        final(state)@ == (GameView {
            count: PlayerState { num: added(old(state)@.count.num, p_move.add) },
            ..old(state)@
        }),
{
    state.count.num = state.count.num.wrapping_add(p_move.add);
}

impl GameTrait for Game {
    type Move = PlayerMove;

    type State = PlayerState;

    open spec fn moved(
        &self,
        player: UserView,
        player_move: Option<PlayerMove>,
        result: PlayerMoveResult<PlayerState>,
        after: &Self,
    ) -> bool {
        &&& after@ == self@.moved(player, player_move).0
        &&& result.outcome() == self@.moved(player, player_move).1
        &&& result.turn() matches Some(turn) ==> turn.state == after@.count
    }

    open spec fn holder_left(
        &self,
        player: UserView,
        next: Option<PlayerTurn<PlayerState>>,
        after: &Self,
    ) -> bool {
        &&& after@ == self@.without(player.name).0
        &&& turn_player(next) == self@.without(player.name).1
        &&& next matches Some(turn) ==> turn.state == after@.count
    }

    open spec fn started(&self, first: Option<PlayerTurn<PlayerState>>, after: &Self) -> bool {
        &&& after@ == self@.passed_on().0
        &&& turn_player(first) == self@.passed_on().1
        &&& first matches Some(turn) ==> turn.state == after@.count
    }

    open spec fn joined(&self, user: UserView, after: &Self) -> bool {
        after@ == (GameView { players: self@.players.added(user), ..self@ })
    }

    open spec fn left(&self, name: Seq<char>, after: &Self) -> bool {
        after@ == (GameView { players: self@.players.removed(name), ..self@ })
    }

    open spec fn was_reset(&self, users: Seq<UserView>, after: &Self) -> bool {
        after@ == GameView::fresh(users)
    }

    fn player_moves(&mut self, turn_token: TurnToken, player_move: Option<PlayerMove>) -> (result:
        PlayerMoveResult<PlayerState>) {
        let user = &turn_token.user;
        match player_move {
            None => PlayerMoveResult::InvalidFormat(self.eliminate(user.name.as_str())),
            Some(mov) => {
                make_move(self, user, mov);
                match self.players.advance_player() {
                    Some(next_player) => PlayerMoveResult::Accepted(self.turn_of(next_player)),
                    None => PlayerMoveResult::InvalidMove(None),
                }
            },
        }
    }

    fn current_player_disconnected(&mut self, turn_token: TurnToken) -> (next: Option<
        PlayerTurn<PlayerState>,
    >) {
        self.eliminate(turn_token.user.name.as_str())
    }

    fn try_start_game(&mut self) -> (first: Option<PlayerTurn<PlayerState>>) {
        match self.players.advance_player() {
            Some(user) => Some(self.turn_of(user)),
            None => None,
        }
    }

    fn player_connected(&mut self, user: User) {
        self.players.add_player(user);
    }

    fn player_disconnected(&mut self, user: &str) {
        self.players.remove_player(user);
    }

    fn reset(&mut self, users: Vec<User>) {
        self.count = PlayerState { num: 0 };
        self.players = TurnTracker::new(users);
    }
}

/// A game at zero with `players` in the rotation, ready to be handed to
/// a controller.
pub fn make_ptr(players: Vec<User>) -> (game: Game)
    ensures
        game@ == GameView::fresh(user_views(players@)),
{
    Game { count: PlayerState { num: 0 }, players: TurnTracker::new(players) }
}

} // verus!
