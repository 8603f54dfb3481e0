//! The controller: the one owner of the rule engine and of the registry.
//!
//! It is a state machine that is driven from outside. An idle
//! [`Controller`] takes an [`Event`] and answers with what is to be done
//! next ([`Next`]): wait for the next event, offer a turn to a player, or
//! announce the end of a game. Offering and announcing are work for the
//! driver; it reports how they went on the [`TurnOffer`] or the
//! [`Announcement`] it was given, and gets the next step back.

use crate::gametraits::{
    user_views, GameTrait, PlayerMoveResult, PlayerTurn, TurnToken, User, UserView,
};
use crate::messages::{invalid_message_format, invalid_move, ToClient};
use crate::player_table::{name_views, PlayerInfo, PlayerTable, PlayerTableView};
use vstd::hash_map::StringHashMap;
use vstd::prelude::*;

verus! {

/// How the server operates.
#[derive(Clone, Copy, Debug, PartialEq, Eq, Structural)]
pub enum GameMode {
    /// Games are played.
    Practice,
    /// Players may connect and stay; no turn is offered.
    Gating,
    /// Games are played as in `Practice`. Wins are counted in every
    /// mode; this one tells operator and players that they matter now.
    Competition,
}

/// Why a game ended.
#[derive(Clone, Debug, PartialEq, Eq)]
pub enum GameOverReason {
    Winner(String),
    Draw,
}

/// What a `GameOverReason` is in contracts.
pub enum GameOverReasonView {
    Winner(Seq<char>),
    Draw,
}

impl View for GameOverReason {
    type V = GameOverReasonView;

    open spec fn view(&self) -> GameOverReasonView {
        match self {
            GameOverReason::Winner(name) => GameOverReasonView::Winner(name@),
            GameOverReason::Draw => GameOverReasonView::Draw,
        }
    }
}

/// A player connected, and can be reached on this channel.
pub struct ImConnectedMsg<C> {
    pub player_name: String,
    pub controller_to_player_sender: C,
}

/// What the connection layer and the operator tell the controller.
pub enum ControllerMsg<C> {
    ImConnected(ImConnectedMsg<C>),
    ImDisconnected(String),
    GoToMode(GameMode),
    ResetGame,
    /// The pause before every offer of a turn, in milliseconds.
    SetTurnDelay(u64),
    /// The pause after the end of a game, in milliseconds.
    SetWinDelay(u64),
}

/// What an idle controller can be woken by.
pub enum Event<C, M> {
    ControllerMsg(ControllerMsg<C>),
    /// The player on turn answered. `None` stands for an answer that
    /// could not be read as a move.
    Move(Option<M>),
    /// The player on turn will not answer any more.
    PlayerMoveDropped,
}

/// What a `ControllerInfo` is in contracts.
pub struct ControllerInfoView {
    pub connected_users: Seq<UserView>,
    pub game_mode: GameMode,
    pub score: Map<Seq<char>, u64>,
    pub turndelay: u64,
    pub windelay: u64,
}

/// The score of `name` after one more win. A score that cannot grow any
/// more stays as it is.
pub open spec fn score_after_win(score: Map<Seq<char>, u64>, name: Seq<char>) -> u64 {
    if !score.contains_key(name) {
        1
    } else if score[name] < u64::MAX {
        (score[name] + 1) as u64
    } else {
        u64::MAX
    }
}

impl ControllerInfoView {
    /// The settings a controller starts with: nobody connected, practice
    /// mode, no wins, 200 ms before a turn and 500 ms after a game.
    pub open spec fn initial() -> ControllerInfoView {
        ControllerInfoView {
            connected_users: Seq::empty(),
            game_mode: GameMode::Practice,
            score: Map::empty(),
            turndelay: 200,
            windelay: 500,
        }
    }

    /// The settings after `name` won a game.
    pub open spec fn with_win(self, name: Seq<char>) -> ControllerInfoView {
        ControllerInfoView {
            score: self.score.insert(name, score_after_win(self.score, name)),
            ..self
        }
    }

    /// The settings with nobody having won anything.
    pub open spec fn without_scores(self) -> ControllerInfoView {
        ControllerInfoView { score: Map::empty(), ..self }
    }
}

/// The wins of each name.
pub struct ScoreTable {
    wins: StringHashMap<u64>,
}

impl View for ScoreTable {
    type V = Map<Seq<char>, u64>;

    closed spec fn view(&self) -> Map<Seq<char>, u64> {
        self.wins@
    }
}

impl ScoreTable {
    /// A table in which nobody has a win.
    pub fn new() -> (table: Self)
        ensures
            table@ == Map::<Seq<char>, u64>::empty(),
    {
        Self { wins: StringHashMap::new() }
    }

    /// Counts one more win for `name`.
    pub fn add_win(&mut self, name: &String)
        ensures
            final(self)@ == old(self)@.insert(name@, score_after_win(old(self)@, name@)),
    {
        let wins = match self.wins.get(name.as_str()) {
            Some(current_score) => {
                if *current_score < u64::MAX {
                    *current_score + 1
                } else {
                    u64::MAX
                }
            },
            None => 1,
        };
        self.wins.insert(name.clone(), wins);
    }

    /// The wins of `name`: none where it never won.
    pub fn wins_of(&self, name: &str) -> (wins: u64)
        ensures
            wins == if self@.contains_key(name@) {
                self@[name@]
            } else {
                0
            },
    {
        match self.wins.get(name) {
            Some(wins) => *wins,
            None => 0,
        }
    }
}

/// The settings of the controller and what it publishes about itself:
/// who is connected, the mode, the wins of each name, and the two delays
/// in milliseconds.
pub struct ControllerInfo {
    pub connected_users: Vec<User>,
    pub game_mode: GameMode,
    pub score: ScoreTable,
    pub turndelay: u64,
    pub windelay: u64,
}

impl View for ControllerInfo {
    type V = ControllerInfoView;

    open spec fn view(&self) -> ControllerInfoView {
        ControllerInfoView {
            connected_users: user_views(self.connected_users@),
            game_mode: self.game_mode,
            score: self.score@,
            turndelay: self.turndelay,
            windelay: self.windelay,
        }
    }
}

impl Default for ControllerInfo {
    /// Nobody connected, practice mode, no wins, 200 ms before a turn and
    /// 500 ms after a game.
    fn default() -> (info: Self)
        ensures
            info@ == ControllerInfoView::initial(),
    {
        let info = Self {
            connected_users: Vec::new(),
            game_mode: GameMode::Practice,
            score: ScoreTable::new(),
            turndelay: 200,
            windelay: 500,
        };
        assert(info@.connected_users =~= Seq::empty());
        info
    }
}

impl ControllerInfo {
    /// Counts one more win for `name`.
    pub fn add_player_win(&mut self, name: &String)
        ensures
            final(self)@ == old(self)@.with_win(name@),
    {
        self.score.add_win(name);
    }

    /// Forgets every win.
    pub fn reset_scores(&mut self)
        ensures
            final(self)@ == old(self)@.without_scores(),
    {
        self.score = ScoreTable::new();
    }

    /// Everybody connected, each with the wins of the name, in the
    /// order in which they are published.
    pub fn scoreboard(&self) -> (board: Vec<(User, u64)>)
        ensures
            board.len() == self@.connected_users.len(),
            forall|i: int|
                0 <= i < board.len() ==> {
                    &&& (#[trigger] board[i]).0@ == self@.connected_users[i]
                    &&& board[i].1 == if self@.score.contains_key(self@.connected_users[i].name) {
                        self@.score[self@.connected_users[i].name]
                    } else {
                        0
                    }
                },
    {
        let mut board: Vec<(User, u64)> = Vec::new();
        let mut at: usize = 0;
        while at < self.connected_users.len()
            invariant
                at <= self.connected_users.len(),
                board.len() == at,
                forall|i: int|
                    0 <= i < at ==> {
                        &&& (#[trigger] board[i]).0@ == self@.connected_users[i]
                        &&& board[i].1 == if self@.score.contains_key(
                            self@.connected_users[i].name,
                        ) {
                            self@.score[self@.connected_users[i].name]
                        } else {
                            0
                        }
                    },
            decreases self.connected_users.len() - at,
        {
            let user = self.connected_users[at].clone();
            let wins = self.score_of(user.name.as_str());
            board.push((user, wins));
            at += 1;
        }
        board
    }

    /// The wins of `name`: none where it never won.
    pub fn score_of(&self, name: &str) -> (wins: u64)
        ensures
            wins == if self@.score.contains_key(name@) {
                self@.score[name@]
            } else {
                0
            },
    {
        self.score.wins_of(name)
    }
}

/// The player as rule engines see it: the name and the color.
pub fn player_info_to_user<C>(info: &PlayerInfo<C>) -> (user: User)
    ensures
        user@.name == info@.name,
        user@.color == info@.color,
{
    info.user()
}

/// What a `Controller` is in contracts: the registry, the
/// settings, and the player on turn, if a turn is outstanding.
pub struct ControllerView<C> {
    pub players: PlayerTableView<C>,
    pub info: ControllerInfoView,
    pub running: Option<UserView>,
}

impl<C> ControllerView<C> {
    /// The registry is in order and published as it is; the player on
    /// turn, if any, is registered; and nobody is on turn while the mode
    /// is `Gating`.
    pub open spec fn wf(self) -> bool {
        &&& self.players.wf()
        &&& self.info.connected_users == self.players.roster()
        &&& self.running matches Some(user) ==> self.players.contains(user.name)
        &&& self.info.game_mode == GameMode::Gating ==> self.running is None
    }

    /// The same controller around the registry `players`.
    pub open spec fn with_players(self, players: PlayerTableView<C>) -> ControllerView<C> {
        ControllerView {
            players,
            info: ControllerInfoView { connected_users: players.roster(), ..self.info },
            running: self.running,
        }
    }

    /// The same controller with `running` on turn.
    pub open spec fn with_running(self, running: Option<UserView>) -> ControllerView<C> {
        ControllerView { running, ..self }
    }

    /// The same controller with nobody on turn.
    pub open spec fn off_turn(self) -> ControllerView<C> {
        self.with_running(None)
    }

    /// The same controller in `mode`.
    pub open spec fn in_mode(self, mode: GameMode) -> ControllerView<C> {
        ControllerView { info: ControllerInfoView { game_mode: mode, ..self.info }, ..self }
    }

    /// The controller after it went to `Gating`: no wins, nobody on turn.
    pub open spec fn gated(self) -> ControllerView<C> {
        ControllerView {
            info: ControllerInfoView { game_mode: GameMode::Gating, ..self.info.without_scores() },
            running: None,
            ..self
        }
    }

    /// The controller after `winner` won a game.
    pub open spec fn with_win(self, winner: Seq<char>) -> ControllerView<C> {
        ControllerView { info: self.info.with_win(winner), ..self }
    }

    /// The controller after the player called `name` was taken out of
    /// the registry.
    pub open spec fn without(self, name: Seq<char>) -> ControllerView<C> {
        self.with_players(self.players.removed(name))
    }

    /// The controller after the players called `names` were taken out of
    /// the registry.
    pub open spec fn pruned(self, names: Seq<Seq<char>>) -> ControllerView<C> {
        self.with_players(self.players.without_all(names))
    }
}

/// What a `TurnOffer` is in contracts.
pub struct TurnOfferView<C, S> {
    pub controller: ControllerView<C>,
    pub player: UserView,
    pub state: S,
    pub after_move: bool,
}

/// What an `Announcement` is in contracts.
pub struct AnnouncementView<C> {
    pub controller: ControllerView<C>,
    pub reason: GameOverReasonView,
}

/// What a `Next` is in contracts.
pub enum NextView<C, S> {
    Wait(ControllerView<C>),
    Rest(ControllerView<C>),
    YourTurn(TurnOfferView<C, S>),
    GameOver(AnnouncementView<C>),
}

impl<C, S> NextView<C, S> {
    /// The controller inside.
    pub open spec fn controller(self) -> ControllerView<C> {
        match self {
            NextView::Wait(controller) => controller,
            NextView::Rest(controller) => controller,
            NextView::YourTurn(offer) => offer.controller,
            NextView::GameOver(announcement) => announcement.controller,
        }
    }
}

/// What follows where no turn is on offer: after a move, a rest; else
/// the wait for the next event.
pub open spec fn no_turn<C, S>(controller: ControllerView<C>, after_move: bool) -> NextView<C, S> {
    if after_move {
        NextView::Rest(controller)
    } else {
        NextView::Wait(controller)
    }
}

/// What follows when the rule engine answered `turn` to a controller
/// with nobody on turn: the offer of that turn, unless there is none or
/// the mode is `Gating`.
pub open spec fn dispatched<C, S>(
    controller: ControllerView<C>,
    turn: Option<PlayerTurn<S>>,
    after_move: bool,
) -> NextView<C, S> {
    match turn {
        Some(turn) if controller.info.game_mode != GameMode::Gating => NextView::YourTurn(
            TurnOfferView { controller, player: turn.token.user@, state: turn.state, after_move },
        ),
        _ => no_turn(controller, after_move),
    }
}

/// What a controller with nobody on turn tells the mover, and what
/// follows, when the rule engine answered `result` to the move of `who`.
pub open spec fn reacted<C, S>(
    controller: ControllerView<C>,
    who: Seq<char>,
    result: PlayerMoveResult<S>,
) -> (Option<ToClient>, NextView<C, S>) {
    match result {
        PlayerMoveResult::Accepted(turn) => (None, dispatched(controller, Some(turn), true)),
        PlayerMoveResult::Win => (
            None,
            NextView::GameOver(
                AnnouncementView {
                    controller: controller.with_win(who),
                    reason: GameOverReasonView::Winner(who),
                },
            ),
        ),
        PlayerMoveResult::Draw => (
            None,
            NextView::GameOver(AnnouncementView { controller, reason: GameOverReasonView::Draw }),
        ),
        PlayerMoveResult::InvalidMove(turn) => (
            Some(ToClient::Error(crate::messages::Error { reason: "invalid move" })),
            dispatched(controller, turn, true),
        ),
        PlayerMoveResult::InvalidFormat(turn) => (
            Some(ToClient::Error(crate::messages::Error { reason: "invalid message format" })),
            dispatched(controller, turn, true),
        ),
    }
}

/// The controller while it waits for an event.
pub struct Controller<G: GameTrait, C> {
    game: G,
    players: PlayerTable<C>,
    info: ControllerInfo,
    running: Option<TurnToken>,
}

/// The offer of a turn that the driver is to make: it pauses for
/// `delay` milliseconds, sends `state` to `player` together with a fresh
/// way to answer, and reports with `sent` or `failed`.
pub struct TurnOffer<G: GameTrait, C> {
    controller: Controller<G, C>,
    token: TurnToken,
    state: G::State,
    after_move: bool,
}

/// The end of a game that the driver is to announce: it sends `reason`
/// to every registered player, pauses for `delay` milliseconds, and
/// reports with `done` whom it could not reach.
pub struct Announcement<G: GameTrait, C> {
    controller: Controller<G, C>,
    reason: GameOverReason,
}

/// What the driver is to do next.
pub enum Next<G: GameTrait, C> {
    /// Wait for the next event: a message, or the answer of the player
    /// on turn if there is one.
    Wait(Controller<G, C>),
    /// Pause for the delay after a game, then wait for the next event.
    Rest(Controller<G, C>),
    /// Offer a turn.
    YourTurn(TurnOffer<G, C>),
    /// Announce the end of the game.
    GameOver(Announcement<G, C>),
}

/// The answer to an event: what to tell the player whose move it
/// refused, if any, and what to do next. The refusal is sent on a best
/// effort: it does not matter whether it arrives.
pub struct Reaction<G: GameTrait, C> {
    pub rejection: Option<ToClient>,
    pub next: Next<G, C>,
}

impl<G: GameTrait, C> View for Controller<G, C> {
    type V = ControllerView<C>;

    closed spec fn view(&self) -> ControllerView<C> {
        ControllerView {
            players: self.players@,
            info: self.info@,
            running: match self.running {
                Some(token) => Some(token.user@),
                None => None,
            },
        }
    }
}

impl<G: GameTrait, C> View for TurnOffer<G, C> {
    type V = TurnOfferView<C, G::State>;

    closed spec fn view(&self) -> TurnOfferView<C, G::State> {
        TurnOfferView {
            controller: self.controller@,
            player: self.token.user@,
            state: self.state,
            after_move: self.after_move,
        }
    }
}

impl<G: GameTrait, C> View for Announcement<G, C> {
    type V = AnnouncementView<C>;

    closed spec fn view(&self) -> AnnouncementView<C> {
        AnnouncementView { controller: self.controller@, reason: self.reason@ }
    }
}

impl<G: GameTrait, C> View for Next<G, C> {
    type V = NextView<C, G::State>;

    open spec fn view(&self) -> NextView<C, G::State> {
        match self {
            Next::Wait(controller) => NextView::Wait(controller@),
            Next::Rest(controller) => NextView::Rest(controller@),
            Next::YourTurn(offer) => NextView::YourTurn(offer@),
            Next::GameOver(announcement) => NextView::GameOver(announcement@),
        }
    }
}

impl<G: GameTrait, C> Controller<G, C> {
    /// The rule engine as it stands.
    pub closed spec fn engine(&self) -> G {
        self.game
    }

    /// The controller is in order, and so is its rule engine.
    pub open spec fn wf(&self) -> bool {
        self@.wf() && self.engine().inv()
    }

    /// A controller around `game`: nobody registered, nobody on turn,
    /// the settings at their defaults.
    pub fn new(game: G) -> (controller: Self)
        requires
            game.inv(),
        ensures
            controller.wf(),
            controller.engine() == game,
            controller@.players.entries.len() == 0,
            controller@.info == ControllerInfoView::initial(),
            controller@.running is None,
    {
        let controller = Self {
            game,
            players: PlayerTable::new(),
            info: ControllerInfo::default(),
            running: None,
        };
        assert(controller@.players.roster() =~= Seq::empty());
        controller
    }

    /// The registry.
    pub fn players(&self) -> (players: &PlayerTable<C>)
        ensures
            players@ == self@.players,
    {
        &self.players
    }

    /// The settings, and what the controller publishes about itself.
    pub fn info(&self) -> (info: &ControllerInfo)
        ensures
            info@ == self@.info,
    {
        &self.info
    }

    /// The rule engine.
    pub fn game(&self) -> (game: &G)
        ensures
            *game == self.engine(),
    {
        &self.game
    }

    /// The token of the player on turn, if a turn is outstanding.
    pub fn current_turn(&self) -> (token: Option<&TurnToken>)
        ensures
            match token {
                Some(token) => self@.running == Some(token.user@),
                None => self@.running is None,
            },
    {
        self.running.as_ref()
    }
}

/// What becomes of the rule engine when its answer `turn` is looked at:
/// where no turn is on offer after a move, the engine is reset with
/// everybody registered; else it is left alone.
pub open spec fn engine_dispatched<G: GameTrait, C>(
    engine: G,
    controller: ControllerView<C>,
    turn: Option<PlayerTurn<G::State>>,
    after_move: bool,
    engine_after: G,
) -> bool {
    if dispatched(controller, turn, after_move) is Rest {
        engine.was_reset(controller.players.roster(), &engine_after)
    } else {
        engine_after == engine
    }
}

/// What becomes of the rule engine when its answer `result` to a move
/// is looked at.
pub open spec fn engine_reacted<G: GameTrait, C>(
    engine: G,
    controller: ControllerView<C>,
    result: PlayerMoveResult<G::State>,
    engine_after: G,
) -> bool {
    match result {
        PlayerMoveResult::Win => engine_after == engine,
        PlayerMoveResult::Draw => engine_after == engine,
        _ => engine_dispatched(engine, controller, result.turn(), true, engine_after),
    }
}

/// The rule engine was asked for a first turn, and its answer decided
/// what follows.
pub open spec fn asked_to_start<G: GameTrait, C>(
    engine: G,
    controller: ControllerView<C>,
    next: NextView<C, G::State>,
    engine_after: G,
) -> bool {
    exists|first: Option<PlayerTurn<G::State>>|
        {
            &&& #[trigger] engine.started(first, &engine_after)
            &&& next == dispatched(controller, first, false)
        }
}

/// The rule engine was reset with everybody registered and then asked
/// for a first turn, and its answer decided what follows.
pub open spec fn game_restarted<G: GameTrait, C>(
    engine: G,
    controller: ControllerView<C>,
    next: NextView<C, G::State>,
    engine_after: G,
) -> bool {
    exists|engine_between: G|
        {
            &&& #[trigger] engine.was_reset(controller.players.roster(), &engine_between)
            &&& asked_to_start(engine_between, controller, next, engine_after)
        }
}

/// The rule engine was told that `player`, whose turn it was, is gone,
/// and its answer decided what follows.
pub open spec fn told_holder_left<G: GameTrait, C>(
    engine: G,
    controller: ControllerView<C>,
    player: UserView,
    after_move: bool,
    next: NextView<C, G::State>,
    engine_after: G,
) -> bool {
    exists|replacement: Option<PlayerTurn<G::State>>, engine_between: G|
        {
            &&& #[trigger] engine.holder_left(player, replacement, &engine_between)
            &&& engine_dispatched(engine_between, controller, replacement, after_move, engine_after)
            &&& next == dispatched(controller, replacement, after_move)
        }
}

/// The rule engine was handed the move of `player`, and its answer
/// decided what is said to the mover and what follows.
pub open spec fn told_move<G: GameTrait, C>(
    engine: G,
    controller: ControllerView<C>,
    player: UserView,
    player_move: Option<G::Move>,
    rejection: Option<ToClient>,
    next: NextView<C, G::State>,
    engine_after: G,
) -> bool {
    exists|result: PlayerMoveResult<G::State>, engine_between: G|
        {
            &&& #[trigger] engine.moved(player, player_move, result, &engine_between)
            &&& engine_reacted(engine_between, controller, result, engine_after)
            &&& (rejection, next) == reacted(controller, player.name, result)
        }
}

/// What an idle controller with the rule engine `engine` answers to
/// `event`: `rejection` and `next`, and what becomes of the engine.
pub open spec fn handled<G: GameTrait, C>(
    controller: ControllerView<C>,
    engine: G,
    event: Event<C, G::Move>,
    rejection: Option<ToClient>,
    next: NextView<C, G::State>,
    engine_after: G,
) -> bool {
    match event {
        // The player is registered and the engine is told; where nobody
        // is on turn the engine is asked for a first turn.
        Event::ControllerMsg(ControllerMsg::ImConnected(msg)) => {
            let name = msg.player_name@;
            let joined = controller.with_players(
                controller.players.added(name, msg.controller_to_player_sender),
            );
            let user = UserView { name, color: controller.players.bucket.color_of(name) };
            &&& rejection is None
            &&& exists|engine_between: G|
                {
                    &&& #[trigger] engine.joined(user, &engine_between)
                    &&& if controller.running is Some {
                        &&& next == NextView::<C, G::State>::Wait(joined)
                        &&& engine_after == engine_between
                    } else {
                        asked_to_start(engine_between, joined, next, engine_after)
                    }
                }
        },
        // The player leaves the registry. Where it was the player on
        // turn, the engine is told that the holder of the turn is gone;
        // else the engine is told if the player was registered.
        Event::ControllerMsg(ControllerMsg::ImDisconnected(name)) => {
            &&& rejection is None
            &&& match controller.running {
                Some(user) if user.name == name@ => told_holder_left(
                    engine,
                    controller.off_turn().without(name@),
                    user,
                    false,
                    next,
                    engine_after,
                ),
                _ => {
                    &&& next == NextView::<C, G::State>::Wait(
                        controller.with_players(controller.players.removed(name@)),
                    )
                    &&& if controller.players.contains(name@) {
                        engine.left(name@, &engine_after)
                    } else {
                        engine_after == engine
                    }
                },
            }
        },
        // Going to `Gating` forgets the wins, takes the turn from whoever
        // has it and resets the engine; leaving `Gating` asks the engine
        // for a first turn.
        Event::ControllerMsg(ControllerMsg::GoToMode(mode)) => {
            &&& rejection is None
            &&& if mode == GameMode::Gating {
                &&& next == NextView::<C, G::State>::Wait(controller.gated())
                &&& engine.was_reset(controller.players.roster(), &engine_after)
            } else if controller.info.game_mode == GameMode::Gating {
                asked_to_start(engine, controller.in_mode(mode), next, engine_after)
            } else {
                &&& next == NextView::<C, G::State>::Wait(controller.in_mode(mode))
                &&& engine_after == engine
            }
        },
        Event::ControllerMsg(ControllerMsg::ResetGame) => {
            &&& rejection is None
            &&& next == NextView::<C, G::State>::Wait(controller)
            &&& engine_after == engine
        },
        Event::ControllerMsg(ControllerMsg::SetTurnDelay(delay)) => {
            &&& rejection is None
            &&& next == NextView::<C, G::State>::Wait(
                ControllerView {
                    info: ControllerInfoView { turndelay: delay, ..controller.info },
                    ..controller
                },
            )
            &&& engine_after == engine
        },
        Event::ControllerMsg(ControllerMsg::SetWinDelay(delay)) => {
            &&& rejection is None
            &&& next == NextView::<C, G::State>::Wait(
                ControllerView {
                    info: ControllerInfoView { windelay: delay, ..controller.info },
                    ..controller
                },
            )
            &&& engine_after == engine
        },
        // The move goes to the engine with the token of the player on
        // turn. Where nobody is on turn it is dropped.
        Event::Move(player_move) => {
            match controller.running {
                Some(user) => told_move(
                    engine,
                    controller.off_turn(),
                    user,
                    player_move,
                    rejection,
                    next,
                    engine_after,
                ),
                None => {
                    &&& rejection is None
                    &&& next == NextView::<C, G::State>::Wait(controller)
                    &&& engine_after == engine
                },
            }
        },
        Event::PlayerMoveDropped => {
            &&& rejection is None
            &&& next == NextView::<C, G::State>::Wait(controller)
            &&& engine_after == engine
        },
    }
}

/// Once the mode is `Gating` nobody is on turn and nobody has a win, and
/// an answer that arrives then changes nothing: it is dropped without a
/// word to the mover or to the rule engine.
pub proof fn law_gating_discards_turn<G: GameTrait, C>(
    controller: ControllerView<C>,
    engine: G,
    late_answer: Option<G::Move>,
    rejection: Option<ToClient>,
    next: NextView<C, G::State>,
    engine_after: G,
)
    requires
        handled(
            controller.gated(),
            engine,
            Event::<C, G::Move>::Move(late_answer),
            rejection,
            next,
            engine_after,
        ),
    ensures
        controller.gated().running is None,
        controller.gated().info.score == Map::<Seq<char>, u64>::empty(),
        rejection is None,
        next == NextView::<C, G::State>::Wait(controller.gated()),
        engine_after == engine,
{
}

/// A first turn goes to a registered player: where a connect makes the
/// rule engine grant a turn, nobody else is on turn while it is offered,
/// the newcomer is registered, and once the offer is sent to a
/// registered player the controller is in order with that player on
/// turn.
pub proof fn law_first_turn<G: GameTrait, C>(
    controller: ControllerView<C>,
    engine: G,
    msg: ImConnectedMsg<C>,
    rejection: Option<ToClient>,
    next: NextView<C, G::State>,
    engine_after: G,
)
    requires
        controller.wf(),
        controller.running is None,
        handled(
            controller,
            engine,
            Event::ControllerMsg(ControllerMsg::ImConnected(msg)),
            rejection,
            next,
            engine_after,
        ),
        next is YourTurn,
    ensures
        controller.info.game_mode != GameMode::Gating,
        next->YourTurn_0.controller.running is None,
        next->YourTurn_0.controller.players.contains(msg.player_name@),
        next->YourTurn_0.controller.players.contains(next->YourTurn_0.player.name)
            ==> next->YourTurn_0.controller.with_running(Some(next->YourTurn_0.player)).wf(),
{
    crate::player_table::lemma_added_wf(
        controller.players,
        msg.player_name@,
        msg.controller_to_player_sender,
    );
    crate::player_table::lemma_added_contains(
        controller.players,
        msg.player_name@,
        msg.controller_to_player_sender,
        msg.player_name@,
    );
}

/// Who disconnected is out of the registry, whether on turn or not, and
/// everybody else stays registered.
pub proof fn law_disconnected_player_is_unregistered<G: GameTrait, C>(
    controller: ControllerView<C>,
    engine: G,
    name: String,
    other: Seq<char>,
    rejection: Option<ToClient>,
    next: NextView<C, G::State>,
    engine_after: G,
)
    requires
        handled(
            controller,
            engine,
            Event::<C, G::Move>::ControllerMsg(ControllerMsg::ImDisconnected(name)),
            rejection,
            next,
            engine_after,
        ),
    ensures
        next.controller().players == controller.players.removed(name@),
        !next.controller().players.contains(name@),
        other != name@ ==> (next.controller().players.contains(other)
            <==> controller.players.contains(other)),
{
    crate::player_table::lemma_removed_contains(controller.players, name@, name@);
    crate::player_table::lemma_removed_contains(controller.players, name@, other);
}

/// The wins change in two ways only: a move that wins the game adds
/// one to the wins of the mover, and going to `Gating` forgets them all.
pub proof fn law_scores_follow_wins<G: GameTrait, C>(
    controller: ControllerView<C>,
    engine: G,
    event: Event<C, G::Move>,
    rejection: Option<ToClient>,
    next: NextView<C, G::State>,
    engine_after: G,
)
    requires
        handled(controller, engine, event, rejection, next, engine_after),
    ensures
        next.controller().info.score == if event is Move && next is GameOver
            && next->GameOver_0.reason is Winner {
            controller.info.with_win(next->GameOver_0.reason->Winner_0).score
        } else if event matches Event::ControllerMsg(ControllerMsg::GoToMode(GameMode::Gating)) {
            Map::<Seq<char>, u64>::empty()
        } else {
            controller.info.score
        },
        event is Move && next is GameOver && next->GameOver_0.reason is Winner
            ==> controller.running == Some(
            UserView {
                name: next->GameOver_0.reason->Winner_0,
                color: controller.running.unwrap().color,
            },
        ),
{
}

/// Whoever is on turn is registered, in every controller that is in
/// order; and every step of a controller leaves it in order. So the
/// turn that follows a first turn of the rule engine, once it is sent,
/// belongs to a registered player.
pub proof fn law_holder_is_registered<C>(controller: ControllerView<C>, holder: UserView)
    requires
        controller.wf(),
        controller.running == Some(holder),
    ensures
        controller.players.contains(holder.name),
        exists|i: int|
            0 <= i < controller.players.entries.len() && (
            #[trigger] controller.players.entries[i]).name == holder.name,
{
}

impl<G: GameTrait, C> TurnOffer<G, C> {
    /// The rule engine as it stands.
    pub closed spec fn engine(&self) -> G {
        self.controller.game
    }

    /// The controller inside is in order, nobody is on turn, and the
    /// mode is not `Gating`.
    pub open spec fn wf(&self) -> bool {
        &&& self@.controller.wf()
        &&& self.engine().inv()
        &&& self@.controller.running is None
        &&& self@.controller.info.game_mode != GameMode::Gating
    }

    /// The player to whom the turn is offered.
    pub fn player(&self) -> (player: &User)
        ensures
            player@ == self@.player,
    {
        &self.token.user
    }

    /// The state of the game to send along.
    pub fn state(&self) -> (state: &G::State)
        ensures
            *state == self@.state,
    {
        &self.state
    }

    /// The pause before the offer, in milliseconds.
    pub fn delay(&self) -> (delay: u64)
        ensures
            delay == self@.controller.info.turndelay,
    {
        self.controller.info.turndelay
    }

    /// The controller, to look at.
    pub fn controller(&self) -> (controller: &Controller<G, C>)
        ensures
            controller@ == self@.controller,
            controller.engine() == self.engine(),
    {
        &self.controller
    }

    /// The offer reached the player, who is on turn from now on. Where
    /// the player is not in the registry the offer counts as failed.
    pub fn sent(self) -> (next: Next<G, C>)
        requires
            self.wf(),
        ensures
            next.wf(),
            if self@.controller.players.contains(self@.player.name) {
                &&& next@ == NextView::<C, G::State>::Wait(
                    self@.controller.with_running(Some(self@.player)),
                )
                &&& next.engine() == self.engine()
            } else {
                told_holder_left(
                    self.engine(),
                    self@.controller.without(self@.player.name),
                    self@.player,
                    self@.after_move,
                    next@,
                    next.engine(),
                )
            },
    {
        if self.controller.players.contains(self.token.user.name.as_str()) {
            let mut controller = self.controller;
            controller.running = Some(self.token);
            Next::Wait(controller)
        } else {
            self.failed()
        }
    }

    /// The offer did not reach the player. The player leaves the
    /// registry, the rule engine is told that the player is gone, and its
    /// answer decides what follows.
    pub fn failed(self) -> (next: Next<G, C>)
        requires
            self.wf(),
        ensures
            next.wf(),
            told_holder_left(
                self.engine(),
                self@.controller.without(self@.player.name),
                self@.player,
                self@.after_move,
                next@,
                next.engine(),
            ),
            next@.controller() == self@.controller.without(self@.player.name),
            !next@.controller().players.contains(self@.player.name),
    {
        let mut controller = self.controller;
        controller.players.remove_player(self.token.user.name.as_str());
        controller.settle();
        proof {
            crate::player_table::lemma_removed_contains(
                self@.controller.players,
                self@.player.name,
                self@.player.name,
            );
        }
        let replacement = controller.game.current_player_disconnected(self.token);
        let ghost engine_between = controller.game;
        let next = controller.dispatch(replacement, self.after_move);
        assert(self.engine().holder_left(self@.player, replacement, &engine_between));
        next
    }
}

impl<G: GameTrait, C> Announcement<G, C> {
    /// The rule engine as it stands.
    pub closed spec fn engine(&self) -> G {
        self.controller.game
    }

    /// The controller inside is in order, and nobody is on turn.
    pub open spec fn wf(&self) -> bool {
        &&& self@.controller.wf()
        &&& self.engine().inv()
        &&& self@.controller.running is None
    }

    /// Why the game ended.
    pub fn reason(&self) -> (reason: &GameOverReason)
        ensures
            reason@ == self@.reason,
    {
        &self.reason
    }

    /// The pause after the announcement, in milliseconds.
    pub fn delay(&self) -> (delay: u64)
        ensures
            delay == self@.controller.info.windelay,
    {
        self.controller.info.windelay
    }

    /// The controller, to look at.
    pub fn controller(&self) -> (controller: &Controller<G, C>)
        ensures
            controller@ == self@.controller,
            controller.engine() == self.engine(),
    {
        &self.controller
    }

    /// The announcement was made; the players called `unreachable` could
    /// not be told. They leave the registry, the rule engine is reset
    /// with those who stay, and asked for the first turn of a new game.
    pub fn done(self, unreachable: Vec<String>) -> (next: Next<G, C>)
        requires
            self.wf(),
        ensures
            next.wf(),
            game_restarted(
                self.engine(),
                self@.controller.pruned(name_views(unreachable@)),
                next@,
                next.engine(),
            ),
    {
        let mut controller = self.controller;
        controller.players.remove_players(&unreachable);
        controller.settle();
        let roster = controller.players.roster();
        controller.game.reset(roster);
        let ghost engine_between = controller.game;
        let next = controller.first_move_new_game();
        assert(self.engine().was_reset(
            self@.controller.pruned(name_views(unreachable@)).players.roster(),
            &engine_between,
        ));
        next
    }
}

impl<G: GameTrait, C> Next<G, C> {
    /// The rule engine as it stands.
    pub open spec fn engine(&self) -> G {
        match self {
            Next::Wait(controller) => controller.engine(),
            Next::Rest(controller) => controller.engine(),
            Next::YourTurn(offer) => offer.engine(),
            Next::GameOver(announcement) => announcement.engine(),
        }
    }

    /// Whatever is inside is in order.
    pub open spec fn wf(&self) -> bool {
        match self {
            Next::Wait(controller) => controller.wf(),
            Next::Rest(controller) => controller.wf() && controller@.running is None,
            Next::YourTurn(offer) => offer.wf(),
            Next::GameOver(announcement) => announcement.wf(),
        }
    }

    /// The controller inside, to look at.
    pub fn controller(&self) -> (controller: &Controller<G, C>)
        ensures
            controller@ == self@.controller(),
            controller.engine() == self.engine(),
    {
        match self {
            Next::Wait(controller) => controller,
            Next::Rest(controller) => controller,
            Next::YourTurn(offer) => offer.controller(),
            Next::GameOver(announcement) => announcement.controller(),
        }
    }
}

impl<G: GameTrait, C> Controller<G, C> {
    /// Publishes the registry as it is now.
    fn settle(&mut self)
        ensures
            final(self)@ == old(self)@.with_players(old(self)@.players),
            final(self).game == old(self).game,
    {
        self.info.connected_users = self.players.roster();
    }

    /// What follows where no turn is on offer. After a move the rule
    /// engine is reset with everybody registered.
    fn no_turn(self, after_move: bool) -> (next: Next<G, C>)
        requires
            self.wf(),
            self@.running is None,
        ensures
            next.wf(),
            next@ == no_turn::<C, G::State>(self@, after_move),
            engine_dispatched(self.engine(), self@, None, after_move, next.engine()),
    {
        if after_move {
            let mut controller = self;
            let roster = controller.players.roster();
            controller.game.reset(roster);
            Next::Rest(controller)
        } else {
            Next::Wait(self)
        }
    }

    /// Offers `turn_token` with `p_game_state`, unless the mode is
    /// `Gating`: then no turn is on offer, and after a move the rule
    /// engine is reset with everybody registered.
    pub fn your_turn(
        self,
        turn_token: TurnToken,
        p_game_state: G::State,
        after_move: bool,
    ) -> (next: Next<G, C>)
        requires
            self.wf(),
            self@.running is None,
        ensures
            next.wf(),
            next@ == dispatched(
                self@,
                Some(PlayerTurn { token: turn_token, state: p_game_state }),
                after_move,
            ),
            engine_dispatched(
                self.engine(),
                self@,
                Some(PlayerTurn { token: turn_token, state: p_game_state }),
                after_move,
                next.engine(),
            ),
    {
        if matches!(self.info.game_mode, GameMode::Gating) {
            self.no_turn(after_move)
        } else {
            Next::YourTurn(
                TurnOffer { controller: self, token: turn_token, state: p_game_state, after_move },
            )
        }
    }

    /// What follows when the rule engine answered `turn`.
    fn dispatch(self, turn: Option<PlayerTurn<G::State>>, after_move: bool) -> (next: Next<G, C>)
        requires
            self.wf(),
            self@.running is None,
        ensures
            next.wf(),
            next@ == dispatched(self@, turn, after_move),
            engine_dispatched(self.engine(), self@, turn, after_move, next.engine()),
    {
        match turn {
            Some(PlayerTurn { token, state }) => self.your_turn(token, state, after_move),
            None => self.no_turn(after_move),
        }
    }

    /// Asks the rule engine for the first turn of a game and offers it.
    pub fn first_move_new_game(self) -> (next: Next<G, C>)
        requires
            self.wf(),
            self@.running is None,
        ensures
            next.wf(),
            asked_to_start(self.engine(), self@, next@, next.engine()),
    {
        let mut controller = self;
        let first = controller.game.try_start_game();
        let next = controller.dispatch(first, false);
        assert(self.engine().started(first, &next.engine()));
        next
    }

    /// What is said and done when the rule engine answered
    /// `player_move_result` to the move of `who_moved`: a turn is
    /// offered, the end of the game is announced and a win counted, or
    /// the mover is told that the move was refused.
    pub fn react_to_player_move(
        self,
        who_moved: String,
        player_move_result: PlayerMoveResult<G::State>,
    ) -> (reaction: Reaction<G, C>)
        requires
            self.wf(),
            self@.running is None,
        ensures
            reaction.next.wf(),
            (reaction.rejection, reaction.next@) == reacted(
                self@,
                who_moved@,
                player_move_result,
            ),
            engine_reacted(self.engine(), self@, player_move_result, reaction.next.engine()),
    {
        match player_move_result {
            PlayerMoveResult::Accepted(PlayerTurn { token, state }) => Reaction {
                rejection: None,
                next: self.your_turn(token, state, true),
            },
            PlayerMoveResult::Draw => Reaction {
                rejection: None,
                next: Next::GameOver(
                    Announcement { controller: self, reason: GameOverReason::Draw },
                ),
            },
            PlayerMoveResult::Win => {
                let mut controller = self;
                controller.info.add_player_win(&who_moved);
                Reaction {
                    rejection: None,
                    next: Next::GameOver(
                        Announcement { controller, reason: GameOverReason::Winner(who_moved) },
                    ),
                }
            },
            PlayerMoveResult::InvalidMove(maybe_player_turn) => Reaction {
                rejection: Some(invalid_move()),
                next: self.dispatch(maybe_player_turn, true),
            },
            PlayerMoveResult::InvalidFormat(maybe_player_turn) => Reaction {
                rejection: Some(invalid_message_format()),
                next: self.dispatch(maybe_player_turn, true),
            },
        }
    }

    /// A player connected.
    fn connected(self, player_name: String, channel: C) -> (reaction: Reaction<G, C>)
        requires
            self.wf(),
        ensures
            reaction.next.wf(),
            handled(
                self@,
                self.engine(),
                Event::ControllerMsg(
                    ControllerMsg::ImConnected(
                        ImConnectedMsg { player_name, controller_to_player_sender: channel },
                    ),
                ),
                reaction.rejection,
                reaction.next@,
                reaction.next.engine(),
            ),
    {
        let mut controller = self;
        let ghost before = controller@;
        let new_player = controller.players.add_new_player(player_name, channel);
        let user = player_info_to_user(new_player);
        controller.game.player_connected(user);
        let ghost engine_between = controller.game;
        controller.settle();
        proof {
            if let Some(holder) = before.running {
                crate::player_table::lemma_added_contains(
                    before.players,
                    player_name@,
                    channel,
                    holder.name,
                );
            }
        }
        let next = if controller.running.is_none() {
            controller.first_move_new_game()
        } else {
            Next::Wait(controller)
        };
        assert(self.engine().joined(
            UserView { name: player_name@, color: before.players.bucket.color_of(player_name@) },
            &engine_between,
        ));
        Reaction { rejection: None, next }
    }

    /// A player disconnected.
    fn disconnected(self, name: String) -> (reaction: Reaction<G, C>)
        requires
            self.wf(),
        ensures
            reaction.next.wf(),
            handled(
                self@,
                self.engine(),
                Event::ControllerMsg(ControllerMsg::ImDisconnected(name)),
                reaction.rejection,
                reaction.next@,
                reaction.next.engine(),
            ),
    {
        let mut controller = self;
        let ghost before = controller@;
        let on_turn = match &controller.running {
            Some(token) => token.user.name == name,
            None => false,
        };
        if on_turn {
            let token = controller.running.take().unwrap();
            controller.players.remove_player(name.as_str());
            controller.settle();
            let replacement = controller.game.current_player_disconnected(token);
            let ghost engine_between = controller.game;
            let next = controller.dispatch(replacement, false);
            assert(self.engine().holder_left(
                before.running.unwrap(),
                replacement,
                &engine_between,
            ));
            Reaction { rejection: None, next }
        } else {
            if controller.players.remove_player(name.as_str()) {
                controller.game.player_disconnected(name.as_str());
            }
            controller.settle();
            proof {
                if let Some(holder) = before.running {
                    crate::player_table::lemma_removed_contains(
                        before.players,
                        name@,
                        holder.name,
                    );
                }
            }
            Reaction { rejection: None, next: Next::Wait(controller) }
        }
    }

    /// The operator set the mode.
    fn go_to_mode(self, new_mode: GameMode) -> (reaction: Reaction<G, C>)
        requires
            self.wf(),
        ensures
            reaction.next.wf(),
            handled(
                self@,
                self.engine(),
                Event::ControllerMsg(ControllerMsg::GoToMode(new_mode)),
                reaction.rejection,
                reaction.next@,
                reaction.next.engine(),
            ),
    {
        let mut controller = self;
        let leaving_gating = matches!(controller.info.game_mode, GameMode::Gating) && !matches!(
            new_mode,
            GameMode::Gating
        );
        controller.info.game_mode = new_mode;
        let next = if leaving_gating {
            controller.first_move_new_game()
        } else if matches!(new_mode, GameMode::Gating) {
            controller.info.reset_scores();
            let roster = controller.players.roster();
            controller.game.reset(roster);
            // Whoever has the turn loses it: a late answer finds nobody
            // on turn.
            controller.running = None;
            Next::Wait(controller)
        } else {
            Next::Wait(controller)
        };
        Reaction { rejection: None, next }
    }

    /// The player on turn answered.
    fn moved(self, player_move: Option<G::Move>) -> (reaction: Reaction<G, C>)
        requires
            self.wf(),
        ensures
            reaction.next.wf(),
            handled(
                self@,
                self.engine(),
                Event::Move(player_move),
                reaction.rejection,
                reaction.next@,
                reaction.next.engine(),
            ),
    {
        let mut controller = self;
        let ghost before = controller@;
        match controller.running.take() {
            Some(token) => {
                let who_moved = token.user.name.clone();
                let move_result = controller.game.player_moves(token, player_move);
                let ghost engine_between = controller.game;
                let reaction = controller.react_to_player_move(who_moved, move_result);
                assert(self.engine().moved(
                    before.running.unwrap(),
                    player_move,
                    move_result,
                    &engine_between,
                ));
                reaction
            },
            None => Reaction { rejection: None, next: Next::Wait(controller) },
        }
    }

    /// Takes one event and says what is to be done next.
    pub fn handle(self, event: Event<C, G::Move>) -> (reaction: Reaction<G, C>)
        requires
            self.wf(),
        ensures
            reaction.next.wf(),
            handled(
                self@,
                self.engine(),
                event,
                reaction.rejection,
                reaction.next@,
                reaction.next.engine(),
            ),
    {
        match event {
            Event::ControllerMsg(
                ControllerMsg::ImConnected(
                    ImConnectedMsg { player_name, controller_to_player_sender },
                ),
            ) => self.connected(player_name, controller_to_player_sender),
            Event::ControllerMsg(ControllerMsg::ImDisconnected(name)) => self.disconnected(name),
            Event::ControllerMsg(ControllerMsg::GoToMode(new_mode)) => self.go_to_mode(new_mode),
            Event::ControllerMsg(ControllerMsg::ResetGame) => Reaction {
                rejection: None,
                next: Next::Wait(self),
            },
            Event::ControllerMsg(ControllerMsg::SetTurnDelay(delay)) => {
                let mut controller = self;
                controller.info.turndelay = delay;
                Reaction { rejection: None, next: Next::Wait(controller) }
            },
            Event::ControllerMsg(ControllerMsg::SetWinDelay(delay)) => {
                let mut controller = self;
                controller.info.windelay = delay;
                Reaction { rejection: None, next: Next::Wait(controller) }
            },
            Event::Move(player_move) => self.moved(player_move),
            // A matching disconnect message is on its way.
            Event::PlayerMoveDropped => Reaction { rejection: None, next: Next::Wait(self) },
        }
    }
}

} // verus!
