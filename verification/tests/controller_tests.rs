use std::cell::RefCell;
use std::collections::VecDeque;
use std::rc::Rc;

use coding_challenge::controller::{
    Controller, ControllerMsg, Event, GameMode, GameOverReason, ImConnectedMsg, Next,
};
use coding_challenge::gametraits::{
    Color, GameTrait, PlayerMoveResult, PlayerTurn, TurnToken, User,
};
use coding_challenge::messages::{invalid_message_format, invalid_move, ToClient};

// ---------------------------------------------------------------------
// A rule engine that answers what the test told it to answer, and keeps
// a record of what it was asked.

#[derive(Debug, PartialEq, Eq, Clone)]
enum Call {
    PlayerConnected(String),
    PlayerDisconnected(String),
    TryStartGame,
    Move(String, Option<String>),
    CurrentPlayerDisconnected(String),
    Reset(Vec<String>),
}

#[derive(Default)]
struct Script {
    calls: VecDeque<Call>,
    starts: VecDeque<Option<String>>,
    move_results: VecDeque<PlayerMoveResult<String>>,
    replacements: VecDeque<Option<PlayerTurn<String>>>,
}

struct MockGame {
    script: Rc<RefCell<Script>>,
}

impl GameTrait for MockGame {
    type Move = String;
    type State = String;

    fn player_moves(
        &mut self,
        turn_token: TurnToken,
        player_move: Option<String>,
    ) -> PlayerMoveResult<String> {
        let mut script = self.script.borrow_mut();
        script
            .calls
            .push_back(Call::Move(turn_token.user.name, player_move));
        script
            .move_results
            .pop_front()
            .expect("the test did not say what the move gives")
    }

    fn current_player_disconnected(&mut self, turn_token: TurnToken) -> Option<PlayerTurn<String>> {
        let mut script = self.script.borrow_mut();
        script
            .calls
            .push_back(Call::CurrentPlayerDisconnected(turn_token.user.name));
        script.replacements.pop_front().unwrap_or(None)
    }

    fn try_start_game(&mut self) -> Option<PlayerTurn<String>> {
        let mut script = self.script.borrow_mut();
        script.calls.push_back(Call::TryStartGame);
        let name = script.starts.pop_front().unwrap_or(None);
        name.map(|name| PlayerTurn {
            state: "".to_owned(),
            token: TurnToken {
                user: User {
                    name,
                    color: Color::rgb8(0, 0, 255),
                },
            },
        })
    }

    fn player_connected(&mut self, user: User) {
        self.script
            .borrow_mut()
            .calls
            .push_back(Call::PlayerConnected(user.name));
    }

    fn player_disconnected(&mut self, user: &str) {
        self.script
            .borrow_mut()
            .calls
            .push_back(Call::PlayerDisconnected(user.to_owned()));
    }

    fn reset(&mut self, users: Vec<User>) {
        self.script
            .borrow_mut()
            .calls
            .push_back(Call::Reset(users.into_iter().map(|u| u.name).collect()));
    }
}

struct TestGame {
    script: Rc<RefCell<Script>>,
}

impl TestGame {
    fn will_start(&self, whos_turn: Option<&str>) {
        self.script
            .borrow_mut()
            .starts
            .push_back(whos_turn.map(|s| s.to_owned()));
    }

    fn will_answer(&self, move_result: PlayerMoveResult<String>) {
        self.script.borrow_mut().move_results.push_back(move_result);
    }

    fn will_replace(&self, replacement: Option<PlayerTurn<String>>) {
        self.script.borrow_mut().replacements.push_back(replacement);
    }

    fn next_call(&self, what: &str) -> Call {
        match self.script.borrow_mut().calls.pop_front() {
            Some(call) => call,
            None => panic!("Expected '{}', but didn't get it", what),
        }
    }

    fn expect_player_connected(&self, player: &str) {
        assert_eq!(
            self.next_call("player connected"),
            Call::PlayerConnected(player.to_owned())
        );
    }

    fn expect_player_disconnected(&self, player: &str) {
        assert_eq!(
            self.next_call("player disconnected"),
            Call::PlayerDisconnected(player.to_owned())
        );
    }

    fn expect_current_player_disconnected(&self, player: &str) {
        assert_eq!(
            self.next_call("current player disconnected"),
            Call::CurrentPlayerDisconnected(player.to_owned())
        );
    }

    fn expect_try_start_game(&self) {
        assert_eq!(self.next_call("try start game"), Call::TryStartGame);
    }

    fn expect_move(&self, expected_player_name: &str, expected_move: &str) {
        assert_eq!(
            self.next_call("move"),
            Call::Move(
                expected_player_name.to_owned(),
                Some(expected_move.to_owned())
            )
        );
    }

    fn expect_reset(&self) {
        match self.next_call("reset") {
            Call::Reset(_) => (),
            other => panic!("Expected 'reset', but got {:?}", other),
        }
    }

    fn expect_reset_with(&self, users: &[&str]) {
        let names: Vec<String> = users.iter().map(|s| s.to_string()).collect();
        assert_eq!(self.next_call("reset"), Call::Reset(names));
    }

    fn expect_nothing_more(&self) {
        assert!(self.script.borrow().calls.is_empty());
    }
}

// ---------------------------------------------------------------------
// The world around the controller: the players' inboxes stand for their
// channels, and `drive` does what the controller asks for.

struct InboxState<S> {
    alive: bool,
    turns: VecDeque<S>,
    game_overs: Vec<GameOverReason>,
    errors: Vec<ToClient>,
}

type Inbox<S> = Rc<RefCell<InboxState<S>>>;

struct SutState<G: GameTrait> {
    idle: Option<Controller<G, Inbox<G::State>>>,
    rests: usize,
    turn_delays: Vec<u64>,
    win_delays: Vec<u64>,
}

struct Sut<G: GameTrait> {
    state: Rc<RefCell<SutState<G>>>,
}

impl<G: GameTrait> Clone for Sut<G> {
    fn clone(&self) -> Self {
        Sut {
            state: self.state.clone(),
        }
    }
}

impl<G: GameTrait> Sut<G>
where
    G::State: Clone,
{
    fn with_game(game: G) -> Sut<G> {
        Sut {
            state: Rc::new(RefCell::new(SutState {
                idle: Some(Controller::new(game)),
                rests: 0,
                turn_delays: Vec::new(),
                win_delays: Vec::new(),
            })),
        }
    }

    fn drive(state: &mut SutState<G>, mut next: Next<G, Inbox<G::State>>) {
        loop {
            next = match next {
                Next::Wait(controller) => {
                    state.idle = Some(controller);
                    return;
                }
                Next::Rest(controller) => {
                    state.rests += 1;
                    state.idle = Some(controller);
                    return;
                }
                Next::YourTurn(offer) => {
                    state.turn_delays.push(offer.delay());
                    let reached = match offer.controller().players().get(&offer.player().name) {
                        Some(entry) if entry.tx.borrow().alive => {
                            entry.tx.borrow_mut().turns.push_back(offer.state().clone());
                            true
                        }
                        _ => false,
                    };
                    if reached {
                        offer.sent()
                    } else {
                        offer.failed()
                    }
                }
                Next::GameOver(announcement) => {
                    state.win_delays.push(announcement.delay());
                    let mut unreachable = Vec::new();
                    for entry in announcement.controller().players().iter() {
                        if entry.tx.borrow().alive {
                            entry
                                .tx
                                .borrow_mut()
                                .game_overs
                                .push(announcement.reason().clone());
                        } else {
                            unreachable.push(entry.name.clone());
                        }
                    }
                    announcement.done(unreachable)
                }
            }
        }
    }

    fn send(&self, event: Event<Inbox<G::State>, G::Move>) {
        let mut state = self.state.borrow_mut();
        let controller = state.idle.take().unwrap();
        let mover = controller.current_turn().map(|t| t.user.name.clone());
        let mover_inbox = mover
            .as_ref()
            .and_then(|name| controller.players().get(name).map(|e| e.tx.clone()));
        let reaction = controller.handle(event);
        if let Some(rejection) = reaction.rejection {
            if let Some(inbox) = mover_inbox {
                inbox.borrow_mut().errors.push(rejection);
            }
        }
        Self::drive(&mut state, reaction.next);
    }

    fn connect_player(&self, name: impl AsRef<str>) -> Player<G> {
        let inbox = Rc::new(RefCell::new(InboxState {
            alive: true,
            turns: VecDeque::new(),
            game_overs: Vec::new(),
            errors: Vec::new(),
        }));
        self.send(Event::ControllerMsg(ControllerMsg::ImConnected(
            ImConnectedMsg {
                player_name: name.as_ref().to_owned(),
                controller_to_player_sender: inbox.clone(),
            },
        )));
        Player {
            name: name.as_ref().to_owned(),
            inbox,
            has_turn: false,
            sut: self.clone(),
        }
    }

    fn disconnect(&self, name: &str) {
        self.send(Event::ControllerMsg(ControllerMsg::ImDisconnected(
            name.to_owned(),
        )));
    }

    fn go_to_mode(&self, mode: GameMode) {
        self.send(Event::ControllerMsg(ControllerMsg::GoToMode(mode)));
    }

    fn on_turn(&self) -> Option<String> {
        let state = self.state.borrow();
        state
            .idle
            .as_ref()
            .unwrap()
            .current_turn()
            .map(|t| t.user.name.clone())
    }

    fn registered(&self) -> Vec<String> {
        let state = self.state.borrow();
        let controller = state.idle.as_ref().unwrap();
        controller
            .players()
            .iter()
            .iter()
            .map(|e| e.name.clone())
            .collect()
    }

    fn published(&self) -> Vec<String> {
        let state = self.state.borrow();
        let controller = state.idle.as_ref().unwrap();
        controller
            .info()
            .connected_users
            .iter()
            .map(|u| u.name.clone())
            .collect()
    }

    fn score_of(&self, name: &str) -> u64 {
        let state = self.state.borrow();
        state.idle.as_ref().unwrap().info().score_of(name)
    }

    fn mode(&self) -> GameMode {
        let state = self.state.borrow();
        state.idle.as_ref().unwrap().info().game_mode
    }
}

impl Sut<MockGame> {
    fn start() -> (Sut<MockGame>, TestGame) {
        let script = Rc::new(RefCell::new(Script::default()));
        (
            Sut::with_game(MockGame {
                script: script.clone(),
            }),
            TestGame { script },
        )
    }
}

struct Player<G: GameTrait> {
    name: String,
    inbox: Inbox<G::State>,
    has_turn: bool,
    sut: Sut<G>,
}

impl<G: GameTrait> Drop for Player<G> {
    fn drop(&mut self) {
        self.inbox.borrow_mut().alive = false;
    }
}

impl<G: GameTrait> Player<G>
where
    G::State: Clone,
{
    fn expect_my_turn(&mut self) -> G::State {
        assert!(!self.has_turn);
        let state = match self.inbox.borrow_mut().turns.pop_front() {
            Some(state) => state,
            None => panic!("{} was not offered a turn", self.name),
        };
        self.has_turn = true;
        state
    }

    fn expect_no_turn(&self) {
        assert!(self.inbox.borrow().turns.is_empty());
    }

    fn send_decoded(&mut self, mv: Option<G::Move>) {
        assert!(self.has_turn);
        self.has_turn = false;
        // Only the answer of the player on turn can reach the controller.
        if self.sut.on_turn().as_deref() == Some(self.name.as_str()) {
            self.sut.send(Event::Move(mv));
        }
    }

    fn take_error(&mut self) -> Option<ToClient> {
        let mut inbox = self.inbox.borrow_mut();
        if inbox.errors.is_empty() {
            None
        } else {
            Some(inbox.errors.remove(0))
        }
    }

    fn game_overs(&self) -> Vec<GameOverReason> {
        self.inbox.borrow().game_overs.clone()
    }
}

impl Player<MockGame> {
    fn send_move(&mut self, mv: impl AsRef<str>) {
        self.send_decoded(Some(mv.as_ref().to_owned()));
    }
}

fn turn_token(next_player: impl AsRef<str>) -> TurnToken {
    TurnToken {
        user: User {
            name: next_player.as_ref().to_owned(),
            color: Color::rgb8(0, 0, 255),
        },
    }
}

fn player_turn(player: impl AsRef<str>) -> PlayerTurn<String> {
    PlayerTurn {
        token: turn_token(player.as_ref()),
        state: "()".to_owned(),
    }
}

fn ok_move(next_player: impl AsRef<str>, game_state: impl AsRef<str>) -> PlayerMoveResult<String> {
    PlayerMoveResult::Accepted(PlayerTurn {
        token: turn_token(next_player),
        state: game_state.as_ref().to_owned(),
    })
}

fn connect_n_players(
    sut: &mut Sut<MockGame>,
    game: &mut TestGame,
    n: usize,
) -> Vec<Player<MockGame>> {
    let mut players = Vec::new();
    for i in 0..n {
        game.will_start(None);
        players.push(sut.connect_player(format!("Player{}", i)));
        game.expect_player_connected(&players.last().unwrap().name);
        game.expect_try_start_game();
    }
    players
}

// ---------------------------------------------------------------------

#[test]
fn nice_test() {
    let (sut, game) = Sut::start();

    // Connect Player 1
    game.will_start(Some("Player1"));
    let mut p1 = sut.connect_player("Player1");
    game.expect_player_connected(&p1.name);
    game.expect_try_start_game();
    p1.expect_my_turn();

    // Player 1 moves
    game.will_answer(ok_move("Player1", ""));
    p1.send_move("");
    game.expect_move(&p1.name, "");
    p1.expect_my_turn();

    // Winning move
    game.will_answer(PlayerMoveResult::Win);
    // Game doesn't start
    game.will_start(None);
    p1.send_move("Some move");
    game.expect_move("Player1", "Some move");
    game.expect_reset();
    game.expect_try_start_game();
    assert_eq!(
        p1.game_overs(),
        vec![GameOverReason::Winner("Player1".to_owned())]
    );
    assert_eq!(sut.score_of("Player1"), 1);

    // Connect Player 2 - game starts, player 2 is first
    game.will_start(Some("Player2"));
    let mut p2 = sut.connect_player("Player2");
    game.expect_player_connected("Player2");
    game.expect_try_start_game();
    p2.expect_my_turn();

    // Player2 moves: it's a draw
    game.will_answer(PlayerMoveResult::Draw);
    p2.send_move("hija!");
    game.expect_move("Player2", "hija!");
    game.expect_reset();
    assert_eq!(p2.game_overs(), vec![GameOverReason::Draw]);
    assert_eq!(sut.score_of("Player2"), 0);
    assert_eq!(sut.score_of("Player1"), 1);
}

#[test]
fn lots_of_players_before_start() {
    let (sut, game) = Sut::start();

    let mut players = Vec::new();

    for i in 0..30 {
        game.will_start(None);
        players.push(sut.connect_player(format!("Player{}", i)));
        game.expect_player_connected(&players.last().unwrap().name);
        game.expect_try_start_game();
    }

    game.will_start(Some("Player1"));
    sut.connect_player("LastPlayer");
    game.expect_player_connected("LastPlayer");
    game.expect_try_start_game();
    players[1].expect_my_turn();
    game.will_answer(ok_move("Player25", "game state"));
    players[1].send_move("P1 move");
    game.expect_move("Player1", "P1 move");
    assert_eq!(players[25].expect_my_turn(), "game state");
    game.will_answer(ok_move("Player0", "0"));
    players[25].send_move("25");
    game.expect_move("Player25", "25");

    for i in 0..29 {
        players[i].expect_my_turn();
        game.will_answer(ok_move(format!("Player{}", i + 1), ""));
        players[i].send_move("mv");
        game.expect_move(&format!("Player{}", i), "mv")
    }

    players[29].expect_my_turn();
    game.will_answer(PlayerMoveResult::Win);
    game.will_start(None);
    players[29].send_move("29");
    game.expect_move("Player29", "29");
    game.expect_reset();
    game.expect_try_start_game();
}

#[test]
fn same_player_repeat() {
    let (sut, game) = Sut::start();

    game.will_start(None);
    sut.connect_player("p1");
    game.expect_player_connected("p1");
    game.expect_try_start_game();

    game.will_start(None);
    let mut p2 = sut.connect_player("p2");
    game.expect_player_connected("p2");
    game.expect_try_start_game();

    game.will_start(Some("p2"));
    sut.connect_player("p3");
    game.expect_player_connected("p3");
    game.expect_try_start_game();

    for _ in 1..5 {
        p2.expect_my_turn();
        game.will_answer(ok_move("p2", ""));
        p2.send_move("mv");
        game.expect_move("p2", "mv");
    }

    p2.expect_my_turn();
    game.will_answer(PlayerMoveResult::Win);
    p2.send_move("mv");
    game.expect_move("p2", "mv");
}

#[test]
fn illegal_move_game_stops() {
    let (mut sut, mut game) = Sut::start();

    let mut players = connect_n_players(&mut sut, &mut game, 5);

    game.will_start(Some("Player4"));
    sut.connect_player("last");
    game.expect_player_connected("last");
    game.expect_try_start_game();
    players[4].expect_my_turn();
    game.will_answer(PlayerMoveResult::InvalidMove(None));
    players[4].send_move("mv");
    game.expect_move("Player4", "mv");
    game.expect_reset();
    assert_eq!(players[4].take_error(), Some(invalid_move()));
    assert_eq!(sut.on_turn(), None);
}

#[test]
fn illegal_move_game_must_go_on() {
    let (mut sut, mut game) = Sut::start();

    let mut players = connect_n_players(&mut sut, &mut game, 5);

    game.will_start(Some("Player4"));
    sut.connect_player("last");
    game.expect_player_connected("last");
    game.expect_try_start_game();
    players[4].expect_my_turn();
    game.will_answer(PlayerMoveResult::InvalidMove(Some(player_turn("Player2"))));
    players[4].send_move("mv");
    game.expect_move("Player4", "mv");
    assert_eq!(players[2].expect_my_turn(), "()");
    game.will_answer(PlayerMoveResult::Draw);
    players[2].send_move("2");
    game.expect_move("Player2", "2");
}

#[test]
fn player_drops_then_gets_illegal_move_result() {
    let (sut, game) = Sut::start();
    game.will_start(Some("p1"));
    let mut p1 = sut.connect_player("p1");
    game.expect_player_connected("p1");
    game.expect_try_start_game();
    p1.expect_my_turn();
    game.will_answer(PlayerMoveResult::InvalidMove(None));
    p1.send_move("mv");
    drop(p1);
    game.expect_move("p1", "mv");
    game.expect_reset();

    game.will_start(Some("p1"));
    let mut p1 = sut.connect_player("p1");
    game.expect_player_connected("p1");
    game.expect_try_start_game();
    p1.expect_my_turn();
}

// ---------------------------------------------------------------------
// Further runs with the scripted engine.

#[test]
fn malformed_move_is_refused_as_such() {
    let (sut, game) = Sut::start();
    game.will_start(Some("a"));
    let mut a = sut.connect_player("a");
    game.will_start(None);
    let mut b = sut.connect_player("b");
    a.expect_my_turn();

    game.will_answer(PlayerMoveResult::InvalidFormat(Some(player_turn("b"))));
    a.send_decoded(None);
    assert_eq!(a.take_error(), Some(invalid_message_format()));
    assert_eq!(b.expect_my_turn(), "()");
    assert_eq!(sut.on_turn(), Some("b".to_owned()));
    assert_eq!(b.take_error(), None);
}

#[test]
fn holder_dropping_the_answer_changes_nothing() {
    let (sut, game) = Sut::start();
    game.will_start(Some("p1"));
    let mut p1 = sut.connect_player("p1");
    p1.expect_my_turn();
    game.expect_player_connected("p1");
    game.expect_try_start_game();

    sut.send(Event::PlayerMoveDropped);
    game.expect_nothing_more();
    assert_eq!(sut.on_turn(), Some("p1".to_owned()));
    assert_eq!(sut.registered(), vec!["p1".to_owned()]);
}

#[test]
fn holder_disconnects_and_rotation_empties() {
    let (sut, game) = Sut::start();
    game.will_start(Some("p1"));
    let mut p1 = sut.connect_player("p1");
    game.expect_player_connected("p1");
    game.expect_try_start_game();
    p1.expect_my_turn();

    // The channel drops before the answer; the notice follows.
    drop(p1);
    sut.send(Event::PlayerMoveDropped);
    game.expect_nothing_more();
    game.will_replace(None);
    sut.disconnect("p1");
    game.expect_current_player_disconnected("p1");
    game.expect_nothing_more();
    assert_eq!(sut.on_turn(), None);
    assert!(sut.registered().is_empty());
    assert!(sut.published().is_empty());

    // Coming back under the same name asks for a first turn at once.
    game.will_start(Some("p1"));
    let mut p1 = sut.connect_player("p1");
    game.expect_player_connected("p1");
    game.expect_try_start_game();
    p1.expect_my_turn();
    assert_eq!(sut.on_turn(), Some("p1".to_owned()));
}

#[test]
fn holder_disconnects_and_next_player_is_offered() {
    let (sut, game) = Sut::start();
    game.will_start(Some("p1"));
    let mut p1 = sut.connect_player("p1");
    game.will_start(None);
    let mut p2 = sut.connect_player("p2");
    p1.expect_my_turn();
    p2.expect_no_turn();
    game.expect_player_connected("p1");
    game.expect_try_start_game();
    game.expect_player_connected("p2");
    game.expect_nothing_more();

    game.will_replace(Some(player_turn("p2")));
    sut.disconnect("p1");
    game.expect_current_player_disconnected("p1");
    assert_eq!(p2.expect_my_turn(), "()");
    assert_eq!(sut.on_turn(), Some("p2".to_owned()));
    assert_eq!(sut.registered(), vec!["p2".to_owned()]);
}

#[test]
fn bystander_disconnects_without_disturbing_the_turn() {
    let (sut, game) = Sut::start();
    game.will_start(Some("p1"));
    let mut p1 = sut.connect_player("p1");
    let _p2 = sut.connect_player("p2");
    p1.expect_my_turn();
    game.expect_player_connected("p1");
    game.expect_try_start_game();
    game.expect_player_connected("p2");

    sut.disconnect("p2");
    game.expect_player_disconnected("p2");
    game.expect_nothing_more();
    assert_eq!(sut.on_turn(), Some("p1".to_owned()));
    assert_eq!(sut.registered(), vec!["p1".to_owned()]);
    assert_eq!(sut.published(), vec!["p1".to_owned()]);

    // Somebody unknown leaves: the engine is not told.
    sut.disconnect("nobody");
    game.expect_nothing_more();
    assert_eq!(sut.registered(), vec!["p1".to_owned()]);
}

#[test]
fn undeliverable_offer_goes_to_the_replacement() {
    let (sut, game) = Sut::start();
    game.will_start(None);
    let p1 = sut.connect_player("p1");
    game.will_start(None);
    let mut p2 = sut.connect_player("p2");
    drop(p1);

    // The engine names the player who is gone, then the one who is there.
    game.will_start(Some("p1"));
    game.will_replace(Some(player_turn("p2")));
    let _p3 = sut.connect_player("p3");
    assert_eq!(p2.expect_my_turn(), "()");
    assert_eq!(sut.on_turn(), Some("p2".to_owned()));
    let calls: Vec<Call> = game.script.borrow().calls.iter().cloned().collect();
    assert_eq!(
        calls[calls.len() - 3..].to_vec(),
        vec![
            Call::PlayerConnected("p3".to_owned()),
            Call::TryStartGame,
            Call::CurrentPlayerDisconnected("p1".to_owned()),
        ]
    );
    // Who could not be reached is out of the registry; the others stay.
    assert_eq!(sut.registered(), vec!["p2".to_owned(), "p3".to_owned()]);
    assert_eq!(sut.published(), vec!["p2".to_owned(), "p3".to_owned()]);
}

#[test]
fn undeliverable_offer_after_a_move_resets_with_those_who_stay() {
    let (sut, game) = Sut::start();
    game.will_start(Some("p1"));
    let mut p1 = sut.connect_player("p1");
    let p2 = sut.connect_player("p2");
    p1.expect_my_turn();
    drop(p2);
    game.script.borrow_mut().calls.clear();

    game.will_answer(ok_move("p2", ""));
    game.will_replace(None);
    p1.send_move("mv");
    game.expect_move("p1", "mv");
    game.expect_current_player_disconnected("p2");
    game.expect_reset_with(&["p1"]);
    game.expect_nothing_more();
    assert_eq!(sut.registered(), vec!["p1".to_owned()]);
    assert_eq!(sut.on_turn(), None);
    assert_eq!(sut.state.borrow().rests, 1);
}

#[test]
fn offer_to_an_unregistered_name_counts_as_failed() {
    let (sut, game) = Sut::start();
    game.will_start(Some("ghost"));
    game.will_replace(None);
    let mut p1 = sut.connect_player("p1");
    game.expect_player_connected("p1");
    game.expect_try_start_game();
    game.expect_current_player_disconnected("ghost");
    p1.expect_no_turn();
    assert_eq!(sut.on_turn(), None);
}

#[test]
fn game_over_prunes_unreachable_players_and_counts_the_win() {
    let (sut, game) = Sut::start();
    game.will_start(None);
    let gone = sut.connect_player("gone");
    game.will_start(Some("winner"));
    let mut winner = sut.connect_player("winner");
    let watcher = sut.connect_player("watcher");
    winner.expect_my_turn();
    drop(gone);

    game.will_answer(PlayerMoveResult::Win);
    game.will_start(Some("watcher"));
    winner.send_move("w");
    assert_eq!(
        winner.game_overs(),
        vec![GameOverReason::Winner("winner".to_owned())]
    );
    assert_eq!(
        watcher.game_overs(),
        vec![GameOverReason::Winner("winner".to_owned())]
    );
    assert_eq!(
        sut.registered(),
        vec!["winner".to_owned(), "watcher".to_owned()]
    );
    assert_eq!(sut.score_of("winner"), 1);
    assert_eq!(sut.score_of("watcher"), 0);
    assert_eq!(sut.on_turn(), Some("watcher".to_owned()));

    let calls: Vec<Call> = game.script.borrow().calls.iter().cloned().collect();
    assert_eq!(
        calls[calls.len() - 3..].to_vec(),
        vec![
            Call::Move("winner".to_owned(), Some("w".to_owned())),
            Call::Reset(vec!["winner".to_owned(), "watcher".to_owned()]),
            Call::TryStartGame,
        ]
    );
    let state = sut.state.borrow();
    assert_eq!(state.win_delays, vec![500]);
    assert_eq!(state.turn_delays, vec![200, 200]);
}

#[test]
fn gating_discards_the_turn_and_the_scores() {
    let (sut, game) = Sut::start();
    game.will_start(Some("p1"));
    let mut p1 = sut.connect_player("p1");
    p1.expect_my_turn();
    game.will_answer(PlayerMoveResult::Win);
    game.will_start(Some("p1"));
    p1.send_move("win");
    assert_eq!(sut.score_of("p1"), 1);
    p1.expect_my_turn();
    game.script.borrow_mut().calls.clear();

    sut.go_to_mode(GameMode::Gating);
    assert_eq!(sut.mode(), GameMode::Gating);
    assert_eq!(sut.on_turn(), None);
    assert_eq!(sut.score_of("p1"), 0);
    game.expect_reset_with(&["p1"]);
    game.expect_nothing_more();

    // The answer comes late: nothing happens.
    sut.send(Event::Move(Some("late".to_owned())));
    game.expect_nothing_more();
    assert_eq!(sut.on_turn(), None);
    assert_eq!(sut.score_of("p1"), 0);
    assert_eq!(sut.registered(), vec!["p1".to_owned()]);
    assert_eq!(p1.take_error(), None);

    // While gating, a connect asks the engine but no turn is offered.
    game.will_start(Some("p2"));
    let p2 = sut.connect_player("p2");
    game.expect_player_connected("p2");
    game.expect_try_start_game();
    p2.expect_no_turn();
    assert_eq!(sut.on_turn(), None);

    // Back in a playing mode, a game starts.
    game.will_start(Some("p2"));
    sut.go_to_mode(GameMode::Competition);
    game.expect_try_start_game();
    assert_eq!(sut.on_turn(), Some("p2".to_owned()));
    assert_eq!(sut.mode(), GameMode::Competition);
}

#[test]
fn changing_between_playing_modes_leaves_the_game_alone() {
    let (sut, game) = Sut::start();
    game.will_start(Some("p1"));
    let mut p1 = sut.connect_player("p1");
    p1.expect_my_turn();
    game.script.borrow_mut().calls.clear();
    sut.go_to_mode(GameMode::Competition);
    sut.send(Event::ControllerMsg(ControllerMsg::ResetGame));
    game.expect_nothing_more();
    assert_eq!(sut.on_turn(), Some("p1".to_owned()));
    assert_eq!(sut.mode(), GameMode::Competition);
}

#[test]
fn delays_can_be_tuned() {
    let (sut, game) = Sut::start();
    sut.send(Event::ControllerMsg(ControllerMsg::SetTurnDelay(7)));
    sut.send(Event::ControllerMsg(ControllerMsg::SetWinDelay(9)));
    game.will_start(Some("p1"));
    let mut p1 = sut.connect_player("p1");
    p1.expect_my_turn();
    game.will_answer(PlayerMoveResult::Draw);
    p1.send_move("d");
    let state = sut.state.borrow();
    assert_eq!(state.turn_delays, vec![7]);
    assert_eq!(state.win_delays, vec![9]);
    assert_eq!(state.idle.as_ref().unwrap().info().turndelay, 7);
    assert_eq!(state.idle.as_ref().unwrap().info().windelay, 9);
}

#[test]
fn no_replacement_after_a_move_rests_and_resets() {
    let (sut, game) = Sut::start();
    game.will_start(Some("p1"));
    let mut p1 = sut.connect_player("p1");
    p1.expect_my_turn();
    game.script.borrow_mut().calls.clear();
    game.will_answer(PlayerMoveResult::InvalidFormat(None));
    p1.send_decoded(None);
    assert_eq!(
        game.next_call("move"),
        Call::Move("p1".to_owned(), None)
    );
    game.expect_reset_with(&["p1"]);
    game.expect_nothing_more();
    assert_eq!(sut.state.borrow().rests, 1);
    assert_eq!(p1.take_error(), Some(invalid_message_format()));
}

#[test]
fn reconnecting_replaces_the_entry_and_keeps_the_color() {
    let (sut, game) = Sut::start();
    game.will_start(None);
    let first = sut.connect_player("p1");
    game.will_start(None);
    let _other = sut.connect_player("p2");
    let color_before = {
        let state = sut.state.borrow();
        let c = state.idle.as_ref().unwrap();
        c.players().get("p1").unwrap().color
    };
    assert_eq!(color_before, Color::rgb8(230, 25, 75));
    game.will_start(None);
    let _second = sut.connect_player("p1");
    drop(first);
    assert_eq!(sut.registered(), vec!["p2".to_owned(), "p1".to_owned()]);
    let state = sut.state.borrow();
    let c = state.idle.as_ref().unwrap();
    assert_eq!(c.players().get("p1").unwrap().color, color_before);
    assert_eq!(c.players().get("p2").unwrap().color, Color::rgb8(60, 180, 75));
    assert!(c.players().get("p1").unwrap().tx.borrow().alive);
}

// ---------------------------------------------------------------------
// Runs with the games that come with the server.

use coding_challenge::games::dumb;
use coding_challenge::games::gomoku;

#[test]
fn counter_game_two_player_flow() {
    let sut = Sut::with_game(dumb::Game::new());

    let mut zeldo = sut.connect_player("zeldo");
    assert_eq!(zeldo.expect_my_turn(), dumb::PlayerState { num: 0 });
    zeldo.send_decoded(Some(dumb::PlayerMove { add: 5 }));
    assert_eq!(zeldo.expect_my_turn(), dumb::PlayerState { num: 5 });
    zeldo.send_decoded(Some(dumb::PlayerMove { add: 5 }));
    assert_eq!(zeldo.expect_my_turn(), dumb::PlayerState { num: 10 });

    let mut user2 = sut.connect_player("user2");
    user2.expect_no_turn();

    zeldo.send_decoded(Some(dumb::PlayerMove { add: 3 }));
    assert_eq!(user2.expect_my_turn(), dumb::PlayerState { num: 13 });
    user2.send_decoded(Some(dumb::PlayerMove { add: 0 }));
    assert_eq!(zeldo.expect_my_turn(), dumb::PlayerState { num: 13 });
    zeldo.send_decoded(Some(dumb::PlayerMove { add: 3 }));
    assert_eq!(user2.expect_my_turn(), dumb::PlayerState { num: 16 });
    user2.send_decoded(Some(dumb::PlayerMove { add: 1 }));
    assert_eq!(zeldo.expect_my_turn(), dumb::PlayerState { num: 17 });
    zeldo.send_decoded(Some(dumb::PlayerMove { add: 2 }));
    assert_eq!(user2.expect_my_turn(), dumb::PlayerState { num: 19 });
}

#[test]
fn counter_game_wrong_format_move() {
    let sut = Sut::with_game(dumb::Game::new());
    let mut user = sut.connect_player("zeldo");
    assert_eq!(user.expect_my_turn(), dumb::PlayerState { num: 0 });
    user.send_decoded(Some(dumb::PlayerMove { add: 5 }));
    assert_eq!(user.expect_my_turn(), dumb::PlayerState { num: 5 });
    user.send_decoded(None);
    assert_eq!(user.take_error(), Some(invalid_message_format()));
    user.expect_no_turn();
    assert_eq!(sut.on_turn(), None);
    assert_eq!(sut.state.borrow().rests, 1);
}

#[test]
fn counter_game_passive_player_drops() {
    let sut = Sut::with_game(dumb::Game::new());
    let mut user = sut.connect_player("user");
    assert_eq!(user.expect_my_turn(), dumb::PlayerState { num: 0 });

    let user2 = sut.connect_player("zumba");
    drop(user2);

    // The offer to the player who is gone fails, and the turn comes back.
    user.send_decoded(Some(dumb::PlayerMove { add: 1 }));
    assert_eq!(user.expect_my_turn(), dumb::PlayerState { num: 1 });
    user.send_decoded(Some(dumb::PlayerMove { add: 1 }));
    assert_eq!(user.expect_my_turn(), dumb::PlayerState { num: 2 });
    user.send_decoded(Some(dumb::PlayerMove { add: 1 }));
    assert_eq!(user.expect_my_turn(), dumb::PlayerState { num: 3 });
}

#[test]
fn five_in_a_row_invalid_move() {
    let sut = Sut::with_game(gomoku::Game::new(20, 20, Vec::new()));
    let mut user = sut.connect_player("zeldo");
    user.expect_my_turn();
    user.send_decoded(Some(gomoku::PlayerMove { x: 5, y: 5 }));
    user.expect_my_turn();
    user.send_decoded(Some(gomoku::PlayerMove { x: 5, y: 5 }));
    assert_eq!(user.take_error(), Some(invalid_move()));
}

#[test]
fn five_in_a_row_invalid_move_p2() {
    let sut = Sut::with_game(gomoku::Game::new(20, 20, Vec::new()));
    let mut p1 = sut.connect_player("player1");
    p1.expect_my_turn();
    let mut p2 = sut.connect_player("player2");

    p1.send_decoded(Some(gomoku::PlayerMove { x: 5, y: 5 }));

    p2.expect_my_turn();
    p2.send_decoded(Some(gomoku::PlayerMove { x: 5, y: 5 }));
    assert_eq!(p2.take_error(), Some(invalid_move()));

    p1.expect_my_turn();
    p1.send_decoded(Some(gomoku::PlayerMove { x: 5, y: 6 }));

    p1.expect_my_turn();
    p2.expect_no_turn();
}

#[test]
fn five_in_a_row_win_twice() {
    let sut = Sut::with_game(gomoku::Game::new(20, 20, Vec::new()));
    let mut user = sut.connect_player("zeldo");

    for round in 1..3 {
        for x in 0..5 {
            let board = user.expect_my_turn();
            assert_eq!(board.width(), 20);
            assert_eq!(board.height(), 20);
            let occupied = board
                .cells()
                .iter()
                .filter(|c| matches!(c, gomoku::Cell::Occupied(_)))
                .count();
            assert_eq!(occupied, x);
            user.send_decoded(Some(gomoku::PlayerMove { x, y: 0 }));
        }
        assert_eq!(
            user.game_overs().len(),
            round
        );
        assert_eq!(
            user.game_overs()[round - 1],
            GameOverReason::Winner("zeldo".to_owned())
        );
        assert_eq!(sut.score_of("zeldo"), round as u64);
    }
}

#[test]
fn eliminated_player_never_regains_a_turn_that_game() {
    let sut = Sut::with_game(gomoku::Game::new(10, 10, Vec::new()));
    let mut a = sut.connect_player("a");
    let mut b = sut.connect_player("b");
    let mut c = sut.connect_player("c");
    a.expect_my_turn();
    a.send_decoded(Some(gomoku::PlayerMove { x: 5, y: 5 }));

    // "b" asks for the occupied place and is out; "c" is next.
    b.expect_my_turn();
    b.send_decoded(Some(gomoku::PlayerMove { x: 5, y: 5 }));
    assert_eq!(b.take_error(), Some(invalid_move()));
    assert_eq!(sut.on_turn(), Some("c".to_owned()));

    for round in 0..4 {
        let board = c.expect_my_turn();
        assert!(matches!(board.at(5, 5), Some(gomoku::Cell::Occupied(_))));
        c.send_decoded(Some(gomoku::PlayerMove { x: round, y: 0 }));
        b.expect_no_turn();
        a.expect_my_turn();
        a.send_decoded(Some(gomoku::PlayerMove { x: round, y: 9 }));
        b.expect_no_turn();
    }
    assert_eq!(sut.on_turn(), Some("c".to_owned()));
    assert_eq!(
        sut.registered(),
        vec!["a".to_owned(), "b".to_owned(), "c".to_owned()]
    );
}

#[test]
fn a_full_board_is_a_draw_and_a_new_game_begins() {
    let sut = Sut::with_game(gomoku::Game::new(2, 2, Vec::new()));
    let mut a = sut.connect_player("a");
    for (x, y) in [(0, 0), (1, 0), (0, 1)] {
        a.expect_my_turn();
        a.send_decoded(Some(gomoku::PlayerMove { x, y }));
    }
    a.expect_my_turn();
    assert!(a.game_overs().is_empty());
    a.send_decoded(Some(gomoku::PlayerMove { x: 1, y: 1 }));
    assert_eq!(a.game_overs(), vec![GameOverReason::Draw]);
    assert_eq!(sut.score_of("a"), 0);
    let fresh = a.expect_my_turn();
    assert!(fresh
        .cells()
        .iter()
        .all(|c| matches!(c, gomoku::Cell::Empty)));
}

#[test]
fn scoreboard_lists_everybody_with_their_wins() {
    let (sut, game) = Sut::start();
    game.will_start(Some("a"));
    let mut a = sut.connect_player("a");
    let _b = sut.connect_player("b");
    a.expect_my_turn();
    for _ in 0..2 {
        game.will_answer(PlayerMoveResult::Win);
        game.will_start(Some("a"));
        a.send_move("w");
        a.expect_my_turn();
    }
    let state = sut.state.borrow();
    let board = state.idle.as_ref().unwrap().info().scoreboard();
    assert_eq!(board.len(), 2);
    assert_eq!(board[0].0.name, "a");
    assert_eq!(board[0].0.color, Color::rgb8(230, 25, 75));
    assert_eq!(board[0].1, 2);
    assert_eq!(board[1].0.name, "b");
    assert_eq!(board[1].1, 0);
}
