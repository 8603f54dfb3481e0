use coding_challenge::controller::GameOverReason;
use coding_challenge::messages::{
    invalid_message_format, invalid_move, wrong_password, Auth, Error, FromClient, GameOver,
    ToClient,
};
use coding_challenge::user_connection::{
    authorize, game_over_message, json_error, player_response_to_move, UserPassDb,
};

fn auth(username: &str, password: &str) -> Option<FromClient> {
    Some(FromClient::Auth(Auth {
        username: username.to_string(),
        password: password.to_string(),
    }))
}

#[test]
fn json_error_wraps_the_text() {
    assert_eq!(json_error("boom"), "{'error': 'boom'}");
    assert_eq!(json_error(""), "{'error': ''}");
}

#[test]
fn a_line_becomes_a_move_unchanged() {
    let line = r#"{"move":{"add": 5}}"#;
    let player_move = player_response_to_move(line).unwrap();
    assert_eq!(player_move.serialized, line);
    assert_eq!(player_response_to_move("").unwrap().serialized, "");
}

#[test]
fn a_new_name_is_let_in_and_recorded() {
    let mut db = UserPassDb::new();
    assert_eq!(authorize(auth("user", "pass"), &mut db), Ok("user".to_string()));
    assert_eq!(db.password_of("user"), Some(&"pass".to_string()));
    assert_eq!(db.password_of("other"), None);
}

#[test]
fn a_known_name_needs_the_recorded_password() {
    let mut db = UserPassDb::new();
    assert!(authorize(auth("user", "pass"), &mut db).is_ok());
    assert_eq!(
        authorize(auth("user", "wrong pass"), &mut db),
        Err(wrong_password())
    );
    assert_eq!(db.password_of("user"), Some(&"pass".to_string()));
    assert_eq!(authorize(auth("user", "pass"), &mut db), Ok("user".to_string()));
    assert_eq!(authorize(auth("other", "wrong pass"), &mut db), Ok("other".to_string()));
    assert_eq!(db.password_of("other"), Some(&"wrong pass".to_string()));
}

#[test]
fn an_unreadable_first_message_is_refused() {
    let mut db = UserPassDb::new();
    assert_eq!(authorize(None, &mut db), Err(invalid_message_format()));
    assert_eq!(db.password_of(""), None);
}

#[test]
fn refusals_say_why() {
    assert_eq!(
        invalid_message_format(),
        ToClient::Error(Error {
            reason: "invalid message format"
        })
    );
    assert_eq!(
        wrong_password(),
        ToClient::Error(Error {
            reason: "wrong password"
        })
    );
    assert_eq!(
        invalid_move(),
        ToClient::Error(Error {
            reason: "invalid move"
        })
    );
}

#[test]
fn game_over_is_put_into_words() {
    assert_eq!(
        game_over_message(GameOverReason::Winner("zeldo".to_string())),
        ToClient::GameOver(GameOver {
            reason: "winner zeldo".to_string()
        })
    );
    assert_eq!(
        game_over_message(GameOverReason::Draw),
        ToClient::GameOver(GameOver {
            reason: "draw".to_string()
        })
    );
}

use coding_challenge::gametraits::PlayerGameState;
use coding_challenge::network_wrap;
use coding_challenge::user_connection::{Ending, MyErr, Session, SessionAction, SessionEvent};

fn step(session: &mut Session, db: &mut UserPassDb, event: SessionEvent) -> SessionAction {
    session.step(event, db)
}

fn let_in(name: &str, db: &mut UserPassDb) -> Session {
    let (mut session, first) = Session::new();
    assert!(matches!(first, SessionAction::ReadFirstMessage));
    match step(&mut session, db, SessionEvent::FirstMessage(auth(name, "pass"))) {
        SessionAction::Register(registered) => assert_eq!(registered, name),
        other => panic!("unexpected {:?}", other),
    }
    assert!(matches!(
        step(&mut session, db, SessionEvent::Told),
        SessionAction::AwaitController
    ));
    session
}

fn state(text: &str) -> PlayerGameState {
    PlayerGameState {
        serialized: text.to_string(),
    }
}

#[test]
fn session_plays_turn_after_turn() {
    let mut db = UserPassDb::new();
    let mut session = let_in("zeldo", &mut db);
    for round in 0..3 {
        let text = format!("{{\"your-turn\":{{\"num\":{}}}}}\n", round);
        match step(&mut session, &mut db, SessionEvent::YourTurn(state(&text))) {
            SessionAction::SendState(sent) => assert_eq!(sent.serialized, text),
            other => panic!("unexpected {:?}", other),
        }
        assert!(matches!(
            step(&mut session, &mut db, SessionEvent::Written),
            SessionAction::ReadLine
        ));
        match step(
            &mut session,
            &mut db,
            SessionEvent::Line(r#"{"move":{"add": 5}}"#.to_string()),
        ) {
            SessionAction::SubmitMove(player_move) => {
                assert_eq!(player_move.serialized, r#"{"move":{"add": 5}}"#)
            }
            other => panic!("unexpected {:?}", other),
        }
        assert!(matches!(
            step(&mut session, &mut db, SessionEvent::Verdict(None)),
            SessionAction::AwaitController
        ));
    }
    assert!(matches!(session, Session::AwaitingController(_)));
}

#[test]
fn session_refuses_a_wrong_password_and_ends() {
    let mut db = UserPassDb::new();
    let _first = let_in("user", &mut db);
    let (mut session, _) = Session::new();
    match step(
        &mut session,
        &mut db,
        SessionEvent::FirstMessage(auth("user", "wrong pass")),
    ) {
        SessionAction::Send(message) => assert_eq!(message, wrong_password()),
        other => panic!("unexpected {:?}", other),
    }
    match step(&mut session, &mut db, SessionEvent::Written) {
        SessionAction::Finish(ending) => assert_eq!(ending, Ending::AuthFailed),
        other => panic!("unexpected {:?}", other),
    }
    assert!(matches!(session, Session::Closed));
}

#[test]
fn session_refuses_an_unreadable_first_message() {
    let mut db = UserPassDb::new();
    let (mut session, _) = Session::new();
    match step(&mut session, &mut db, SessionEvent::FirstMessage(None)) {
        SessionAction::Send(message) => assert_eq!(message, invalid_message_format()),
        other => panic!("unexpected {:?}", other),
    }
    // Even if the refusal cannot be sent, the connection ends the same way.
    match step(&mut session, &mut db, SessionEvent::WriteFailed) {
        SessionAction::Finish(ending) => assert_eq!(ending, Ending::AuthFailed),
        other => panic!("unexpected {:?}", other),
    }
}

#[test]
fn session_ends_when_nothing_can_be_read_before_auth() {
    let mut db = UserPassDb::new();
    let (mut session, _) = Session::new();
    match step(
        &mut session,
        &mut db,
        SessionEvent::ReadFailed(network_wrap::Error::ConnectionClosed),
    ) {
        SessionAction::Finish(ending) => assert_eq!(ending, Ending::ClosedBeforeAuth),
        other => panic!("unexpected {:?}", other),
    }
    let (mut session, _) = Session::new();
    match step(
        &mut session,
        &mut db,
        SessionEvent::ReadFailed(network_wrap::Error::Custom("Whoopsie".to_string())),
    ) {
        SessionAction::Finish(ending) => assert_eq!(ending, Ending::ReadErrorBeforeAuth),
        other => panic!("unexpected {:?}", other),
    }
}

#[test]
fn session_ends_when_the_controller_is_gone() {
    let mut db = UserPassDb::new();
    let (mut session, _) = Session::new();
    step(&mut session, &mut db, SessionEvent::FirstMessage(auth("a", "pass")));
    match step(&mut session, &mut db, SessionEvent::ControllerGone) {
        SessionAction::Finish(ending) => assert_eq!(ending, Ending::ControllerUnreachable),
        other => panic!("unexpected {:?}", other),
    }
    let mut session = let_in("b", &mut db);
    match step(&mut session, &mut db, SessionEvent::ControllerGone) {
        SessionAction::Finish(ending) => assert_eq!(ending, Ending::ControllerDropped),
        other => panic!("unexpected {:?}", other),
    }
}

#[test]
fn session_tells_the_controller_when_the_client_is_gone() {
    let mut db = UserPassDb::new();
    let mut session = let_in("a", &mut db);
    step(&mut session, &mut db, SessionEvent::YourTurn(state("s\n")));
    match step(&mut session, &mut db, SessionEvent::WriteFailed) {
        SessionAction::Unregister(name) => assert_eq!(name, "a"),
        other => panic!("unexpected {:?}", other),
    }
    match step(&mut session, &mut db, SessionEvent::Told) {
        SessionAction::Finish(ending) => assert_eq!(ending, Ending::PlayerDisconnected),
        other => panic!("unexpected {:?}", other),
    }

    let mut session = let_in("b", &mut db);
    step(&mut session, &mut db, SessionEvent::YourTurn(state("s\n")));
    step(&mut session, &mut db, SessionEvent::Written);
    match step(
        &mut session,
        &mut db,
        SessionEvent::ReadFailed(network_wrap::Error::ConnectionClosed),
    ) {
        SessionAction::Unregister(name) => assert_eq!(name, "b"),
        other => panic!("unexpected {:?}", other),
    }
    match step(&mut session, &mut db, SessionEvent::Told) {
        SessionAction::Finish(ending) => assert_eq!(ending, Ending::ReadError),
        other => panic!("unexpected {:?}", other),
    }
}

#[test]
fn session_passes_a_refused_move_on_and_ends() {
    let mut db = UserPassDb::new();
    let mut session = let_in("a", &mut db);
    step(&mut session, &mut db, SessionEvent::YourTurn(state("s\n")));
    step(&mut session, &mut db, SessionEvent::Written);
    step(&mut session, &mut db, SessionEvent::Line("{\"sub\": 5}".to_string()));
    match step(
        &mut session,
        &mut db,
        SessionEvent::Verdict(Some(invalid_message_format())),
    ) {
        SessionAction::Send(message) => assert_eq!(message, invalid_message_format()),
        other => panic!("unexpected {:?}", other),
    }
    match step(&mut session, &mut db, SessionEvent::Written) {
        SessionAction::Finish(ending) => assert_eq!(ending, Ending::MoveFailure),
        other => panic!("unexpected {:?}", other),
    }
}

#[test]
fn session_announces_the_end_of_a_game_and_goes_on() {
    let mut db = UserPassDb::new();
    let mut session = let_in("a", &mut db);
    match step(
        &mut session,
        &mut db,
        SessionEvent::GameOver(GameOverReason::Winner("zeldo".to_string())),
    ) {
        SessionAction::Send(message) => assert_eq!(
            message,
            ToClient::GameOver(GameOver {
                reason: "winner zeldo".to_string()
            })
        ),
        other => panic!("unexpected {:?}", other),
    }
    assert!(matches!(
        step(&mut session, &mut db, SessionEvent::Written),
        SessionAction::AwaitController
    ));
    step(&mut session, &mut db, SessionEvent::GameOver(GameOverReason::Draw));
    match step(&mut session, &mut db, SessionEvent::WriteFailed) {
        SessionAction::Finish(ending) => assert_eq!(ending, Ending::PlayerDisconnected),
        other => panic!("unexpected {:?}", other),
    }
}

#[test]
fn session_ends_on_what_cannot_happen() {
    let mut db = UserPassDb::new();
    let mut session = let_in("a", &mut db);
    match step(&mut session, &mut db, SessionEvent::Line("x".to_string())) {
        SessionAction::Finish(ending) => assert_eq!(ending, Ending::Unexpected),
        other => panic!("unexpected {:?}", other),
    }
    match step(&mut session, &mut db, SessionEvent::Told) {
        SessionAction::Finish(ending) => assert_eq!(ending, Ending::Unexpected),
        other => panic!("unexpected {:?}", other),
    }
    // A later first message does not reach the record.
    step(&mut session, &mut db, SessionEvent::FirstMessage(auth("late", "pass")));
    assert_eq!(db.password_of("late"), None);
}

#[test]
fn endings_keep_their_words() {
    let words = [
        (Ending::ClosedBeforeAuth, "Closed connection before auth"),
        (
            Ending::ReadErrorBeforeAuth,
            "Error reading line from connection before auth",
        ),
        (
            Ending::ControllerUnreachable,
            "Failed sending player connected to controller",
        ),
        (Ending::AuthFailed, "Auth failed"),
        (Ending::ControllerDropped, "Controlled dropped me"),
        (Ending::PlayerDisconnected, "Player disconnected"),
        (Ending::ReadError, "Error reading line from connection"),
        (Ending::MoveFailure, "Move failure"),
        (Ending::Unexpected, "Unexpected event"),
    ];
    for (ending, text) in words {
        let MyErr::AnyHow(got) = ending.to_error();
        assert_eq!(got, text);
    }
}
