use fruits_game::global::AppState;
use fruits_game::session::check_lives;
use fruits_game::session::continue_game;
use fruits_game::session::enter_game;
use fruits_game::session::pause;
use fruits_game::session::restart;
use fruits_game::session::Session;

#[test]
fn fresh_session_has_full_lives_and_nothing_else() {
    let session = Session::default();
    assert_eq!(session.level, 1);
    assert_eq!(session.lives_left, 5);
    assert_eq!(session.score, 0);
    assert_eq!(session.boosts, 0);
}

#[test]
fn session_text_shows_boosts_and_score() {
    let mut session = Session::default();
    session.boosts = 2;
    session.score = 616;
    assert_eq!(session.text(), "boosts: 2\nscore: 616");
}

#[test]
fn lives_running_out_ends_the_game() {
    let mut session = Session::default();
    session.lives_left = 0;
    assert_eq!(check_lives(&session, AppState::InGame), AppState::Finish);

    session.lives_left = 1;
    assert_eq!(check_lives(&session, AppState::InGame), AppState::InGame);
}

#[test]
fn pausing_suspends_and_resuming_returns() {
    assert_eq!(pause(AppState::InGame), AppState::Paused);
    assert_eq!(pause(AppState::MainMenu), AppState::MainMenu);
    assert_eq!(continue_game(AppState::Paused), AppState::InGame);
    assert_eq!(continue_game(AppState::Finish), AppState::Finish);
}

#[test]
fn entering_and_restarting_reach_play() {
    assert_eq!(enter_game(AppState::MainMenu), AppState::InGame);

    let mut session = Session::default();
    session.score = 99;
    session.lives_left = 0;
    let state = restart(&mut session, AppState::Finish);
    assert_eq!(state, AppState::InGame);
    assert_eq!(session, Session::default());
}

#[test]
fn pausing_keeps_session_state() {
    let mut session = Session::default();
    session.score = 42;
    session.boosts = 1;
    let before = session.clone();
    let paused = pause(AppState::InGame);
    let resumed = continue_game(paused);
    assert_eq!(resumed, AppState::InGame);
    assert_eq!(session, before);
}
