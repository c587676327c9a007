//! The per-playthrough session state (level, lives, score, boost charges)
//! and the lifecycle around it: loss detection, pausing, and restarting.

use vstd::prelude::*;

use crate::global::AppState;
use crate::record::format_record;
use crate::record::spec_digits;

verus! {

/// Lives can never exceed this ceiling; rewards are clamped against it.
pub const MAX_LIVES: u32 = 5;

/// The mutable state of one play-through, replaced wholesale on restart.
#[derive(Clone, Debug, PartialEq, Eq, Structural)]
pub struct Session {
    pub level: u32,
    pub lives_left: u32,
    pub score: u32,
    pub boosts: u32,
}

impl Session {
    /// The session invariant: lives stay within their ceiling and the level
    /// counter starts at one.
    pub open spec fn wf(self) -> bool {
        &&& self.lives_left <= MAX_LIVES
        &&& self.level >= 1
    }

    /// The heads-up text shown during play: boost charges and score.
    pub fn text(&self) -> (r: String)
        ensures
            r@ == "boosts: "@ + spec_digits(self.boosts as nat) + "\nscore: "@ + spec_digits(
                self.score as nat,
            ),
    {
        let mut r = String::from_str("boosts: ");
        let boosts = format_record(self.boosts);
        r.append(boosts.as_str());
        r.append("\nscore: ");
        let score = format_record(self.score);
        r.append(score.as_str());
        proof {
            assert(r@ =~= "boosts: "@ + spec_digits(self.boosts as nat) + "\nscore: "@
                + spec_digits(self.score as nat));
        }
        r
    }
}

impl Default for Session {
    /// A fresh session: level 1, full lives, nothing scored, no boosts.
    fn default() -> (s: Session)
        ensures
            s == (Session { level: 1, lives_left: MAX_LIVES, score: 0, boosts: 0 }),
            s.wf(),
    {
        Session { level: 1, lives_left: MAX_LIVES, score: 0, boosts: 0 }
    }
}

/// The loss condition, checked once per tick after penalties: a session out
/// of lives ends the game.
pub fn check_lives(session: &Session, state: AppState) -> (r: AppState)
    ensures
        r == (if session.lives_left == 0 && state == AppState::InGame {
            AppState::Finish
        } else {
            state
        }),
{
    if session.lives_left == 0 && state == AppState::InGame {
        AppState::Finish
    } else {
        state
    }
}

/// A pause request during play suspends the simulation; the session state
/// itself is untouched, so resuming continues where play left off.
pub fn pause(state: AppState) -> (r: AppState)
    ensures
        r == (if state == AppState::InGame {
            AppState::Paused
        } else {
            state
        }),
{
    if state == AppState::InGame {
        AppState::Paused
    } else {
        state
    }
}

/// Resuming from the pause screen returns to play with no state lost.
pub fn continue_game(state: AppState) -> (r: AppState)
    ensures
        r == (if state == AppState::Paused {
            AppState::InGame
        } else {
            state
        }),
{
    if state == AppState::Paused {
        AppState::InGame
    } else {
        state
    }
}

/// Starting a game from the main menu.
pub fn enter_game(state: AppState) -> (r: AppState)
    ensures
        r == (if state == AppState::MainMenu {
            AppState::InGame
        } else {
            state
        }),
{
    if state == AppState::MainMenu {
        AppState::InGame
    } else {
        state
    }
}

/// A restart request on the end screen replaces the session with fresh
/// defaults and returns to play.
pub fn restart(session: &mut Session, state: AppState) -> (r: AppState)
    ensures
        state == AppState::Finish ==> {
            &&& r == AppState::InGame
            &&& *final(session) == (Session {
                level: 1,
                lives_left: MAX_LIVES,
                score: 0,
                boosts: 0,
            })
        },
        state != AppState::Finish ==> r == state && *final(session) == *old(session),
{
    if state == AppState::Finish {
        *session = Session::default();
        AppState::InGame
    } else {
        state
    }
}

} // verus!
