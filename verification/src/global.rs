//! The top-level application states the game moves between.

use vstd::prelude::*;

verus! {

/// Which screen the application is on. The simulation only runs in
/// `InGame`; `Paused` suspends ticking without touching any session state.
#[derive(Debug, Clone, Copy, PartialEq, Eq, Hash, Default, Structural)]
pub enum AppState {
    #[default]
    MainMenu,
    InGame,
    Paused,
    Finish,
}

} // verus!
