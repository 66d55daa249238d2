use vstd::prelude::*;

verus! {

/// The phase of a game. A new game is `Ready`.
#[derive(Debug, Clone, Copy, Eq, PartialEq, Hash, Structural)]
pub enum GameSate {
    Ready,
    Playing,
    Paused,
    GameOver,
}

impl Default for GameSate {
    fn default() -> (state: GameSate)
        ensures
            state == GameSate::Ready,
    {
        GameSate::Ready
    }
}

} // verus!
