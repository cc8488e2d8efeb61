//! The game state that the game client reports, as the clock logic reads it.

use crate::text::str_eq;
use vstd::prelude::*;

verus! {

/// The part of a game-state report that the overlay's logic reads: the game
/// clock, day/night, pause and phase flags, Roshan's state, and when (on the
/// local clock, in milliseconds) the report arrived and how far into its
/// current second the game clock was.
#[derive(Clone, Debug)]
pub struct GameState {
    pub clock_time: i64,
    pub daytime: bool,
    pub paused: bool,
    pub game_state: String,
    pub roshan_state: String,
    pub roshan_state_end_seconds: i64,
    pub received_at_ms: u64,
    pub subsecond_ms: u64,
}

/// The game phases during which the overlay is shown.
pub open spec fn is_in_game_phase(phase: Seq<char>) -> bool {
    ||| phase == "DOTA_GAMERULES_STATE_PRE_GAME"@
    ||| phase == "DOTA_GAMERULES_STATE_GAME_IN_PROGRESS"@
    ||| phase == "DOTA_GAMERULES_STATE_STRATEGY_TIME"@
    ||| phase == "DOTA_GAMERULES_STATE_HERO_SELECTION"@
}

impl Default for GameState {
    /// An empty report: clock 0, no phase, never received.
    fn default() -> (g: GameState)
        ensures
            g.clock_time == 0 && !g.daytime && !g.paused && g.game_state@ == Seq::<char>::empty()
                && g.roshan_state@ == Seq::<char>::empty() && g.roshan_state_end_seconds == 0
                && g.received_at_ms == 0 && g.subsecond_ms == 0,
    {
        GameState {
            clock_time: 0,
            daytime: false,
            paused: false,
            game_state: String::new(),
            roshan_state: String::new(),
            roshan_state_end_seconds: 0,
            received_at_ms: 0,
            subsecond_ms: 0,
        }
    }
}

impl GameState {
    /// Whether the game is in hero selection, strategy time, the pre-game or
    /// the game proper.
    pub fn in_game(&self) -> (r: bool)
        ensures
            r == is_in_game_phase(self.game_state@),
    {
        let phase = self.game_state.as_str();
        str_eq(phase, "DOTA_GAMERULES_STATE_PRE_GAME") || str_eq(
            phase,
            "DOTA_GAMERULES_STATE_GAME_IN_PROGRESS",
        ) || str_eq(phase, "DOTA_GAMERULES_STATE_STRATEGY_TIME") || str_eq(
            phase,
            "DOTA_GAMERULES_STATE_HERO_SELECTION",
        )
    }
}

} // verus!
