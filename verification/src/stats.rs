//! Aggregate play statistics carried across rounds.
//!
//! The counters are plain values the surrounding flow threads through the
//! game; how they are persisted is the flow's concern, not the library's.

use vstd::prelude::*;

verus! {

/// Running totals across rounds, and whether they should be persisted.
pub struct GameWorldState {
    /// How many rounds were played to an end.
    pub current_attempts: i32,
    /// How many rounds were won.
    pub current_wins: i32,
    /// How many rounds were lost.
    pub current_losses: i32,
    /// How many rounds in a row were won, counted from the latest round.
    pub current_winstreak: i32,
    /// Whether the surrounding flow should persist these counters.
    pub is_saveable: bool,
}

impl GameWorldState {
    /// Fresh counters: nothing played yet.
    pub fn new(is_saveable: bool) -> (stats: GameWorldState)
        ensures
            stats.current_attempts == 0,
            stats.current_wins == 0,
            stats.current_losses == 0,
            stats.current_winstreak == 0,
            stats.is_saveable == is_saveable,
    {
        GameWorldState {
            current_attempts: 0,
            current_wins: 0,
            current_losses: 0,
            current_winstreak: 0,
            is_saveable,
        }
    }

    /// Books a won round: one more attempt, one more win, a longer streak.
    pub fn record_win(&mut self)
        requires
            old(self).current_attempts < i32::MAX,
            old(self).current_wins < i32::MAX,
            old(self).current_winstreak < i32::MAX,
        ensures
            final(self).current_attempts == old(self).current_attempts + 1,
            final(self).current_wins == old(self).current_wins + 1,
            final(self).current_winstreak == old(self).current_winstreak + 1,
            final(self).current_losses == old(self).current_losses,
            final(self).is_saveable == old(self).is_saveable,
    {
        self.current_attempts = self.current_attempts + 1;
        self.current_wins = self.current_wins + 1;
        self.current_winstreak = self.current_winstreak + 1;
    }

    /// Books a lost round: one more attempt, one more loss, a broken streak.
    pub fn record_loss(&mut self)
        requires
            old(self).current_attempts < i32::MAX,
            old(self).current_losses < i32::MAX,
        ensures
            final(self).current_attempts == old(self).current_attempts + 1,
            final(self).current_losses == old(self).current_losses + 1,
            final(self).current_winstreak == 0,
            final(self).current_wins == old(self).current_wins,
            final(self).is_saveable == old(self).is_saveable,
    {
        self.current_attempts = self.current_attempts + 1;
        self.current_losses = self.current_losses + 1;
        self.current_winstreak = 0;
    }
}

} // verus!
