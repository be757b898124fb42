//! The game log: an append-only, newest-last list of per-tick events for
//! the rendering collaborator to display.

use vstd::prelude::*;

verus! {

/// One log-worthy event. Events carry the data a presentation layer needs
/// to compose its message text.
pub enum LogEvent {
    /// An attacker's shots could not pierce the target's armor.
    UnableToDamage { attacker: String, target: String },
    /// An attacker dealt mitigated damage to a target.
    Shoots { attacker: String, target: String, amount: u32 },
    /// A ship was destroyed and removed from the world.
    Died { name: String },
    /// The player's ship was destroyed; the game is over.
    PlayerDied,
    /// The player regenerated a unit of health.
    Healed,
    /// The player entered a wormhole to the next level.
    EnteredWormhole,
    /// The player tried to enter the tile under them, but it leads nowhere.
    CannotEnter,
}

/// Resource that holds the log entries of the game, append-only and
/// newest-last, each stamped with the tick it happened on.
pub struct GameLog {
    pub entries: Vec<(u64, LogEvent)>,
}

impl GameLog {
    /// An empty log.
    pub fn new() -> (r: GameLog)
        ensures
            r.entries@.len() == 0,
    {
        GameLog { entries: Vec::new() }
    }

    /// Append one entry, stamped with the given tick.
    pub fn new_log(&mut self, entry: LogEvent, time: u64)
        ensures
            final(self).entries@ == old(self).entries@.push((time, entry)),
    {
        self.entries.push((time, entry));
    }
}

/// Resource that holds the game time, a monotonically increasing tick
/// counter.
#[derive(Clone, Copy, Debug, Eq, PartialEq, Structural)]
pub struct GameTime {
    pub tick: u64,
}

} // verus!
