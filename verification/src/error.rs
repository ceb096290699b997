//! The errors of the pools that refuse a kill during an update.

use vstd::prelude::*;

verus! {

/// The message of the error that a spawn returns when the pool is full.
pub const MAX_SPAWNS_REACHED: &'static str =
    "MAX_SPAWNS_REACHED: Unable to spawn, all availeble spawns are in use!";

/// The message of the error that a kill returns during an update.
pub const KILL_DURING_UPDATE: &'static str =
    "KILL_DURING_UPDATE: Cannot kill a spawn inside an update loop, use delayed_kill() instead!";

/// The message of the error that a kill of what is not spawned returns.
pub const NO_SPAWN_TO_KILL: &'static str = "NO_SPAWN_TO_KILL: There are no active spawn to kill";

/// The message of the error that should not occur.
pub const UNKNOWN: &'static str = "UNKNOWN: An error occured where no error was expected!";

/// What went wrong, as a message that starts with the name of the error.
#[derive(Debug, Clone, Copy, PartialEq, Eq)]
pub struct SwarmError(pub &'static str);

impl SwarmError {
    /// Returns the message of the error.
    pub fn message(&self) -> (r: &'static str)
        ensures
            r == self.0,
    {
        self.0
    }
}

} // verus!
