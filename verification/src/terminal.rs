//! Raw-terminal guard used only by interactive console mode.

use vstd::prelude::*;

verus! {

/// Remembers whether the local terminal is in raw mode and is still to be restored.
#[derive(Debug)]
pub struct RawTerminalGuard {
    active: bool,
}

impl RawTerminalGuard {
    /// Whether the terminal is still to be restored.
    pub closed spec fn is_active(&self) -> bool {
        self.active
    }

    /// The guard of a terminal, given what came of switching it to raw mode.
    pub fn enter<E>(switched: Result<(), E>) -> (result: Result<Self, E>)
        ensures
            match (switched, result) {
                (Ok(()), Ok(guard)) => guard.is_active(),
                (Err(error), Err(same)) => error == same,
                _ => false,
            },
    {
        match switched {
            Ok(()) => Ok(RawTerminalGuard { active: true }),
            Err(error) => Err(error),
        }
    }

    /// Whether the terminal is still to be restored.
    pub fn active(&self) -> (active: bool)
        ensures
            active == self.is_active(),
    {
        self.active
    }

    /// Takes what came of restoring the terminal: one that failed is still to be done.
    pub fn restore<E>(&mut self, restored: Result<(), E>) -> (result: Result<(), E>)
        ensures
            result == restored,
            final(self).is_active() == (old(self).is_active() && restored is Err),
    {
        if restored.is_ok() {
            self.active = false;
        }
        restored
    }
}

}
