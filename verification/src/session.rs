use vstd::prelude::*;

verus! {

/// Whether the user runs as a local guest or a signed-in account.
#[derive(Clone, Copy, Debug, PartialEq, Eq, Structural)]
pub enum SessionMode {
    Guest,
    Account,
}

/// A feature of the player that a session may offer.
#[derive(Clone, Copy, Debug, PartialEq, Eq, Structural)]
pub enum Capability {
    Playback,
    Search,
    Library,
    Downloads,
    Lyrics,
    Sync,
}

impl Default for SessionMode {
    fn default() -> (mode: SessionMode)
        ensures
            mode == SessionMode::Guest,
    {
        SessionMode::Guest
    }
}

impl SessionMode {
    /// Every local feature is open to every session; only syncing needs an account.
    pub fn supports(self, capability: Capability) -> (supported: bool)
        ensures
            supported == (capability != Capability::Sync || self == SessionMode::Account),
    {
        capability != Capability::Sync || self == SessionMode::Account
    }
}

} // verus!
