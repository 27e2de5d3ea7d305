//! The error taxonomy shared by purchases, synchronization and the profile
//! store.

use vstd::prelude::*;

verus! {

/// Every failure the core can report. Local checks (cost, axis validation)
/// are returned synchronously; remote failures are surfaced by the callers
/// that perform the transport.
#[derive(Clone, Copy, Debug, PartialEq, Eq, Structural)]
pub enum GameError {
    /// The player cannot afford the requested upgrade.
    InsufficientFunds,
    /// The upgrade axis needs a unit size and none was given.
    InvalidAxis,
    /// No server address is configured, so synchronization is disabled.
    NotConfigured,
    /// Synchronization was attempted before registering with the server.
    NotRegistered,
    /// The server does not know the given player id.
    NotFound,
    /// The input was rejected (an empty player name, an unusable id).
    InvalidInput,
    /// The transport failed before the server answered.
    NetworkError,
    /// The server answered with a non-success status.
    ServerError,
}

impl GameError {
    /// A human-readable message for each failure, as the command surfaces
    /// report it.
    pub fn describe(&self) -> (r: &'static str)
        ensures
            self is InsufficientFunds ==> r@ == "Not enough coins"@,
            self is InvalidAxis ==> r@ == "Invalid upgrade type"@,
            self is NotConfigured ==> r@ == "No server URL configured"@,
            self is NotRegistered ==> r@ == "Not registered to server"@,
            self is NotFound ==> r@ == "Player not found"@,
            self is InvalidInput ==> r@ == "Player name is required"@,
            self is NetworkError ==> r@ == "Network request failed"@,
            self is ServerError ==> r@ == "Server returned error"@,
    {
        match self {
            GameError::InsufficientFunds => "Not enough coins",
            GameError::InvalidAxis => "Invalid upgrade type",
            GameError::NotConfigured => "No server URL configured",
            GameError::NotRegistered => "Not registered to server",
            GameError::NotFound => "Player not found",
            GameError::InvalidInput => "Player name is required",
            GameError::NetworkError => "Network request failed",
            GameError::ServerError => "Server returned error",
        }
    }
}

} // verus!
