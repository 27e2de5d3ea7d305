//! The progress-synchronization client: the configured server address, the
//! identity adopted at registration, and the last remote timestamp seen.
//! The HTTP transport lives with the unverified shell; this module owns
//! every decision — when a call may be attempted, and whether a fetched
//! profile is new enough to apply (last-write-wins by server clock).

use vstd::prelude::*;
use crate::engine::PlayerProgress;
use crate::errors::GameError;

verus! {

/// The identity adopted after a successful registration.
#[derive(Debug)]
pub struct PlayerInfo {
    pub player_id: String,
    pub player_name: String,
}

/// A full remote profile, as the store returns it.
#[derive(Debug)]
pub struct PlayerProfile {
    pub player_id: String,
    pub player_name: String,
    pub progress: PlayerProgress,
    pub last_update: i64,
}

/// What a registration returns: the profile's fields and the store's
/// message (a returning profile is greeted differently from a new one).
#[derive(Debug)]
pub struct RegisterResult {
    pub player_id: String,
    pub player_name: String,
    pub message: String,
    pub progress: PlayerProgress,
    pub last_update: i64,
}

/// The synchronization client's state.
pub struct MultiplayerClient {
    pub server_url: String,
    pub player_info: Option<PlayerInfo>,
    pub last_remote_update: Option<i64>,
}

impl MultiplayerClient {
    /// An unconfigured, unregistered client.
    pub fn new() -> (r: Self)
        ensures
            r.server_url@.len() == 0,
            r.player_info is None,
            r.last_remote_update is None,
    {
        MultiplayerClient { server_url: String::new(), player_info: None, last_remote_update: None }
    }

    /// Points the client at a server. An empty address disables
    /// synchronization.
    pub fn set_server_url(&mut self, url: String)
        ensures
            final(self).server_url == url,
            final(self).player_info == old(self).player_info,
            final(self).last_remote_update == old(self).last_remote_update,
    {
        self.server_url = url;
    }

    /// The configured server address.
    pub fn get_server_url(&self) -> (r: String)
        ensures
            r@ == self.server_url@,
    {
        self.server_url.clone()
    }

    /// Whether the client is both configured and registered.
    pub fn is_connected(&self) -> (r: bool)
        ensures
            r == (self.server_url@.len() > 0 && self.player_info is Some),
    {
        !self.server_url.as_str().is_empty() && self.player_info.is_some()
    }

    /// Whether a registration may be attempted: a server address must be
    /// configured.
    pub fn check_can_register(&self) -> (r: Result<(), GameError>)
        ensures
            match r {
                Ok(_) => self.server_url@.len() > 0,
                Err(e) => e == GameError::NotConfigured && self.server_url@.len() == 0,
            },
    {
        if self.server_url.as_str().is_empty() {
            Err(GameError::NotConfigured)
        } else {
            Ok(())
        }
    }

    /// Adopts the identity and timestamp a successful registration
    /// returned.
    pub fn apply_register_result(&mut self, res: &RegisterResult)
        ensures
            final(self).player_info matches Some(info) && info.player_id@ == res.player_id@
                && info.player_name@ == res.player_name@,
            final(self).last_remote_update == Some(res.last_update),
            final(self).server_url == old(self).server_url,
    {
        self.player_info = Some(
            PlayerInfo { player_id: res.player_id.clone(), player_name: res.player_name.clone() },
        );
        self.last_remote_update = Some(res.last_update);
    }

    /// Whether a push or fetch may be attempted: an identity is needed
    /// first, then a server address; on success hands back the id to call
    /// with.
    pub fn check_can_sync(&self) -> (r: Result<String, GameError>)
        ensures
            match r {
                Ok(id) => self.player_info matches Some(info) && id@ == info.player_id@
                    && self.server_url@.len() > 0,
                Err(e) => (e == GameError::NotRegistered && self.player_info is None) || (e
                    == GameError::NotConfigured && self.player_info is Some
                    && self.server_url@.len() == 0),
            },
    {
        let id = match &self.player_info {
            Some(info) => info.player_id.clone(),
            None => {
                return Err(GameError::NotRegistered);
            },
        };
        if self.server_url.as_str().is_empty() {
            return Err(GameError::NotConfigured);
        }
        Ok(id)
    }

    /// The last-write-wins acceptance rule: a remote timestamp is applied
    /// exactly when it strictly exceeds the last one recorded locally.
    pub open spec fn spec_accepts(last: Option<i64>, timestamp: i64) -> bool {
        match last {
            None => true,
            Some(t) => timestamp > t,
        }
    }

    /// Records a remote timestamp if and only if it strictly exceeds the
    /// last one seen, and reports whether it did; a pulled profile may be
    /// imported only when this accepts its timestamp.
    pub fn mark_remote_update(&mut self, timestamp: i64) -> (r: bool)
        ensures
            r == MultiplayerClient::spec_accepts(old(self).last_remote_update, timestamp),
            r ==> final(self).last_remote_update == Some(timestamp),
            !r ==> final(self).last_remote_update == old(self).last_remote_update,
            final(self).server_url == old(self).server_url,
            final(self).player_info == old(self).player_info,
    {
        match self.last_remote_update {
            None => {
                self.last_remote_update = Some(timestamp);
                true
            },
            Some(t) => {
                if timestamp > t {
                    self.last_remote_update = Some(timestamp);
                    true
                } else {
                    false
                }
            },
        }
    }

    /// Records the timestamp a push's response carried.
    pub fn note_sync_response(&mut self, profile: &PlayerProfile)
        ensures
            final(self).last_remote_update == Some(profile.last_update),
            final(self).server_url == old(self).server_url,
            final(self).player_info == old(self).player_info,
    {
        self.last_remote_update = Some(profile.last_update);
    }
}

/// The pull rule is idempotent: once a remote timestamp has been accepted,
/// pulling the same remote state again applies nothing, and an equal or
/// smaller timestamp is never accepted.
pub proof fn lemma_pull_applies_at_most_once(last: Option<i64>, timestamp: i64)
    ensures
        !MultiplayerClient::spec_accepts(Some(timestamp), timestamp),
        (last matches Some(t) && timestamp <= t) ==> !MultiplayerClient::spec_accepts(
            last,
            timestamp,
        ),
{
}

} // verus!
