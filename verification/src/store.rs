//! The server-side authority for named profiles: one profile per distinct
//! normalized (trimmed, lowercased) name, identity by an opaque id handed
//! out at registration. The HTTP hosting and the one-file-per-profile
//! persistence live with the unverified shell; this module owns the
//! registration, synchronization and listing rules, over a roster with
//! unique ids.

use vstd::prelude::*;
use crate::client::{PlayerProfile, RegisterResult};
use crate::engine::PlayerProgress;
use crate::errors::GameError;
use crate::trusted::{trim_of, lower_of, trim_str, lowercase_str, fresh_player_id};

verus! {

/// The normalized form of a player name: trimmed, then lowercased. Name
/// uniqueness is judged on this form.
pub open spec fn norm_of(s: Seq<char>) -> Seq<char> {
    lower_of(trim_of(s))
}

/// Normalizes a player name for the uniqueness lookup.
pub fn normalize_name(name: &str) -> (r: String)
    ensures
        r@ == norm_of(name@),
{
    lowercase_str(trim_str(name))
}

/// What the listing endpoint projects for one profile: never the full
/// upgrade payload.
pub struct PlayerSummary {
    pub player_id: String,
    pub player_name: String,
    pub stage: u32,
    pub last_update: i64,
}

/// What the health endpoint reports.
pub struct HealthInfo {
    pub status: String,
    pub timestamp: i64,
    pub player_count: usize,
}

impl PlayerProfile {
    /// A brand-new profile: a freshly drawn opaque id, the given name,
    /// default progress, stamped with the given time.
    pub fn new(player_name: &str, now: i64) -> (r: Self)
        ensures
            r.player_name@ == player_name@,
            r.progress == PlayerProgress::spec_default(),
            r.last_update == now,
            r.player_id@.len() == 36,
    {
        PlayerProfile {
            player_id: fresh_player_id(),
            player_name: player_name.to_owned(),
            progress: PlayerProgress::default(),
            last_update: now,
        }
    }
}

/// A value copy of a profile.
fn clone_profile(p: &PlayerProfile) -> (r: PlayerProfile)
    ensures
        r.player_id@ == p.player_id@,
        r.player_name@ == p.player_name@,
        r.progress == p.progress,
        r.last_update == p.last_update,
{
    PlayerProfile {
        player_id: p.player_id.clone(),
        player_name: p.player_name.clone(),
        progress: p.progress,
        last_update: p.last_update,
    }
}

/// Builds the body a registration answers with.
pub fn build_register_response(profile: &PlayerProfile, message: &str) -> (r: RegisterResult)
    ensures
        r.player_id@ == profile.player_id@,
        r.player_name@ == profile.player_name@,
        r.message@ == message@,
        r.progress == profile.progress,
        r.last_update == profile.last_update,
{
    RegisterResult {
        player_id: profile.player_id.clone(),
        player_name: profile.player_name.clone(),
        message: message.to_owned(),
        progress: profile.progress,
        last_update: profile.last_update,
    }
}

/// Pairwise-distinct profile ids.
pub open spec fn profile_ids_unique(s: Seq<PlayerProfile>) -> bool {
    forall|i: int, j: int|
        0 <= i < j < s.len() ==> (#[trigger] s[i]).player_id@ != (#[trigger] s[j]).player_id@
}

/// Whether some profile carries this id.
pub open spec fn contains_id(s: Seq<PlayerProfile>, id: Seq<char>) -> bool {
    exists|i: int| 0 <= i < s.len() && (#[trigger] s[i]).player_id@ == id
}

/// Whether some profile's name normalizes to this key.
pub open spec fn contains_norm_name(s: Seq<PlayerProfile>, key: Seq<char>) -> bool {
    exists|i: int| 0 <= i < s.len() && norm_of((#[trigger] s[i]).player_name@) == key
}

/// Two profiles with the same id, name, progress and timestamp.
pub open spec fn profile_like(a: PlayerProfile, b: PlayerProfile) -> bool {
    &&& a.player_id@ == b.player_id@
    &&& a.player_name@ == b.player_name@
    &&& a.progress == b.progress
    &&& a.last_update == b.last_update
}

/// No later entry among the first `upto` loaded profiles carries this id.
pub open spec fn latest_for_id(loaded: Seq<PlayerProfile>, j: int, upto: int, id: Seq<char>) -> bool {
    forall|j2: int| j < j2 < upto ==> (#[trigger] loaded[j2]).player_id@ != id
}

/// Whether `p` equals the last of the first `upto` loaded profiles that
/// carries its id: the later file won.
pub open spec fn stored_from(p: PlayerProfile, loaded: Seq<PlayerProfile>, upto: int) -> bool {
    exists|j: int|
        0 <= j < upto && profile_like(p, #[trigger] loaded[j]) && latest_for_id(
            loaded,
            j,
            upto,
            p.player_id@,
        )
}

/// The in-memory authority, rebuilt from disk at boot by the shell.
pub struct ProfileStore {
    pub profiles: Vec<PlayerProfile>,
}

impl ProfileStore {
    /// The store's invariant: ids are pairwise distinct.
    pub open spec fn wf(self) -> bool {
        profile_ids_unique(self.profiles@)
    }

    /// An empty store.
    pub fn new() -> (r: Self)
        ensures
            r.wf(),
            r.profiles@.len() == 0,
    {
        ProfileStore { profiles: Vec::new() }
    }

    /// The index of the profile with the given id, if any.
    pub fn find_by_id(&self, id: &String) -> (r: Option<usize>)
        ensures
            match r {
                Some(i) => i < self.profiles@.len() && self.profiles@[i as int].player_id@ == id@,
                None => !contains_id(self.profiles@, id@),
            },
    {
        let mut i: usize = 0;
        while i < self.profiles.len()
            invariant
                i <= self.profiles@.len(),
                forall|k: int|
                    0 <= k < i ==> (#[trigger] self.profiles@[k]).player_id@ != id@,
            decreases self.profiles@.len() - i,
        {
            if self.profiles[i].player_id == *id {
                return Some(i);
            }
            i = i + 1;
        }
        None
    }

    /// The index of the first profile whose name normalizes to `key`.
    fn find_by_norm_name(&self, key: &String) -> (r: Option<usize>)
        ensures
            match r {
                Some(i) => i < self.profiles@.len() && norm_of(
                    self.profiles@[i as int].player_name@,
                ) == key@,
                None => !contains_norm_name(self.profiles@, key@),
            },
    {
        let mut i: usize = 0;
        while i < self.profiles.len()
            invariant
                i <= self.profiles@.len(),
                forall|k: int|
                    0 <= k < i ==> norm_of((#[trigger] self.profiles@[k]).player_name@) != key@,
            decreases self.profiles@.len() - i,
        {
            let pn = normalize_name(self.profiles[i].player_name.as_str());
            if pn == *key {
                return Some(i);
            }
            i = i + 1;
        }
        None
    }

    /// Registration against a given candidate id: rejects a name that is
    /// empty once trimmed; greets a known normalized name with its
    /// existing profile, unchanged; otherwise creates a profile under the
    /// candidate id with default progress — unless the candidate id is
    /// already taken, which is rejected rather than ever storing two
    /// profiles under one id.
    pub fn register_with_id(&mut self, name: &str, candidate_id: String, now: i64) -> (r: Result<
        RegisterResult,
        GameError,
    >)
        requires
            old(self).wf(),
        ensures
            final(self).wf(),
            match r {
                Err(e) => {
                    &&& e == GameError::InvalidInput
                    &&& *final(self) == *old(self)
                    &&& (trim_of(name@).len() == 0 || (!contains_norm_name(
                        old(self).profiles@,
                        norm_of(name@),
                    ) && contains_id(old(self).profiles@, candidate_id@)))
                },
                Ok(res) => {
                    &&& trim_of(name@).len() > 0
                    &&& if contains_norm_name(old(self).profiles@, norm_of(name@)) {
                        &&& *final(self) == *old(self)
                        &&& res.message@ == "Welcome back! Progress loaded."@
                        &&& exists|i: int|
                            0 <= i < old(self).profiles@.len() && {
                                let p = #[trigger] old(self).profiles@[i];
                                &&& norm_of(p.player_name@) == norm_of(name@)
                                &&& res.player_id@ == p.player_id@
                                &&& res.player_name@ == p.player_name@
                                &&& res.progress == p.progress
                                &&& res.last_update == p.last_update
                            }
                    } else {
                        &&& !contains_id(old(self).profiles@, candidate_id@)
                        &&& final(self).profiles@.len() == old(self).profiles@.len() + 1
                        &&& (forall|k: int|
                            0 <= k < old(self).profiles@.len() ==> final(self).profiles@[k] == old(
                                self,
                            ).profiles@[k])
                        &&& {
                            let p = final(self).profiles@.last();
                            &&& p.player_id@ == candidate_id@
                            &&& p.player_name@ == trim_of(name@)
                            &&& p.progress == PlayerProgress::spec_default()
                            &&& p.last_update == now
                        }
                        &&& res.message@ == "Account created!"@
                        &&& res.player_id@ == candidate_id@
                        &&& res.player_name@ == trim_of(name@)
                        &&& res.progress == PlayerProgress::spec_default()
                        &&& res.last_update == now
                    }
                },
            },
            trim_of(name@).len() == 0 ==> r is Err,
    {
        let trimmed = trim_str(name);
        if trimmed.is_empty() {
            return Err(GameError::InvalidInput);
        }
        let key = normalize_name(name);
        match self.find_by_norm_name(&key) {
            Some(i) => {
                let res = build_register_response(
                    &self.profiles[i],
                    "Welcome back! Progress loaded.",
                );
                proof {
                    let p = self.profiles@[i as int];
                    assert(0 <= i < self.profiles@.len() && norm_of(p.player_name@) == norm_of(
                        name@,
                    ) && res.player_id@ == p.player_id@ && res.player_name@ == p.player_name@
                        && res.progress == p.progress && res.last_update == p.last_update);
                }
                Ok(res)
            },
            None => {
                if self.find_by_id(&candidate_id).is_some() {
                    return Err(GameError::InvalidInput);
                }
                let profile = PlayerProfile {
                    player_id: candidate_id,
                    player_name: trimmed.to_owned(),
                    progress: PlayerProgress::default(),
                    last_update: now,
                };
                let res = build_register_response(&profile, "Account created!");
                self.profiles.push(profile);
                Ok(res)
            },
        }
    }

    /// Registration as the endpoint performs it: a fresh opaque id is
    /// drawn and handed to `register_with_id`, which decides everything
    /// else. Whatever id the draw produced, an empty trimmed name is
    /// rejected, a known name is greeted unchanged, and the store's ids
    /// stay unique.
    pub fn register(&mut self, name: &str, now: i64) -> (r: Result<RegisterResult, GameError>)
        requires
            old(self).wf(),
        ensures
            final(self).wf(),
            trim_of(name@).len() == 0 ==> r is Err && *final(self) == *old(self),
            contains_norm_name(old(self).profiles@, norm_of(name@)) && trim_of(name@).len() > 0
                ==> r is Ok && *final(self) == *old(self),
            match r {
                Err(e) => e == GameError::InvalidInput && *final(self) == *old(self),
                Ok(res) => trim_of(name@).len() > 0 && (contains_norm_name(
                    old(self).profiles@,
                    norm_of(name@),
                ) ==> res.message@ == "Welcome back! Progress loaded."@) && (!contains_norm_name(
                    old(self).profiles@,
                    norm_of(name@),
                ) ==> res.message@ == "Account created!"@ && res.progress
                    == PlayerProgress::spec_default() && res.last_update == now),
            },
    {
        let candidate = fresh_player_id();
        self.register_with_id(name, candidate, now)
    }

    /// Overwrites a known profile's progress, stamps it with the server
    /// time, and returns the updated profile; an unknown id is refused,
    /// exactly when no profile carries it.
    pub fn sync(&mut self, id: &String, progress: &PlayerProgress, now: i64) -> (r: Result<
        PlayerProfile,
        GameError,
    >)
        requires
            old(self).wf(),
        ensures
            final(self).wf(),
            match r {
                Err(e) => {
                    &&& e == GameError::NotFound
                    &&& !contains_id(old(self).profiles@, id@)
                    &&& *final(self) == *old(self)
                },
                Ok(p) => {
                    &&& contains_id(old(self).profiles@, id@)
                    &&& p.player_id@ == id@
                    &&& p.progress == *progress
                    &&& p.last_update == now
                    &&& exists|i: int|
                        0 <= i < old(self).profiles@.len() && {
                            let q = #[trigger] old(self).profiles@[i];
                            &&& q.player_id@ == id@
                            &&& p.player_name@ == q.player_name@
                            &&& final(self).profiles@ == old(self).profiles@.update(
                                i,
                                final(self).profiles@[i],
                            )
                            &&& final(self).profiles@[i].player_id@ == q.player_id@
                            &&& final(self).profiles@[i].player_name@ == q.player_name@
                            &&& final(self).profiles@[i].progress == *progress
                            &&& final(self).profiles@[i].last_update == now
                        }
                },
            },
    {
        let i = match self.find_by_id(id) {
            Some(i) => i,
            None => {
                return Err(GameError::NotFound);
            },
        };
        proof {
            assert(contains_id(self.profiles@, id@));
        }
        let updated = PlayerProfile {
            player_id: self.profiles[i].player_id.clone(),
            player_name: self.profiles[i].player_name.clone(),
            progress: *progress,
            last_update: now,
        };
        let ret = clone_profile(&updated);
        self.profiles.set(i, updated);
        proof {
            assert forall|a: int, b: int|
                0 <= a < b < self.profiles@.len() implies (#[trigger] self.profiles@[a]).player_id@
                != (#[trigger] self.profiles@[b]).player_id@ by {
                assert(old(self).profiles@[a].player_id@ != old(self).profiles@[b].player_id@);
            }
        }
        Ok(ret)
    }

    /// Reads a profile by id; an unknown id is refused, exactly when no
    /// profile carries it.
    pub fn get(&self, id: &String) -> (r: Result<PlayerProfile, GameError>)
        ensures
            match r {
                Err(e) => e == GameError::NotFound && !contains_id(self.profiles@, id@),
                Ok(p) => exists|i: int|
                    0 <= i < self.profiles@.len() && {
                        let q = #[trigger] self.profiles@[i];
                        &&& q.player_id@ == id@
                        &&& p.player_id@ == q.player_id@
                        &&& p.player_name@ == q.player_name@
                        &&& p.progress == q.progress
                        &&& p.last_update == q.last_update
                    },
            },
    {
        match self.find_by_id(id) {
            Some(i) => {
                let p = clone_profile(&self.profiles[i]);
                proof {
                    let q = self.profiles@[i as int];
                    assert(0 <= i < self.profiles@.len() && q.player_id@ == id@ && p.player_id@
                        == q.player_id@ && p.player_name@ == q.player_name@ && p.progress
                        == q.progress && p.last_update == q.last_update);
                }
                Ok(p)
            },
            None => Err(GameError::NotFound),
        }
    }

    /// Projects the listing: one summary per profile, in roster order,
    /// never the full upgrade payload.
    pub fn list(&self) -> (r: Vec<PlayerSummary>)
        ensures
            r@.len() == self.profiles@.len(),
            forall|i: int|
                0 <= i < r@.len() ==> {
                    let s = #[trigger] r@[i];
                    &&& s.player_id@ == self.profiles@[i].player_id@
                    &&& s.player_name@ == self.profiles@[i].player_name@
                    &&& s.stage == self.profiles@[i].progress.stage
                    &&& s.last_update == self.profiles@[i].last_update
                },
    {
        let mut out: Vec<PlayerSummary> = Vec::new();
        let mut i: usize = 0;
        while i < self.profiles.len()
            invariant
                i <= self.profiles@.len(),
                out@.len() == i,
                forall|k: int|
                    0 <= k < i ==> {
                        let s = #[trigger] out@[k];
                        &&& s.player_id@ == self.profiles@[k].player_id@
                        &&& s.player_name@ == self.profiles@[k].player_name@
                        &&& s.stage == self.profiles@[k].progress.stage
                        &&& s.last_update == self.profiles@[k].last_update
                    },
            decreases self.profiles@.len() - i,
        {
            let p = &self.profiles[i];
            out.push(
                PlayerSummary {
                    player_id: p.player_id.clone(),
                    player_name: p.player_name.clone(),
                    stage: p.progress.stage,
                    last_update: p.last_update,
                },
            );
            i = i + 1;
        }
        out
    }

    /// What the health endpoint answers: a plain status, the server time
    /// it was asked at, and the number of profiles held.
    pub fn health(&self, now: i64) -> (r: HealthInfo)
        ensures
            r.status@ == "ok"@,
            r.timestamp == now,
            r.player_count == self.profiles@.len(),
    {
        HealthInfo { status: "ok".to_owned(), timestamp: now, player_count: self.profiles.len() }
    }

    /// Rebuilds the in-memory index from loaded profiles: inserted in
    /// order, a repeated id replacing the earlier copy, so the ids end up
    /// unique and every loaded id is represented.
    pub fn from_profiles(loaded: &Vec<PlayerProfile>) -> (r: Self)
        ensures
            r.wf(),
            forall|i: int|
                0 <= i < loaded@.len() ==> contains_id(
                    r.profiles@,
                    (#[trigger] loaded@[i]).player_id@,
                ),
            forall|a: int|
                0 <= a < r.profiles@.len() ==> stored_from(
                    #[trigger] r.profiles@[a],
                    loaded@,
                    loaded@.len() as int,
                ),
    {
        let mut store = ProfileStore::new();
        let mut i: usize = 0;
        while i < loaded.len()
            invariant
                i <= loaded@.len(),
                store.wf(),
                forall|k: int|
                    0 <= k < i ==> contains_id(store.profiles@, (#[trigger] loaded@[k]).player_id@),
                forall|a: int|
                    0 <= a < store.profiles@.len() ==> stored_from(
                        #[trigger] store.profiles@[a],
                        loaded@,
                        i as int,
                    ),
            decreases loaded@.len() - i,
        {
            let p = clone_profile(&loaded[i]);
            let ghost prev = store.profiles@;
            match store.find_by_id(&p.player_id) {
                Some(j) => {
                    let ghost pid = p.player_id@;
                    store.profiles.set(j, p);
                    proof {
                        assert forall|a: int, b: int|
                            0 <= a < b < store.profiles@.len() implies (
                        #[trigger] store.profiles@[a]).player_id@ != (
                        #[trigger] store.profiles@[b]).player_id@ by {
                            assert(prev[a].player_id@ != prev[b].player_id@);
                        }
                        assert forall|k: int|
                            0 <= k < i + 1 implies contains_id(
                            store.profiles@,
                            (#[trigger] loaded@[k]).player_id@,
                        ) by {
                            if k < i {
                                let w = choose|w: int|
                                    0 <= w < prev.len() && prev[w].player_id@
                                        == loaded@[k].player_id@;
                                assert(store.profiles@[w].player_id@ == loaded@[k].player_id@);
                            } else {
                                assert(store.profiles@[j as int].player_id@ == pid);
                            }
                        }
                        assert forall|a: int|
                            0 <= a < store.profiles@.len() implies stored_from(
                            #[trigger] store.profiles@[a],
                            loaded@,
                            i + 1,
                        ) by {
                            if a == j as int {
                                assert(profile_like(store.profiles@[a], loaded@[i as int]));
                                assert(latest_for_id(
                                    loaded@,
                                    i as int,
                                    i + 1,
                                    store.profiles@[a].player_id@,
                                ));
                            } else {
                                assert(stored_from(prev[a], loaded@, i as int));
                                let jw = choose|jw: int|
                                    0 <= jw < i && profile_like(prev[a], loaded@[jw])
                                        && latest_for_id(loaded@, jw, i as int, prev[a].player_id@);
                                assert(prev[a].player_id@ != prev[j as int].player_id@);
                                assert(loaded@[i as int].player_id@ == pid);
                                assert(latest_for_id(loaded@, jw, i + 1, prev[a].player_id@));
                                assert(profile_like(store.profiles@[a], loaded@[jw]));
                            }
                        }
                    }
                },
                None => {
                    let ghost pid = p.player_id@;
                    store.profiles.push(p);
                    proof {
                        assert forall|a: int, b: int|
                            0 <= a < b < store.profiles@.len() implies (
                        #[trigger] store.profiles@[a]).player_id@ != (
                        #[trigger] store.profiles@[b]).player_id@ by {
                            if b < prev.len() {
                                assert(prev[a].player_id@ != prev[b].player_id@);
                            } else {
                                assert(store.profiles@[b].player_id@ == pid);
                                assert(!contains_id(prev, pid));
                                assert(prev[a].player_id@ != pid);
                            }
                        }
                        assert forall|k: int|
                            0 <= k < i + 1 implies contains_id(
                            store.profiles@,
                            (#[trigger] loaded@[k]).player_id@,
                        ) by {
                            if k < i {
                                let w = choose|w: int|
                                    0 <= w < prev.len() && prev[w].player_id@
                                        == loaded@[k].player_id@;
                                assert(store.profiles@[w].player_id@ == loaded@[k].player_id@);
                            } else {
                                assert(store.profiles@.last().player_id@ == pid);
                            }
                        }
                        assert forall|a: int|
                            0 <= a < store.profiles@.len() implies stored_from(
                            #[trigger] store.profiles@[a],
                            loaded@,
                            i + 1,
                        ) by {
                            if a < prev.len() {
                                assert(stored_from(prev[a], loaded@, i as int));
                                let jw = choose|jw: int|
                                    0 <= jw < i && profile_like(prev[a], loaded@[jw])
                                        && latest_for_id(loaded@, jw, i as int, prev[a].player_id@);
                                assert(!contains_id(prev, pid));
                                assert(prev[a].player_id@ != pid);
                                assert(loaded@[i as int].player_id@ == pid);
                                assert(latest_for_id(loaded@, jw, i + 1, prev[a].player_id@));
                                assert(profile_like(store.profiles@[a], loaded@[jw]));
                            } else {
                                assert(profile_like(store.profiles@[a], loaded@[i as int]));
                                assert(latest_for_id(
                                    loaded@,
                                    i as int,
                                    i + 1,
                                    store.profiles@[a].player_id@,
                                ));
                            }
                        }
                    }
                },
            }
            i = i + 1;
        }
        store
    }
}

} // verus!
