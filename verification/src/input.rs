//! The two global input counters that drive passive unit spawning. The hook
//! that listens to the real devices lives with the unverified shell; it only
//! calls `add_click` and `add_type`, and the game loop drains both counters
//! once per tick with `consume_inputs`.

use vstd::prelude::*;

verus! {

/// Accumulated, not-yet-consumed input events.
pub struct InputCounter {
    pub clicks: u32,
    pub types: u32,
}

impl InputCounter {
    /// A counter with nothing accumulated.
    pub fn new() -> (r: Self)
        ensures
            r.clicks == 0,
            r.types == 0,
    {
        InputCounter { clicks: 0, types: 0 }
    }

    /// Records one mouse-button press. Saturates instead of wrapping once
    /// the counter reaches its ceiling.
    pub fn add_click(&mut self)
        ensures
            final(self).clicks == if old(self).clicks < u32::MAX {
                old(self).clicks + 1
            } else {
                u32::MAX as int
            },
            final(self).types == old(self).types,
    {
        self.clicks = self.clicks.saturating_add(1);
    }

    /// Records one key press. Saturates instead of wrapping once the counter
    /// reaches its ceiling.
    pub fn add_type(&mut self)
        ensures
            final(self).types == if old(self).types < u32::MAX {
                old(self).types + 1
            } else {
                u32::MAX as int
            },
            final(self).clicks == old(self).clicks,
    {
        self.types = self.types.saturating_add(1);
    }

    /// Hands out everything accumulated since the last call and resets both
    /// counters, so each event spawns at most one unit.
    pub fn consume_inputs(&mut self) -> (r: (u32, u32))
        ensures
            r.0 == old(self).clicks,
            r.1 == old(self).types,
            final(self).clicks == 0,
            final(self).types == 0,
    {
        let clicks = self.clicks;
        let types = self.types;
        self.clicks = 0;
        self.types = 0;
        (clicks, types)
    }
}

} // verus!
