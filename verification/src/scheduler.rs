//! The event scheduler: a virtual turn clock for two competitors.

use vstd::prelude::*;

verus! {

/// A single-scalar turn clock deciding which of two competitors acts next.
///
/// The clock starts at zero.  While it is positive the first-named party
/// (the battle's "attacker") is due, and resolving its action spends that
/// party's cooldown, decreasing the clock; otherwise the second-named party
/// (the "defender") is due, and resolving its action increases the clock by
/// that party's cooldown.  Tie-break rule: at a clock of exactly zero — in
/// particular at the start of a battle — the defender acts.  This is fixed
/// and deterministic; it never depends on container iteration order.
///
/// Fire times are integers, so every computed priority is a well-ordered
/// value; the scheduler itself can never produce a non-comparable one.
pub struct TurnClock {
    /// The virtual time.  Positive: the attacker's action is due.
    pub time: i64,
}

impl TurnClock {
    /// A fresh clock with both competitors due now; by the tie-break rule
    /// the defender acts first.
    pub fn new() -> (c: TurnClock)
        ensures
            c.time == 0,
    {
        TurnClock { time: 0 }
    }

    /// Whose action fires next: the attacker's exactly when the clock is
    /// positive.
    pub fn attacker_acts_next(&self) -> (b: bool)
        ensures
            b == (self.time > 0),
    {
        self.time > 0
    }

    /// Record that the attacker's action resolved, spending its cooldown.
    pub fn spend_attacker(&mut self, cooldown: i64)
        requires
            old(self).time > 0,
            cooldown >= 1,
        ensures
            final(self).time == old(self).time - cooldown,
    {
        self.time = self.time - cooldown;
    }

    /// Record that the defender's action resolved, crediting its cooldown.
    pub fn spend_defender(&mut self, cooldown: i64)
        requires
            old(self).time <= 0,
            cooldown >= 1,
        ensures
            final(self).time == old(self).time + cooldown,
    {
        self.time = self.time + cooldown;
    }
}

} // verus!
