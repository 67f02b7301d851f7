//! Actuator sequencer: the fixed, timed unlock → hold → relock plan.
//!
//! The servo knows three duty values derived from one base value. An open
//! cycle is a fixed sequence of positions with hold times; it is started at
//! most once at a time, runs to completion, and always ends at the locked
//! position, so the door is never left open by design.

use vstd::prelude::*;

verus! {

/// The three servo duty values, derived from one base value.
#[derive(Clone, Copy, PartialEq, Eq, Structural, Debug)]
pub struct ServoLevels {
    /// Duty value that unlocks the door.
    pub unlocked: u16,
    /// Duty value of the idle midpoint.
    pub idle: u16,
    /// Duty value that locks the door.
    pub locked: u16,
}

/// How the three duty values derive from the base: the base unlocks, one
/// and a half times it idles, twice it locks.
pub open spec fn levels_from_base(base: u16) -> ServoLevels {
    ServoLevels {
        unlocked: base,
        idle: (base + base / 2) as u16,
        locked: (base * 2) as u16,
    }
}

/// Builds the servo duty values from the base value.
pub fn servo_levels(base: u16) -> (r: ServoLevels)
    requires
        2 * base <= u16::MAX,
    ensures
        r == levels_from_base(base),
{
    ServoLevels { unlocked: base, idle: base + base / 2, locked: base * 2 }
}

/// One step of the actuation plan: a duty value to set and the time in
/// milliseconds to hold it before the next step.
#[derive(Clone, Copy, PartialEq, Eq, Structural, Debug)]
pub struct ActuationStep {
    pub duty: u16,
    pub hold_ms: u64,
}

/// The fixed open cycle: unlock and hold for ten seconds, settle at the
/// idle midpoint for one second, then lock.
pub open spec fn open_cycle_spec(levels: ServoLevels) -> Seq<ActuationStep> {
    seq![
        ActuationStep { duty: levels.unlocked, hold_ms: 10_000 },
        ActuationStep { duty: levels.idle, hold_ms: 1_000 },
        ActuationStep { duty: levels.locked, hold_ms: 0 },
    ]
}

/// An open cycle never ends with the door open: the last step of the plan
/// sets the locked position.
pub proof fn lemma_cycle_ends_locked(levels: ServoLevels)
    ensures
        open_cycle_spec(levels).len() > 0,
        open_cycle_spec(levels).last().duty == levels.locked,
{
}

/// The steps of one open cycle, in order. A started cycle is performed to
/// completion, one step at a time, before anything else runs: the caller
/// must not start another cycle until every step has been applied.
pub fn open_cycle(levels: &ServoLevels) -> (r: Vec<ActuationStep>)
    ensures
        r@ == open_cycle_spec(*levels),
{
    let mut v: Vec<ActuationStep> = Vec::new();
    v.push(ActuationStep { duty: levels.unlocked, hold_ms: 10_000 });
    v.push(ActuationStep { duty: levels.idle, hold_ms: 1_000 });
    v.push(ActuationStep { duty: levels.locked, hold_ms: 0 });
    proof {
        assert(v@ =~= open_cycle_spec(*levels));
    }
    v
}

} // verus!
