//! The edge trigger: which steps of the signal count as a crossing of the
//! level, and when a crossing is allowed to fire.

use vstd::prelude::*;
use crate::sample::Sample;

verus! {

/// The direction in which the signal has to cross the level.
#[derive(Clone, Copy, Debug, PartialEq, Eq, Structural)]
pub enum TriggerMode {
    RisingEdge,
    FallingEdge,
}

/// An edge trigger. Times are counted in nanoseconds on a monotonic clock.
#[derive(Clone, Copy, Debug, PartialEq, Eq, Structural)]
pub struct Trigger {
    /// The direction of the crossing.
    pub trigger_mode: TriggerMode,
    /// The threshold that the signal has to cross.
    pub trigger_level: Sample,
    /// The time that has to pass after one trigger event before the next.
    pub hold_time: u128,
}

/// The time from `earlier` to `now`; zero where the clock reads less than it
/// did before.
pub open spec fn elapsed(earlier: u128, now: u128) -> int {
    if now >= earlier {
        now - earlier
    } else {
        0
    }
}

impl Trigger {
    /// Whether the step from `prev` to `value` crosses the level in the
    /// trigger's direction. The lower sample of the step may lie on the level,
    /// the upper one may not: a sample that sits exactly on the level belongs
    /// to the step that leaves it.
    pub open spec fn spec_edge_matches(self, prev: Sample, value: Sample) -> bool {
        match self.trigger_mode {
            TriggerMode::RisingEdge => {
                &&& prev.spec_lt(value)
                &&& prev.spec_le(self.trigger_level)
                &&& self.trigger_level.spec_lt(value)
            },
            TriggerMode::FallingEdge => {
                &&& value.spec_lt(prev)
                &&& value.spec_le(self.trigger_level)
                &&& self.trigger_level.spec_lt(prev)
            },
        }
    }

    /// Whether more than the hold time has passed at `now` since the trigger
    /// event at `last_trigger_time`.
    pub open spec fn spec_hold_time_passed(self, last_trigger_time: u128, now: u128) -> bool {
        elapsed(last_trigger_time, now) > self.hold_time
    }

    /// Whether the trigger fires on the step from `prev` to `value`, taken at
    /// `now`, when it last fired at `last_trigger_time`.
    pub open spec fn spec_test(
        self,
        last_trigger_time: u128,
        now: u128,
        prev: Sample,
        value: Sample,
    ) -> bool {
        self.spec_edge_matches(prev, value) && self.spec_hold_time_passed(last_trigger_time, now)
    }

    /// Whether the step from `prev` to `value` crosses the level in the
    /// trigger's direction.
    #[verifier::when_used_as_spec(spec_edge_matches)]
    pub fn edge_matches(self, prev: Sample, value: Sample) -> (matches: bool)
        ensures
            matches == self.spec_edge_matches(prev, value),
    {
        match self.trigger_mode {
            TriggerMode::RisingEdge => {
                prev.lt(value) && prev.le(self.trigger_level) && self.trigger_level.lt(value)
            },
            TriggerMode::FallingEdge => {
                value.lt(prev) && value.le(self.trigger_level) && self.trigger_level.lt(prev)
            },
        }
    }

    /// Whether more than the hold time has passed at `now` since the trigger
    /// event at `last_trigger_time`. A clock that went backwards counts as no
    /// time passed.
    #[verifier::when_used_as_spec(spec_hold_time_passed)]
    pub fn hold_time_passed(self, last_trigger_time: u128, now: u128) -> (passed: bool)
        ensures
            passed == self.spec_hold_time_passed(last_trigger_time, now),
    {
        now >= last_trigger_time && now - last_trigger_time > self.hold_time
    }

    /// Whether the trigger fires on the step from `prev` to `value`, taken at
    /// `now`, when it last fired at `last_trigger_time`.
    #[verifier::when_used_as_spec(spec_test)]
    pub fn test(self, last_trigger_time: u128, now: u128, prev: Sample, value: Sample) -> (fires:
        bool)
        ensures
            fires == self.spec_test(last_trigger_time, now, prev, value),
    {
        self.edge_matches(prev, value) && self.hold_time_passed(last_trigger_time, now)
    }
}

/// A rising-edge trigger matches every step that starts below the level and
/// ends above it.
pub proof fn lemma_rising_edge_matches(trigger: Trigger, prev: Sample, value: Sample)
    requires
        trigger.trigger_mode == TriggerMode::RisingEdge,
        prev.spec_lt(trigger.trigger_level),
        trigger.trigger_level.spec_le(value),
        prev.spec_lt(value),
        trigger.trigger_level.rank() != value.rank(),
    ensures
        trigger.spec_edge_matches(prev, value),
{
}

/// A rising-edge trigger matches no step that ends on the level: the sample on
/// the level is counted with the step that follows it.
pub proof fn lemma_rising_edge_ends_above_level(trigger: Trigger, prev: Sample, value: Sample)
    requires
        trigger.trigger_mode == TriggerMode::RisingEdge,
        trigger.trigger_level.rank() == value.rank(),
    ensures
        !trigger.spec_edge_matches(prev, value),
{
}

/// A rising-edge trigger matches no step that does not rise.
pub proof fn lemma_rising_edge_needs_rise(trigger: Trigger, prev: Sample, value: Sample)
    requires
        trigger.trigger_mode == TriggerMode::RisingEdge,
        value.spec_le(prev),
    ensures
        !trigger.spec_edge_matches(prev, value),
        forall|last_trigger_time: u128, now: u128|
            !trigger.spec_test(last_trigger_time, now, prev, value),
{
}

/// A falling-edge trigger matches every step that starts above the level and
/// ends on or below it.
pub proof fn lemma_falling_edge_matches(trigger: Trigger, prev: Sample, value: Sample)
    requires
        trigger.trigger_mode == TriggerMode::FallingEdge,
        trigger.trigger_level.spec_lt(prev),
        value.spec_le(trigger.trigger_level),
        value.spec_lt(prev),
    ensures
        trigger.spec_edge_matches(prev, value),
{
}

/// A falling-edge trigger matches no step that does not fall.
pub proof fn lemma_falling_edge_needs_fall(trigger: Trigger, prev: Sample, value: Sample)
    requires
        trigger.trigger_mode == TriggerMode::FallingEdge,
        prev.spec_le(value),
    ensures
        !trigger.spec_edge_matches(prev, value),
        forall|last_trigger_time: u128, now: u128|
            !trigger.spec_test(last_trigger_time, now, prev, value),
{
}

/// Two samples of equal value never match, whatever the mode and the level,
/// and neither does a step to or from a sample that is not a number.
pub proof fn lemma_no_step_no_match(trigger: Trigger, prev: Sample, value: Sample)
    requires
        prev.rank() == value.rank() || prev.is_nan() || value.is_nan(),
    ensures
        !trigger.spec_edge_matches(prev, value),
{
}

/// Within the hold time after a trigger event nothing fires, and neither does
/// anything while the clock reads less than it did at that event.
pub proof fn lemma_held_off(
    trigger: Trigger,
    last_trigger_time: u128,
    now: u128,
    prev: Sample,
    value: Sample,
)
    requires
        now <= last_trigger_time + trigger.hold_time,
    ensures
        !trigger.spec_test(last_trigger_time, now, prev, value),
{
}

} // verus!
