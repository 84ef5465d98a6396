use vstd::prelude::*;

verus! {

/// Nanoseconds in one second.
pub const NANOS_PER_SEC: u128 = 1_000_000_000;

/// The longest duration that can be requested, in nanoseconds: `u64::MAX`
/// whole seconds and a fraction of one.
pub const MAX_DURATION_NANOS: u128 = 18_446_744_073_709_551_615_999_999_999;

/// The distance between two levels.
pub open spec fn abs_diff(a: nat, b: nat) -> nat {
    if a >= b {
        (a - b) as nat
    } else {
        (b - a) as nat
    }
}

/// A requested duration scaled by `delta / basis`; zero when `basis` is zero.
pub open spec fn scaled_duration(duration: nat, delta: nat, basis: nat) -> nat {
    if basis == 0 {
        0
    } else {
        duration * delta / basis
    }
}

/// The number of writes of a ramp over `delta` levels lasting `duration`
/// nanoseconds at `frequency` updates per second: the whole updates that fit,
/// at least one and no more than there are levels to pass through.
pub open spec fn step_count(delta: nat, duration: nat, frequency: nat) -> nat {
    let fit = duration * frequency / (NANOS_PER_SEC as nat);
    if fit < 1 {
        1
    } else if fit > delta {
        delta
    } else {
        fit
    }
}

/// The level written at `step` (counted from one) of a ramp of `steps` writes
/// from `start` to `target`.
pub open spec fn ramp_value(start: nat, target: nat, steps: nat, step: nat) -> nat {
    let progress = abs_diff(start, target) * step / steps;
    if target >= start {
        start + progress
    } else {
        (start - progress) as nat
    }
}

/// How a change of brightness is applied.
#[derive(Clone, Copy, Debug, PartialEq, Eq, Structural)]
pub enum BrightnessChange {
    /// Write the target once.
    Immediate(u32),
    /// Ramp towards the target over the given number of nanoseconds.
    Ramp { target: u32, duration: u128 },
}

/// How a device at `current` is moved to `target` when the change was
/// requested to last `duration` nanoseconds for `basis` levels of change.
pub open spec fn planned_change(current: nat, target: u32, duration: nat, basis: nat) -> BrightnessChange {
    let scaled = scaled_duration(duration, abs_diff(current, target as nat), basis);
    if duration == 0 || scaled == 0 {
        BrightnessChange::Immediate(target)
    } else {
        BrightnessChange::Ramp { target, duration: scaled as u128 }
    }
}

/// Decides how to move a device from `current` to `target` when the change was
/// requested to last `duration` nanoseconds for `basis` levels of change: the
/// duration is scaled to the actual distance, and a change that would take no
/// time is written at once.
pub fn set_brightness(current: u32, target: u32, duration: u128, basis: u32) -> (r: BrightnessChange)
    requires
        duration <= MAX_DURATION_NANOS,
    ensures
        r == planned_change(current as nat, target, duration as nat, basis as nat),
{
    if duration == 0 {
        return BrightnessChange::Immediate(target);
    }
    let delta: u32 = if current >= target {
        current - target
    } else {
        target - current
    };
    let scaled: u128 = if basis == 0 {
        0
    } else {
        assert((duration as nat) * (delta as nat) <= 0xffff_ffff_ffff_ffff_ffff_ffff_ffff_ffffnat)
            by (nonlinear_arith)
            requires
                duration <= MAX_DURATION_NANOS,
                delta <= 0xffff_ffffu32,
        ;
        duration * (delta as u128) / (basis as u128)
    };
    if scaled == 0 {
        BrightnessChange::Immediate(target)
    } else {
        BrightnessChange::Ramp { target, duration: scaled }
    }
}

/// One write of a ramp: the level, and when it is due, in nanoseconds after
/// the ramp began.
#[derive(Clone, Copy, Debug, PartialEq, Eq, Structural)]
pub struct RampStep {
    pub value: u32,
    pub due: u128,
}

/// A ramp from `start` to `target` in `steps` evenly spaced writes.
///
/// Each write is due at a multiple of `interval` after the ramp began, so
/// that the time lost at one step is not carried into the next.
#[derive(Clone, Copy, Debug, PartialEq, Eq, Structural)]
pub struct Ramp {
    pub start: u32,
    pub target: u32,
    pub steps: u32,
    pub interval: u128,
    /// The number of writes already handed out.
    pub done: u32,
}

impl Ramp {
    /// At least one step and no more steps than levels to pass through; the
    /// writes handed out are a prefix of the ramp.
    pub open spec fn wf(self) -> bool {
        &&& 1 <= self.steps <= abs_diff(self.start as nat, self.target as nat)
        &&& self.done <= self.steps
        &&& self.steps * self.interval <= MAX_DURATION_NANOS
    }

    /// The levels written over the whole ramp, in order.
    pub open spec fn values(self) -> Seq<nat> {
        Seq::new(
            self.steps as nat,
            |i: int| ramp_value(self.start as nat, self.target as nat, self.steps as nat, (i + 1) as nat),
        )
    }

    /// Plans a ramp from the device's level `start` towards `target`, clamped to
    /// `max`, lasting `duration` nanoseconds at no more than `frequency` updates
    /// per second. There is none when the device is already at the target.
    pub fn new(start: u32, target: u32, max: u32, duration: u128, frequency: u32) -> (r: Option<Ramp>)
        requires
            0 < duration <= MAX_DURATION_NANOS,
            frequency > 0,
        ensures
            ({
                let goal = if target <= max { target } else { max };
                let delta = abs_diff(start as nat, goal as nat);
                &&& delta == 0 <==> r is None
                &&& r matches Some(ramp) ==> {
                    &&& ramp.wf()
                    &&& ramp.start == start
                    &&& ramp.target == goal
                    &&& ramp.steps == step_count(delta, duration as nat, frequency as nat)
                    &&& ramp.interval == duration / (ramp.steps as u128)
                    &&& ramp.done == 0
                }
            }),
    {
        let goal: u32 = if target <= max {
            target
        } else {
            max
        };
        let delta: u32 = if start >= goal {
            start - goal
        } else {
            goal - start
        };
        if delta == 0 {
            return None;
        }
        assert((duration as nat) * (frequency as nat) <= 0xffff_ffff_ffff_ffff_ffff_ffff_ffff_ffffnat)
            by (nonlinear_arith)
            requires
                duration <= MAX_DURATION_NANOS,
                frequency <= 0xffff_ffffu32,
        ;
        let fit: u128 = duration * (frequency as u128) / NANOS_PER_SEC;
        let steps: u32 = if fit < 1 {
            1
        } else if fit > delta as u128 {
            delta
        } else {
            fit as u32
        };
        let interval: u128 = duration / (steps as u128);
        assert((steps as nat) * (interval as nat) <= duration) by (nonlinear_arith)
            requires
                interval == duration / (steps as u128),
                steps > 0,
        ;
        Some(Ramp { start, target: goal, steps, interval, done: 0 })
    }

    /// The level written at `step`, counted from one.
    pub fn value_at(&self, step: u32) -> (r: u32)
        requires
            self.wf(),
            1 <= step <= self.steps,
        ensures
            r as nat == ramp_value(self.start as nat, self.target as nat, self.steps as nat, step as nat),
    {
        let delta: u32 = if self.start >= self.target {
            self.start - self.target
        } else {
            self.target - self.start
        };
        assert((delta as nat) * (step as nat) <= 0xffff_ffff_ffff_ffff_nat) by (nonlinear_arith)
            requires
                delta <= 0xffff_ffffu32,
                step <= 0xffff_ffffu32,
        ;
        let progress: u64 = (delta as u64) * (step as u64) / (self.steps as u64);
        proof {
            lemma_progress_within(delta as nat, step as nat, self.steps as nat);
        }
        if self.target >= self.start {
            self.start + progress as u32
        } else {
            self.start - progress as u32
        }
    }

    /// Hands out the next write of the ramp, or nothing once all were handed out.
    pub fn next(&mut self) -> (r: Option<RampStep>)
        requires
            old(self).wf(),
        ensures
            final(self).wf(),
            final(self).start == old(self).start,
            final(self).target == old(self).target,
            final(self).steps == old(self).steps,
            final(self).interval == old(self).interval,
            old(self).done == old(self).steps ==> r is None && *final(self) == *old(self),
            old(self).done < old(self).steps ==> {
                &&& final(self).done == old(self).done + 1
                &&& r == Some(RampStep {
                    value: old(self).values()[old(self).done as int] as u32,
                    due: (final(self).done * old(self).interval) as u128,
                })
            },
    {
        if self.done >= self.steps {
            return None;
        }
        self.done = self.done + 1;
        let value = self.value_at(self.done);
        assert((self.done as nat) * (self.interval as nat) <= (self.steps as nat) * (self.interval as nat))
            by (nonlinear_arith)
            requires
                self.done <= self.steps,
        ;
        let due: u128 = (self.done as u128) * self.interval;
        Some(RampStep { value, due })
    }
}

/// The progress of a ramp never passes the distance to cover.
proof fn lemma_progress_within(delta: nat, step: nat, steps: nat)
    requires
        1 <= step <= steps,
    ensures
        delta * step / steps <= delta,
        step == steps ==> delta * step / steps == delta,
{
    assert(delta * step <= delta * steps) by (nonlinear_arith)
        requires
            step <= steps,
    ;
    assert(delta * step / steps <= delta * steps / steps) by (nonlinear_arith)
        requires
            delta * step <= delta * steps,
            steps > 0,
    ;
    assert(delta * steps / steps == delta) by (nonlinear_arith)
        requires
            steps > 0,
    ;
}

/// The number of writes of a planned ramp is at least one and at most the
/// distance between its start and its target.
pub proof fn lemma_step_bound(start: nat, target: nat, duration: nat, frequency: nat)
    requires
        abs_diff(start, target) > 0,
    ensures
        1 <= step_count(abs_diff(start, target), duration, frequency) <= abs_diff(start, target),
{
}

/// The levels written by a ramp move monotonically from its start towards its
/// target, and the last one is the target.
pub proof fn lemma_ramp_monotonic(ramp: Ramp, i: int, j: int)
    requires
        ramp.wf(),
        0 <= i <= j < ramp.steps,
    ensures
        ramp.target >= ramp.start ==> ramp.values()[i] <= ramp.values()[j],
        ramp.target < ramp.start ==> ramp.values()[i] >= ramp.values()[j],
        ramp.values().last() == ramp.target,
{
    let delta = abs_diff(ramp.start as nat, ramp.target as nat);
    let steps = ramp.steps as nat;
    let a = (i + 1) as nat;
    let b = (j + 1) as nat;
    assert(delta * a <= delta * b) by (nonlinear_arith)
        requires
            a <= b,
    ;
    assert(delta * a / steps <= delta * b / steps) by (nonlinear_arith)
        requires
            delta * a <= delta * b,
            steps > 0,
    ;
    lemma_progress_within(delta, (j + 1) as nat, steps);
    lemma_progress_within(delta, steps, steps);
}

} // verus!
