use vstd::prelude::*;
use vstd::string::*;

use crate::device::{Brightness, ReadNumError};
use crate::discovery::DeviceDetail;
use crate::duration::DurationArgument;
use crate::ramp::{planned_change, set_brightness, BrightnessChange, MAX_DURATION_NANOS};
use crate::value::{absolute_of, Value};

verus! {

/// The device attribute that an error concerns.
#[derive(Clone, Copy, Debug, PartialEq, Eq, Structural)]
pub enum Attribute {
    Brightness,
    MaxBrightness,
}

/// Why a command failed.
#[derive(Debug)]
pub enum Error {
    /// No device was named and none was found.
    NoDefaultDevice,
    DeviceReadFailed(Attribute, ReadNumError),
    DeviceWriteFailed(Attribute, std::io::Error),
    /// The arguments contradict each other.
    MalformedArguments(String),
}

/// How a ramp is paced: the longest it may take, and how often the level may change.
#[derive(Clone, Copy, Debug, PartialEq, Eq, Structural)]
pub struct InterpolationOptions {
    pub duration: DurationArgument,
    /// Updates per second.
    pub frequency: u32,
}

impl InterpolationOptions {
    /// No ramp, and thirty updates per second should one be asked for.
    pub fn new() -> (r: InterpolationOptions)
        ensures
            r.duration.0 == 0,
            r.frequency == 30,
    {
        InterpolationOptions { duration: DurationArgument::zero(), frequency: 30 }
    }
}

/// Reads the level of a device.
pub fn read_brightness<B: Brightness>(device: &B) -> (r: Result<u32, Error>)
    ensures
        r matches Err(e) ==> e matches Error::DeviceReadFailed(Attribute::Brightness, _),
{
    match device.brightness() {
        Ok(level) => Ok(level),
        Err(e) => Err(Error::DeviceReadFailed(Attribute::Brightness, e)),
    }
}

/// Reads the highest level of a device.
pub fn read_max_brightness<B: Brightness>(device: &B) -> (r: Result<u32, Error>)
    ensures
        r matches Err(e) ==> e matches Error::DeviceReadFailed(Attribute::MaxBrightness, _),
{
    match device.max_brightness() {
        Ok(level) => Ok(level),
        Err(e) => Err(Error::DeviceReadFailed(Attribute::MaxBrightness, e)),
    }
}

/// Writes the level of a device.
pub fn write_brightness<B: Brightness>(device: &B, value: u32) -> (r: Result<(), Error>)
    ensures
        r matches Err(e) ==> e matches Error::DeviceWriteFailed(Attribute::Brightness, _),
{
    match device.set_brightness(value) {
        Ok(()) => Ok(()),
        Err(e) => Err(Error::DeviceWriteFailed(Attribute::Brightness, e)),
    }
}

/// The device to use when none is named: the first one found.
pub fn default_device(found: Vec<DeviceDetail>) -> (r: Result<DeviceDetail, Error>)
    ensures
        found@.len() == 0 ==> r matches Err(Error::NoDefaultDevice),
        found@.len() > 0 ==> (r matches Ok(d) && d == found@[0]),
{
    let mut found = found;
    if found.len() == 0 {
        Err(Error::NoDefaultDevice)
    } else {
        Ok(found.remove(0))
    }
}

/// Rejects asking to only increase and to only decrease at once.
pub fn check_direction(increase: bool, decrease: bool) -> (r: Result<(), Error>)
    ensures
        r is Ok <==> !(increase && decrease),
        r matches Err(e) ==> e is MalformedArguments,
{
    if increase && decrease {
        Err(
            Error::MalformedArguments(
                String::from_str("cannot specify increase (-I) and decrease (-D) at the same time"),
            ),
        )
    } else {
        Ok(())
    }
}

/// What a `set` command does to a device.
#[derive(Clone, Copy, Debug, PartialEq, Eq, Structural)]
pub enum SetOutcome {
    /// The device is at the target already.
    Unchanged,
    /// Only increases were allowed, and the target is below the current level.
    AboveTarget,
    /// Only decreases were allowed, and the target is above the current level.
    BelowTarget,
    Change(BrightnessChange),
}

/// What `set value` does to a device at `current` whose maximum is `max`.
pub open spec fn set_outcome(
    value: Value,
    increase: bool,
    decrease: bool,
    current: u32,
    max: u32,
    duration: nat,
) -> SetOutcome {
    let target = absolute_of(value, max as nat);
    if target == current {
        SetOutcome::Unchanged
    } else if increase && target < current {
        SetOutcome::AboveTarget
    } else if decrease && target > current {
        SetOutcome::BelowTarget
    } else {
        SetOutcome::Change(planned_change(current as nat, target as u32, duration, max as nat))
    }
}

/// Plans `set value` on a device at `current` whose maximum is `max`: the
/// requested duration is for the full range of the device.
pub fn plan_set(
    value: Value,
    increase: bool,
    decrease: bool,
    current: u32,
    max: u32,
    duration: DurationArgument,
) -> (r: Result<SetOutcome, Error>)
    requires
        value.wf(),
        duration.0 <= MAX_DURATION_NANOS,
    ensures
        increase && decrease ==> r matches Err(Error::MalformedArguments(_)),
        !(increase && decrease) ==> (r matches Ok(o) && o == set_outcome(
            value,
            increase,
            decrease,
            current,
            max,
            duration.0 as nat,
        )),
{
    check_direction(increase, decrease)?;
    let target = value.to_absolute(max);
    if target == current {
        Ok(SetOutcome::Unchanged)
    } else if increase && target < current {
        Ok(SetOutcome::AboveTarget)
    } else if decrease && target > current {
        Ok(SetOutcome::BelowTarget)
    } else {
        Ok(SetOutcome::Change(set_brightness(current, target, duration.0, max)))
    }
}

/// Plans `inc amount` on a device at `current` whose maximum is `max`: the
/// requested duration is for the whole amount.
pub fn plan_increase(amount: Value, current: u32, max: u32, duration: DurationArgument) -> (r:
    BrightnessChange)
    requires
        amount.wf(),
        duration.0 <= MAX_DURATION_NANOS,
    ensures
        ({
            let step = absolute_of(amount, max as nat);
            let target = if current + step <= max {
                current + step
            } else {
                max as int
            };
            r == planned_change(current as nat, target as u32, duration.0 as nat, step)
        }),
{
    let step = amount.to_absolute(max);
    let target = Value::saturating_add(current, amount, max);
    set_brightness(current, target, duration.0, step)
}

/// Plans `dec amount` on a device at `current` whose maximum is `max`: the
/// requested duration is for the whole amount.
pub fn plan_decrease(amount: Value, current: u32, max: u32, duration: DurationArgument) -> (r:
    BrightnessChange)
    requires
        amount.wf(),
        duration.0 <= MAX_DURATION_NANOS,
    ensures
        ({
            let step = absolute_of(amount, max as nat);
            let lowered = if current >= step {
                current - step
            } else {
                0
            };
            let target = if lowered <= max {
                lowered
            } else {
                max as int
            };
            r == planned_change(current as nat, target as u32, duration.0 as nat, step)
        }),
{
    let step = amount.to_absolute(max);
    let lowered = Value::saturating_sub(current, amount, max);
    let target = if lowered <= max {
        lowered
    } else {
        max
    };
    set_brightness(current, target, duration.0, step)
}

} // verus!
