use vstd::prelude::*;

verus! {

#[verifier::external_type_specification]
#[verifier::external_body]
pub struct ExIoError(std::io::Error);

/// Why a numeric device attribute could not be read.
#[derive(Debug)]
pub enum ReadNumError {
    Read(std::io::Error),
    Parse(std::num::ParseIntError),
}

/// The power state of a backlight, as the `bl_power` attribute spells it.
#[derive(Clone, Copy, Debug, PartialEq, Eq, Structural)]
pub enum PowerState {
    Unblank,
    Powerdown,
}

impl PowerState {
    /// The number that the `bl_power` attribute holds for this state.
    pub open spec fn spec_code(self) -> u8 {
        match self {
            PowerState::Unblank => 0,
            PowerState::Powerdown => 4,
        }
    }

    /// The number that the `bl_power` attribute holds for this state.
    pub fn code(self) -> (r: u8)
        ensures
            r == self.spec_code(),
    {
        match self {
            PowerState::Unblank => 0,
            PowerState::Powerdown => 4,
        }
    }

    /// The state that a `bl_power` attribute holding the ASCII digit `byte`
    /// (48 is `0`)
    /// stands for, if any.
    pub fn from_byte(byte: u8) -> (r: Option<PowerState>)
        ensures
            r matches Some(s) ==> byte == 48 + s.spec_code(),
            r is None <==> byte != 48 && byte != 52,
    {
        if byte == 48u8 {
            Some(PowerState::Unblank)
        } else if byte == 52u8 {
            Some(PowerState::Powerdown)
        } else {
            None
        }
    }
}

/// Where the brightness control of a backlight is implemented.
#[derive(Clone, Copy, Debug, PartialEq, Eq, Structural)]
pub enum DeviceType {
    Firmware,
    Platform,
    Raw,
}

/// The attributes that LED and backlight devices have in common.
pub trait Brightness {
    /// The level last requested.
    fn brightness(&self) -> Result<u32, ReadNumError>;

    /// Requests a new level.
    fn set_brightness(&self, value: u32) -> Result<(), std::io::Error>;

    /// The highest level the device accepts.
    fn max_brightness(&self) -> Result<u32, ReadNumError>;
}

/// The attributes of a backlight device.
pub trait Backlight: Brightness {
    fn bl_power(&self) -> Result<PowerState, std::io::Error>;

    fn set_bl_power(&self, value: PowerState) -> Result<(), std::io::Error>;

    /// The level the hardware reports, which may differ from the one requested.
    fn actual_brightness(&self) -> Result<u32, ReadNumError>;

    fn device_type(&self) -> Result<DeviceType, std::io::Error>;
}

} // verus!
