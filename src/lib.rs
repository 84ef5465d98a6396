//! Brightness control for backlight and LED devices: the value model, device
//! classification, duration literals and the ramp scheduler.
pub mod value;
pub mod ramp;
pub mod text;
pub mod duration;
pub mod device;
pub mod discovery;
pub mod control;
