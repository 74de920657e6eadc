//! Drivers for the peripherals on the I2C bus.

pub mod io;
pub mod lcd;
pub mod led;
