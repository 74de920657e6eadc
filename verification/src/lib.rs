//! Drivers for I2C peripherals of a single-board computer: a GPIO port
//! expander, a character LCD wired to that expander, and a bicolor 8x8 LED
//! matrix.
//!
//! The drivers never touch the bus themselves. Every operation updates the
//! driver's register cache and appends the transactions it calls for to the
//! driver's [`bus::Bus`]; the host takes them from there and performs them
//! in order. It tells the driver of every success, so that the driver
//! knows what the chip holds, and of a failure, on which the driver drops
//! the rest of the schedule and sets its cache back to what the chip
//! holds.

pub mod bitmap;
pub mod bits;
pub mod errors;
pub mod bus;
pub mod i2c;
