//! Register-level drivers for a sensor board whose devices share one two-wire bus.
//!
//! `bus` owns the bus and hands out one lease at a time; every register transaction
//! of the drivers runs under a lease of its own and is recorded, as ghost state, in
//! the arbiter's transfer log, over which the drivers' contracts are stated.
//! `ina237` drives the power monitor and `nau7802` the 24-bit ADC; their register
//! codecs live in `ina237_types` and `nau7802_registers`.

mod hal;
pub mod bus;
pub mod ina237_types;
pub mod ina237;
pub mod nau7802_registers;
pub mod nau7802;
