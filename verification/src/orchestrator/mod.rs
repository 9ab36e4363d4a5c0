//! The boot sequence: read and parse the executable, open the device, start
//! the console mirror, build the image, initialize DRAM on a cold boot, write
//! the image, start it, and wait for the device to come back on the bus.
//!
//! * [`model`] is the sequence as a transition function on mathematical values.
//! * [`machine`] is the executable machine, proved to follow the model.
//! * [`laws`] proves what holds of every run of the model.
mod invariants;
pub mod laws;
pub mod machine;
pub mod model;
