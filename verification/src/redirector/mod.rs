//! The console mirror: copy what arrives on the device's serial console to
//! standard output until told to stop.
//!
//! The mirror never waits in a read. It asks how many bytes are there, sleeps
//! a moment if there are none, and looks at the stop signal before every such
//! round, so it ends soon after the signal is raised however busy or quiet
//! the console is.
//!
//! * [`model`] is the mirror as a transition function on mathematical values.
//! * [`machine`] is the executable machine, proved to follow the model.
//! * [`laws`] proves what holds of every run of the model.
mod invariants;
pub mod laws;
pub mod machine;
pub mod model;
