//! Decision logic of a host-side loader for a bootloader-less board.
//!
//! The loader sends a program to the board over USB, starts it, and mirrors
//! the board's serial console until the board resets. Everything the loader
//! does to the outside world (files, the USB device, the serial port, the
//! clock) is carried out by a driver; this crate decides *what* is done and in
//! which order. Each of the two activities is a machine: the driver performs
//! the action the machine asks for and reports the outcome as an event.
//!
//! * [`orchestrator`] is the boot sequence.
//! * [`redirector`] is the console mirror.
//! * [`error`] holds the failures both can end with.
pub mod error;
pub mod orchestrator;
pub mod redirector;
