//! Backend logic of a control panel for a serial-attached spindle-motor
//! controller: port discovery, the serial-link lock, the line protocol and
//! the command surface offered to a front-end.
use vstd::prelude::*;

pub mod codec;
pub mod ports;
pub mod communication;
pub mod config;
pub mod commands;

verus! {

} // verus!
