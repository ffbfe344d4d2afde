//! The firmware transfer: how an image is cut up, and the handshake that
//! carries it to the device.

pub mod layout;
pub mod laws;
pub mod model;
pub mod run;
pub mod sample;
