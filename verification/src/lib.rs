//! Verified protocol core of a Bluetooth Low Energy valve controller.
//!
//! The crate holds the decisions of two engines that share one link: the
//! command/response exchange and the firmware transfer. Neither engine
//! touches the radio. Each is a state machine that is told what the link did
//! and answers with what to do next, so that every rule of the protocol is a
//! function with a contract.

pub mod bytes;
pub mod commands;
pub mod ota;
pub mod transfer;
