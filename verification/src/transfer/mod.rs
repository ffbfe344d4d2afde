//! The link under both engines: what it takes in one write, and how often a
//! connection is tried.

pub mod ble;
