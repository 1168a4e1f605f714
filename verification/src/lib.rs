//! Session layer for Human Interface Devices.
//!
//! The crate holds the decisions of a HID session manager: which device a
//! positional reference names, whether a path already has a live session,
//! what a report descriptor says about the input report id, and what a
//! background reader does with each completed read. Talking to the platform
//! is left to the caller, who hands the outcomes of its device calls to the
//! functions here and performs what they answer.

pub mod descriptor;
pub mod device;
pub mod error;
pub mod read_loop;
pub mod registry;
