//! Core device management: the protocol by which a host reads and clears the log,
//! sets log levels, edits the configuration and reboots a device, either the one
//! it is connected to or one that is reached over a DRTIO link.
//!
//! The crate holds the decisions of the service and leaves the input and output to
//! its driver. [`worker::worker`] takes a [`worker::Session`] and what came of the
//! last [`step::Action`], and says which action to perform next.
pub mod drtio;
pub mod laws;
pub mod level;
pub mod listener;
pub mod local_coremgmt;
pub mod proto;
pub mod remote_coremgmt;
pub mod step;
pub mod worker;
