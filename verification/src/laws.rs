//! What holds of every connection.
pub mod connection;
pub mod functions;
pub mod local;
pub mod log_buffer;
pub mod outcomes;
pub mod remote;
pub mod replies;
pub mod requests;
pub mod route;
pub mod runs;
pub mod views;
