//! A client of the Toggl time-tracking service that does no input or output
//! of its own. It builds the requests, reads the replies, files and ranks the
//! projects, and decides when the cached project list is too old. Sending,
//! reading files and decoding JSON are left to the program around it.

pub mod alfred;
pub mod auth;
pub mod cache;
pub mod cmd;
pub mod error;
pub mod filter;
pub mod http;
pub mod order;
pub mod output;
pub mod text;
pub mod toggl;
