//! Protocol core of a client for the iRacing member API.
//!
//! The crate performs no I/O. It derives the login credential, builds the
//! requests, classifies the replies, walks the two-hop link indirection batch
//! by batch and projects the retrieved members onto report rows. A driver
//! program sends the requests and hands the replies back.

pub mod batch;
pub mod cli;
pub mod credentials;
pub mod error;
pub mod iracing;
pub mod report;
pub mod run;
pub mod settings;
pub mod text;
