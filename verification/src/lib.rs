//! nic-autoswitch: automatic traffic steering between network interfaces.
//!
//! The library holds the decision logic of the daemon: configuration
//! validation, destination matching, the network state model, route
//! bookkeeping and the event dispatcher state machine. Everything that talks
//! to the kernel, to the file system or to sockets lives in the program
//! around it, which hands plain values in and gets plain values back.

pub mod error;
pub mod text;
pub mod net;
pub mod strmap;
pub mod config;
pub mod monitor;
pub mod router;
pub mod dns;
pub mod engine;
pub mod daemon;
pub mod cli;
pub mod laws;
