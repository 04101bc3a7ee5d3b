//! Coordination core of a media-key daemon: a command bus that fans state
//! updates out to a set of listeners, each with its own attach/detach
//! lifecycle, together with the parsing and configuration logic around it.

pub mod command;
pub mod listener;
pub mod messages;
pub mod lifecycle;
pub mod text;
pub mod config;
pub mod cli;
pub mod daemon;
pub mod communication;
pub mod locator;
pub mod media_controls;
pub mod filesystem;
pub mod rpc;
