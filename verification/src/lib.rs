//! GrubStation: Home Assistant chooses what a host boots.
//!
//! The library holds the rules: how a boot menu is read, what a configuration
//! may say, which request changes the pairing and how it is answered, and what
//! is written, sent and run in turn. Files, sockets and processes are left to
//! the program around it, which hands over what it has read and carries out
//! what it gets back.

pub mod client;
pub mod command;
pub mod config;
pub mod daemon;
pub mod grub;
pub mod hook;
pub mod json;
pub mod laws;
pub mod mapping;
pub mod mdns;
pub mod menu;
pub mod net;
pub mod os;
pub mod pairing;
pub mod reply;
pub mod request;
pub mod secret;
pub mod service;
pub mod shutdown;
pub mod state_file;
pub mod sync;
pub mod text;
pub mod update;
pub mod wizard;
pub mod yaml;
