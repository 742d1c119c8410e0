//! What the results of the library are like, said of every input.

pub mod boot;
pub mod config;
pub mod menu;
pub mod network;
pub mod pairing;
pub mod text;
pub mod wire;
