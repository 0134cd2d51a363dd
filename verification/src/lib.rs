//! Tracks what an installer changes on a Windows machine.

pub mod bytes;
pub mod changes;
pub mod cli;
pub mod given;
pub mod item;
pub mod launch;
pub mod laws;
pub mod monitor;
pub mod options;
pub mod overlapped_future;
pub mod packer;
pub mod path;
pub mod text;
pub mod utils;
pub mod wsb;
