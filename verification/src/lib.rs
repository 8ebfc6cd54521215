//! Client-side logic of the Mosaic multisig: configuration, the wire format of the
//! program's instructions and accounts, and the instructions each command sends.

pub mod address;
pub mod commands;
pub mod config;
pub mod error;
pub mod hexdata;
pub mod instruction;
pub mod sessions;
pub mod state;
pub mod types;
pub mod wire;
