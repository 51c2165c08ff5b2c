//! Decision logic, data encodings and error texts of a Windows tuning tool,
//! with the calls into the operating system left to the application shell.

pub mod text;
pub mod winpath;
pub mod process;
pub mod error;
pub mod registry;
pub mod folders;
pub mod purge;
pub mod windows_update;
pub mod onedrive;
pub mod dhcp;
pub mod optimize;
pub mod power;
pub mod nvidia;
pub mod desktop;
pub mod sticky_keys;
pub mod shell;
pub mod network;
