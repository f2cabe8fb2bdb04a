//! Query the Linux kernel build configuration (`/boot/config-*`,
//! `/proc/config.gz`): locate the config file and look entries up in it.

pub mod capi;
pub mod config;
pub mod entry;
pub mod error;
pub mod laws;
pub mod lookup;
pub mod text;
