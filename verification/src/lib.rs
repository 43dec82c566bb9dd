//! A dotfile deployment library: configuration validation, mapping
//! resolution, backup-then-copy planning, and package-installation
//! orchestration, with contracts checked by Verus.

pub mod paths;
pub mod config;
pub mod fsmodel;
pub mod plans;
pub mod backup;
pub mod sync;
pub mod system;
pub mod install;
pub mod git;
pub mod validation;
pub mod spinner;
