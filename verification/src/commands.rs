//! The decisions behind the `phm` subcommands.

pub mod use_version;
pub mod list_remote;
pub mod doctor;
pub mod install;
pub mod uninstall;
pub mod default;
pub mod env;
pub mod list;
