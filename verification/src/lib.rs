//! phm: a PHP version manager. The library holds its verified logic: version
//! parsing and Composer constraint resolution, shell code generation, and the
//! decisions that the command-line front end acts on.

pub mod text;
pub mod number;
pub mod version;
pub mod error;
pub mod discover;
pub mod commands;
pub mod paths;
pub mod shell;
pub mod multishell;
pub mod shim;
pub mod json;
pub mod downloader;
pub mod composer;
pub mod termux;
pub mod config;
pub mod platform;
