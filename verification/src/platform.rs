//! The system phm runs on.

use vstd::prelude::*;

verus! {

/// The system phm runs on: Linux (Android included) keeps its own static PHP
/// builds, macOS works through Homebrew.
#[derive(Debug, Clone, Copy, PartialEq, Eq, Structural)]
pub enum Platform {
    Linux,
    MacOs,
}

} // verus!
