//! A focus timer's core: a pausable countdown, a color gradient that tracks
//! its progress, and a theme palette that is reloaded on change.
use vstd::prelude::*;

pub mod color;
pub mod config;
pub mod gradient;
pub mod session;
pub mod theme;
pub mod timer;
pub mod watcher;

verus! {

} // verus!
