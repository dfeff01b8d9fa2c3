//! Verified core of a terminal dashboard for local Rust projects: text and
//! path helpers, project ordering, search scoping, cursor navigation and the
//! state machine that turns key presses and background results into state
//! changes and requests for outside work.
use vstd::prelude::*;

pub mod app;
pub mod collections;
pub mod format;
pub mod laws;
pub mod navigation;
pub mod persistence;
pub mod projects;
pub mod providers;
pub mod reports;
pub mod runtime;
pub mod scan;
pub mod targets;
pub mod text;
pub mod view;

verus! {

} // verus!
