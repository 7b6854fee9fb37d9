//! Core of a real-time 2D application engine: a fixed-step frame scheduler,
//! a shared entity-component world store with deferred structural changes,
//! an immediate-mode constraint-based UI layout and interaction engine, and
//! the persistence records exchanged with the save/load collaborator.
//!
//! All geometry is integer pixel geometry; world-space quantities are held in
//! fixed-point units so that every computation here is exact.

pub mod constraint;
pub mod events;
pub mod input;
pub mod layout;
pub mod scene;
pub mod world;
pub mod schedule;
pub mod geometry;
pub mod physics;
pub mod persist;

use vstd::prelude::*;

verus! {

/// The global application state: the frame loop keeps running while the
/// state is `Running` and lets the in-flight frame finish once it has
/// switched to `Stopping`.
#[derive(Clone, Copy, Debug, PartialEq, Eq, Structural)]
pub enum AppState {
    Running,
    Stopping,
}

/// Singleton resource holding the application state.
#[derive(Clone, Copy, Debug, PartialEq, Eq, Structural)]
pub struct StateRes {
    pub app: AppState,
}

impl StateRes {
    /// A freshly built application is not running yet.
    pub fn new() -> (r: StateRes)
        ensures
            r.app == AppState::Stopping,
    {
        StateRes { app: AppState::Stopping }
    }

    /// True exactly while the frame loop must keep iterating.
    pub fn is_running(&self) -> (r: bool)
        ensures
            r == (self.app == AppState::Running),
    {
        match self.app {
            AppState::Running => true,
            AppState::Stopping => false,
        }
    }
}

} // verus!
