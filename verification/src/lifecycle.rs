//! Slide lifecycle states and the results a slide's update can return.

use vstd::prelude::*;

verus! {

/// Slide lifecycle states.
#[derive(Debug, Clone, Copy, PartialEq, Eq, Structural)]
pub enum SlideState {
    /// Slide is not loaded.
    Unloaded,
    /// Slide spec is loaded, GPU resources allocated.
    Loaded,
    /// Slide is actively rendering.
    Active,
    /// Slide is loaded but not rendering (waiting for a transition).
    Parked,
    /// Slide is being cleaned up.
    Unloading,
}

impl Default for SlideState {
    fn default() -> (s: Self)
        ensures
            s == SlideState::Unloaded,
    {
        SlideState::Unloaded
    }
}

impl SlideState {
    /// Returns true if the slide is loaded, active or parked.
    pub fn is_loaded(self) -> (r: bool)
        ensures
            r == (self is Loaded || self is Active || self is Parked),
    {
        matches!(self, SlideState::Loaded | SlideState::Active | SlideState::Parked)
    }

    /// Returns true if the slide is currently active.
    pub fn is_active(self) -> (r: bool)
        ensures
            r == (self is Active),
    {
        matches!(self, SlideState::Active)
    }

    /// Returns true if the slide can be rendered (only an active slide can).
    pub fn can_render(self) -> (r: bool)
        ensures
            r == (self is Active),
    {
        matches!(self, SlideState::Active)
    }
}

/// Result of a slide update.
#[derive(Debug, Clone, Copy, PartialEq, Eq, Structural)]
pub enum UpdateResult {
    /// Slide continues running.
    Continue,
    /// Slide has completed and should stop.
    Stop,
    /// Slide encountered an error.
    Error,
}

impl UpdateResult {
    /// Returns true if the slide should continue.
    pub fn should_continue(self) -> (r: bool)
        ensures
            r == (self is Continue),
    {
        matches!(self, UpdateResult::Continue)
    }

    /// Returns true if the slide should stop.
    pub fn should_stop(self) -> (r: bool)
        ensures
            r == (self is Stop),
    {
        matches!(self, UpdateResult::Stop)
    }
}

/// The update result an ABI return code stands for.
pub open spec fn result_of_code(code: i32) -> UpdateResult {
    if code == 0 {
        UpdateResult::Continue
    } else if code == 1 {
        UpdateResult::Stop
    } else {
        UpdateResult::Error
    }
}

/// Converts a raw `vzglyd_update` return code: 0 continues, 1 stops, anything else is an error.
pub fn abi_code_to_result(code: i32) -> (r: UpdateResult)
    ensures
        r == result_of_code(code),
{
    match code {
        0 => UpdateResult::Continue,
        1 => UpdateResult::Stop,
        _ => UpdateResult::Error,
    }
}

/// A slide that can render is active, and an active slide counts as loaded.
pub proof fn lemma_render_implies_loaded(s: SlideState)
    ensures
        (s is Active) ==> (s is Loaded || s is Active || s is Parked),
{
}

/// No update result both continues and stops.
pub proof fn lemma_continue_excludes_stop(r: UpdateResult)
    ensures
        !((r is Continue) && (r is Stop)),
{
}

} // verus!
