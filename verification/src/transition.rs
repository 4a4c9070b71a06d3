//! Transition kinds and how the kind of a slide change is chosen.
//!
//! The kernel decides which transition plays; the host renders it.

use vstd::prelude::*;

verus! {

/// Transition kinds supported by the engine.
///
/// Each kind that blends two slides has its own shader tag, which the host
/// uses to pick the transition shader.
#[derive(Debug, Clone, Copy, PartialEq, Eq, Structural)]
pub enum TransitionKind {
    /// Crossfade (opacity blend between outgoing and incoming).
    Crossfade,
    /// Wipe from right to left.
    WipeLeft,
    /// Wipe from top to bottom.
    WipeDown,
    /// Dissolve (random pixel reveal).
    Dissolve,
    /// Cut (instant switch, no compositor needed).
    Cut,
}

/// The shader tag of each kind; `Cut` never reaches the compositor and shares tag 0.
pub open spec fn spec_shader_tag(kind: TransitionKind) -> u32 {
    match kind {
        TransitionKind::Crossfade => 0,
        TransitionKind::WipeLeft => 1,
        TransitionKind::WipeDown => 2,
        TransitionKind::Dissolve => 3,
        TransitionKind::Cut => 0,
    }
}

impl TransitionKind {
    /// Returns true if this transition requires compositing; only `Cut` does not.
    pub fn uses_compositor(self) -> (r: bool)
        ensures
            r == !(self is Cut),
    {
        !matches!(self, TransitionKind::Cut)
    }

    /// Returns the shader tag for this transition kind.
    pub fn shader_tag(self) -> (t: u32)
        ensures
            t == spec_shader_tag(self),
    {
        match self {
            TransitionKind::Crossfade => 0,
            TransitionKind::WipeLeft => 1,
            TransitionKind::WipeDown => 2,
            TransitionKind::Dissolve => 3,
            TransitionKind::Cut => 0,
        }
    }
}

impl Default for TransitionKind {
    fn default() -> (k: Self)
        ensures
            k == TransitionKind::Crossfade,
    {
        TransitionKind::Crossfade
    }
}

/// The kind chosen from the three optional sources, by priority.
pub open spec fn chosen_transition(
    outgoing_transition_out: Option<TransitionKind>,
    incoming_transition_in: Option<TransitionKind>,
    manifest_default: Option<TransitionKind>,
) -> TransitionKind {
    match outgoing_transition_out {
        Some(k) => k,
        None => match incoming_transition_in {
            Some(k) => k,
            None => match manifest_default {
                Some(k) => k,
                None => TransitionKind::Crossfade,
            },
        },
    }
}

/// Resolves the transition kind to use for a slide change.
///
/// Priority order: the outgoing slide's `transition_out`, then the incoming
/// slide's `transition_in`, then the manifest default, then `Crossfade`.
pub fn resolve_transition(
    outgoing_transition_out: Option<TransitionKind>,
    incoming_transition_in: Option<TransitionKind>,
    manifest_default: Option<TransitionKind>,
) -> (k: TransitionKind)
    ensures
        k == chosen_transition(outgoing_transition_out, incoming_transition_in, manifest_default),
        outgoing_transition_out is Some ==> k == outgoing_transition_out->0,
        outgoing_transition_out is None && incoming_transition_in is Some ==> k
            == incoming_transition_in->0,
        outgoing_transition_out is None && incoming_transition_in is None && manifest_default is Some
            ==> k == manifest_default->0,
        outgoing_transition_out is None && incoming_transition_in is None && manifest_default is None
            ==> k == TransitionKind::Crossfade,
{
    match outgoing_transition_out {
        Some(k) => k,
        None => match incoming_transition_in {
            Some(k) => k,
            None => match manifest_default {
                Some(k) => k,
                None => TransitionKind::Crossfade,
            },
        },
    }
}

/// Among the kinds that use the compositor, shader tags tell the kinds apart.
pub proof fn lemma_compositor_tags_distinct(a: TransitionKind, b: TransitionKind)
    requires
        !(a is Cut),
        !(b is Cut),
        a != b,
    ensures
        spec_shader_tag(a) != spec_shader_tag(b),
{
}

/// A resolved kind is always one of the supplied ones, or the `Crossfade` fallback.
pub proof fn lemma_resolved_kind_is_supplied(
    outgoing_transition_out: Option<TransitionKind>,
    incoming_transition_in: Option<TransitionKind>,
    manifest_default: Option<TransitionKind>,
)
    ensures
        ({
            let k = chosen_transition(
                outgoing_transition_out,
                incoming_transition_in,
                manifest_default,
            );
            outgoing_transition_out == Some(k) || incoming_transition_in == Some(k)
                || manifest_default == Some(k) || k == TransitionKind::Crossfade
        }),
{
}

} // verus!
