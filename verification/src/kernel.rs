//! The slide rotation at the heart of the engine: which slide is on screen, which
//! transition is playing, and the lifecycle state of every scheduled slide.
//!
//! Timing is the host loop's business: it decides when the current slide has run its
//! course and when a blend has finished, and tells the rotation. The rotation decides
//! what follows: the next slide in schedule order (wrapping to the first), the
//! transition resolved from the outgoing slide, the incoming slide and the engine
//! default, and the lifecycle state of each slide.

use vstd::prelude::*;

use crate::lifecycle::SlideState;
use crate::schedule::ScheduledSlide;
use crate::transition::{chosen_transition, resolve_transition, TransitionKind};

verus! {

/// What the rotation keeps of one scheduled slide.
#[derive(Debug, Clone, Copy, PartialEq, Eq, Structural)]
pub struct RotationSlot {
    /// Lifecycle state.
    pub state: SlideState,
    /// Transition played when the slide enters.
    pub transition_in: Option<TransitionKind>,
    /// Transition played when the slide leaves.
    pub transition_out: Option<TransitionKind>,
    /// Transition-in set by the playlist, which manifest metadata cannot override.
    pub playlist_in: Option<TransitionKind>,
    /// Transition-out set by the playlist, which manifest metadata cannot override.
    pub playlist_out: Option<TransitionKind>,
}

/// Whether a transition is playing.
#[derive(Debug, Clone, Copy, PartialEq, Eq, Structural)]
pub enum RotationPhase {
    /// No transition is playing.
    Idle,
    /// A blend of `kind` is playing from slide `outgoing` to the slide after it.
    Blending { kind: TransitionKind, outgoing: usize },
}

/// What a request to move on did.
#[derive(Debug, Clone, Copy, PartialEq, Eq, Structural)]
pub enum RotationStep {
    /// Nothing: a transition is already playing, or there is no other slide to go to.
    Stay,
    /// A cut: slide `to` replaced slide `from` at once.
    Switched { from: usize, to: usize },
    /// A blend of `kind` from slide `from` to slide `to` started.
    Blending { from: usize, to: usize, kind: TransitionKind },
}

/// Which slides a frame shows.
#[derive(Debug, Clone, Copy, PartialEq, Eq, Structural)]
pub struct FrameSlides {
    /// The active slide, or the outgoing one during a blend.
    pub current_slide_idx: usize,
    /// The incoming slide during a blend.
    pub next_slide_idx: Option<usize>,
    /// The kind of the blend being played.
    pub transition_kind: Option<TransitionKind>,
}

/// The rotation as a value.
pub struct RotationView {
    pub slots: Seq<RotationSlot>,
    pub current: nat,
    pub phase: RotationPhase,
}

/// The slide rotation.
pub struct SlideRotation {
    slots: Vec<RotationSlot>,
    current: usize,
    phase: RotationPhase,
}

impl View for SlideRotation {
    type V = RotationView;

    closed spec fn view(&self) -> RotationView {
        RotationView { slots: self.slots@, current: self.current as nat, phase: self.phase }
    }
}

/// The slide after `current` in a schedule of `len` slides, wrapping to the first.
pub open spec fn next_index(current: nat, len: nat) -> nat {
    ((current + 1) as int % (len as int)) as nat
}

/// `slot` in lifecycle state `state`.
pub open spec fn with_state(slot: RotationSlot, state: SlideState) -> RotationSlot {
    RotationSlot { state, ..slot }
}

/// What every rotation satisfies: a non-empty schedule has its current slide in range,
/// and a blend's outgoing slide has a successor index.
pub open spec fn rotation_wf(v: RotationView) -> bool {
    &&& v.slots.len() <= usize::MAX
    &&& v.slots.len() > 0 ==> v.current < v.slots.len()
    &&& v.current < usize::MAX
    &&& v.phase matches RotationPhase::Blending { outgoing, .. } ==> outgoing < usize::MAX
}

/// Idle, with the current slide active and every other slide unloaded.
pub open spec fn settled(v: RotationView) -> bool {
    &&& v.phase is Idle
    &&& v.current < v.slots.len()
    &&& forall|i: int|
        0 <= i < v.slots.len() ==> (#[trigger] v.slots[i]).state == (if i == v.current {
            SlideState::Active
        } else {
            SlideState::Unloaded
        })
}

/// Blending away from the current slide: it is parked, the next slide is loaded, and every
/// other slide is unloaded.
pub open spec fn mid_blend(v: RotationView) -> bool {
    &&& v.phase matches RotationPhase::Blending { outgoing, .. } && outgoing == v.current
    &&& 2 <= v.slots.len()
    &&& v.current < v.slots.len()
    &&& forall|i: int|
        0 <= i < v.slots.len() ==> (#[trigger] v.slots[i]).state == (if i == v.current {
            SlideState::Parked
        } else if i == next_index(v.current, v.slots.len()) {
            SlideState::Loaded
        } else {
            SlideState::Unloaded
        })
}

/// The lifecycle states agree with the phase: an empty idle schedule, a settled one, or
/// one in the middle of a blend.
pub open spec fn consistent(v: RotationView) -> bool {
    ||| v.slots.len() == 0 && v.phase is Idle
    ||| settled(v)
    ||| mid_blend(v)
}

/// The kind of transition from the current slide to the next one.
pub open spec fn upcoming_kind(v: RotationView, default_kind: TransitionKind) -> TransitionKind {
    chosen_transition(
        v.slots[v.current as int].transition_out,
        v.slots[next_index(v.current, v.slots.len()) as int].transition_in,
        Some(default_kind),
    )
}

/// The rotation after a request to move on, and what the request did. Nothing happens
/// while a transition plays or when there is no other slide; a cut switches at once; any
/// other kind starts a blend, parking the current slide and loading the next.
pub open spec fn started(v: RotationView, default_kind: TransitionKind) -> (RotationView, RotationStep) {
    if !(v.phase is Idle) || v.slots.len() <= 1 {
        (v, RotationStep::Stay)
    } else {
        let c = v.current;
        let n = next_index(c, v.slots.len());
        let kind = upcoming_kind(v, default_kind);
        if kind is Cut {
            (
                RotationView {
                    slots: v.slots.update(c as int, with_state(v.slots[c as int], SlideState::Unloaded)).update(
                        n as int,
                        with_state(v.slots[n as int], SlideState::Active),
                    ),
                    current: n,
                    phase: RotationPhase::Idle,
                },
                RotationStep::Switched { from: c as usize, to: n as usize },
            )
        } else {
            (
                RotationView {
                    slots: v.slots.update(c as int, with_state(v.slots[c as int], SlideState::Parked)).update(
                        n as int,
                        with_state(v.slots[n as int], SlideState::Loaded),
                    ),
                    current: c,
                    phase: RotationPhase::Blending { kind, outgoing: c as usize },
                },
                RotationStep::Blending { from: c as usize, to: n as usize, kind },
            )
        }
    }
}

/// The rotation after the playing blend finished, and the (outgoing, incoming) pair it
/// finished: the outgoing slide is unloaded, the one after it becomes active and current.
pub open spec fn completed(v: RotationView) -> (RotationView, Option<(usize, usize)>) {
    match v.phase {
        RotationPhase::Idle => (v, None),
        RotationPhase::Blending { outgoing, .. } => {
            let n = next_index(outgoing as nat, v.slots.len());
            let unloaded = if outgoing < v.slots.len() {
                v.slots.update(outgoing as int, with_state(v.slots[outgoing as int], SlideState::Unloaded))
            } else {
                v.slots
            };
            (
                RotationView {
                    slots: unloaded.update(n as int, with_state(unloaded[n as int], SlideState::Active)),
                    current: n,
                    phase: RotationPhase::Idle,
                },
                Some((outgoing, n as usize)),
            )
        },
    }
}

/// One full move to the next slide: a request to move on, then the end of the blend if
/// one started.
pub open spec fn advanced(v: RotationView, default_kind: TransitionKind) -> RotationView {
    completed(started(v, default_kind).0).0
}

/// `advanced` applied `k` times.
pub open spec fn advanced_times(v: RotationView, default_kind: TransitionKind, k: nat) -> RotationView
    decreases k,
{
    if k == 0 {
        v
    } else {
        advanced(advanced_times(v, default_kind, (k - 1) as nat), default_kind)
    }
}

/// A fresh slot for a slide scheduled without playlist transitions.
pub open spec fn plain_slot(state: SlideState) -> RotationSlot {
    RotationSlot {
        state,
        transition_in: None,
        transition_out: None,
        playlist_in: None,
        playlist_out: None,
    }
}

/// The slot of a slide scheduled from a resolved playlist entry.
pub open spec fn scheduled_slot(slide: ScheduledSlide, state: SlideState) -> RotationSlot {
    RotationSlot {
        state,
        transition_in: slide.transition_in,
        transition_out: slide.transition_out,
        playlist_in: slide.transition_in,
        playlist_out: slide.transition_out,
    }
}

/// The state a new schedule gives slide `i`: the first is active, the others unloaded.
pub open spec fn initial_state(i: int) -> SlideState {
    if i == 0 {
        SlideState::Active
    } else {
        SlideState::Unloaded
    }
}

/// `o` if set, else `fallback`.
pub open spec fn or_else(o: Option<TransitionKind>, fallback: Option<TransitionKind>) -> Option<TransitionKind> {
    if o is Some {
        o
    } else {
        fallback
    }
}

/// The slide after `c` is in range, and differs from `c` when there are two slides or more.
pub proof fn lemma_next_index(c: nat, len: nat)
    requires
        c < len,
    ensures
        next_index(c, len) < len,
        c + 1 < len ==> next_index(c, len) == c + 1,
        c + 1 == len ==> next_index(c, len) == 0,
        len >= 2 ==> next_index(c, len) != c,
{
    if c + 1 < len {
        vstd::arithmetic::div_mod::lemma_small_mod((c + 1) as nat, len);
    } else {
        vstd::arithmetic::div_mod::lemma_mod_self_0(len as int);
    }
}

/// A request to move on and the end of a blend both keep the lifecycle states in step with
/// the phase: every state the rotation reaches from a consistent one is consistent.
pub proof fn rotation_stays_consistent(v: RotationView, default_kind: TransitionKind)
    requires
        rotation_wf(v),
        consistent(v),
    ensures
        consistent(started(v, default_kind).0),
        consistent(completed(v).0),
{
    let len = v.slots.len();
    if v.phase is Idle && len >= 2 {
        let c = v.current;
        let n = next_index(c, len);
        assert(settled(v));
        lemma_next_index(c, len);
        let w = started(v, default_kind).0;
        if upcoming_kind(v, default_kind) is Cut {
            assert forall|i: int| 0 <= i < w.slots.len() implies (#[trigger] w.slots[i]).state == (if i
                == w.current {
                SlideState::Active
            } else {
                SlideState::Unloaded
            }) by {
                if i != c && i != n {
                    assert(w.slots[i] == v.slots[i]);
                }
            }
            assert(settled(w));
        } else {
            assert forall|i: int| 0 <= i < w.slots.len() implies (#[trigger] w.slots[i]).state == (if i
                == w.current {
                SlideState::Parked
            } else if i == next_index(w.current, w.slots.len()) {
                SlideState::Loaded
            } else {
                SlideState::Unloaded
            }) by {
                if i != c && i != n {
                    assert(w.slots[i] == v.slots[i]);
                }
            }
            assert(mid_blend(w));
        }
    }
    if v.phase is Blending {
        assert(mid_blend(v));
        let c = v.current;
        let n = next_index(c, len);
        lemma_next_index(c, len);
        let w = completed(v).0;
        assert forall|i: int| 0 <= i < w.slots.len() implies (#[trigger] w.slots[i]).state == (if i
            == w.current {
            SlideState::Active
        } else {
            SlideState::Unloaded
        }) by {
            if i != c && i != n {
                assert(w.slots[i] == v.slots[i]);
            }
        }
        assert(settled(w));
    }
}

/// From an idle rotation of two or more slides, a request to move on plays the transition
/// the two slides ask for: the current slide's `transition_out`, else the next slide's
/// `transition_in`, else the default kind. A cut switches to the next slide at once; any
/// other kind starts a blend of that kind from the current slide to the next.
pub proof fn start_plays_requested_kind(v: RotationView, default_kind: TransitionKind)
    requires
        rotation_wf(v),
        v.phase is Idle,
        v.slots.len() >= 2,
    ensures
        ({
            let c = v.current;
            let n = ((c + 1) as int % (v.slots.len() as int)) as nat;
            let k = match v.slots[c as int].transition_out {
                Some(out) => out,
                None => match v.slots[n as int].transition_in {
                    Some(inc) => inc,
                    None => default_kind,
                },
            };
            started(v, default_kind).1 == if k is Cut {
                RotationStep::Switched { from: c as usize, to: n as usize }
            } else {
                RotationStep::Blending { from: c as usize, to: n as usize, kind: k }
            }
        }),
{
}

/// A request to move on from an idle rotation of two or more slides: a cut makes the next
/// slide current and active at once and unloads the current one; any other kind keeps the
/// current slide, parks it, loads the next and plays a blend of that kind away from it.
/// Every other slide, and every slide's transitions, stay as they were.
pub proof fn start_moves_slots(v: RotationView, default_kind: TransitionKind)
    requires
        rotation_wf(v),
        v.phase is Idle,
        v.slots.len() >= 2,
    ensures
        ({
            let c = v.current as int;
            let n = (c + 1) % (v.slots.len() as int);
            let w = started(v, default_kind).0;
            let k = upcoming_kind(v, default_kind);
            &&& w.slots.len() == v.slots.len()
            &&& forall|i: int|
                0 <= i < v.slots.len() ==> (#[trigger] w.slots[i]).transition_in == v.slots[i].transition_in
                    && w.slots[i].transition_out == v.slots[i].transition_out
                    && w.slots[i].playlist_in == v.slots[i].playlist_in
                    && w.slots[i].playlist_out == v.slots[i].playlist_out
            &&& forall|i: int|
                0 <= i < v.slots.len() && i != c && i != n ==> (#[trigger] w.slots[i]).state
                    == v.slots[i].state
            &&& k is Cut ==> w.current == n && w.phase is Idle && w.slots[c].state
                == SlideState::Unloaded && w.slots[n].state == SlideState::Active
            &&& !(k is Cut) ==> w.current == c && w.phase == RotationPhase::Blending {
                kind: k,
                outgoing: c as usize,
            } && w.slots[c].state == SlideState::Parked && w.slots[n].state == SlideState::Loaded
        }),
{
    lemma_next_index(v.current, v.slots.len());
}

/// The end of a blend away from slide `o` of a rotation of two or more slides: slide `o` is
/// unloaded, the one after it (wrapping after the last) becomes active and current, the
/// rotation is idle again, and the pair `(o, next)` is reported. Every other slide stays as
/// it was. When idle, nothing changes and nothing is reported.
pub proof fn complete_finishes_blend(v: RotationView)
    requires
        rotation_wf(v),
        v.slots.len() >= 2,
    ensures
        v.phase is Idle ==> completed(v) == (v, None::<(usize, usize)>),
        v.phase matches RotationPhase::Blending { outgoing, .. } ==> ({
            let o = outgoing as int;
            let n = (o + 1) % (v.slots.len() as int);
            let w = completed(v).0;
            &&& completed(v).1 == Some((outgoing, n as usize))
            &&& w.current == n
            &&& w.phase is Idle
            &&& w.slots.len() == v.slots.len()
            &&& w.slots[n].state == SlideState::Active
            &&& (o < v.slots.len() && o != n ==> w.slots[o].state == SlideState::Unloaded)
            &&& forall|i: int|
                0 <= i < v.slots.len() && i != o && i != n ==> #[trigger] w.slots[i] == v.slots[i]
        }),
{
    if let RotationPhase::Blending { outgoing, .. } = v.phase {
        if outgoing < v.slots.len() {
            lemma_next_index(outgoing as nat, v.slots.len());
        }
    }
}

/// Manifest transitions fill only what the playlist left open: a transition the playlist
/// set for a slide stays whatever the manifest says; one it left open becomes the
/// manifest's (`apply_manifest_transitions` applies this to a slot).
pub proof fn manifest_fills_only_open_transitions(
    slot: RotationSlot,
    manifest_in: Option<TransitionKind>,
    manifest_out: Option<TransitionKind>,
)
    ensures
        slot.playlist_in matches Some(k) ==> or_else(slot.playlist_in, manifest_in) == Some(k),
        slot.playlist_in is None ==> or_else(slot.playlist_in, manifest_in) == manifest_in,
        slot.playlist_out matches Some(k) ==> or_else(slot.playlist_out, manifest_out) == Some(k),
        slot.playlist_out is None ==> or_else(slot.playlist_out, manifest_out) == manifest_out,
{
}

/// A resolved schedule starts on its first slide: slot `i` of the new schedule plays slide
/// `i`'s transitions, remembers them as the playlist's, and is active for the first slide and
/// unloaded for the others (`set_resolved_schedule` makes these slots).
pub proof fn schedule_slots_keep_slides(slide: ScheduledSlide, i: int)
    requires
        0 <= i,
    ensures
        scheduled_slot(slide, initial_state(i)).transition_in == slide.transition_in,
        scheduled_slot(slide, initial_state(i)).transition_out == slide.transition_out,
        scheduled_slot(slide, initial_state(i)).playlist_in == slide.transition_in,
        scheduled_slot(slide, initial_state(i)).playlist_out == slide.transition_out,
        i == 0 ==> scheduled_slot(slide, initial_state(i)).state == SlideState::Active,
        i > 0 ==> scheduled_slot(slide, initial_state(i)).state == SlideState::Unloaded,
{
}

/// A schedule of one slide or none never moves on.
pub proof fn lone_slide_stays(v: RotationView, default_kind: TransitionKind)
    requires
        v.slots.len() <= 1,
    ensures
        started(v, default_kind) == (v, RotationStep::Stay),
{
}

/// From a settled rotation of two or more slides, one full move (a cut, or a blend and its
/// end) settles on the next slide in schedule order, wrapping after the last, and leaves
/// every slide's transitions as they were.
pub proof fn advance_moves_to_next(v: RotationView, default_kind: TransitionKind)
    requires
        rotation_wf(v),
        settled(v),
        v.slots.len() >= 2,
    ensures
        rotation_wf(advanced(v, default_kind)),
        settled(advanced(v, default_kind)),
        advanced(v, default_kind).current == next_index(v.current, v.slots.len()),
        advanced(v, default_kind).slots.len() == v.slots.len(),
        forall|i: int|
            0 <= i < v.slots.len() ==> (#[trigger] advanced(v, default_kind).slots[i]).transition_in
                == v.slots[i].transition_in && advanced(v, default_kind).slots[i].transition_out
                == v.slots[i].transition_out,
{
    lemma_next_index(v.current, v.slots.len());
    rotation_stays_consistent(v, default_kind);
    let w = started(v, default_kind).0;
    if !(upcoming_kind(v, default_kind) is Cut) {
        assert(rotation_wf(w));
        rotation_stays_consistent(w, default_kind);
    }
}

/// From a settled rotation of two or more slides, `k` full moves settle on the slide `k`
/// places further on, counting round the schedule.
pub proof fn advance_times_rotates(v: RotationView, default_kind: TransitionKind, k: nat)
    requires
        rotation_wf(v),
        settled(v),
        v.slots.len() >= 2,
    ensures
        rotation_wf(advanced_times(v, default_kind, k)),
        settled(advanced_times(v, default_kind, k)),
        advanced_times(v, default_kind, k).slots.len() == v.slots.len(),
        advanced_times(v, default_kind, k).current == (v.current + k) as int % (v.slots.len() as int),
    decreases k,
{
    let len = v.slots.len() as int;
    if k == 0 {
        vstd::arithmetic::div_mod::lemma_small_mod(v.current, v.slots.len());
    } else {
        let k1 = (k - 1) as nat;
        advance_times_rotates(v, default_kind, k1);
        let w = advanced_times(v, default_kind, k1);
        advance_moves_to_next(w, default_kind);
        vstd::arithmetic::div_mod::lemma_add_mod_noop((v.current + k1) as int, 1, len);
        vstd::arithmetic::div_mod::lemma_small_mod(1, v.slots.len());
    }
}

impl SlideRotation {
    #[verifier::type_invariant]
    closed spec fn inv(self) -> bool {
        rotation_wf(self@)
    }

    /// An empty rotation.
    pub fn new() -> (r: Self)
        ensures
            r@.slots.len() == 0,
            r@.current == 0,
            r@.phase == RotationPhase::Idle,
            rotation_wf(r@),
    {
        SlideRotation { slots: Vec::new(), current: 0, phase: RotationPhase::Idle }
    }

    /// The slots, in schedule order.
    pub fn slots(&self) -> (r: &Vec<RotationSlot>)
        ensures
            r@ == self@.slots,
    {
        &self.slots
    }

    /// The current slide index.
    pub fn current_index(&self) -> (r: usize)
        ensures
            r == self@.current,
    {
        self.current
    }

    /// The number of scheduled slides.
    pub fn total_slides(&self) -> (r: usize)
        ensures
            r == self@.slots.len(),
    {
        self.slots.len()
    }

    /// The phase.
    pub fn phase(&self) -> (r: RotationPhase)
        ensures
            r == self@.phase,
    {
        self.phase
    }

    /// Whether a transition is playing.
    pub fn is_transitioning(&self) -> (r: bool)
        ensures
            r == !(self@.phase is Idle),
    {
        !matches!(self.phase, RotationPhase::Idle)
    }

    /// The slot of slide `index`, if scheduled.
    pub fn slot(&self, index: usize) -> (r: Option<RotationSlot>)
        ensures
            r == (if index < self@.slots.len() {
                Some(self@.slots[index as int])
            } else {
                None
            }),
    {
        if index < self.slots.len() {
            Some(self.slots[index])
        } else {
            None
        }
    }

    /// Schedules `count` slides without playlist transitions and makes the first current
    /// and active. A playing transition is left as it is.
    pub fn set_schedule(&mut self, count: usize)
        ensures
            final(self)@.slots.len() == count,
            forall|i: int| 0 <= i < count ==> #[trigger] final(self)@.slots[i] == plain_slot(initial_state(i)),
            final(self)@.current == 0,
            final(self)@.phase == old(self)@.phase,
            old(self)@.phase is Idle ==> consistent(final(self)@),
            rotation_wf(final(self)@),
    {
        proof {
            use_type_invariant(&*self);
        }
        let mut slots: Vec<RotationSlot> = Vec::new();
        let mut i: usize = 0;
        while i < count
            invariant
                i <= count,
                slots@.len() == i,
                forall|j: int| 0 <= j < i ==> #[trigger] slots@[j] == plain_slot(initial_state(j)),
            decreases count - i,
        {
            let state = if i == 0 {
                SlideState::Active
            } else {
                SlideState::Unloaded
            };
            slots.push(
                RotationSlot {
                    state,
                    transition_in: None,
                    transition_out: None,
                    playlist_in: None,
                    playlist_out: None,
                },
            );
            i += 1;
        }
        *self = SlideRotation { slots, current: 0, phase: self.phase };
    }

    /// Schedules the resolved playlist slides, keeping their transitions as playlist
    /// overrides, and makes the first current and active. A playing transition is left as
    /// it is.
    pub fn set_resolved_schedule(&mut self, slides: &Vec<ScheduledSlide>)
        ensures
            final(self)@.slots.len() == slides@.len(),
            forall|i: int|
                0 <= i < slides@.len() ==> #[trigger] final(self)@.slots[i] == scheduled_slot(
                    slides@[i],
                    initial_state(i),
                ),
            final(self)@.current == 0,
            final(self)@.phase == old(self)@.phase,
            old(self)@.phase is Idle ==> consistent(final(self)@),
            rotation_wf(final(self)@),
    {
        proof {
            use_type_invariant(&*self);
        }
        let mut slots: Vec<RotationSlot> = Vec::new();
        let mut i: usize = 0;
        while i < slides.len()
            invariant
                i <= slides@.len(),
                slots@.len() == i,
                forall|j: int|
                    0 <= j < i ==> #[trigger] slots@[j] == scheduled_slot(slides@[j], initial_state(j)),
            decreases slides@.len() - i,
        {
            let state = if i == 0 {
                SlideState::Active
            } else {
                SlideState::Unloaded
            };
            let slide = &slides[i];
            slots.push(
                RotationSlot {
                    state,
                    transition_in: slide.transition_in,
                    transition_out: slide.transition_out,
                    playlist_in: slide.transition_in,
                    playlist_out: slide.transition_out,
                },
            );
            i += 1;
        }
        *self = SlideRotation { slots, current: 0, phase: self.phase };
    }

    /// Applies a slide manifest's transitions to slide `index`: a transition the playlist
    /// set stays, one it left open takes the manifest's. Out of range, nothing changes.
    pub fn apply_manifest_transitions(
        &mut self,
        index: usize,
        manifest_in: Option<TransitionKind>,
        manifest_out: Option<TransitionKind>,
    )
        ensures
            index < old(self)@.slots.len() ==> final(self)@.slots == old(self)@.slots.update(
                index as int,
                RotationSlot {
                    transition_in: or_else(old(self)@.slots[index as int].playlist_in, manifest_in),
                    transition_out: or_else(old(self)@.slots[index as int].playlist_out, manifest_out),
                    ..old(self)@.slots[index as int]
                },
            ),
            index >= old(self)@.slots.len() ==> final(self)@.slots == old(self)@.slots,
            final(self)@.current == old(self)@.current,
            final(self)@.phase == old(self)@.phase,
    {
        proof {
            use_type_invariant(&*self);
        }
        if index < self.slots.len() {
            let old_slot = self.slots[index];
            let transition_in = match old_slot.playlist_in {
                Some(k) => Some(k),
                None => manifest_in,
            };
            let transition_out = match old_slot.playlist_out {
                Some(k) => Some(k),
                None => manifest_out,
            };
            let mut slots = self.slots.clone();
            slots.set(index, RotationSlot { transition_in, transition_out, ..old_slot });
            *self = SlideRotation { slots, current: self.current, phase: self.phase };
        }
    }

    /// A request to move on from the current slide, made once it has run its course.
    pub fn start_transition(&mut self, default_kind: TransitionKind) -> (step: RotationStep)
        ensures
            (final(self)@, step) == started(old(self)@, default_kind),
            rotation_wf(final(self)@),
    {
        proof {
            use_type_invariant(&*self);
        }
        let len = self.slots.len();
        if !matches!(self.phase, RotationPhase::Idle) || len <= 1 {
            return RotationStep::Stay;
        }
        let c = self.current;
        let n = (c + 1) % len;
        let kind = resolve_transition(
            self.slots[c].transition_out,
            self.slots[n].transition_in,
            Some(default_kind),
        );
        let mut slots = self.slots.clone();
        let from_slot = slots[c];
        let to_slot = slots[n];
        if matches!(kind, TransitionKind::Cut) {
            slots.set(c, RotationSlot { state: SlideState::Unloaded, ..from_slot });
            let to_slot = slots[n];
            slots.set(n, RotationSlot { state: SlideState::Active, ..to_slot });
            *self = SlideRotation { slots, current: n, phase: RotationPhase::Idle };
            RotationStep::Switched { from: c, to: n }
        } else {
            slots.set(c, RotationSlot { state: SlideState::Parked, ..from_slot });
            let to_slot = slots[n];
            slots.set(n, RotationSlot { state: SlideState::Loaded, ..to_slot });
            *self = SlideRotation {
                slots,
                current: c,
                phase: RotationPhase::Blending { kind, outgoing: c },
            };
            RotationStep::Blending { from: c, to: n, kind }
        }
    }

    /// Ends the playing blend, made once it has run its course: the outgoing slide is
    /// unloaded and the next one becomes active and current. When idle, nothing changes.
    pub fn complete_transition(&mut self) -> (done: Option<(usize, usize)>)
        requires
            old(self)@.phase is Blending ==> old(self)@.slots.len() > 0,
        ensures
            (final(self)@, done) == completed(old(self)@),
            rotation_wf(final(self)@),
    {
        proof {
            use_type_invariant(&*self);
        }
        match self.phase {
            RotationPhase::Idle => None,
            RotationPhase::Blending { outgoing, .. } => {
                let len = self.slots.len();
                let n = (outgoing + 1) % len;
                let mut slots = self.slots.clone();
                if outgoing < len {
                    let out_slot = slots[outgoing];
                    slots.set(outgoing, RotationSlot { state: SlideState::Unloaded, ..out_slot });
                }
                let in_slot = slots[n];
                slots.set(n, RotationSlot { state: SlideState::Active, ..in_slot });
                *self = SlideRotation { slots, current: n, phase: RotationPhase::Idle };
                Some((outgoing, n))
            },
        }
    }

    /// Which slides the frame shows: the current slide alone when idle; during a blend the
    /// outgoing slide, the one after it, and the blend's kind.
    pub fn frame_slides(&self) -> (r: FrameSlides)
        ensures
            r == (match self@.phase {
                RotationPhase::Idle => FrameSlides {
                    current_slide_idx: self@.current as usize,
                    next_slide_idx: None,
                    transition_kind: None,
                },
                RotationPhase::Blending { kind, outgoing } => FrameSlides {
                    current_slide_idx: outgoing,
                    next_slide_idx: Some(
                        if self@.slots.len() > 1 {
                            next_index(outgoing as nat, self@.slots.len()) as usize
                        } else {
                            outgoing
                        },
                    ),
                    transition_kind: Some(kind),
                },
            }),
    {
        proof {
            use_type_invariant(self);
        }
        match self.phase {
            RotationPhase::Idle => FrameSlides {
                current_slide_idx: self.current,
                next_slide_idx: None,
                transition_kind: None,
            },
            RotationPhase::Blending { kind, outgoing } => {
                let len = self.slots.len();
                let next = if len > 1 {
                    (outgoing + 1) % len
                } else {
                    outgoing
                };
                FrameSlides {
                    current_slide_idx: outgoing,
                    next_slide_idx: Some(next),
                    transition_kind: Some(kind),
                }
            },
        }
    }

    /// Drops the schedule and any playing transition; the current index is kept.
    pub fn clear(&mut self)
        ensures
            final(self)@.slots.len() == 0,
            final(self)@.current == old(self)@.current,
            final(self)@.phase == RotationPhase::Idle,
    {
        proof {
            use_type_invariant(&*self);
        }
        *self = SlideRotation { slots: Vec::new(), current: self.current, phase: RotationPhase::Idle };
    }
}

} // verus!
