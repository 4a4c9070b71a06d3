use vzglyd_kernel::kernel::{FrameSlides, RotationPhase, RotationStep, SlideRotation};
use vzglyd_kernel::lifecycle::SlideState;
use vzglyd_kernel::schedule::ScheduledSlide;
use vzglyd_kernel::transition::TransitionKind;

fn states(r: &SlideRotation) -> Vec<SlideState> {
    r.slots().iter().map(|s| s.state).collect()
}

fn scheduled(path: &str, tin: Option<TransitionKind>, tout: Option<TransitionKind>) -> ScheduledSlide {
    ScheduledSlide {
        path: path.into(),
        data_path: None,
        duration_seconds: None,
        transition_in: tin,
        transition_out: tout,
        params: None,
    }
}

#[test]
fn engine_initial_state() {
    let rotation = SlideRotation::new();
    assert_eq!(rotation.current_index(), 0);
    assert_eq!(rotation.total_slides(), 0);
    assert!(!rotation.is_transitioning());
}

#[test]
fn engine_sets_schedule() {
    let mut rotation = SlideRotation::new();
    rotation.set_schedule(2);
    assert_eq!(rotation.total_slides(), 2);
    assert_eq!(rotation.current_index(), 0);
    assert_eq!(rotation.slot(0).map(|s| s.state), Some(SlideState::Active));
    assert_eq!(rotation.slot(1).map(|s| s.state), Some(SlideState::Unloaded));
    assert!(rotation.slot(2).is_none());
}

#[test]
fn manifest_metadata_fills_missing_playlist_values_only() {
    let mut rotation = SlideRotation::new();
    rotation.set_resolved_schedule(&vec![scheduled(
        "clock.vzglyd",
        Some(TransitionKind::Crossfade),
        None,
    )]);
    rotation.apply_manifest_transitions(0, Some(TransitionKind::Dissolve), Some(TransitionKind::Cut));
    let slot = rotation.slot(0).expect("slide entry");
    assert_eq!(slot.transition_in, Some(TransitionKind::Crossfade));
    assert_eq!(slot.transition_out, Some(TransitionKind::Cut));
    // Out of range: nothing happens.
    rotation.apply_manifest_transitions(5, None, None);
    assert_eq!(rotation.total_slides(), 1);
}

#[test]
fn blend_parks_outgoing_and_loads_incoming() {
    let mut rotation = SlideRotation::new();
    rotation.set_schedule(3);
    let step = rotation.start_transition(TransitionKind::Crossfade);
    assert_eq!(
        step,
        RotationStep::Blending { from: 0, to: 1, kind: TransitionKind::Crossfade }
    );
    assert_eq!(
        states(&rotation),
        vec![SlideState::Parked, SlideState::Loaded, SlideState::Unloaded]
    );
    assert_eq!(
        rotation.frame_slides(),
        FrameSlides {
            current_slide_idx: 0,
            next_slide_idx: Some(1),
            transition_kind: Some(TransitionKind::Crossfade),
        }
    );
    // While blending, a further request does nothing.
    assert_eq!(rotation.start_transition(TransitionKind::Crossfade), RotationStep::Stay);
    assert_eq!(rotation.complete_transition(), Some((0, 1)));
    assert_eq!(rotation.current_index(), 1);
    assert_eq!(rotation.phase(), RotationPhase::Idle);
    assert_eq!(
        states(&rotation),
        vec![SlideState::Unloaded, SlideState::Active, SlideState::Unloaded]
    );
    assert_eq!(rotation.complete_transition(), None);
}

#[test]
fn cut_switches_at_once() {
    let mut rotation = SlideRotation::new();
    rotation.set_resolved_schedule(&vec![
        scheduled("a", None, Some(TransitionKind::Cut)),
        scheduled("b", Some(TransitionKind::Dissolve), None),
    ]);
    assert_eq!(
        rotation.start_transition(TransitionKind::Crossfade),
        RotationStep::Switched { from: 0, to: 1 }
    );
    assert_eq!(rotation.current_index(), 1);
    assert!(!rotation.is_transitioning());
    assert_eq!(states(&rotation), vec![SlideState::Unloaded, SlideState::Active]);
    // From b, the incoming slide a has no transition-in: b's none, so the default plays.
    assert_eq!(
        rotation.start_transition(TransitionKind::WipeDown),
        RotationStep::Blending { from: 1, to: 0, kind: TransitionKind::WipeDown }
    );
}

#[test]
fn rotation_wraps_around() {
    let mut rotation = SlideRotation::new();
    rotation.set_schedule(3);
    for expected in [1usize, 2, 0, 1] {
        rotation.start_transition(TransitionKind::Dissolve);
        rotation.complete_transition();
        assert_eq!(rotation.current_index(), expected);
    }
}

#[test]
fn single_slide_never_moves() {
    let mut rotation = SlideRotation::new();
    rotation.set_schedule(1);
    assert_eq!(rotation.start_transition(TransitionKind::Crossfade), RotationStep::Stay);
    assert_eq!(rotation.current_index(), 0);
    assert_eq!(
        rotation.frame_slides(),
        FrameSlides { current_slide_idx: 0, next_slide_idx: None, transition_kind: None }
    );
}

#[test]
fn clear_drops_schedule_and_transition() {
    let mut rotation = SlideRotation::new();
    rotation.set_schedule(2);
    rotation.start_transition(TransitionKind::Crossfade);
    rotation.clear();
    assert_eq!(rotation.total_slides(), 0);
    assert!(!rotation.is_transitioning());
}
