use vzglyd_kernel::transition::{resolve_transition, TransitionKind};

#[test]
fn compositor_transition_tags_are_stable() {
    assert_eq!(TransitionKind::Crossfade.shader_tag(), 0);
    assert_eq!(TransitionKind::WipeLeft.shader_tag(), 1);
    assert_eq!(TransitionKind::WipeDown.shader_tag(), 2);
    assert_eq!(TransitionKind::Dissolve.shader_tag(), 3);
}

#[test]
fn cut_skips_compositor_path() {
    assert!(!TransitionKind::Cut.uses_compositor());
    assert!(TransitionKind::Crossfade.uses_compositor());
    assert!(TransitionKind::WipeLeft.uses_compositor());
    assert!(TransitionKind::WipeDown.uses_compositor());
    assert!(TransitionKind::Dissolve.uses_compositor());
}

#[test]
fn resolve_transition_priority() {
    // Outgoing takes priority
    let result = resolve_transition(
        Some(TransitionKind::Cut),
        Some(TransitionKind::Crossfade),
        Some(TransitionKind::Dissolve),
    );
    assert_eq!(result, TransitionKind::Cut);

    // Incoming if no outgoing
    let result = resolve_transition(
        None,
        Some(TransitionKind::WipeLeft),
        Some(TransitionKind::Dissolve),
    );
    assert_eq!(result, TransitionKind::WipeLeft);

    // Manifest default if no slide overrides
    let result = resolve_transition(None, None, Some(TransitionKind::WipeDown));
    assert_eq!(result, TransitionKind::WipeDown);

    // Crossfade as final default
    let result = resolve_transition(None, None, None);
    assert_eq!(result, TransitionKind::Crossfade);
}

#[test]
fn transition_resolves_kind() {
    let kind = resolve_transition(
        Some(TransitionKind::Cut),
        Some(TransitionKind::Crossfade),
        Some(TransitionKind::Dissolve),
    );
    assert_eq!(kind, TransitionKind::Cut);
}

#[test]
fn default_transition_is_crossfade() {
    assert_eq!(TransitionKind::default(), TransitionKind::Crossfade);
    assert_eq!(TransitionKind::Cut.shader_tag(), 0);
}
