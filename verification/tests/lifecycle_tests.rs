use vzglyd_kernel::lifecycle::{abi_code_to_result, SlideState, UpdateResult};

#[test]
fn slide_state_transitions() {
    let mut state = SlideState::Unloaded;
    assert!(!state.is_loaded());
    assert!(!state.is_active());

    state = SlideState::Loaded;
    assert!(state.is_loaded());
    assert!(!state.is_active());

    state = SlideState::Active;
    assert!(state.is_loaded());
    assert!(state.is_active());
    assert!(state.can_render());

    state = SlideState::Parked;
    assert!(state.is_loaded());
    assert!(!state.is_active());
    assert!(!state.can_render());
}

#[test]
fn update_result_codes() {
    assert_eq!(abi_code_to_result(0), UpdateResult::Continue);
    assert_eq!(abi_code_to_result(1), UpdateResult::Stop);
    assert_eq!(abi_code_to_result(-1), UpdateResult::Error);
    assert_eq!(abi_code_to_result(999), UpdateResult::Error);
}

#[test]
fn update_result_predicates() {
    assert!(UpdateResult::Continue.should_continue());
    assert!(!UpdateResult::Continue.should_stop());

    assert!(!UpdateResult::Stop.should_continue());
    assert!(UpdateResult::Stop.should_stop());
}

#[test]
fn unloading_slide_is_neither_loaded_nor_renderable() {
    let state = SlideState::Unloading;
    assert!(!state.is_loaded());
    assert!(!state.can_render());
    assert_eq!(SlideState::default(), SlideState::Unloaded);
}
