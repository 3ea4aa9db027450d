use rhythm_core::player::{Animation, AnimationState};

#[test]
fn default_is_running() {
    let state = AnimationState::default();
    assert_eq!(*state.animation(), Animation::Running);
    assert_eq!(state.frame(), 0);
}

#[test]
fn running_just_counts() {
    let mut state = AnimationState::default();
    for _ in 0..10 {
        state.update();
    }
    assert_eq!(*state.animation(), Animation::Running);
    assert_eq!(state.frame(), 10);
}

#[test]
fn low_attack_falls_back_to_running() {
    let mut state = AnimationState::default();
    state.change_to(Animation::AttackLow);
    for _ in 0..4 {
        state.update();
        assert_eq!(*state.animation(), Animation::AttackLow);
    }
    state.update();
    assert_eq!(*state.animation(), Animation::Running);
    assert_eq!(state.frame(), 0);
}

#[test]
fn high_attack_falls_back_to_running() {
    let mut state = AnimationState::default();
    state.change_to(Animation::AttackHigh);
    for _ in 0..3 {
        state.update();
        assert_eq!(*state.animation(), Animation::AttackHigh);
    }
    state.update();
    assert_eq!(*state.animation(), Animation::Running);
    assert_eq!(state.frame(), 0);
}

#[test]
fn change_to_restarts_the_counter() {
    let mut state = AnimationState::default();
    state.update();
    state.update();
    state.change_to(Animation::AttackHigh);
    assert_eq!(state.frame(), 0);
    assert_eq!(*state.animation(), Animation::AttackHigh);
}
