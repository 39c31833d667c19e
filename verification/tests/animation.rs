use poclimon::animation::{Animation, AnimationState, Animator};

fn make_test_animation() -> Animation {
    // 3 frames, 100 ms each (tick=2 → 2×50=100 ms), 300 ms total.
    Animation::new(3, &[2, 2, 2])
}

#[test]
fn test_animator_starts_idle() {
    let animator = Animator::new();
    assert_eq!(animator.state(), AnimationState::Idle);
}

#[test]
fn test_animator_set_state() {
    let mut animator = Animator::new();
    animator.set_state(AnimationState::Eating);
    assert_eq!(animator.state(), AnimationState::Eating);
    animator.set_state(AnimationState::Sleeping);
    assert_eq!(animator.state(), AnimationState::Sleeping);
    animator.set_state(AnimationState::Idle);
    assert_eq!(animator.state(), AnimationState::Idle);
    // Playing state should round-trip correctly.
    animator.set_state(AnimationState::Playing);
    assert_eq!(animator.state(), AnimationState::Playing);
}

#[test]
fn test_animation_frame_count() {
    let anim = make_test_animation();
    assert_eq!(anim.durations_ms.len(), 3);
    assert_eq!(anim.total_ms, 300); // 3 frames × 100 ms
}

#[test]
fn test_animation_looping_frame_index() {
    let anim = make_test_animation();
    // 100 ms per frame, 300 ms total
    assert_eq!(anim.frame_index_at(0), 0); // start of frame 0
    assert_eq!(anim.frame_index_at(50), 0); // middle of frame 0
    assert_eq!(anim.frame_index_at(100), 1); // start of frame 1
    assert_eq!(anim.frame_index_at(200), 2); // start of frame 2
    assert_eq!(anim.frame_index_at(300), 0); // loops back
    assert_eq!(anim.frame_index_at(400), 1); // looped frame 1
}

#[test]
fn test_eating_state_is_stable() {
    // Eating should not spontaneously transition back to Idle.
    let mut animator = Animator::new();
    animator.load_animations(make_test_animation(), make_test_animation(), make_test_animation());
    animator.set_state(AnimationState::Eating);
    assert_eq!(animator.state(), AnimationState::Eating);
}

#[test]
fn test_playing_state_is_stable() {
    // Playing should not spontaneously transition to another state.
    let mut animator = Animator::new();
    animator.load_animations(make_test_animation(), make_test_animation(), make_test_animation());
    animator.set_hop_animation(make_test_animation());
    animator.set_state(AnimationState::Playing);
    assert_eq!(animator.state(), AnimationState::Playing);
}

#[test]
fn test_encoded_index() {
    assert_eq!(AnimationState::Idle.encoded_index(), 0);
    assert_eq!(AnimationState::Eating.encoded_index(), 1);
    assert_eq!(AnimationState::Sleeping.encoded_index(), 2);
    assert_eq!(AnimationState::Playing.encoded_index(), 4);
}

#[test]
fn test_current_frame_index_returns_none_without_animations() {
    let animator = Animator::new();
    assert!(animator.current_frame_index().is_none());
}

#[test]
fn test_current_frame_index_returns_some_with_animations() {
    let mut animator = Animator::new();
    animator.load_animations(make_test_animation(), make_test_animation(), make_test_animation());
    assert!(animator.current_frame_index().is_some());
}

#[test]
fn test_playing_state_falls_back_to_idle_when_no_hop_anim() {
    // If no hop animation was loaded, Playing should fall back to idle timing.
    let mut animator = Animator::new();
    animator.load_animations(make_test_animation(), make_test_animation(), make_test_animation());
    // No set_hop_animation() call — should still return Some (using idle fallback).
    animator.set_state(AnimationState::Playing);
    assert!(
        animator.current_frame_index().is_some(),
        "Playing state should fall back to idle timing when hop_anim is None"
    );
}

#[test]
fn test_playing_state_uses_hop_anim_when_loaded() {
    // When a hop animation is loaded, Playing should use it.
    let mut animator = Animator::new();
    animator.load_animations(make_test_animation(), make_test_animation(), make_test_animation());
    animator.set_hop_animation(make_test_animation());
    animator.set_state(AnimationState::Playing);
    assert!(
        animator.current_frame_index().is_some(),
        "Playing state should return a frame index when hop_anim is loaded"
    );
}

#[test]
fn uneven_durations_select_the_window_holding_the_time() {
    // 40, 2 and 3 ticks: windows [0, 2000), [2000, 2100), [2100, 2250).
    let anim = Animation::new(3, &[40, 2, 3]);
    assert_eq!(anim.durations_ms, vec![2000, 100, 150]);
    assert_eq!(anim.total_ms, 2250);
    assert_eq!(anim.frame_index_at(1999), 0);
    assert_eq!(anim.frame_index_at(2000), 1);
    assert_eq!(anim.frame_index_at(2099), 1);
    assert_eq!(anim.frame_index_at(2100), 2);
    assert_eq!(anim.frame_index_at(2249), 2);
    assert_eq!(anim.frame_index_at(2250), 0);
    // one full cycle later the same frame shows again
    assert_eq!(anim.frame_index_at(2100 + 2250), 2);
}

#[test]
fn animation_keeps_only_durations_for_existing_frames() {
    let anim = Animation::new(2, &[1, 2, 3]);
    assert_eq!(anim.durations_ms, vec![50, 100]);
    assert_eq!(anim.total_ms, 150);
    let longer = Animation::new(5, &[1, 2]);
    assert_eq!(longer.durations_ms, vec![50, 100]);
}

#[test]
fn empty_animation_always_shows_frame_zero() {
    let anim = Animation::new(0, &[]);
    assert_eq!(anim.total_ms, 0);
    assert_eq!(anim.frame_index_at(12345), 0);
}

#[test]
fn only_eating_and_playing_earn_xp() {
    assert!(AnimationState::Eating.earns_xp());
    assert!(AnimationState::Playing.earns_xp());
    assert!(!AnimationState::Idle.earns_xp());
    assert!(!AnimationState::Sleeping.earns_xp());
}

#[test]
fn frame_index_after_follows_the_active_animation() {
    let mut animator = Animator::new();
    assert_eq!(animator.frame_index_after(150), None);
    animator.load_animations(make_test_animation(), Animation::new(2, &[1, 1]), make_test_animation());
    assert_eq!(animator.frame_index_after(150), Some(1));
    animator.set_state(AnimationState::Eating);
    assert_eq!(animator.frame_index_after(150), Some(1));
    assert_eq!(animator.frame_index_after(120), Some(0));
}

#[test]
fn a_new_state_starts_its_frames_from_the_given_time() {
    let mut animator = Animator::new();
    // Eat: 100 ms then 2000 ms.
    animator.load_animations(make_test_animation(), Animation::new(2, &[2, 40]), make_test_animation());
    let second_ago = std::time::Instant::now() - std::time::Duration::from_millis(1000);
    animator.set_state_at(AnimationState::Eating, second_ago);
    assert_eq!(animator.state(), AnimationState::Eating);
    assert_eq!(animator.current_frame_index(), Some(1));
    // the same state again keeps the timer
    animator.set_state_at(AnimationState::Eating, std::time::Instant::now());
    assert_eq!(animator.current_frame_index(), Some(1));
    // leaving and coming back restarts it
    animator.set_state(AnimationState::Idle);
    animator.set_state(AnimationState::Eating);
    assert_eq!(animator.current_frame_index(), Some(0));
}
