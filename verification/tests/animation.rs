use globe::animation::{Action, Animation, Phase, PAUSE_MILLIS, STEPS_PER_TURN};

#[test]
fn animation_starts_rendering_the_unturned_sphere() {
    let animation = Animation::new();
    assert_eq!(animation.phase(), Phase::Rendering);
    assert_eq!(animation.rotation_steps(), 0);
}

#[test]
fn frames_are_sixty_a_second_and_a_turn_has_180_steps() {
    assert_eq!(PAUSE_MILLIS, 1000 / 60);
    assert_eq!(PAUSE_MILLIS, 16);
    assert_eq!(STEPS_PER_TURN, 180);
}

#[test]
fn rendering_and_presenting_take_turns() {
    let mut animation = Animation::new();
    assert_eq!(animation.step(), Action::Render { rotation_steps: 0 });
    assert_eq!(animation.phase(), Phase::Presenting);
    assert_eq!(animation.rotation_steps(), 0);
    assert_eq!(animation.step(), Action::Present { pause_millis: 16 });
    assert_eq!(animation.phase(), Phase::Rendering);
    assert_eq!(animation.rotation_steps(), 1);
    assert_eq!(animation.step(), Action::Render { rotation_steps: 1 });
    assert_eq!(animation.step(), Action::Present { pause_millis: 16 });
    assert_eq!(animation.step(), Action::Render { rotation_steps: 2 });
}

#[test]
fn rotation_grows_by_one_step_each_frame_and_is_never_reset() {
    let mut animation = Animation::new();
    for frame in 0..1000u64 {
        assert_eq!(animation.rotation_steps(), frame);
        assert_eq!(animation.step(), Action::Render { rotation_steps: frame });
        assert_eq!(animation.rotation_steps(), frame);
        assert_eq!(animation.step(), Action::Present { pause_millis: PAUSE_MILLIS });
        assert_eq!(animation.rotation_steps(), frame + 1);
    }
    assert_eq!(animation.rotation_steps(), 1000);
    assert_eq!(animation.phase(), Phase::Rendering);
}

#[test]
fn rotation_goes_on_past_a_full_turn() {
    let mut animation = Animation::new();
    for _ in 0..(2 * STEPS_PER_TURN) {
        animation.step();
    }
    assert_eq!(animation.rotation_steps(), STEPS_PER_TURN);
    animation.step();
    animation.step();
    assert_eq!(animation.rotation_steps(), STEPS_PER_TURN + 1);
}
