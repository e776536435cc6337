//! The fixed-point math, the behavior transforms, the binding-tree
//! evaluator, and the per-action state machine, on concrete values.

use input_actions::action::behavior::Average;
use input_actions::action::behavior::Behavior;
use input_actions::action::behavior::Multiplier;
use input_actions::action::behavior::ScreenPositionDelta;
use input_actions::action::behavior::VirtualAxis;
use input_actions::action::BehaviorBinding;
use input_actions::action::SourceBehavior;
use input_actions::action::State;
use input_actions::device;
use input_actions::binding;
use input_actions::event;
use input_actions::math;
use input_actions::source;

const SCALE: i64 = math::SCALE;

fn key_source(key: source::Key) -> binding::Source {
    binding::Source::Keyboard(key)
}

fn screen() -> (u64, u64) {
    (1920 * SCALE as u64, 1080 * SCALE as u64)
}

#[test]
fn mul_scaled_is_exact_and_clamps() {
    assert_eq!(math::mul_scaled(600_000, 500_000), 300_000);
    assert_eq!(math::mul_scaled(-1_000_000, 1_000_000), -1_000_000);
    assert_eq!(math::mul_scaled(7, 500_000), 3); // truncates toward zero
    assert_eq!(math::mul_scaled(-7, 500_000), -3); // toward zero, not floor
    assert_eq!(math::mul_scaled(i64::MAX, 2_000_000), i64::MAX); // clamped
    assert_eq!(math::mul_scaled(i64::MIN, 2_000_000), i64::MIN); // clamped
}

#[test]
fn div_scaled_normalizes_and_guards_zero() {
    assert_eq!(math::div_scaled(1920 * SCALE, (1920 * SCALE) as u64), SCALE);
    assert_eq!(math::div_scaled(960 * SCALE, (1920 * SCALE) as u64), SCALE / 2);
    assert_eq!(math::div_scaled(123, 0), 0);
}

#[test]
fn average_truncates_toward_zero() {
    assert_eq!(math::average(&vec![600_000, 400_000]), 500_000);
    assert_eq!(math::average(&vec![]), 0);
    assert_eq!(math::average(&vec![1, 2]), 1);
    assert_eq!(math::average(&vec![-1, -2]), -1);
}

#[test]
fn move_toward_never_overshoots() {
    // 1.0 units/sec for 500 ms moves half a unit
    assert_eq!(math::move_toward(0, SCALE, SCALE, 500), SCALE / 2);
    // far more time than needed stops at the target
    assert_eq!(math::move_toward(0, SCALE, SCALE, 10_000), SCALE);
    // zero speed snaps straight to the target
    assert_eq!(math::move_toward(900_000, -SCALE, 0, 1), -SCALE);
    // moving down toward zero
    assert_eq!(math::move_toward(500_000, 0, SCALE, 250), 250_000);
}

#[test]
fn multiplier_negates() {
    let m = Multiplier(-SCALE);
    assert_eq!(m.map(SCALE), -SCALE);
}

#[test]
fn average_fold_of_two_sources_is_their_mean() {
    // a container with a single Average fold over two sources reporting
    // 0.6 and 0.4 evaluates to 0.5
    let w = key_source(source::Key::W);
    let s = key_source(source::Key::S);
    let tree = BehaviorBinding::Container(
        vec![
            BehaviorBinding::from_source(w),
            BehaviorBinding::from_source(s),
        ],
        vec![Behavior::Average(Average)],
    );
    let (tree, first) = tree.process(w, 600_000, 10, screen());
    assert_eq!(first, 300_000); // second leaf still rests at zero
    let (_tree, second) = tree.process(s, 400_000, 20, screen());
    assert_eq!(second, 500_000);
}

#[test]
fn multiplier_button_press_yields_minus_one() {
    // a button bound through Multiplier(-1.0): Pressed evaluates to
    // -1.0, Released to 0.0
    let space = key_source(source::Key::Space);
    let tree = BehaviorBinding::from_source(space)
        .with_behavior(Behavior::Multiplier(Multiplier(-SCALE)));
    let mut state = State::new(tree);
    state.process_event(space, event::State::ButtonState(event::ButtonState::Pressed), 5, screen());
    assert_eq!(state.value(), -SCALE);
    state.process_event(
        space,
        event::State::ButtonState(event::ButtonState::Released),
        6,
        screen(),
    );
    assert_eq!(state.value(), 0);
}

#[test]
fn screen_position_delta_normalizes_full_sweep() {
    // screen (1920, 1080): a mouse-move delta of 1920 pixels on the X
    // axis evaluates to 1.0
    let move_x = binding::Source::Mouse(binding::Mouse::Move(binding::MouseAxis::MouseX));
    let tree = BehaviorBinding::from_source(move_x)
        .with_behavior(Behavior::ScreenPositionDelta(ScreenPositionDelta));
    let mut state = State::new(tree);
    state.process_event(move_x, event::State::MouseMove(1920 * SCALE), 5, screen());
    assert_eq!(state.value(), SCALE);
}

#[test]
fn screen_position_delta_normalizes_y_by_height() {
    let move_y = binding::Source::Mouse(binding::Mouse::Move(binding::MouseAxis::MouseY));
    let tree = BehaviorBinding::from_source(move_y)
        .with_behavior(Behavior::ScreenPositionDelta(ScreenPositionDelta));
    let mut state = State::new(tree);
    state.process_event(move_y, event::State::MouseMove(540 * SCALE), 5, screen());
    assert_eq!(state.value(), SCALE / 2);
}

#[test]
fn virtual_axis_integrates_over_elapsed_time() {
    let space = key_source(source::Key::Space);
    let tree = BehaviorBinding::from_source(space).with_behavior(Behavior::VirtualAxis(
        VirtualAxis { gravity: SCALE, acceleration: SCALE, on_reverse: None },
    ));
    let mut state = State::new(tree);
    // pressed at 500 ms: half a second of acceleration from rest
    state.process_event(
        space,
        event::State::ButtonState(event::ButtonState::Pressed),
        500,
        screen(),
    );
    assert_eq!(state.value(), SCALE / 2);
    // released at 750 ms: a quarter second of gravity back toward zero
    state.process_event(
        space,
        event::State::ButtonState(event::ButtonState::Released),
        750,
        screen(),
    );
    assert_eq!(state.value(), SCALE / 4);
}

#[test]
fn pressed_edge_is_exactly_one_update_wide() {
    // on_button_pressed() is true only during the single update() call
    // immediately following the Pressed event's processing
    let space = key_source(source::Key::Space);
    let mut state = State::new(BehaviorBinding::from_source(space));
    state.process_event(space, event::State::ButtonState(event::ButtonState::Pressed), 5, screen());
    assert!(!state.on_button_pressed()); // not yet ticked
    state.update(16);
    assert!(state.on_button_pressed());
    assert!(state.is_button_down());
    state.update(33);
    assert!(!state.on_button_pressed()); // no new events: edge is gone
    assert!(state.is_button_down());
    state.process_event(
        space,
        event::State::ButtonState(event::ButtonState::Released),
        40,
        screen(),
    );
    state.update(50);
    assert!(state.on_button_released());
    assert!(!state.is_button_down());
    state.update(66);
    assert!(!state.on_button_released());
}

#[test]
fn axis_value_decays_after_the_relevance_window() {
    // axis_value() returns the live value while now - modified_at is
    // under 100 ms, and exactly 0.0 once that window elapses
    let space = key_source(source::Key::Space);
    let mut state = State::new(BehaviorBinding::from_source(space));
    state.process_event(space, event::State::ValueChanged(700_000), 1000, screen());
    state.update(1050);
    assert_eq!(state.axis_value(), 700_000);
    state.update(1099);
    assert_eq!(state.axis_value(), 700_000);
    state.update(1100);
    assert_eq!(state.axis_value(), 0);
    assert_eq!(state.value(), 700_000); // the raw value is still there
}

#[test]
fn scroll_and_direct_values_bypass_the_tree() {
    let space = key_source(source::Key::Space);
    let tree = BehaviorBinding::from_source(space)
        .with_behavior(Behavior::Multiplier(Multiplier(-SCALE)));
    let mut state = State::new(tree);
    state.process_event(space, event::State::MouseScroll(123), 5, screen());
    assert_eq!(state.value(), 123); // not negated: the tree is bypassed
    state.process_event(space, event::State::ValueChanged(-9), 6, screen());
    assert_eq!(state.value(), -9);
}

#[test]
fn take_value_reads_and_resets() {
    let space = key_source(source::Key::Space);
    let mut state = State::new(BehaviorBinding::from_source(space));
    state.process_event(space, event::State::ValueChanged(42), 5, screen());
    assert_eq!(state.take_value(), 42);
    assert_eq!(state.take_value(), 0);
}

#[test]
fn select_routes_by_device_kind() {
    let space = key_source(source::Key::Space);
    let stick = binding::Source::Gamepad(
        device::GamepadKind::DualAxisGamepad,
        binding::Gamepad::Axis(source::Axis::LThumbstickX),
    );
    let tree = BehaviorBinding::select(vec![
        (device::Kind::Keyboard, BehaviorBinding::from_source(space)),
        (
            device::Kind::Gamepad(device::GamepadKind::DualAxisGamepad),
            BehaviorBinding::from_source(stick),
        ),
    ]);
    let (tree, from_keyboard) = tree.process(space, 111, 1, screen());
    assert_eq!(from_keyboard, 111);
    let (tree, from_stick) = tree.process(stick, 222, 2, screen());
    assert_eq!(from_stick, 222);
    // a mouse event finds no sub-binding and contributes nothing
    let move_x = binding::Source::Mouse(binding::Mouse::Move(binding::MouseAxis::MouseX));
    let (_tree, from_mouse) = tree.process(move_x, 333, 3, screen());
    assert_eq!(from_mouse, 0);
}

#[test]
fn container_without_behaviors_reports_the_applicable_child() {
    let w = key_source(source::Key::W);
    let s = key_source(source::Key::S);
    let tree = BehaviorBinding::Container(
        vec![
            BehaviorBinding::from_source(w).with_behavior(Behavior::Multiplier(Multiplier(-SCALE))),
            BehaviorBinding::from_source(s),
        ],
        vec![],
    );
    let (tree, v) = tree.process(w, SCALE, 1, screen());
    assert_eq!(v, -SCALE); // the directly applicable child's value
    // an event no child listens to falls back to the supplied value
    let (_tree, fallback) = tree.process(key_source(source::Key::Q), 77, 2, screen());
    assert_eq!(fallback, 77);
}

#[test]
fn sources_lists_every_leaf_in_order() {
    let w = key_source(source::Key::W);
    let s = key_source(source::Key::S);
    let tree = BehaviorBinding::Container(
        vec![BehaviorBinding::from_source(w), BehaviorBinding::from_source(s)],
        vec![],
    );
    assert_eq!(tree.sources(), vec![w, s]);
}

#[test]
fn source_leaf_remembers_its_latest_value() {
    let w = key_source(source::Key::W);
    let mut leaf = SourceBehavior::new(w);
    assert_eq!(leaf.process(w, 44, 1, screen()), 44);
    // an event for another source re-reads the remembered value
    assert_eq!(leaf.process(key_source(source::Key::S), 99, 2, screen()), 44);
}

#[test]
fn key_labels_follow_shift() {
    let shift = source::KeyModifiers { shift: true, control: false, alt: false, platform: false };
    let plain = source::KeyModifiers::default();
    assert_eq!(source::Key::A.to_string(&plain), Some("a".to_string()));
    assert_eq!(source::Key::A.to_string(&shift), Some("A".to_string()));
    assert_eq!(source::Key::Key1.to_string(&shift), Some("!".to_string()));
    assert_eq!(source::Key::Numpad5.to_string(&shift), Some("5".to_string()));
    assert_eq!(source::Key::Escape.to_string(&plain), None);
    assert!(shift.contains(source::KeyModifier::Shift));
    assert!(!plain.contains(source::KeyModifier::Shift));
}

#[test]
fn source_kinds_and_device_kinds() {
    let stick = binding::Source::Gamepad(
        device::GamepadKind::Xbox360,
        binding::Gamepad::Axis(source::Axis::RTrigger),
    );
    assert_eq!(stick.kind(), source::Kind::Axis);
    assert_eq!(stick.device_kind(), device::Kind::Gamepad(device::GamepadKind::Xbox360));
    let key = key_source(source::Key::A);
    assert_eq!(key.kind(), source::Kind::Button);
    assert_eq!(key.device_kind(), device::Kind::Keyboard);
    assert_eq!(
        device::Kind::from(device::Id::Gamepad(device::GamepadKind::Joycon, 3)),
        device::Kind::Gamepad(device::GamepadKind::Joycon)
    );
}
