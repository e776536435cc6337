//! The user-facing flow: configuration, enabling and disabling action
//! sets, layout changes, queued event delivery, and the consumer
//! queries.

use input_actions::action::Action;
use input_actions::action::ActionBehavior;
use input_actions::action::BehaviorBinding;
use input_actions::action::BindingMap;
use input_actions::action::SourceBehavior;
use input_actions::binding;
use input_actions::binding::ActionMap;
use input_actions::binding::ActionSet;
use input_actions::device;
use input_actions::event;
use input_actions::math;
use input_actions::source;
use input_actions::ActionBindingMap;
use input_actions::binding::Binding;
use input_actions::Category;
use input_actions::Config;
use input_actions::Consts;
use input_actions::ControllerKind;
use input_actions::DeviceCache;
use input_actions::User;

const SCALE: i64 = math::SCALE;

fn space() -> binding::Source {
    binding::Source::Keyboard(source::Key::Space)
}

fn escape() -> binding::Source {
    binding::Source::Keyboard(source::Key::Escape)
}

fn demo_config() -> Config {
    Config::default()
        .add_action("jump".to_string(), source::Kind::Button)
        .add_action("menu".to_string(), source::Kind::Button)
        .add_layout(None)
        .add_action_set(
            None,
            ActionSet::default().with(
                None,
                ActionMap::default()
                    .bind("jump".to_string(), BehaviorBinding::from_source(space())),
            ),
        )
        .add_action_set(
            Some("ui".to_string()),
            ActionSet::default().with(
                None,
                ActionMap::default()
                    .bind("menu".to_string(), BehaviorBinding::from_source(escape())),
            ),
        )
}

#[test]
fn enabled_actions_receive_events() {
    let mut user = User::new("alice".to_string()).with_config(demo_config());
    user.enable_action_set(None);
    user.process_event(space(), event::State::ButtonState(event::ButtonState::Pressed), 5);
    user.update(16);
    let jump = user.get_action(&"jump".to_string()).expect("jump is bound");
    assert!(jump.on_button_pressed());
    assert!(jump.is_button_down());
    assert_eq!(jump.value(), SCALE);
}

#[test]
fn unknown_queries_and_ids_are_quiet() {
    let mut user = User::new("alice".to_string()).with_config(demo_config());
    user.enable_action_set(Some("nonsense".to_string())); // unknown set: no-op
    assert!(user.get_action(&"jump".to_string()).is_none()); // nothing enabled
    user.enable_action_set(None);
    assert!(user.get_action(&"menu".to_string()).is_none()); // other set not enabled
    // an event for an unbound source is a no-op
    user.process_event(escape(), event::State::ButtonState(event::ButtonState::Pressed), 5);
    user.update(16);
    assert!(!user.get_action(&"jump".to_string()).unwrap().is_button_down());
}

#[test]
fn disabling_a_set_removes_exactly_its_actions() {
    // disabling an action set removes exactly its actions' state and
    // bindings, leaving all other enabled sets' actions queryable with
    // unchanged values
    let mut user = User::new("alice".to_string()).with_config(demo_config());
    user.enable_action_set(None);
    user.enable_action_set(Some("ui".to_string()));
    user.process_event(space(), event::State::ValueChanged(42), 5);
    user.process_event(escape(), event::State::ValueChanged(7), 6);
    user.disable_action_set(Some("ui".to_string()));
    assert!(user.get_action(&"menu".to_string()).is_none());
    let jump = user.get_action(&"jump".to_string()).expect("jump survives");
    assert_eq!(jump.value(), 42);
    user.disable_action_set(None);
    assert!(user.get_action(&"jump".to_string()).is_none());
}

#[test]
fn set_layout_rebuilds_the_bindings() {
    let config = Config::default()
        .add_action("jump".to_string(), source::Kind::Button)
        .add_layout(None)
        .add_layout(Some("southpaw".to_string()))
        .add_action_set(
            None,
            ActionSet::default()
                .with(
                    None,
                    ActionMap::default()
                        .bind("jump".to_string(), BehaviorBinding::from_source(space())),
                )
                .with(
                    Some("southpaw".to_string()),
                    ActionMap::default()
                        .bind("jump".to_string(), BehaviorBinding::from_source(escape())),
                ),
        );
    let mut user = User::new("alice".to_string()).with_config(config);
    user.enable_action_set(None);
    user.process_event(space(), event::State::ButtonState(event::ButtonState::Pressed), 5);
    assert!(user.get_action(&"jump".to_string()).unwrap().is_button_down());
    // the new layout listens to Escape instead, and the state is fresh
    user.set_layout(Some("southpaw".to_string()));
    let jump = user.get_action(&"jump".to_string()).expect("rebound");
    assert!(!jump.is_button_down());
    user.process_event(space(), event::State::ButtonState(event::ButtonState::Pressed), 7);
    assert!(!user.get_action(&"jump".to_string()).unwrap().is_button_down());
    user.process_event(escape(), event::State::ButtonState(event::ButtonState::Pressed), 8);
    assert!(user.get_action(&"jump".to_string()).unwrap().is_button_down());
}

#[test]
fn queued_events_are_drained_by_update() {
    // the registry enqueues events with the owning user; the user's
    // update drains and applies them
    let mut user = User::new("alice".to_string()).with_config(demo_config());
    user.enable_action_set(None);
    let mut cache = DeviceCache::default();
    cache.add_user(event::clone_sender(user.input_sender()));
    cache.update(); // assigns mouse and keyboard to the user
    cache.send_event(event::Event::Input(
        device::Id::Keyboard,
        space(),
        event::State::ButtonState(event::ButtonState::Pressed),
    ));
    assert!(!user.get_action(&"jump".to_string()).unwrap().is_button_down());
    user.update(16);
    let jump = user.get_action(&"jump".to_string()).unwrap();
    assert!(jump.is_button_down());
    assert!(jump.on_button_pressed());
}

#[test]
fn events_for_unowned_devices_are_dropped() {
    let mut user = User::new("alice".to_string()).with_config(demo_config());
    user.enable_action_set(None);
    let mut cache = DeviceCache::default();
    cache.add_user(event::clone_sender(user.input_sender()));
    // no update: the keyboard is still unassigned, so the event is lost
    cache.send_event(event::Event::Input(
        device::Id::Keyboard,
        space(),
        event::State::ButtonState(event::ButtonState::Pressed),
    ));
    user.update(16);
    assert!(!user.get_action(&"jump".to_string()).unwrap().is_button_down());
}

#[test]
fn take_action_value_reads_once() {
    let mut user = User::new("alice".to_string()).with_config(demo_config());
    user.enable_action_set(None);
    user.process_event(space(), event::State::ValueChanged(31), 5);
    assert_eq!(user.take_action_value(&"jump".to_string()), Some(31));
    assert_eq!(user.take_action_value(&"jump".to_string()), Some(0));
    assert_eq!(user.take_action_value(&"menu".to_string()), None);
}

#[test]
fn builders_replace_on_equal_keys() {
    // binding one action id twice overwrites the previous binding,
    // last write wins, and never rejects
    let map = ActionMap::default()
        .bind("jump".to_string(), BehaviorBinding::from_source(space()))
        .bind("jump".to_string(), BehaviorBinding::from_source(escape()));
    assert_eq!(map.entries.len(), 1);
    assert_eq!(map.entries[0].1.sources(), vec![escape()]);
    let config = demo_config().add_action("jump".to_string(), source::Kind::Axis);
    assert_eq!(config.actions.len(), 2);
    assert_eq!(config.actions[0].1, source::Kind::Axis);
}

#[test]
fn action_builders_carry_kind_and_behavior() {
    let action = Action::new(source::Kind::Axis);
    assert_eq!(action.kind(), source::Kind::Axis);
    let action = action.with_behavior(ActionBehavior {});
    assert_eq!(*action.behavior(), ActionBehavior {});
    let passed = ActionBehavior::default().modify_event_for(
        event::State::ValueChanged(5),
        &source::Kind::Axis,
    );
    assert_eq!(passed, event::State::ValueChanged(5));
}

#[test]
fn legacy_binding_classifies_axes() {
    assert!(Binding::GamepadAxis(source::Axis::LThumbstickX).is_axis());
    assert!(!Binding::GamepadAxis(source::Axis::LThumbstickX).is_button());
    assert!(Binding::KeyboardKey(source::Key::A).is_button());
    assert!(Binding::MouseMove.is_button());
    assert!(Binding::MouseButton(source::MouseButton::Left).is_button());
}

#[test]
fn binding_maps_group_by_controller_kind() {
    let pad = ControllerKind::Gamepad(device::GamepadKind::DualAxisGamepad);
    let map = ActionBindingMap::default().bind(
        "jump".to_string(),
        &vec![
            (ControllerKind::Keyboard, Binding::KeyboardKey(source::Key::Space)),
            (pad, Binding::GamepadButton(source::Button::FaceBottom)),
            (ControllerKind::Keyboard, Binding::KeyboardKey(source::Key::Return)),
        ],
    );
    assert_eq!(map.entries.len(), 1);
    let groups = &map.entries[0].1;
    assert_eq!(groups.len(), 2);
    assert_eq!(groups[0].0, ControllerKind::Keyboard);
    assert_eq!(
        groups[0].1,
        vec![
            Binding::KeyboardKey(source::Key::Space),
            Binding::KeyboardKey(source::Key::Return)
        ]
    );
    assert_eq!(groups[1].0, pad);
    assert_eq!(groups[1].1, vec![Binding::GamepadButton(source::Button::FaceBottom)]);
}

#[test]
fn source_binding_maps_group_by_controller_kind() {
    let map = BindingMap::default().bind(
        "look".to_string(),
        vec![
            (ControllerKind::Mouse, SourceBehavior::new(space())),
            (ControllerKind::Mouse, SourceBehavior::new(escape())),
        ],
    );
    assert_eq!(map.entries.len(), 1);
    let groups = &map.entries[0].1;
    assert_eq!(groups.len(), 1);
    assert_eq!(groups[0].0, ControllerKind::Mouse);
    assert_eq!(groups[0].1.len(), 2);
    assert_eq!(groups[0].1[0].source, space());
    assert_eq!(groups[0].1[1].source, escape());
}

#[test]
fn categories_map_layouts_to_binding_maps() {
    let map = BindingMap::default().bind(
        "look".to_string(),
        vec![(ControllerKind::Mouse, SourceBehavior::new(space()))],
    );
    let category = Category::default().with(Some("desktop".to_string()), map);
    assert!(category.get(&Some("desktop".to_string())).is_some());
    assert!(category.get(&None).is_none());
    assert_eq!(
        category.get(&Some("desktop".to_string())).unwrap().entries[0].0,
        "look".to_string()
    );
}

#[test]
fn users_carry_their_name_and_consts() {
    let user = User::new("alice".to_string()).with_consts(Consts {
        screen_width: 10,
        screen_height: 20,
        scale_factor: SCALE as u64,
    });
    assert_eq!(user.name(), "alice");
    assert_eq!(user.consts.screen_width, 10);
    let mut user = user;
    user.set_consts(Consts { screen_width: 30, screen_height: 40, scale_factor: SCALE as u64 });
    assert_eq!(user.consts.screen_height, 40);
}

#[test]
fn bound_sources_carry_their_modifier() {
    let config = Config::default()
        .add_action("steer".to_string(), source::Kind::Axis)
        .add_layout(None)
        .add_action_set(
            None,
            ActionSet::default().with(
                None,
                ActionMap::default()
                    .bind("steer".to_string(), space().with_modifier(-SCALE)),
            ),
        );
    let mut user = User::new("alice".to_string()).with_config(config);
    user.enable_action_set(None);
    user.process_event(space(), event::State::ButtonState(event::ButtonState::Pressed), 5);
    assert_eq!(user.get_action(&"steer".to_string()).unwrap().value(), -SCALE);
    // an unmodified binding passes the raw sample through
    assert_eq!(escape().bound().sources(), vec![escape()]);
}
