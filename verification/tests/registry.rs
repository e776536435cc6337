//! The device registry: assignment policy, sticky reconnection, event
//! fan-out, and the screen constants.

use input_actions::binding;
use input_actions::device;
use input_actions::event;
use input_actions::math;
use input_actions::source;
use input_actions::DeviceCache;
use input_actions::User;

fn owner_of(cache: &DeviceCache, d: device::Id) -> Option<usize> {
    cache
        .assigned_devices
        .iter()
        .find(|(dev, _)| *dev == d)
        .map(|(_, u)| *u)
}

fn pad(n: usize) -> device::Id {
    device::Id::Gamepad(device::GamepadKind::DualAxisGamepad, n)
}

#[test]
fn mouse_and_keyboard_go_to_the_first_user() {
    let mut cache = DeviceCache::default();
    let alice = User::new("alice".to_string());
    let bob = User::new("bob".to_string());
    let a = cache.add_user(event::clone_sender(alice.input_sender()));
    let _b = cache.add_user(event::clone_sender(bob.input_sender()));
    cache.update();
    assert_eq!(owner_of(&cache, device::Id::Mouse), Some(a));
    assert_eq!(owner_of(&cache, device::Id::Keyboard), Some(a));
}

#[test]
fn gamepads_go_to_users_without_one() {
    let mut cache = DeviceCache::default();
    let alice = User::new("alice".to_string());
    let bob = User::new("bob".to_string());
    let a = cache.add_user(event::clone_sender(alice.input_sender()));
    let b = cache.add_user(event::clone_sender(bob.input_sender()));
    cache.connect_gamepad(device::GamepadKind::DualAxisGamepad, 0);
    cache.connect_gamepad(device::GamepadKind::DualAxisGamepad, 1);
    cache.update();
    assert_eq!(owner_of(&cache, pad(0)), Some(a));
    assert_eq!(owner_of(&cache, pad(1)), Some(b));
}

#[test]
fn a_device_is_owned_by_at_most_one_user() {
    let mut cache = DeviceCache::default();
    let alice = User::new("alice".to_string());
    let bob = User::new("bob".to_string());
    cache.add_user(event::clone_sender(alice.input_sender()));
    cache.add_user(event::clone_sender(bob.input_sender()));
    cache.connect_gamepad(device::GamepadKind::DualAxisGamepad, 0);
    cache.update();
    // no device id appears twice in the assignment, and no user's
    // device set shares a device with another user's
    for (i, (d1, _)) in cache.assigned_devices.iter().enumerate() {
        for (d2, _) in cache.assigned_devices.iter().skip(i + 1) {
            assert_ne!(d1, d2);
        }
    }
    for (i, u1) in cache.users.iter().enumerate() {
        for u2 in cache.users.iter().skip(i + 1) {
            for d in &u1.devices {
                assert!(!u2.devices.contains(d));
            }
        }
    }
}

#[test]
fn a_returning_gamepad_goes_back_to_its_owner() {
    // disconnecting and reconnecting the same gamepad id, with its
    // former owner still gamepad-less, re-assigns it to the same owner
    let mut cache = DeviceCache::default();
    let alice = User::new("alice".to_string());
    let bob = User::new("bob".to_string());
    let a = cache.add_user(event::clone_sender(alice.input_sender()));
    let b = cache.add_user(event::clone_sender(bob.input_sender()));
    cache.connect_gamepad(device::GamepadKind::DualAxisGamepad, 7);
    cache.update();
    assert_eq!(owner_of(&cache, pad(7)), Some(a));
    cache.disconnect_gamepad(device::GamepadKind::DualAxisGamepad, 7);
    assert_eq!(owner_of(&cache, pad(7)), None);
    // the reconnection is sticky and immediate
    cache.connect_gamepad(device::GamepadKind::DualAxisGamepad, 7);
    assert_eq!(owner_of(&cache, pad(7)), Some(a));
    assert_ne!(owner_of(&cache, pad(7)), Some(b));
}

#[test]
fn a_returning_gamepad_yields_when_its_owner_was_resupplied() {
    let mut cache = DeviceCache::default();
    let alice = User::new("alice".to_string());
    let bob = User::new("bob".to_string());
    let a = cache.add_user(event::clone_sender(alice.input_sender()));
    let b = cache.add_user(event::clone_sender(bob.input_sender()));
    cache.connect_gamepad(device::GamepadKind::DualAxisGamepad, 7);
    cache.update();
    cache.disconnect_gamepad(device::GamepadKind::DualAxisGamepad, 7);
    // the former owner picks up a different gamepad meanwhile
    cache.connect_gamepad(device::GamepadKind::DualAxisGamepad, 8);
    cache.update();
    assert_eq!(owner_of(&cache, pad(8)), Some(a));
    // the returning gamepad now goes to the first user without one
    cache.connect_gamepad(device::GamepadKind::DualAxisGamepad, 7);
    cache.update();
    assert_eq!(owner_of(&cache, pad(7)), Some(b));
}

#[test]
fn double_disconnect_is_a_no_op() {
    let mut cache = DeviceCache::default();
    let alice = User::new("alice".to_string());
    cache.add_user(event::clone_sender(alice.input_sender()));
    cache.connect_gamepad(device::GamepadKind::DualAxisGamepad, 0);
    cache.update();
    cache.disconnect_gamepad(device::GamepadKind::DualAxisGamepad, 0);
    let disconnected = cache.disconnected_devices.clone();
    cache.disconnect_gamepad(device::GamepadKind::DualAxisGamepad, 0);
    assert_eq!(cache.disconnected_devices, disconnected);
}

#[test]
fn face_buttons_fan_out_to_virtual_actions() {
    let cache = DeviceCache::default();
    let kind = device::GamepadKind::DualAxisGamepad;
    let press = event::State::ButtonState(event::ButtonState::Pressed);
    let bottom = binding::Source::Gamepad(kind, binding::Gamepad::Button(source::Button::FaceBottom));
    let fanned = cache.parse_input_event((pad(0), bottom, press));
    assert_eq!(fanned.len(), 2);
    assert_eq!(
        fanned[1].1,
        binding::Source::Gamepad(kind, binding::Gamepad::Button(source::Button::VirtualConfirm))
    );
    let right = binding::Source::Gamepad(kind, binding::Gamepad::Button(source::Button::FaceRight));
    let fanned = cache.parse_input_event((pad(0), right, press));
    assert_eq!(fanned.len(), 2);
    assert_eq!(
        fanned[1].1,
        binding::Source::Gamepad(kind, binding::Gamepad::Button(source::Button::VirtualDeny))
    );
    let left = binding::Source::Gamepad(kind, binding::Gamepad::Button(source::Button::FaceLeft));
    assert_eq!(cache.parse_input_event((pad(0), left, press)).len(), 1);
}

#[test]
fn window_events_update_the_screen_constants() {
    let scale = math::SCALE as u64;
    let mut cache = DeviceCache::default();
    cache.send_event(event::Event::Window(event::WindowEvent::ResolutionChanged(1920, 1080)));
    assert_eq!(cache.consts().screen_width, 1920 * scale);
    assert_eq!(cache.consts().screen_height, 1080 * scale);
    // a scale factor of 2.0 halves the logical size
    cache.send_event(event::Event::Window(event::WindowEvent::ScaleFactorChanged(
        1920,
        1080,
        2 * scale,
    )));
    assert_eq!(cache.consts().screen_width, 960 * scale);
    assert_eq!(cache.consts().screen_height, 540 * scale);
}
