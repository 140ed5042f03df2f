use input_axes::Control;
use input_axes::CtrlType;
use input_axes::InputSubsystem;
use input_axes::MouseAxis;

// All scalar values are fixed-point integers in thousandths: 1000 is 1.0.

fn key_k() -> Control {
    Control::new(0, CtrlType::Keyboard, 75)
}

#[test]
fn fresh_slot_defaults() {
    let mut sys = InputSubsystem::new((1000, 1000), (800, 600));
    let slot = sys.add_binding(String::from("move"), key_k());
    let i = slot.index();
    assert_eq!(i, 0);
    assert_eq!(sys.axis_count(), 1);
    assert_eq!(sys.get(i), 0);
    assert_eq!(sys.get_prev(i), 0);
    assert_eq!(sys.get_delta(i), 0);
}

#[test]
fn double_buffer_sequence() {
    // After an update with value v, get == v and get_prev equals whatever
    // get returned immediately before (0 for the first update).
    let mut sys = InputSubsystem::new((1000, 1000), (800, 600));
    let slot = sys.add_binding(String::from("throttle"), key_k());
    let i = slot.index();
    let before = sys.get(i);
    sys.update_bindings(key_k(), 700);
    assert_eq!(sys.get(i), 700);
    assert_eq!(sys.get_prev(i), before);
    let before = sys.get(i);
    sys.update_bindings(key_k(), -250);
    assert_eq!(sys.get(i), -250);
    assert_eq!(sys.get_prev(i), before);
    let before = sys.get(i);
    sys.update_bindings(key_k(), -250);
    assert_eq!(sys.get(i), -250);
    assert_eq!(sys.get_prev(i), before);
}

#[test]
fn delta_is_current_minus_previous() {
    let mut sys = InputSubsystem::new((1000, 1000), (800, 600));
    let slot = sys.add_binding(String::from("throttle"), key_k());
    let i = slot.index();
    assert_eq!(sys.get_delta(i), sys.get(i) - sys.get_prev(i));
    sys.update_bindings(key_k(), 300);
    assert_eq!(sys.get_delta(i), 300);
    assert_eq!(sys.get_delta(i), sys.get(i) - sys.get_prev(i));
    sys.update_bindings(key_k(), -200);
    assert_eq!(sys.get_delta(i), -500);
    assert_eq!(sys.get_delta(i), sys.get(i) - sys.get_prev(i));
}

#[test]
fn fan_out_updates_both_slots() {
    // One control bound to two distinct slots: a single update writes both
    // identically and independently.
    let mut sys = InputSubsystem::new((1000, 1000), (800, 600));
    let a = sys.add_binding(String::from("jump"), key_k());
    let b = sys.add_binding(String::from("climb"), key_k());
    let other = sys.add_binding(
        String::from("fire"),
        Control::new(0, CtrlType::MouseButton, 1),
    );
    assert_ne!(a.index(), b.index());
    sys.update_bindings(key_k(), 1000);
    assert_eq!(sys.get(a.index()), 1000);
    assert_eq!(sys.get(b.index()), 1000);
    assert_eq!(sys.get_prev(a.index()), 0);
    assert_eq!(sys.get_prev(b.index()), 0);
    // The slot fed by a different control is untouched.
    assert_eq!(sys.get(other.index()), 0);
    assert_eq!(sys.get_prev(other.index()), 0);
}

#[test]
fn unbound_control_update_is_noop() {
    let mut sys = InputSubsystem::new((1000, 1000), (800, 600));
    let slot = sys.add_binding(String::from("jump"), key_k());
    sys.update_bindings(key_k(), 400);
    // No binding for this control: deliberate no-op, no panic, no mutation.
    sys.update_bindings(Control::new(3, CtrlType::GPButton, 9), 999);
    assert_eq!(sys.get(slot.index()), 400);
    assert_eq!(sys.get_prev(slot.index()), 0);
}

#[test]
fn get_down_default_and_explicit_threshold() {
    // get_down(slot, None) iff value > 0.9; get_down(slot, Some(0.5)) iff
    // value > 0.5 — in thousandths, 900 and 500.
    let mut sys = InputSubsystem::new((1000, 1000), (800, 600));
    let slot = sys.add_binding(String::from("trigger"), key_k());
    let i = slot.index();
    sys.update_bindings(key_k(), 901);
    assert!(sys.get_down(i, None));
    sys.update_bindings(key_k(), 900);
    assert!(!sys.get_down(i, None));
    sys.update_bindings(key_k(), 501);
    assert!(sys.get_down(i, Some(500)));
    sys.update_bindings(key_k(), 500);
    assert!(!sys.get_down(i, Some(500)));
}

#[test]
fn mouse_axis_formula() {
    // New X value is (nx - px) * sx, Y value is (ny - py) * sy, both against
    // the same prior raw position; the tracked position becomes (nx, ny).
    let mut sys = InputSubsystem::new((2000, 500), (800, 600));
    let x = sys.add_binding(
        String::from("look-x"),
        Control::new(0, CtrlType::MouseAxis, MouseAxis::X.ctrl_id()),
    );
    let y = sys.add_binding(
        String::from("look-y"),
        Control::new(0, CtrlType::MouseAxis, MouseAxis::Y.ctrl_id()),
    );
    sys.update_mouse_pos(10, -4);
    assert_eq!(sys.get(x.index()), (10 - 0) * 2000);
    assert_eq!(sys.get(y.index()), (-4 - 0) * 500);
    // Second sample: deltas are against the stored (10, -4).
    sys.update_mouse_pos(7, 6);
    assert_eq!(sys.get(x.index()), (7 - 10) * 2000);
    assert_eq!(sys.get(y.index()), (6 - (-4)) * 500);
    assert_eq!(sys.get_prev(x.index()), 20000);
    assert_eq!(sys.get_prev(y.index()), -2000);
}

#[test]
fn mouse_look_scenario() {
    // Sensitivity (1.0, 1.0); bind "look-x" to the mouse X axis; sample at
    // raw x 10, then 15: values 10.0 then 5.0, previous 0.0 then 10.0.
    let mut sys = InputSubsystem::new((1000, 1000), (800, 600));
    let s = sys.add_binding(
        String::from("look-x"),
        Control::new(0, CtrlType::MouseAxis, MouseAxis::X.ctrl_id()),
    );
    sys.update_mouse_pos(10, 0);
    assert_eq!(sys.get(s.index()), 10000);
    assert_eq!(sys.get_prev(s.index()), 0);
    sys.update_mouse_pos(15, 0);
    assert_eq!(sys.get(s.index()), 5000);
    assert_eq!(sys.get_prev(s.index()), 10000);
}

#[test]
fn keyboard_press_release_scenario() {
    // Bind "jump" to a key; press: 1.0; release: 0.0 with previous 1.0.
    let mut sys = InputSubsystem::new((1000, 1000), (800, 600));
    let s = sys.add_binding(String::from("jump"), Control::new(0, CtrlType::Keyboard, 32));
    sys.update_key(32, true);
    assert_eq!(sys.get(s.index()), 1000);
    sys.update_key(32, false);
    assert_eq!(sys.get(s.index()), 0);
    assert_eq!(sys.get_prev(s.index()), 1000);
}

#[test]
fn mouse_button_entry_point() {
    let mut sys = InputSubsystem::new((1000, 1000), (800, 600));
    let s = sys.add_binding(String::from("fire"), Control::new(0, CtrlType::MouseButton, 1));
    sys.update_mouse_button(1, true);
    assert_eq!(sys.get(s.index()), 1000);
    sys.update_mouse_button(2, false);
    assert_eq!(sys.get(s.index()), 1000);
    sys.update_mouse_button(1, false);
    assert_eq!(sys.get(s.index()), 0);
    assert_eq!(sys.get_prev(s.index()), 1000);
}

#[test]
fn gamepad_button_entry_point() {
    let mut sys = InputSubsystem::new((1000, 1000), (800, 600));
    let pad0 = sys.add_binding(String::from("boost"), Control::new(0, CtrlType::GPButton, 4));
    let pad1 = sys.add_binding(String::from("boost-2"), Control::new(1, CtrlType::GPButton, 4));
    sys.update_gamepad_button(1, 4, true);
    // Same button id on a different gamepad: only that gamepad's slot moves.
    assert_eq!(sys.get(pad0.index()), 0);
    assert_eq!(sys.get(pad1.index()), 1000);
}

#[test]
fn gamepad_axis_passes_value_through() {
    let mut sys = InputSubsystem::new((1000, 1000), (800, 600));
    let s = sys.add_binding(String::from("steer"), Control::new(0, CtrlType::GPAxis, 2));
    sys.update_gamepad_axis(0, 2, -731);
    assert_eq!(sys.get(s.index()), -731);
    sys.update_gamepad_axis(0, 2, 1000);
    assert_eq!(sys.get(s.index()), 1000);
    assert_eq!(sys.get_prev(s.index()), -731);
}

#[test]
fn name_lookup_and_shadowing() {
    let mut sys = InputSubsystem::new((1000, 1000), (800, 600));
    let a = sys.add_binding(String::from("jump"), Control::new(0, CtrlType::Keyboard, 32));
    let fire = sys.add_binding(String::from("fire"), Control::new(0, CtrlType::MouseButton, 1));
    let name = String::from("jump");
    assert_eq!(sys.get_index(&name).index(), a.index());
    assert_eq!(sys.get_index(&String::from("fire")).index(), fire.index());
    // Duplicate names silently shadow: last write wins.
    let b = sys.add_binding(String::from("jump"), Control::new(0, CtrlType::Keyboard, 33));
    assert_eq!(sys.get_index(&name).index(), b.index());
    // Unknown names are a failure, never a default.
    assert!(sys.try_get_index(&String::from("duck")).is_none());
}

#[test]
fn fan_in_two_controls_one_slot() {
    // bind_existing lets a second control feed an already-allocated slot.
    let mut sys = InputSubsystem::new((1000, 1000), (800, 600));
    let a = sys.add_binding(String::from("jump"), Control::new(0, CtrlType::Keyboard, 32));
    sys.bind_existing(a, Control::new(0, CtrlType::GPButton, 0));
    sys.update_key(32, true);
    assert_eq!(sys.get(a.index()), 1000);
    sys.update_gamepad_button(0, 0, false);
    assert_eq!(sys.get(a.index()), 0);
    assert_eq!(sys.get_prev(a.index()), 1000);
}

#[test]
fn duplicate_binding_applies_twice() {
    // The same control bound twice to one slot: both updates apply, so the
    // previous value also becomes the new value.
    let mut sys = InputSubsystem::new((1000, 1000), (800, 600));
    let a = sys.add_binding(String::from("one"), key_k());
    sys.bind_existing(a, key_k());
    sys.update_bindings(key_k(), 111);
    assert_eq!(sys.get(a.index()), 111);
    assert_eq!(sys.get_prev(a.index()), 111);
}

#[test]
fn control_identity() {
    let a = Control::new(0, CtrlType::Keyboard, 10);
    let b = Control::new(0, CtrlType::Keyboard, 10);
    let c = Control::new(1, CtrlType::Keyboard, 10);
    let d = Control::new(0, CtrlType::MouseButton, 10);
    assert_eq!(a, b);
    assert_ne!(a, c);
    assert_ne!(a, d);
    // The derived order is total and lexicographic on the fields; it exists
    // only so controls can key an ordered structure.
    assert!(a < c || c < a);
    assert!(a == b || a < b || b < a);
}
