//! Identity of one physical input source: device class, device instance, and
//! the control (key, button or axis) on that device.

use vstd::prelude::*;

verus! {

/// The class of a physical device control. Axes and buttons of the same
/// device are separate classes, since their events carry different payloads.
#[derive(Debug, Copy, Clone, PartialEq, Eq, Structural, PartialOrd, Ord)]
pub enum CtrlType {
    GPAxis,
    GPButton,
    MouseAxis,
    MouseButton,
    Keyboard,
}

/// The two mouse motion axes. A single mouse motion event updates both.
#[derive(Debug, Copy, Clone, PartialEq, Eq, Structural)]
pub enum MouseAxis {
    X,
    Y,
}

/// Identifies one physical input source. Two controls are equal iff all
/// three fields are equal; the derived ordering is lexicographic on the
/// fields in declaration order and carries no application meaning.
#[derive(Debug, Copy, Clone, PartialEq, Eq, Structural, PartialOrd, Ord)]
pub struct Control {
    /// What kind of device control this is.
    pub ctrl_type: CtrlType,
    /// Which instance of that device class (which gamepad); 0 for the
    /// keyboard and the mouse.
    pub determinant: u64,
    /// Which key, button or axis on that device.
    pub ctrl_id: u64,
}

/// The control id a mouse motion axis is addressed by.
pub open spec fn mouse_axis_id(axis: MouseAxis) -> u64 {
    match axis {
        MouseAxis::X => 0,
        MouseAxis::Y => 1,
    }
}

/// The control identity of a keyboard key.
pub open spec fn keyboard_ctrl(key: u64) -> Control {
    Control { ctrl_type: CtrlType::Keyboard, determinant: 0, ctrl_id: key }
}

/// The control identity of a mouse button.
pub open spec fn mouse_button_ctrl(button: u64) -> Control {
    Control { ctrl_type: CtrlType::MouseButton, determinant: 0, ctrl_id: button }
}

/// The control identity of a mouse motion axis.
pub open spec fn mouse_axis_ctrl(axis: MouseAxis) -> Control {
    Control { ctrl_type: CtrlType::MouseAxis, determinant: 0, ctrl_id: mouse_axis_id(axis) }
}

/// The control identity of a gamepad button.
pub open spec fn gamepad_button_ctrl(gamepad: u64, button: u64) -> Control {
    Control { ctrl_type: CtrlType::GPButton, determinant: gamepad, ctrl_id: button }
}

/// The control identity of a gamepad axis.
pub open spec fn gamepad_axis_ctrl(gamepad: u64, axis: u64) -> Control {
    Control { ctrl_type: CtrlType::GPAxis, determinant: gamepad, ctrl_id: axis }
}

impl Control {
    /// Builds a control identity from its three fields. No validation: every
    /// representable control is a valid identity.
    pub fn new(determinant: u64, ctrl_type: CtrlType, ctrl_id: u64) -> (r: Control)
        ensures
            r == (Control { ctrl_type, determinant, ctrl_id }),
    {
        Control { ctrl_type, determinant, ctrl_id }
    }
}

impl MouseAxis {
    /// The control id this motion axis is addressed by, for building the
    /// `Control` that a mouse-axis binding targets.
    pub fn ctrl_id(self) -> (r: u64)
        ensures
            r == mouse_axis_id(self),
    {
        match self {
            MouseAxis::X => 0,
            MouseAxis::Y => 1,
        }
    }
}

} // verus!
