//! A real-time input-abstraction layer: physical controls (keyboard keys,
//! mouse buttons, mouse motion axes, gamepad buttons, gamepad axes) are
//! mapped onto application-defined logical axes, each carrying a current and
//! a previous scalar value with double-buffering semantics.
//!
//! Scalar values are fixed-point integers in thousandths (`SCALE`), so that
//! every value computation is exact and verified.

pub mod control;
pub mod engine;

pub use control::Control;
pub use control::CtrlType;
pub use control::MouseAxis;
pub use engine::Axis;
pub use engine::DOWN_THRESHOLD;
pub use engine::InputSubsystem;
pub use engine::POS_LIMIT;
pub use engine::PRESSED;
pub use engine::RELEASED;
pub use engine::SCALE;
pub use engine::SENS_LIMIT;
pub use engine::VALUE_LIMIT;
