//! Keystroke injection core: maps characters to physical keys, encodes text
//! as virtual-keyboard events, and drives a typing pass to its single result.

pub mod delay;
pub mod encode;
pub mod keymap;
pub mod typing;
