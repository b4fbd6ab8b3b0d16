//! The keys that the editor reacts to.

use vstd::prelude::*;

verus! {

/// A key, as far as the editor tells keys apart.
#[derive(Debug, Clone, Copy, PartialEq, Eq, Structural)]
pub enum KeyCode {
    Backspace,
    Enter,
    Left,
    Right,
    Up,
    Down,
    Home,
    End,
    Tab,
    Delete,
    Esc,
    Char(char),
    Other,
}

/// What happened to the key.
#[derive(Debug, Clone, Copy, PartialEq, Eq, Structural)]
pub enum KeyEventKind {
    Press,
    Repeat,
    Release,
}

/// The modifier bit of the shift key.
pub const SHIFT: u8 = 0b0000_0001;

/// The modifier bit of the control key.
pub const CONTROL: u8 = 0b0000_0010;

/// A key event: the key, the modifier bits that were set, and what happened to the key.
#[derive(Debug, Clone, Copy, PartialEq, Eq, Structural)]
pub struct KeyEvent {
    pub code: KeyCode,
    pub modifiers: u8,
    pub kind: KeyEventKind,
}

/// Whether all bits of `flags` are set in `modifiers`.
pub open spec fn has_flags(modifiers: u8, flags: u8) -> bool {
    modifiers & flags == flags
}

/// `crossterm::event::KeyModifiers::contains`, on modifiers made from their bits: whether every
/// bit of `flags` is also set in `modifiers`.
#[verifier::external_body]
fn modifiers_contain(modifiers: u8, flags: u8) -> (result: bool)
    ensures
        result == has_flags(modifiers, flags),
{
    crossterm::event::KeyModifiers::from_bits_retain(modifiers).contains(
        crossterm::event::KeyModifiers::from_bits_retain(flags),
    )
}

impl KeyEvent {
    /// The press of a key.
    pub fn new(code: KeyCode, modifiers: u8) -> (key: KeyEvent)
        ensures
            key == (KeyEvent { code, modifiers, kind: KeyEventKind::Press }),
    {
        KeyEvent { code, modifiers, kind: KeyEventKind::Press }
    }

    /// Whether the control key was held.
    pub open spec fn control(self) -> bool {
        has_flags(self.modifiers, CONTROL)
    }

    /// Whether the shift key was held.
    pub open spec fn shift(self) -> bool {
        has_flags(self.modifiers, SHIFT)
    }

    /// Whether the control key was held.
    pub fn has_control(&self) -> (result: bool)
        ensures
            result == self.control(),
    {
        modifiers_contain(self.modifiers, CONTROL)
    }

    /// Whether the shift key was held.
    pub fn has_shift(&self) -> (result: bool)
        ensures
            result == self.shift(),
    {
        modifiers_contain(self.modifiers, SHIFT)
    }

    /// Whether the key was released.
    pub open spec fn is_release(self) -> bool {
        self.kind == KeyEventKind::Release
    }

    /// Whether the key went down or is held down: releases are not acted on.
    pub fn is_down(&self) -> (result: bool)
        ensures
            result == !self.is_release(),
    {
        match self.kind {
            KeyEventKind::Press | KeyEventKind::Repeat => true,
            KeyEventKind::Release => false,
        }
    }
}

} // verus!
