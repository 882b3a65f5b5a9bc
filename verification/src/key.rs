//! The keys that the application listens to.

use vstd::prelude::*;

verus! {

/// A key. Those that mean nothing to the application are all `Other`.
#[derive(Debug, Clone, Copy, PartialEq, Eq, Structural)]
pub enum KeyCode {
    Char(char),
    Enter,
    Tab,
    Up,
    Down,
    PageUp,
    PageDown,
    Other,
}

/// What happened to a key.
#[derive(Debug, Clone, Copy, PartialEq, Eq, Structural)]
pub enum KeyEventKind {
    Press,
    Repeat,
    Release,
}

/// An event of a key, with the control key held down or not.
#[derive(Debug, Clone, Copy, PartialEq, Eq, Structural)]
pub struct KeyEvent {
    pub code: KeyCode,
    pub control: bool,
    pub kind: KeyEventKind,
}

} // verus!
