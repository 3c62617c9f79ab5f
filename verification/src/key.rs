//! What the keyboard tells.
use vstd::prelude::*;

verus! {

/// A key.
#[derive(Debug, Clone, Copy, PartialEq, Eq, Structural)]
pub enum KeyCode {
    Char(char),
    Enter,
    Esc,
    Tab,
    BackTab,
    Up,
    Down,
    Left,
    Right,
    Home,
    End,
    Backspace,
    Delete,
    /// A key that nothing depends on.
    Other,
}

/// What happened to a key.
#[derive(Debug, Clone, Copy, PartialEq, Eq, Structural)]
pub enum KeyKind {
    Press,
    Repeat,
    Release,
}

/// A key, what happened to it, and what was held down with it: the control key,
/// or any other key of that sort.
#[derive(Debug, Clone, Copy, PartialEq, Eq, Structural)]
pub struct KeyEvent {
    pub code: KeyCode,
    pub kind: KeyKind,
    pub control: bool,
    pub other_modifiers: bool,
}

/// Whether an event asks to leave the program at once: control and `c`, and
/// nothing else.
pub open spec fn interrupts(key: KeyEvent) -> bool {
    &&& key.kind != KeyKind::Release
    &&& key.code == KeyCode::Char('c')
    &&& key.control
    &&& !key.other_modifiers
}

/// Whether an event is to be handled. The release of a key is not.
pub open spec fn is_stroke(key: KeyEvent) -> bool {
    key.kind != KeyKind::Release && !interrupts(key)
}

impl KeyEvent {
    /// Whether the event asks to leave the program at once.
    pub fn is_interrupt(&self) -> (r: bool)
        ensures
            r == interrupts(*self),
    {
        self.kind != KeyKind::Release && self.code == KeyCode::Char('c') && self.control
            && !self.other_modifiers
    }

    /// Whether the event is to be handled.
    pub fn is_handled(&self) -> (r: bool)
        ensures
            r == is_stroke(*self),
    {
        self.kind != KeyKind::Release && !self.is_interrupt()
    }
}

/// Control and `c` leave the program when they are pressed or repeated, with no
/// other such key held down. Every other stroke is handled, and no release is.
pub proof fn every_stroke_is_handled_or_leaves(key: KeyEvent)
    ensures
        interrupts(key) <==> (key.kind == KeyKind::Press || key.kind == KeyKind::Repeat) && key.code
            == KeyCode::Char('c') && key.control && !key.other_modifiers,
        key.kind == KeyKind::Release ==> !interrupts(key) && !is_stroke(key),
        key.kind != KeyKind::Release ==> (is_stroke(key) <==> !interrupts(key)),
{
}

} // verus!
