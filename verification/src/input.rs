//! Keys, mouse events and places on the screen.

use vstd::prelude::*;

verus! {

#[derive(Debug, Clone, Copy, PartialEq, Eq, Structural)]
pub enum KeyCode {
    Char(char),
    Esc,
    Enter,
    Tab,
    BackTab,
    Backspace,
    Left,
    Right,
    Up,
    Down,
    Home,
    End,
    PageUp,
    PageDown,
    /// A key that nothing is bound to.
    Other,
}

/// The modifiers that bindings look at.
#[derive(Debug, Clone, Copy, PartialEq, Eq, Structural)]
pub struct KeyModifiers {
    pub control: bool,
    pub shift: bool,
}

#[derive(Debug, Clone, Copy, PartialEq, Eq, Structural)]
pub struct KeyEvent {
    pub code: KeyCode,
    pub modifiers: KeyModifiers,
}

impl KeyEvent {
    pub fn new(code: KeyCode, modifiers: KeyModifiers) -> (r: KeyEvent)
        ensures
            r.code == code,
            r.modifiers == modifiers,
    {
        KeyEvent { code, modifiers }
    }
}

#[derive(Debug, Clone, Copy, PartialEq, Eq, Structural)]
pub enum MouseButton {
    Left,
    Right,
    Middle,
}

#[derive(Debug, Clone, Copy, PartialEq, Eq, Structural)]
pub enum MouseEventKind {
    Down(MouseButton),
    Up(MouseButton),
    Drag(MouseButton),
    Moved,
    ScrollDown,
    ScrollUp,
    ScrollLeft,
    ScrollRight,
}

#[derive(Debug, Clone, Copy, PartialEq, Eq, Structural)]
pub struct MouseEvent {
    pub kind: MouseEventKind,
    pub column: u16,
    pub row: u16,
    pub modifiers: KeyModifiers,
}

/// A rectangle of screen cells.
#[derive(Debug, Clone, Copy, PartialEq, Eq, Structural)]
pub struct Rect {
    pub x: u16,
    pub y: u16,
    pub width: u16,
    pub height: u16,
}

/// A coordinate, held to the largest there is.
pub open spec fn capped(n: int) -> int {
    if n > u16::MAX {
        u16::MAX as int
    } else {
        n
    }
}

impl Rect {
    /// The part of a rectangle that has coordinates.
    pub fn new(x: u16, y: u16, width: u16, height: u16) -> (r: Rect)
        ensures
            r.x == x,
            r.y == y,
            x + r.width == capped(x + width),
            y + r.height == capped(y + height),
    {
        Rect { x, y, width: x.saturating_add(width) - x, height: y.saturating_add(height) - y }
    }

    /// First column to the right of the rectangle.
    pub open spec fn end_x(self) -> int {
        capped(self.x + self.width)
    }

    /// First row below the rectangle.
    pub open spec fn end_y(self) -> int {
        capped(self.y + self.height)
    }

    /// The cell is inside.
    pub open spec fn covers(self, column: u16, row: u16) -> bool {
        self.x <= column < self.end_x() && self.y <= row < self.end_y()
    }

    /// First row below the rectangle.
    pub fn bottom(self) -> (r: u16)
        ensures
            r == self.end_y(),
    {
        self.y.saturating_add(self.height)
    }

    /// First column to the right of the rectangle.
    pub fn right(self) -> (r: u16)
        ensures
            r == self.end_x(),
    {
        self.x.saturating_add(self.width)
    }

    /// Whether the cell at `column` and `row` is inside.
    pub fn contains(self, column: u16, row: u16) -> (r: bool)
        ensures
            r == self.covers(column, row),
    {
        self.x <= column && column < self.right() && self.y <= row && row < self.bottom()
    }
}

impl Default for Rect {
    fn default() -> (r: Self)
        ensures
            r == (Rect { x: 0, y: 0, width: 0, height: 0 }),
    {
        Rect { x: 0, y: 0, width: 0, height: 0 }
    }
}

} // verus!
