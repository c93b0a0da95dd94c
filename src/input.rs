//! Input state: mouse buttons and keys.
use vstd::prelude::*;
use vstd::string::StringExecFns;
use crate::context::Context;
use crate::math::{sat, sat_add, Vec2};
use crate::style::TextMetrics;

verus! {

/// The mouse buttons held or pressed, as a set of bits.
#[derive(Clone, Copy, Debug, Default, PartialEq, Eq, Structural)]
pub struct MouseButton {
    pub bits: u32,
}

impl MouseButton {
    pub const LEFT: u32 = 1;
    pub const RIGHT: u32 = 2;
    pub const MIDDLE: u32 = 4;

    pub open spec fn has(self, flag: u32) -> bool {
        self.bits & flag != 0
    }

    /// No flag set.
    pub fn empty() -> (r: Self)
        ensures
            r.bits == 0,
    {
        MouseButton { bits: 0 }
    }

    pub fn from_bits(bits: u32) -> (r: Self)
        ensures
            r.bits == bits,
    {
        MouseButton { bits }
    }

    pub fn bits(&self) -> (r: u32)
        ensures
            r == self.bits,
    {
        self.bits
    }

    /// The flags set in either operand.
    pub fn union(self, other: Self) -> (r: Self)
        ensures
            r.bits == self.bits | other.bits,
    {
        MouseButton { bits: self.bits | other.bits }
    }

    /// The flags of `self` that `other` does not set.
    pub fn difference(self, other: Self) -> (r: Self)
        ensures
            r.bits == self.bits & !other.bits,
    {
        MouseButton { bits: self.bits & !other.bits }
    }

    /// Whether the two share a flag.
    pub fn intersects(&self, other: Self) -> (r: bool)
        ensures
            r == (self.bits & other.bits != 0),
    {
        self.bits & other.bits != 0
    }

    pub fn is_middle(&self) -> (r: bool)
        ensures
            r == self.has(MouseButton::MIDDLE),
    {
        self.bits & MouseButton::MIDDLE != 0
    }

    pub fn is_right(&self) -> (r: bool)
        ensures
            r == self.has(MouseButton::RIGHT),
    {
        self.bits & MouseButton::RIGHT != 0
    }

    pub fn is_left(&self) -> (r: bool)
        ensures
            r == self.has(MouseButton::LEFT),
    {
        self.bits & MouseButton::LEFT != 0
    }

    pub fn left() -> (r: Self)
        ensures
            r.bits == MouseButton::LEFT,
    {
        MouseButton { bits: MouseButton::LEFT }
    }

    pub fn right() -> (r: Self)
        ensures
            r.bits == MouseButton::RIGHT,
    {
        MouseButton { bits: MouseButton::RIGHT }
    }

    pub fn middle() -> (r: Self)
        ensures
            r.bits == MouseButton::MIDDLE,
    {
        MouseButton { bits: MouseButton::MIDDLE }
    }

    pub fn is_none(&self) -> (r: bool)
        ensures
            r == (self.bits == 0),
    {
        self.bits == 0
    }
}

/// The modifier and editing keys held or pressed, as a set of bits.
#[derive(Clone, Copy, Debug, Default, PartialEq, Eq, Structural)]
pub struct KeyMode {
    pub bits: u32,
}

impl KeyMode {
    pub const SHIFT: u32 = 1;
    pub const CTRL: u32 = 2;
    pub const ALT: u32 = 4;
    pub const BACKSPACE: u32 = 8;
    pub const RETURN: u32 = 16;

    pub open spec fn has(self, flag: u32) -> bool {
        self.bits & flag != 0
    }

    /// No flag set.
    pub fn empty() -> (r: Self)
        ensures
            r.bits == 0,
    {
        KeyMode { bits: 0 }
    }

    pub fn from_bits(bits: u32) -> (r: Self)
        ensures
            r.bits == bits,
    {
        KeyMode { bits }
    }

    pub fn bits(&self) -> (r: u32)
        ensures
            r == self.bits,
    {
        self.bits
    }

    /// The flags set in either operand.
    pub fn union(self, other: Self) -> (r: Self)
        ensures
            r.bits == self.bits | other.bits,
    {
        KeyMode { bits: self.bits | other.bits }
    }

    /// The flags of `self` that `other` does not set.
    pub fn difference(self, other: Self) -> (r: Self)
        ensures
            r.bits == self.bits & !other.bits,
    {
        KeyMode { bits: self.bits & !other.bits }
    }

    /// Whether the two share a flag.
    pub fn intersects(&self, other: Self) -> (r: bool)
        ensures
            r == (self.bits & other.bits != 0),
    {
        self.bits & other.bits != 0
    }

    pub fn is_return(&self) -> (r: bool)
        ensures
            r == self.has(KeyMode::RETURN),
    {
        self.bits & KeyMode::RETURN != 0
    }

    pub fn is_backspace(&self) -> (r: bool)
        ensures
            r == self.has(KeyMode::BACKSPACE),
    {
        self.bits & KeyMode::BACKSPACE != 0
    }

    pub fn is_alt(&self) -> (r: bool)
        ensures
            r == self.has(KeyMode::ALT),
    {
        self.bits & KeyMode::ALT != 0
    }

    pub fn is_ctrl(&self) -> (r: bool)
        ensures
            r == self.has(KeyMode::CTRL),
    {
        self.bits & KeyMode::CTRL != 0
    }

    pub fn is_shift(&self) -> (r: bool)
        ensures
            r == self.has(KeyMode::SHIFT),
    {
        self.bits & KeyMode::SHIFT != 0
    }

    pub fn is_none(&self) -> (r: bool)
        ensures
            r == (self.bits == 0),
    {
        self.bits == 0
    }
}

impl<M: TextMetrics> Context<M> {
    /// The pointer moved to `(x, y)`.
    pub fn input_mousemove(&mut self, x: i32, y: i32)
        ensures
            *final(self) == (Context { mouse_pos: Vec2 { x, y }, ..*old(self) }),
    {
        self.mouse_pos = Vec2 { x, y };
    }

    /// Buttons went down: they are held, and pressed for this frame.
    pub fn input_mousedown(&mut self, btn: MouseButton)
        ensures
            *final(self) == (Context {
                mouse_down: MouseButton { bits: old(self).mouse_down.bits | btn.bits },
                mouse_pressed: MouseButton { bits: old(self).mouse_pressed.bits | btn.bits },
                ..*old(self)
            }),
    {
        self.mouse_down = self.mouse_down.union(btn);
        self.mouse_pressed = self.mouse_pressed.union(btn);
    }

    /// Buttons went up: they are no longer held.
    pub fn input_mouseup(&mut self, btn: MouseButton)
        ensures
            *final(self) == (Context {
                mouse_down: MouseButton { bits: old(self).mouse_down.bits & !btn.bits },
                ..*old(self)
            }),
    {
        self.mouse_down = self.mouse_down.difference(btn);
    }

    /// The wheel turned; deltas add up until the frame ends.
    pub fn input_scroll(&mut self, x: i32, y: i32)
        ensures
            *final(self) == (Context {
                scroll_delta: Vec2 {
                    x: sat(old(self).scroll_delta.x + x) as i32,
                    y: sat(old(self).scroll_delta.y + y) as i32,
                },
                ..*old(self)
            }),
    {
        self.scroll_delta.x = sat_add(self.scroll_delta.x, x);
        self.scroll_delta.y = sat_add(self.scroll_delta.y, y);
    }

    /// Keys went down: they are held, and pressed for this frame.
    pub fn input_keydown(&mut self, key: KeyMode)
        ensures
            *final(self) == (Context {
                key_down: KeyMode { bits: old(self).key_down.bits | key.bits },
                key_pressed: KeyMode { bits: old(self).key_pressed.bits | key.bits },
                ..*old(self)
            }),
    {
        self.key_pressed = self.key_pressed.union(key);
        self.key_down = self.key_down.union(key);
    }

    /// Keys went up: they are no longer held.
    pub fn input_keyup(&mut self, key: KeyMode)
        ensures
            *final(self) == (Context { key_down: KeyMode { bits: old(self).key_down.bits & !key.bits }, ..*old(self) }),
    {
        self.key_down = self.key_down.difference(key);
    }

    /// Text was typed; it adds to the frame's input text.
    pub fn input_text(&mut self, text: &str)
        ensures
            final(self).input_text@ == old(self).input_text@ + text@,
            *final(self) == (Context { input_text: final(self).input_text, ..*old(self) }),
    {
        self.input_text.append(text);
    }
}

} // verus!
