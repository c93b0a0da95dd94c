//! Widget options and the widget builders.
use vstd::prelude::*;

pub mod button;
pub mod controls;
pub mod header;
pub mod panel;
pub mod tree;
pub mod window;

pub use button::{Button, ButtonLabel};
pub use header::Header;
pub use panel::Panel;
pub use tree::TreeNode;
pub use window::{Popup, Window};

verus! {

/// Options that change how a widget behaves or looks, as a set of bits.
#[derive(Clone, Copy, Debug, Default, PartialEq, Eq, Structural)]
pub struct WidgetOption {
    pub bits: u32,
}

impl WidgetOption {
    pub const ALIGN_CENTER: u32 = 1;
    pub const ALIGN_RIGHT: u32 = 2;
    pub const NO_INTERACT: u32 = 4;
    pub const NO_FRAME: u32 = 8;
    pub const NO_RESIZE: u32 = 16;
    pub const NO_SCROLL: u32 = 32;
    pub const NO_CLOSE: u32 = 64;
    pub const NO_TITLE: u32 = 128;
    pub const HOLD_FOCUS: u32 = 256;
    pub const AUTO_SIZE: u32 = 512;
    pub const POPUP: u32 = 1024;
    pub const CLOSED: u32 = 2048;
    pub const EXPANDED: u32 = 4096;

    pub open spec fn has(self, flag: u32) -> bool {
        self.bits & flag != 0
    }

    /// No flag set.
    pub fn empty() -> (r: Self)
        ensures
            r.bits == 0,
    {
        WidgetOption { bits: 0 }
    }

    pub fn from_bits(bits: u32) -> (r: Self)
        ensures
            r.bits == bits,
    {
        WidgetOption { bits }
    }

    pub fn bits(&self) -> (r: u32)
        ensures
            r == self.bits,
    {
        self.bits
    }

    /// The flags set in either operand.
    pub fn union(self, other: Self) -> (r: Self)
        ensures
            r.bits == self.bits | other.bits,
    {
        WidgetOption { bits: self.bits | other.bits }
    }

    /// The flags of `self` that `other` does not set.
    pub fn difference(self, other: Self) -> (r: Self)
        ensures
            r.bits == self.bits & !other.bits,
    {
        WidgetOption { bits: self.bits & !other.bits }
    }

    /// Whether the two share a flag.
    pub fn intersects(&self, other: Self) -> (r: bool)
        ensures
            r == (self.bits & other.bits != 0),
    {
        self.bits & other.bits != 0
    }

    pub fn is_expanded(&self) -> (r: bool)
        ensures
            r == self.has(WidgetOption::EXPANDED),
    {
        self.bits & WidgetOption::EXPANDED != 0
    }

    pub fn is_closed(&self) -> (r: bool)
        ensures
            r == self.has(WidgetOption::CLOSED),
    {
        self.bits & WidgetOption::CLOSED != 0
    }

    pub fn is_popup(&self) -> (r: bool)
        ensures
            r == self.has(WidgetOption::POPUP),
    {
        self.bits & WidgetOption::POPUP != 0
    }

    pub fn is_auto_sizing(&self) -> (r: bool)
        ensures
            r == self.has(WidgetOption::AUTO_SIZE),
    {
        self.bits & WidgetOption::AUTO_SIZE != 0
    }

    pub fn is_holding_focus(&self) -> (r: bool)
        ensures
            r == self.has(WidgetOption::HOLD_FOCUS),
    {
        self.bits & WidgetOption::HOLD_FOCUS != 0
    }

    pub fn has_no_title(&self) -> (r: bool)
        ensures
            r == self.has(WidgetOption::NO_TITLE),
    {
        self.bits & WidgetOption::NO_TITLE != 0
    }

    pub fn has_no_close(&self) -> (r: bool)
        ensures
            r == self.has(WidgetOption::NO_CLOSE),
    {
        self.bits & WidgetOption::NO_CLOSE != 0
    }

    pub fn has_no_scroll(&self) -> (r: bool)
        ensures
            r == self.has(WidgetOption::NO_SCROLL),
    {
        self.bits & WidgetOption::NO_SCROLL != 0
    }

    pub fn is_fixed(&self) -> (r: bool)
        ensures
            r == self.has(WidgetOption::NO_RESIZE),
    {
        self.bits & WidgetOption::NO_RESIZE != 0
    }

    pub fn has_no_frame(&self) -> (r: bool)
        ensures
            r == self.has(WidgetOption::NO_FRAME),
    {
        self.bits & WidgetOption::NO_FRAME != 0
    }

    pub fn is_not_interactive(&self) -> (r: bool)
        ensures
            r == self.has(WidgetOption::NO_INTERACT),
    {
        self.bits & WidgetOption::NO_INTERACT != 0
    }

    pub fn is_aligned_right(&self) -> (r: bool)
        ensures
            r == self.has(WidgetOption::ALIGN_RIGHT),
    {
        self.bits & WidgetOption::ALIGN_RIGHT != 0
    }

    pub fn is_aligned_center(&self) -> (r: bool)
        ensures
            r == self.has(WidgetOption::ALIGN_CENTER),
    {
        self.bits & WidgetOption::ALIGN_CENTER != 0
    }

    pub fn is_none(&self) -> (r: bool)
        ensures
            r == (self.bits == 0),
    {
        self.bits == 0
    }
}

} // verus!
