//! Style configuration, colour roles and the font-metrics interface.
use vstd::prelude::*;
use crate::color::Color;
use crate::math::Vec2;

verus! {

/// A font handle that the renderer understands.
#[derive(Clone, Copy, Debug, Default, PartialEq, Eq, Structural)]
pub struct FontId(pub usize);

/// Text measurement, supplied by whoever renders the commands.
pub trait TextMetrics {
    /// Width of one character in the given font.
    fn char_width(&self, font: FontId, c: char) -> usize;

    /// Height of one line in the given font.
    fn font_height(&self, font: FontId) -> usize;
}

/// A font as a renderer may describe it.
pub trait Font {
    fn name(&self) -> &str;

    fn get_size(&self) -> usize;

    fn get_char_size(&self, c: char) -> (usize, usize);
}

/// The semantic roles of the style's colour table.
#[derive(Clone, Copy, Debug, PartialEq, Eq, Structural)]
pub enum ControlColor {
    Text,
    Border,
    WindowBG,
    TitleBG,
    TitleText,
    PanelBG,
    Button,
    ButtonHover,
    ButtonFocus,
    Base,
    BaseHover,
    BaseFocus,
    ScrollBase,
    ScrollThumb,
}

/// Number of colour roles.
pub const COLOR_COUNT: usize = 14;

impl ControlColor {
    pub open spec fn spec_index(self) -> nat {
        match self {
            ControlColor::Text => 0,
            ControlColor::Border => 1,
            ControlColor::WindowBG => 2,
            ControlColor::TitleBG => 3,
            ControlColor::TitleText => 4,
            ControlColor::PanelBG => 5,
            ControlColor::Button => 6,
            ControlColor::ButtonHover => 7,
            ControlColor::ButtonFocus => 8,
            ControlColor::Base => 9,
            ControlColor::BaseHover => 10,
            ControlColor::BaseFocus => 11,
            ControlColor::ScrollBase => 12,
            ControlColor::ScrollThumb => 13,
        }
    }

    /// The role's slot in the colour table.
    pub fn index(&self) -> (r: usize)
        ensures
            r == self.spec_index(),
            r < COLOR_COUNT,
    {
        match self {
            ControlColor::Text => 0,
            ControlColor::Border => 1,
            ControlColor::WindowBG => 2,
            ControlColor::TitleBG => 3,
            ControlColor::TitleText => 4,
            ControlColor::PanelBG => 5,
            ControlColor::Button => 6,
            ControlColor::ButtonHover => 7,
            ControlColor::ButtonFocus => 8,
            ControlColor::Base => 9,
            ControlColor::BaseHover => 10,
            ControlColor::BaseFocus => 11,
            ControlColor::ScrollBase => 12,
            ControlColor::ScrollThumb => 13,
        }
    }

    /// The role drawn while the control is hovered.
    pub open spec fn hovered(self) -> ControlColor {
        match self {
            ControlColor::Base => ControlColor::BaseHover,
            ControlColor::Button => ControlColor::ButtonHover,
            _ => self,
        }
    }

    /// The role drawn while the control has focus.
    pub open spec fn focused(self) -> ControlColor {
        match self {
            ControlColor::Base => ControlColor::BaseFocus,
            ControlColor::Button => ControlColor::ButtonFocus,
            ControlColor::BaseHover => ControlColor::BaseFocus,
            ControlColor::ButtonHover => ControlColor::ButtonFocus,
            _ => self,
        }
    }

    pub fn hover(&mut self)
        ensures
            *final(self) == old(self).hovered(),
    {
        *self = match *self {
            ControlColor::Base => ControlColor::BaseHover,
            ControlColor::Button => ControlColor::ButtonHover,
            other => other,
        };
    }

    pub fn focus(&mut self)
        ensures
            *final(self) == old(self).focused(),
    {
        *self = match *self {
            ControlColor::Base => ControlColor::BaseFocus,
            ControlColor::Button => ControlColor::ButtonFocus,
            ControlColor::BaseHover => ControlColor::BaseFocus,
            ControlColor::ButtonHover => ControlColor::ButtonFocus,
            other => other,
        };
    }
}

/// Sizes, spacing and colours that widgets are drawn with.
#[derive(Clone, Copy, Debug)]
pub struct Style {
    pub font: FontId,
    pub size: Vec2,
    pub padding: i32,
    pub spacing: i32,
    pub indent: i32,
    pub title_height: i32,
    pub scrollbar_size: i32,
    pub thumb_size: i32,
    pub colors: [Color; 14],
}

impl Style {
    /// The colour of a role.
    pub fn color(&self, role: ControlColor) -> (c: Color)
        ensures
            c == self.colors[role.spec_index() as int],
    {
        self.colors[role.index()]
    }
}

impl Default for Style {
    fn default() -> (s: Style)
        ensures
            s.font == FontId(0),
            s.size == (Vec2 { x: 68, y: 10 }),
            s.padding == 5,
            s.spacing == 4,
            s.indent == 24,
            s.title_height == 24,
            s.scrollbar_size == 12,
            s.thumb_size == 8,
            s.colors[ControlColor::Border.spec_index() as int].a == 255,
    {
        Style {
            font: FontId(0),
            size: Vec2 { x: 68, y: 10 },
            padding: 5,
            spacing: 4,
            indent: 24,
            title_height: 24,
            scrollbar_size: 12,
            thumb_size: 8,
            colors: [
                Color { r: 230, g: 230, b: 230, a: 255 },
                Color { r: 25, g: 25, b: 25, a: 255 },
                Color { r: 50, g: 50, b: 50, a: 255 },
                Color { r: 25, g: 25, b: 25, a: 255 },
                Color { r: 240, g: 240, b: 240, a: 255 },
                Color { r: 0, g: 0, b: 0, a: 0 },
                Color { r: 75, g: 75, b: 75, a: 255 },
                Color { r: 95, g: 95, b: 95, a: 255 },
                Color { r: 115, g: 115, b: 115, a: 255 },
                Color { r: 30, g: 30, b: 30, a: 255 },
                Color { r: 35, g: 35, b: 35, a: 255 },
                Color { r: 40, g: 40, b: 40, a: 255 },
                Color { r: 43, g: 43, b: 43, a: 255 },
                Color { r: 30, g: 30, b: 30, a: 255 },
            ],
        }
    }
}

} // verus!
