//! The frame engine of an immediate-mode user interface.
pub mod color;
pub mod context;
pub mod id;
pub mod input;
pub mod layout;
pub mod math;
pub mod pool;
pub mod style;
pub mod widget;

pub use color::{color, Color};
pub use context::{Clip, Command, Container, Context, Icon, ResourceState};
pub use id::Id;
pub use input::{KeyMode, MouseButton};
pub use layout::{Layout, LayoutPosition};
pub use math::{clamp, max, min, rect, vec2, Rect, Vec2};
pub use pool::Pool;
pub use style::{ControlColor, Font, FontId, Style, TextMetrics};
pub use widget::{Button, ButtonLabel, Header, Panel, Popup, TreeNode, WidgetOption, Window};
