use microui::context::count_lines;
use microui::{
    clamp, color, max, min, rect, vec2, Color, ControlColor, KeyMode, Layout, MouseButton, Rect, Style, WidgetOption,
};

#[test]
fn rect_intersect_overlapping() {
    let a = rect(0, 0, 10, 10);
    let b = rect(5, 5, 10, 10);
    assert_eq!(a.intersect(b), rect(5, 5, 5, 5));
}

#[test]
fn rect_intersect_disjoint_is_empty() {
    let a = rect(0, 0, 10, 10);
    let b = rect(20, 30, 5, 5);
    let r = a.intersect(b);
    assert_eq!(r, rect(20, 30, 0, 0));
}

#[test]
fn rect_intersect_saturates_instead_of_overflowing() {
    let a = rect(i32::MAX - 1, 0, 10, 10);
    let b = rect(0, 0, i32::MAX, 10);
    let r = a.intersect(b);
    assert_eq!(r.x, i32::MAX - 1);
    assert_eq!(r.w, 1);
}

#[test]
fn rect_expand_both_ways() {
    let r = rect(10, 20, 30, 40);
    assert_eq!(r.expand(1), rect(9, 19, 32, 42));
    assert_eq!(r.expand(-5), rect(15, 25, 20, 30));
}

#[test]
fn rect_overlaps_edges() {
    let r = rect(10, 10, 5, 5);
    assert!(r.overlaps(vec2(10, 10)));
    assert!(r.overlaps(vec2(14, 14)));
    assert!(!r.overlaps(vec2(15, 10)));
    assert!(!r.overlaps(vec2(10, 15)));
    assert!(!r.overlaps(vec2(9, 12)));
}

#[test]
fn min_max_clamp() {
    assert_eq!(min(3, -2), -2);
    assert_eq!(max(3, -2), 3);
    assert_eq!(clamp(5, 0, 3), 3);
    assert_eq!(clamp(-5, 0, 3), 0);
    assert_eq!(clamp(2, 0, 3), 2);
}

#[test]
fn unclipped_rect_is_large() {
    assert_eq!(Rect::unclipped(), rect(0, 0, 0x1000000, 0x1000000));
    assert_eq!(Rect::zero(), Rect::default());
}

#[test]
fn color_hex_round_trip() {
    let c = Color::hex(0x11223344);
    assert_eq!(c, Color::rgba(0x11, 0x22, 0x33, 0x44));
    assert_eq!(c.to_hex(), 0x11223344);
    assert_eq!(Color::rgb(1, 2, 3).to_hex(), 0x010203ff);
    assert_eq!(color(9, 8, 7, 6), Color { r: 9, g: 8, b: 7, a: 6 });
}

#[test]
fn mouse_button_flags() {
    let b = MouseButton::left().union(MouseButton::middle());
    assert!(b.is_left());
    assert!(b.is_middle());
    assert!(!b.is_right());
    assert!(!b.is_none());
    let c = b.difference(MouseButton::left());
    assert!(!c.is_left());
    assert!(c.is_middle());
    assert!(MouseButton::empty().is_none());
}

#[test]
fn key_mode_flags() {
    let k = KeyMode::from_bits(KeyMode::SHIFT | KeyMode::RETURN);
    assert!(k.is_shift());
    assert!(k.is_return());
    assert!(!k.is_ctrl());
    assert!(!k.is_alt());
    assert!(!k.is_backspace());
    assert!(KeyMode::empty().is_none());
}

#[test]
fn widget_option_flags() {
    let o = WidgetOption::from_bits(WidgetOption::NO_TITLE | WidgetOption::ALIGN_CENTER | WidgetOption::NO_RESIZE);
    assert!(o.has_no_title());
    assert!(o.is_aligned_center());
    assert!(o.is_fixed());
    assert!(!o.is_aligned_right());
    assert!(!o.is_popup());
    assert!(!o.has_no_close());
    assert!(!o.has_no_scroll());
    assert!(!o.has_no_frame());
    assert!(!o.is_not_interactive());
    assert!(!o.is_holding_focus());
    assert!(!o.is_auto_sizing());
    assert!(!o.is_closed());
    assert!(!o.is_expanded());
    assert!(!o.is_none());
    assert!(WidgetOption::empty().is_none());
}

#[test]
fn color_conversions() {
    let c: Color = (1u8, 2u8, 3u8, 4u8).into();
    assert_eq!(c, Color::rgba(1, 2, 3, 4));
    let d: Color = [5u8, 6, 7, 8].into();
    assert_eq!(d, Color::rgba(5, 6, 7, 8));
    let a: [u8; 4] = d.into();
    assert_eq!(a, [5, 6, 7, 8]);
}

#[test]
fn control_color_variants() {
    let mut c = ControlColor::Base;
    c.hover();
    assert_eq!(c, ControlColor::BaseHover);
    c.focus();
    assert_eq!(c, ControlColor::BaseFocus);
    let mut t = ControlColor::Text;
    t.hover();
    t.focus();
    assert_eq!(t, ControlColor::Text);
    let mut b = ControlColor::Button;
    b.focus();
    assert_eq!(b, ControlColor::ButtonFocus);
    assert_eq!(ControlColor::ScrollThumb.index(), 13);
}

#[test]
fn default_style_values() {
    let s = Style::default();
    assert_eq!(s.size, vec2(68, 10));
    assert_eq!(s.padding, 5);
    assert_eq!(s.spacing, 4);
    assert_eq!(s.indent, 24);
    assert_eq!(s.title_height, 24);
    assert_eq!(s.scrollbar_size, 12);
    assert_eq!(s.thumb_size, 8);
    assert_eq!(s.color(ControlColor::Text), Color::rgba(230, 230, 230, 255));
    assert_eq!(s.color(ControlColor::PanelBG), Color::rgba(0, 0, 0, 0));
}

#[test]
fn layout_row_declares_columns() {
    let mut l = Layout {
        body: rect(0, 0, 100, 100),
        next: Rect::zero(),
        position: vec2(0, 0),
        size: vec2(7, 0),
        max: vec2(0, 0),
        widths: [9; 16],
        items: 0,
        item_index: 3,
        next_row: 40,
        next_type: microui::LayoutPosition::Auto,
        indent: 12,
    };
    l.row(&[10, 20], 30);
    assert_eq!(l.items, 2);
    assert_eq!(l.item_index, 0);
    assert_eq!(l.position, vec2(12, 40));
    assert_eq!(l.size, vec2(7, 30));
    assert_eq!(l.widths[..3], [10, 20, 9]);
}

#[test]
fn line_counting() {
    assert_eq!(count_lines(""), 0);
    assert_eq!(count_lines("a"), 1);
    assert_eq!(count_lines("a\n"), 1);
    assert_eq!(count_lines("a\n\nb"), 3);
    assert_eq!(count_lines("\n"), 1);
}
