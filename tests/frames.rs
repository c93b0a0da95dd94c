use microui::context::CONTAINER_COUNT;
use microui::{
    rect, vec2, Clip, Command, Context, FontId, Header, Icon, KeyMode, LayoutPosition, MouseButton, Panel, Popup,
    Rect, TextMetrics, TreeNode, WidgetOption, Window,
};

struct Mono;

impl TextMetrics for Mono {
    fn char_width(&self, _font: FontId, _c: char) -> usize {
        8
    }

    fn font_height(&self, _font: FontId) -> usize {
        10
    }
}

fn window_index(ctx: &mut Context<Mono>, title: &str) -> usize {
    let id = ctx.get_id_from_str(title);
    ctx.container_pool.get(id).expect("window registered")
}

/// One frame holding window `W` at (0, 0, 300, 300) with `body` drawn inside it.
fn frame_in_window<F: FnOnce(&mut Context<Mono>)>(ctx: &mut Context<Mono>, body: F) {
    ctx.begin();
    let w = Window::new("W").position(0, 0).size(300, 300);
    assert!(w.begin(ctx).is_active());
    body(ctx);
    ctx.end_window();
    ctx.end();
}

#[test]
fn window_dragged_by_title_moves() {
    let mut ctx = Context::new(Mono);
    let open = |ctx: &mut Context<Mono>| {
        ctx.begin();
        let w = Window::new("W").position(40, 40).size(300, 450);
        assert!(w.begin(ctx).is_active());
        ctx.end_window();
        ctx.end();
    };
    ctx.input_mousemove(100, 50);
    open(&mut ctx);
    open(&mut ctx);
    ctx.input_mousedown(MouseButton::left());
    open(&mut ctx);
    ctx.input_mousemove(110, 55);
    open(&mut ctx);
    let cnt = window_index(&mut ctx, "W");
    assert_eq!(ctx.containers[cnt].rect, rect(50, 45, 300, 450));
}

#[test]
fn window_rect_seeded_only_on_first_use() {
    let mut ctx = Context::new(Mono);
    ctx.begin();
    assert!(ctx.begin_window("A", rect(10, 20, 200, 100), WidgetOption::empty()).is_active());
    ctx.end_window();
    ctx.end();
    ctx.begin();
    assert!(ctx.begin_window("A", rect(99, 99, 50, 50), WidgetOption::empty()).is_active());
    ctx.end_window();
    ctx.end();
    let cnt = window_index(&mut ctx, "A");
    assert_eq!(ctx.containers[cnt].rect, rect(10, 20, 200, 100));
}

#[test]
fn window_resize_keeps_minimum() {
    let mut ctx = Context::new(Mono);
    let open = |ctx: &mut Context<Mono>| {
        ctx.begin();
        assert!(ctx.begin_window("R", rect(0, 0, 200, 200), WidgetOption::empty()).is_active());
        ctx.end_window();
        ctx.end();
    };
    ctx.input_mousemove(190, 190);
    open(&mut ctx);
    open(&mut ctx);
    ctx.input_mousedown(MouseButton::left());
    open(&mut ctx);
    ctx.input_mousemove(10, 10);
    open(&mut ctx);
    let cnt = window_index(&mut ctx, "R");
    assert_eq!(ctx.containers[cnt].rect, rect(0, 0, 96, 64));
}

#[test]
fn close_box_closes_window() {
    let mut ctx = Context::new(Mono);
    let open = |ctx: &mut Context<Mono>| {
        ctx.begin();
        let r = ctx.begin_window("C", rect(0, 0, 200, 200), WidgetOption::empty());
        if r.is_active() {
            ctx.end_window();
        }
        ctx.end();
        r.is_active()
    };
    ctx.input_mousemove(190, 10);
    assert!(open(&mut ctx));
    assert!(open(&mut ctx));
    ctx.input_mousedown(MouseButton::left());
    assert!(open(&mut ctx));
    let cnt = window_index(&mut ctx, "C");
    assert!(!ctx.containers[cnt].open);
    ctx.input_mouseup(MouseButton::left());
    assert!(!open(&mut ctx));
}

#[test]
fn popup_closes_on_press_outside() {
    let mut ctx = Context::new(Mono);
    ctx.input_mousemove(10, 10);
    ctx.begin();
    ctx.open_popup("P");
    assert!(Popup::new("P").begin(&mut ctx).is_active());
    ctx.end_window();
    ctx.end();
    let cnt = window_index(&mut ctx, "P");
    assert!(ctx.containers[cnt].open);
    ctx.input_mousemove(500, 500);
    ctx.begin();
    assert!(Popup::new("P").begin(&mut ctx).is_active());
    ctx.end_window();
    ctx.end();
    assert!(ctx.containers[cnt].open);
    ctx.input_mousedown(MouseButton::left());
    ctx.begin();
    assert!(Popup::new("P").begin(&mut ctx).is_active());
    ctx.end_window();
    ctx.end();
    assert!(!ctx.containers[cnt].open);
    ctx.begin();
    assert!(!Popup::new("P").begin(&mut ctx).is_active());
    ctx.end();
}

#[test]
fn closed_popup_is_not_shown_before_it_is_opened() {
    let mut ctx = Context::new(Mono);
    ctx.begin();
    assert!(Popup::new("Q").begin(&mut ctx).is_none());
    assert_eq!(ctx.container_stack.len(), 0);
    ctx.end();
}

#[test]
fn treenode_expands_on_click_and_persists() {
    let mut ctx = Context::new(Mono);
    let mut states = Vec::new();
    let mut node = |ctx: &mut Context<Mono>, states: &mut Vec<bool>| {
        frame_in_window(ctx, |ctx| {
            let r = TreeNode::new("T").begin(ctx);
            if r.is_active() {
                ctx.label("child");
                ctx.end_treenode();
            }
            states.push(r.is_active());
        });
    };
    ctx.input_mousemove(50, 35);
    node(&mut ctx, &mut states);
    node(&mut ctx, &mut states);
    ctx.input_mousedown(MouseButton::left());
    node(&mut ctx, &mut states);
    ctx.input_mouseup(MouseButton::left());
    node(&mut ctx, &mut states);
    node(&mut ctx, &mut states);
    assert_eq!(states, vec![false, false, true, true, true]);
    ctx.input_mousedown(MouseButton::left());
    node(&mut ctx, &mut states);
    ctx.input_mouseup(MouseButton::left());
    node(&mut ctx, &mut states);
    assert_eq!(states[5..], [false, false]);
}

#[test]
fn expanded_header_starts_open() {
    let mut ctx = Context::new(Mono);
    let mut seen = false;
    frame_in_window(&mut ctx, |ctx| {
        seen = Header::new("H").expanded().update(ctx).is_active();
    });
    assert!(seen);
    let mut plain = true;
    frame_in_window(&mut ctx, |ctx| {
        plain = ctx.header("G").update(ctx).is_active();
    });
    assert!(!plain);
}

#[test]
fn checkbox_flips_once_on_focused_press() {
    let mut ctx = Context::new(Mono);
    let mut state = false;
    let mut results = Vec::new();
    let mut run = |ctx: &mut Context<Mono>, state: &mut bool, results: &mut Vec<bool>| {
        frame_in_window(ctx, |ctx| {
            results.push(ctx.checkbox("check", state, 1).is_changed());
        });
    };
    ctx.input_mousemove(12, 35);
    run(&mut ctx, &mut state, &mut results);
    run(&mut ctx, &mut state, &mut results);
    assert!(!state);
    ctx.input_mousedown(MouseButton::left());
    run(&mut ctx, &mut state, &mut results);
    assert!(state);
    run(&mut ctx, &mut state, &mut results);
    assert!(state);
    assert_eq!(results, vec![false, false, true, false]);
}

#[test]
fn button_submits_on_focused_press() {
    let mut ctx = Context::new(Mono);
    let mut results = Vec::new();
    let mut run = |ctx: &mut Context<Mono>, results: &mut Vec<bool>| {
        frame_in_window(ctx, |ctx| {
            results.push(ctx.button("Go").update(ctx).is_submitted());
            results.push(ctx.button_icon(Icon::Check).update(ctx).is_submitted());
        });
    };
    ctx.input_mousemove(12, 35);
    run(&mut ctx, &mut results);
    run(&mut ctx, &mut results);
    ctx.input_mousedown(MouseButton::left());
    run(&mut ctx, &mut results);
    assert_eq!(results, vec![false, false, false, false, true, false]);
}

#[test]
fn textbox_edits_while_focused() {
    let mut ctx = Context::new(Mono);
    let mut buf = String::from("ab");
    let mut results = Vec::new();
    let mut run = |ctx: &mut Context<Mono>, buf: &mut String, results: &mut Vec<u32>| {
        frame_in_window(ctx, |ctx| {
            results.push(ctx.textbox_ex(buf, WidgetOption::empty(), 3).bits());
        });
    };
    ctx.input_mousemove(12, 35);
    run(&mut ctx, &mut buf, &mut results);
    run(&mut ctx, &mut buf, &mut results);
    ctx.input_mousedown(MouseButton::left());
    run(&mut ctx, &mut buf, &mut results);
    ctx.input_mouseup(MouseButton::left());
    ctx.input_text("cd");
    run(&mut ctx, &mut buf, &mut results);
    assert_eq!(buf, "abcd");
    ctx.input_keydown(KeyMode::from_bits(KeyMode::BACKSPACE));
    run(&mut ctx, &mut buf, &mut results);
    assert_eq!(buf, "abc");
    ctx.input_keyup(KeyMode::from_bits(KeyMode::BACKSPACE));
    ctx.input_keydown(KeyMode::from_bits(KeyMode::RETURN));
    run(&mut ctx, &mut buf, &mut results);
    assert_eq!(results, vec![0, 0, 0, 4, 4, 2]);
    assert_eq!(ctx.focus, None);
}

#[test]
fn row_cells_advance_by_width_and_spacing() {
    let mut ctx = Context::new(Mono);
    let mut cells = Vec::new();
    frame_in_window(&mut ctx, |ctx| {
        ctx.layout_row(&[50, 60, 70], 20);
        for _ in 0..4 {
            cells.push(ctx.layout_next());
        }
    });
    let sp = 4;
    assert_eq!(cells[0], rect(5, 29, 50, 20));
    assert_eq!(cells[1], rect(5 + 50 + sp, 29, 60, 20));
    assert_eq!(cells[2], rect(5 + 50 + sp + 60 + sp, 29, 70, 20));
    assert_eq!(cells[3], rect(5, 29 + 20 + sp, 50, 20));
    for w in cells[..3].windows(2) {
        assert!(w[0].x + w[0].w <= w[1].x);
        assert_eq!(w[0].y, w[1].y);
    }
}

#[test]
fn default_and_fill_sizes() {
    let mut ctx = Context::new(Mono);
    let mut cells = Vec::new();
    let mut body = Rect::zero();
    frame_in_window(&mut ctx, |ctx| {
        body = ctx.get_layout().body;
        ctx.layout_row(&[0, -1], 0);
        cells.push(ctx.layout_next());
        cells.push(ctx.layout_next());
        ctx.layout_row(&[-11], -1);
        cells.push(ctx.layout_next());
    });
    assert_eq!(cells[0], rect(body.x, body.y, 68 + 10, 10 + 10));
    assert_eq!(cells[1], rect(body.x + 82, body.y, body.w - 82, 20));
    assert_eq!(cells[2], rect(body.x, body.y + 24, body.w - 10, body.h - 24));
}

#[test]
fn set_next_absolute_and_relative() {
    let mut ctx = Context::new(Mono);
    let mut cells = Vec::new();
    frame_in_window(&mut ctx, |ctx| {
        ctx.layout_set_next(rect(1, 2, 3, 4), LayoutPosition::Absolute);
        cells.push(ctx.layout_next());
        ctx.layout_set_next(rect(1, 2, 3, 4), LayoutPosition::Relative);
        cells.push(ctx.layout_next());
    });
    assert_eq!(cells[0], rect(1, 2, 3, 4));
    assert_eq!(cells[1], rect(6, 31, 3, 4));
}

#[test]
fn columns_merge_into_parent() {
    let mut ctx = Context::new(Mono);
    let mut after = Rect::zero();
    frame_in_window(&mut ctx, |ctx| {
        ctx.layout_row(&[100, 100], 0);
        ctx.layout_begin_column();
        ctx.layout_row(&[-1], 30);
        ctx.layout_next();
        ctx.layout_next();
        ctx.layout_end_column();
        after = ctx.layout_next();
    });
    assert_eq!(after.x, 5 + 100 + 4);
    assert_eq!(after.y, 29);
}

#[test]
fn text_wraps_and_balances_layout() {
    let mut ctx = Context::new(Mono);
    frame_in_window(&mut ctx, |ctx| {
        ctx.text("hello world\nsecond line of text that is long enough to wrap around");
        assert_eq!(ctx.layout_stack.len(), 1);
        ctx.label("label");
    });
    let texts = ctx.commands().iter().filter(|c| matches!(c, Command::Text { .. })).count();
    assert!(texts >= 6);
}

#[test]
fn panel_nests_inside_window() {
    let mut ctx = Context::new(Mono);
    frame_in_window(&mut ctx, |ctx| {
        Panel::new("inner").options(WidgetOption::empty()).begin(ctx);
        assert_eq!(ctx.container_stack.len(), 2);
        ctx.label("x");
        ctx.end_panel();
        assert_eq!(ctx.container_stack.len(), 1);
    });
    assert_eq!(ctx.root_list.len(), 1);
}

#[test]
fn clip_classification() {
    let mut ctx = Context::new(Mono);
    ctx.push_clip_rect(rect(0, 0, 100, 100));
    assert!(ctx.check_clip(rect(10, 10, 10, 10)) == Clip::Inside);
    assert!(ctx.check_clip(rect(90, 90, 20, 20)) == Clip::Part);
    assert!(ctx.check_clip(rect(200, 200, 5, 5)) == Clip::All);
    ctx.push_clip_rect(rect(50, 50, 100, 100));
    assert_eq!(ctx.get_clip_rect(), rect(50, 50, 50, 50));
    ctx.pop_clip_rect();
    assert_eq!(ctx.get_clip_rect(), rect(0, 0, 100, 100));
}

#[test]
fn draw_rect_is_cut_to_clip() {
    let mut ctx = Context::new(Mono);
    ctx.push_clip_rect(rect(0, 0, 10, 10));
    let c = microui::Color::rgb(1, 2, 3);
    ctx.draw_rect(rect(5, 5, 10, 10), c);
    ctx.draw_rect(rect(50, 50, 10, 10), c);
    assert_eq!(ctx.command_list.len(), 1);
    match ctx.command_list[0] {
        Command::Rect { rect: r, .. } => assert_eq!(r, rect(5, 5, 5, 5)),
        _ => panic!("expected a rectangle"),
    }
    ctx.draw_icon(Icon::Close, rect(8, 8, 4, 4), c);
    assert_eq!(ctx.command_list.len(), 4);
    assert!(matches!(ctx.command_list[1], Command::Clip { .. }));
    assert!(matches!(ctx.command_list[2], Command::Icon { .. }));
    assert!(matches!(ctx.command_list[3], Command::Clip { rect: r } if r == Rect::unclipped()));
}

#[test]
fn text_arena_offsets() {
    let mut ctx = Context::new(Mono);
    assert_eq!(ctx.push_text("abc"), 0);
    assert_eq!(ctx.push_text("é"), 3);
    assert_eq!(ctx.push_text("x"), 5);
    assert_eq!(ctx.text_stack, "abcéx");
}

#[test]
fn text_measurement() {
    let ctx = Context::new(Mono);
    let f = FontId(0);
    assert_eq!(ctx.get_text_width(f, "abcd"), 32);
    assert_eq!(ctx.get_text_width(f, "ab\nabcd\nc"), 40);
    assert_eq!(ctx.get_text_height(f, "ab\nabcd\nc"), 30);
    assert_eq!(ctx.get_text_height(f, "a\n"), 10);
    assert_eq!(ctx.get_text_height(f, ""), 0);
}

#[test]
fn commands_follow_z_order() {
    let mut ctx = Context::new(Mono);
    let draw = |ctx: &mut Context<Mono>| {
        ctx.begin();
        for name in ["A", "B"] {
            assert!(ctx.begin_window(name, rect(0, 0, 100, 100), WidgetOption::empty()).is_active());
            ctx.end_window();
        }
        ctx.end();
    };
    draw(&mut ctx);
    let a = window_index(&mut ctx, "A");
    let b = window_index(&mut ctx, "B");
    assert!(ctx.containers[a].zindex < ctx.containers[b].zindex);
    assert_eq!(ctx.root_list, vec![a, b]);
    ctx.bring_to_front(a);
    draw(&mut ctx);
    assert_eq!(ctx.root_list, vec![b, a]);
    let cmds = ctx.commands();
    assert_eq!(cmds.len(), ctx.command_list.len());
    let head_a = ctx.containers[a].head_idx.unwrap();
    let tail_b = ctx.containers[b].tail_idx.unwrap();
    assert_eq!(head_a, 0);
    assert_eq!(tail_b, ctx.command_list.len());
}

#[test]
fn focus_cleared_when_not_confirmed() {
    let mut ctx = Context::new(Mono);
    ctx.begin();
    ctx.set_focus(Some(microui::Id(5)));
    ctx.end();
    assert_eq!(ctx.focus, Some(microui::Id(5)));
    ctx.begin();
    ctx.end();
    assert_eq!(ctx.focus, None);
}

#[test]
fn scroll_wheel_moves_hovered_container() {
    let mut ctx = Context::new(Mono);
    let draw = |ctx: &mut Context<Mono>| {
        ctx.begin();
        assert!(ctx.begin_window("S", rect(0, 0, 200, 100), WidgetOption::empty()).is_active());
        ctx.layout_row(&[-1], 400);
        ctx.layout_next();
        ctx.end_window();
        ctx.end();
    };
    ctx.input_mousemove(50, 50);
    draw(&mut ctx);
    draw(&mut ctx);
    ctx.input_scroll(0, 30);
    draw(&mut ctx);
    let s = window_index(&mut ctx, "S");
    assert_eq!(ctx.containers[s].scroll.y, 30);
    ctx.input_scroll(0, 100000);
    draw(&mut ctx);
    draw(&mut ctx);
    let max_scroll = ctx.containers[s].content_size.y + 10 - ctx.containers[s].body.h;
    assert_eq!(ctx.containers[s].scroll.y, max_scroll);
    assert_eq!(ctx.scroll_delta, vec2(0, 0));
    assert!(CONTAINER_COUNT == ctx.containers.len());
}

#[test]
fn input_events_accumulate() {
    let mut ctx = Context::new(Mono);
    ctx.input_mousedown(MouseButton::left());
    ctx.input_mousedown(MouseButton::right());
    assert!(ctx.mouse_down.is_left() && ctx.mouse_down.is_right());
    ctx.input_mouseup(MouseButton::left());
    assert!(!ctx.mouse_down.is_left());
    assert!(ctx.mouse_pressed.is_left());
    ctx.input_scroll(1, 2);
    ctx.input_scroll(3, 4);
    assert_eq!(ctx.scroll_delta, vec2(4, 6));
    ctx.input_keydown(KeyMode::from_bits(KeyMode::SHIFT));
    ctx.input_keyup(KeyMode::from_bits(KeyMode::SHIFT));
    assert!(!ctx.key_down.is_shift());
    assert!(ctx.key_pressed.is_shift());
    ctx.input_text("a");
    ctx.input_text("b");
    assert_eq!(ctx.input_text, "ab");
    ctx.begin();
    ctx.end();
    assert!(ctx.mouse_pressed.is_none());
    assert!(ctx.key_pressed.is_none());
    assert_eq!(ctx.input_text, "");
    assert_eq!(ctx.scroll_delta, vec2(0, 0));
    assert!(ctx.mouse_down.is_right());
}

#[test]
fn mouse_delta_is_computed_at_begin() {
    let mut ctx = Context::new(Mono);
    ctx.input_mousemove(10, 10);
    ctx.begin();
    ctx.end();
    ctx.input_mousemove(15, 7);
    ctx.begin();
    assert_eq!(ctx.mouse_delta, vec2(5, -3));
    ctx.end();
}

#[test]
fn open_popup_places_it_at_pointer() {
    let mut ctx = Context::new(Mono);
    ctx.input_mousemove(33, 44);
    ctx.begin();
    ctx.open_popup("menu");
    let cnt = window_index(&mut ctx, "menu");
    assert_eq!(ctx.containers[cnt].rect, rect(33, 44, 1, 1));
    assert!(ctx.containers[cnt].open);
    assert_eq!(ctx.hover_root, Some(cnt));
    assert_eq!(ctx.containers[cnt].zindex, ctx.last_zindex);
    ctx.end();
}

#[test]
fn update_control_hover_then_focus() {
    let mut ctx = Context::new(Mono);
    let id = microui::Id(77);
    let r = rect(0, 40, 50, 50);
    ctx.input_mousemove(10, 60);
    ctx.begin();
    assert!(ctx.begin_window("H", rect(0, 0, 100, 100), WidgetOption::empty()).is_active());
    ctx.end_window();
    ctx.end();
    ctx.begin();
    assert!(ctx.begin_window("H", rect(0, 0, 100, 100), WidgetOption::empty()).is_active());
    ctx.update_control(id, r, WidgetOption::empty());
    assert_eq!(ctx.hover, Some(id));
    assert_eq!(ctx.focus, None);
    ctx.end_window();
    ctx.end();
    ctx.input_mousedown(MouseButton::left());
    ctx.begin();
    assert!(ctx.begin_window("H", rect(0, 0, 100, 100), WidgetOption::empty()).is_active());
    ctx.update_control(id, r, WidgetOption::from_bits(WidgetOption::NO_INTERACT));
    assert_eq!(ctx.focus, None);
    ctx.update_control(id, r, WidgetOption::empty());
    assert_eq!(ctx.focus, Some(id));
    assert!(ctx.updated_focus);
    ctx.end_window();
    ctx.end();
}

#[test]
fn nested_popup_commands_come_once() {
    let mut ctx = Context::new(Mono);
    ctx.input_mousemove(20, 60);
    let mut frame = |ctx: &mut Context<Mono>, open: bool| {
        ctx.begin();
        assert!(ctx.begin_window("Outer", rect(0, 0, 200, 200), WidgetOption::empty()).is_active());
        ctx.label("before");
        if open {
            ctx.open_popup("Inner");
        }
        if Popup::new("Inner").begin(ctx).is_active() {
            ctx.label("inside");
            ctx.end_window();
        }
        ctx.label("after");
        ctx.end_window();
        ctx.end();
    };
    frame(&mut ctx, true);
    assert_eq!(ctx.root_list.len(), 2);
    let cmds = ctx.commands();
    let owned = ctx.command_roots.iter().filter(|r| r.is_some()).count();
    assert_eq!(cmds.len(), owned);
    assert_eq!(cmds.len(), ctx.command_list.len());
    let outer = window_index(&mut ctx, "Outer");
    ctx.push_id_from_str("Outer");
    let inner_id = ctx.get_id_from_str("Inner");
    ctx.pop_id();
    let inner = ctx.container_pool.get(inner_id).expect("popup registered");
    assert!(ctx.containers[outer].zindex < ctx.containers[inner].zindex);
    let first_inner = ctx.command_roots.iter().position(|r| *r == Some(inner)).unwrap();
    let last_outer = ctx.command_roots.iter().rposition(|r| *r == Some(outer)).unwrap();
    assert!(first_inner < last_outer);
    let inner_count = ctx.command_roots.iter().filter(|r| **r == Some(inner)).count();
    assert!(inner_count > 0);
    let outer_count = cmds.len() - inner_count;
    let expected: Vec<usize> = (0..ctx.command_list.len())
        .filter(|&k| ctx.command_roots[k] == Some(outer))
        .chain((0..ctx.command_list.len()).filter(|&k| ctx.command_roots[k] == Some(inner)))
        .collect();
    assert_eq!(expected.len(), cmds.len());
    assert_eq!(outer_count, expected.iter().filter(|&&k| ctx.command_roots[k] == Some(outer)).count());
}

#[test]
fn checkbox_called_twice_flips_once() {
    let mut ctx = Context::new(Mono);
    let mut state = false;
    let mut changes = Vec::new();
    let mut run = |ctx: &mut Context<Mono>, state: &mut bool, changes: &mut Vec<bool>| {
        frame_in_window(ctx, |ctx| {
            ctx.layout_set_next(rect(5, 29, 100, 20), LayoutPosition::Absolute);
            changes.push(ctx.checkbox("a", state, 9).is_changed());
            ctx.layout_set_next(rect(5, 29, 100, 20), LayoutPosition::Absolute);
            changes.push(ctx.checkbox("a", state, 9).is_changed());
        });
    };
    ctx.input_mousemove(12, 35);
    run(&mut ctx, &mut state, &mut changes);
    run(&mut ctx, &mut state, &mut changes);
    ctx.input_mousedown(MouseButton::left());
    run(&mut ctx, &mut state, &mut changes);
    assert!(state);
    assert_eq!(changes, vec![false, false, false, false, true, false]);
    ctx.input_mouseup(MouseButton::left());
    ctx.input_mousedown(MouseButton::left());
    run(&mut ctx, &mut state, &mut changes);
    assert!(!state);
}

#[test]
fn closed_window_draws_nothing() {
    let mut ctx = Context::new(Mono);
    ctx.begin();
    let before = ctx.command_list.len();
    let r = ctx.begin_window("X", rect(0, 0, 50, 50), WidgetOption::from_bits(WidgetOption::CLOSED));
    assert!(r.is_none());
    assert_eq!(ctx.command_list.len(), before);
    assert_eq!(ctx.id_stack.len(), 0);
    ctx.end();
}

#[test]
fn number_edit_round_trip() {
    let mut ctx = Context::new(Mono);
    let id = microui::Id(42);
    let r = rect(0, 40, 80, 20);
    let mut handed_back = None;
    let mut step = |ctx: &mut Context<Mono>, begin: bool, out: &mut Option<String>| {
        ctx.begin();
        assert!(ctx.begin_window("N", rect(0, 0, 200, 200), WidgetOption::empty()).is_active());
        if begin {
            ctx.update_control(id, r, WidgetOption::empty());
            let started = ctx.number_edit_begin(id, String::from("1.50"));
            assert!(started);
        }
        let (res, done) = ctx.number_edit_step(id, r);
        if done.is_some() {
            *out = done;
            assert!(res.is_none());
        }
        ctx.end_window();
        ctx.end();
    };
    ctx.input_mousemove(10, 50);
    ctx.begin();
    assert!(ctx.begin_window("N", rect(0, 0, 200, 200), WidgetOption::empty()).is_active());
    ctx.end_window();
    ctx.end();
    ctx.begin();
    assert!(ctx.begin_window("N", rect(0, 0, 200, 200), WidgetOption::empty()).is_active());
    ctx.update_control(id, r, WidgetOption::empty());
    assert!(!ctx.number_edit_begin(id, String::from("x")));
    assert_eq!(ctx.hover, Some(id));
    ctx.end_window();
    ctx.end();
    ctx.input_keydown(KeyMode::from_bits(KeyMode::SHIFT));
    ctx.input_mousedown(MouseButton::left());
    step(&mut ctx, true, &mut handed_back);
    assert_eq!(ctx.number_edit, Some(id));
    assert_eq!(handed_back, None);
    ctx.input_mouseup(MouseButton::left());
    ctx.input_text("7");
    step(&mut ctx, false, &mut handed_back);
    assert_eq!(ctx.number_edit_buf, "1.507");
    ctx.input_keydown(KeyMode::from_bits(KeyMode::RETURN));
    step(&mut ctx, false, &mut handed_back);
    assert_eq!(handed_back.as_deref(), Some("1.507"));
    assert_eq!(ctx.number_edit, None);
}

#[test]
fn collapse_press_forgets_node() {
    let mut ctx = Context::new(Mono);
    let run = |ctx: &mut Context<Mono>| {
        frame_in_window(ctx, |ctx| {
            ctx.header("Sec").update(ctx);
        });
    };
    ctx.input_mousemove(50, 35);
    run(&mut ctx);
    run(&mut ctx);
    ctx.input_mousedown(MouseButton::left());
    run(&mut ctx);
    ctx.push_id_from_str("W");
    let id = ctx.get_id_from_str("Sec");
    ctx.pop_id();
    assert!(ctx.treenode_pool.get(id).is_some());
    ctx.input_mouseup(MouseButton::left());
    run(&mut ctx);
    ctx.input_mousedown(MouseButton::left());
    run(&mut ctx);
    assert_eq!(ctx.treenode_pool.get(id), None);
}

#[test]
fn window_begun_twice_is_listed_once() {
    let mut ctx = Context::new(Mono);
    ctx.begin();
    for _ in 0..2 {
        assert!(ctx.begin_window("Twice", rect(0, 0, 100, 100), WidgetOption::empty()).is_active());
        ctx.label("x");
        ctx.end_window();
    }
    ctx.end();
    assert_eq!(ctx.root_list.len(), 1);
    assert_eq!(ctx.commands().len(), ctx.command_list.len());
}
