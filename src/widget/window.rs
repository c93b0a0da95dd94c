//! Windows and popups: root containers with a title bar, a close box and a resize handle.
use vstd::prelude::*;
use vstd::string::StringSliceAdditionalSpecFns;
use crate::context::{popped, recorded, Container, Context, Icon, ResourceState, CONTAINER_COUNT};
use crate::id::{fnv, Id};
use crate::math::{max, rect, sat, sat_add, sat_sub, spec_max, Rect, Vec2, UNCLIPPED_EXTENT};
use crate::input::MouseButton;
use crate::style::{ControlColor, TextMetrics};
use crate::widget::WidgetOption;

verus! {

/// Smallest width a window can be resized to.
pub const MIN_WINDOW_WIDTH: i32 = 96;

/// Smallest height a window can be resized to.
pub const MIN_WINDOW_HEIGHT: i32 = 64;

/// The identifier of a window's title bar, inside the window's scope `wid`.
pub open spec fn title_id(wid: Id) -> Id {
    Id(fnv(wid.0, "!title".spec_bytes()))
}

/// The identifier of a window's close box.
pub open spec fn close_id(wid: Id) -> Id {
    Id(fnv(wid.0, "!close".spec_bytes()))
}

/// The identifier of a window's resize handle.
pub open spec fn resize_id(wid: Id) -> Id {
    Id(fnv(wid.0, "!resize".spec_bytes()))
}

/// The title bar of a window at `win`.
pub open spec fn title_rect(win: Rect, th: i32) -> Rect {
    Rect { h: th, ..win }
}

/// The close box at the right end of title bar `tr`.
pub open spec fn close_rect(tr: Rect) -> Rect {
    Rect { x: sat(sat(tr.x + tr.w) - tr.h) as i32, y: tr.y, w: tr.h, h: tr.h }
}

/// The resize handle in the bottom-right corner of a window at `win`.
pub open spec fn resize_rect(win: Rect, sz: i32) -> Rect {
    Rect { x: sat(sat(win.x + win.w) - sz) as i32, y: sat(sat(win.y + win.h) - sz) as i32, w: sz, h: sz }
}

/// `r` moved by `d`.
pub open spec fn moved_by(r: Rect, d: Vec2) -> Rect {
    Rect { x: sat(r.x + d.x) as i32, y: sat(r.y + d.y) as i32, ..r }
}

/// `r` grown by `d`, down to the smallest window size.
pub open spec fn resized_by(r: Rect, d: Vec2) -> Rect {
    Rect {
        w: spec_max(MIN_WINDOW_WIDTH as int, sat(r.w + d.x)) as i32,
        h: spec_max(MIN_WINDOW_HEIGHT as int, sat(r.h + d.y)) as i32,
        ..r
    }
}

/// `r` sized to `content` plus the margin between `r` and the layout body `lb`.
pub open spec fn fitted(r: Rect, content: Vec2, lb: Rect) -> Rect {
    Rect { w: sat(content.x + sat(r.w - lb.w)) as i32, h: sat(content.y + sat(r.h - lb.h)) as i32, ..r }
}

pub open spec fn unbounded() -> Rect {
    Rect { x: 0, y: 0, w: UNCLIPPED_EXTENT, h: UNCLIPPED_EXTENT }
}

/// A window to open: its title, the rectangle it starts with, and its options.
#[derive(Clone, Copy, Debug)]
pub struct Window<'t> {
    pub title: &'t str,
    pub r: Rect,
    pub opt: WidgetOption,
}

impl<'t> Window<'t> {
    pub fn new(title: &'t str) -> (w: Self)
        ensures
            w.title == title,
            w.r == (Rect { x: 0, y: 0, w: 0, h: 0 }),
            w.opt.bits == 0,
    {
        Window { title, r: Rect::zero(), opt: WidgetOption::empty() }
    }

    pub fn position(self, x: i32, y: i32) -> (w: Self)
        ensures
            w == (Window { r: Rect { x, y, ..self.r }, ..self }),
    {
        let mut w = self;
        w.r.x = x;
        w.r.y = y;
        w
    }

    pub fn size(self, w: i32, h: i32) -> (out: Self)
        ensures
            out == (Window { r: Rect { w, h, ..self.r }, ..self }),
    {
        let mut out = self;
        out.r.w = w;
        out.r.h = h;
        out
    }

    pub fn options(self, opt: WidgetOption) -> (w: Self)
        ensures
            w == (Window { opt, ..self }),
    {
        let mut w = self;
        w.opt = opt;
        w
    }

    /// Opens the window in `ctx`; when the result is active, the body is laid out and
    /// `end_window` must close it.
    pub fn begin<M: TextMetrics>(self, ctx: &mut Context<M>) -> (r: ResourceState)
        requires
            old(ctx).wf(),
            old(ctx).can_acquire(Id(fnv(old(ctx).id_seed(), self.title.spec_bytes())), self.opt),
        ensures
            final(ctx).wf(),
            final(ctx).opened_window(*old(ctx), r),
            final(ctx).window_opened(*old(ctx), Id(fnv(old(ctx).id_seed(), self.title.spec_bytes())), self.r, self.opt, r),
    {
        ctx.begin_window(self.title, self.r, self.opt)
    }
}

/// A popup: a window that starts closed, sizes itself to its content, has no title bar and
/// closes on any press outside it.
#[derive(Clone, Copy, Debug)]
pub struct Popup<'t>(pub Window<'t>);

/// The options every popup is opened with.
pub open spec fn popup_bits() -> u32 {
    WidgetOption::POPUP | WidgetOption::AUTO_SIZE | WidgetOption::NO_RESIZE | WidgetOption::NO_SCROLL
        | WidgetOption::NO_TITLE | WidgetOption::CLOSED
}

impl<'t> Popup<'t> {
    pub fn new(title: &'t str) -> (p: Self)
        ensures
            p.0.title == title,
            p.0.r == (Rect { x: 0, y: 0, w: 0, h: 0 }),
            p.0.opt.bits == popup_bits(),
    {
        let bits = WidgetOption::POPUP | WidgetOption::AUTO_SIZE | WidgetOption::NO_RESIZE | WidgetOption::NO_SCROLL
            | WidgetOption::NO_TITLE | WidgetOption::CLOSED;
        Popup(Window::new(title).options(WidgetOption::from_bits(bits)))
    }

    /// Opens the popup in `ctx` if `open_popup` opened it and it has not closed since.
    pub fn begin<M: TextMetrics>(self, ctx: &mut Context<M>) -> (r: ResourceState)
        requires
            old(ctx).wf(),
            old(ctx).can_acquire(Id(fnv(old(ctx).id_seed(), self.0.title.spec_bytes())), self.0.opt),
        ensures
            final(ctx).wf(),
            final(ctx).opened_window(*old(ctx), r),
            final(ctx).window_opened(*old(ctx), Id(fnv(old(ctx).id_seed(), self.0.title.spec_bytes())), self.0.r, self.0.opt, r),
    {
        self.0.begin(ctx)
    }
}

impl<M: TextMetrics> Context<M> {
    /// Hover, focus and confirmation after the title bar of window `wid` (container `cnt`,
    /// at `win`) updates: the pointer counts as over it inside the bar while `cnt` is the
    /// hover root.
    pub open spec fn title_outcome(&self, wid: Id, cnt: usize, win: Rect, opt: WidgetOption) -> (Option<Id>, Option<Id>, bool) {
        let tr = title_rect(win, self.style.title_height);
        self.control_outcome(
            title_id(wid),
            tr.contains(self.mouse_pos) && unbounded().contains(self.mouse_pos) && self.hover_root == Some(cnt),
            opt,
        )
    }

    /// The same after the close box updates in turn.
    pub open spec fn close_outcome(&self, wid: Id, cnt: usize, win: Rect, opt: WidgetOption) -> (Option<Id>, Option<Id>, bool) {
        let (h, f, u) = self.title_outcome(wid, cnt, win, opt);
        let cr = close_rect(title_rect(win, self.style.title_height));
        (Context { hover: h, focus: f, updated_focus: u, ..*self }).control_outcome(
            close_id(wid),
            cr.contains(self.mouse_pos) && unbounded().contains(self.mouse_pos) && self.hover_root == Some(cnt),
            opt,
        )
    }

    /// The state of window `wid` (container `cnt`) after `begin_window` opened it with
    /// `r` and `opt`, from `old`. Its rectangle is seeded from `r` on first use (while its
    /// width is 0); moves by the mouse delta while the title bar has focus and the left
    /// button is held; grows by the delta, down to the smallest size, while the resize
    /// handle (unless `NO_RESIZE`) has focus and the left button is held; and with
    /// `AUTO_SIZE` fits its content. It closes from a left press on the focused close box,
    /// and, as a popup, on any press while it is not the hover root.
    pub open spec fn window_after(self, old: Self, wid: Id, cnt: usize, c0: Container, r: Rect, opt: WidgetOption) -> bool {
        let seeded = if c0.rect.w == 0 { r } else { c0.rect };
        let title = !opt.has(WidgetOption::NO_TITLE);
        let dragged = title && old.title_outcome(wid, cnt, seeded, opt).1 == Some(title_id(wid))
            && old.mouse_down.has(MouseButton::LEFT);
        let moved = if dragged { moved_by(seeded, old.mouse_delta) } else { seeded };
        let closed = title && !opt.has(WidgetOption::NO_CLOSE) && old.mouse_pressed.has(MouseButton::LEFT)
            && old.close_outcome(wid, cnt, seeded, opt).1 == Some(close_id(wid));
        let resizing = !opt.has(WidgetOption::NO_RESIZE) && self.focus == Some(resize_id(wid))
            && old.mouse_down.has(MouseButton::LEFT);
        let resized = if resizing { resized_by(moved, old.mouse_delta) } else { moved };
        let sized = if opt.has(WidgetOption::AUTO_SIZE) {
            fitted(resized, c0.content_size, self.layout_top().body)
        } else {
            resized
        };
        let c = self.containers@[cnt as int];
        &&& c.rect == sized
        &&& c.open == (!closed && !(opt.has(WidgetOption::POPUP) && old.mouse_pressed.bits != 0 && old.hover_root != Some(cnt)))
    }

    /// `begin_window` for `wid` is active exactly when the registry holds an open
    /// container for it, or holds none and `CLOSED` is not asked (a fresh one is open);
    /// otherwise nothing is drawn. When active, the innermost container is the window's own
    /// and it ends as `window_after` says.
    pub open spec fn window_opened(self, old: Self, wid: Id, r: Rect, opt: WidgetOption, res: ResourceState) -> bool {
        let held = old.container_pool.lookup(wid);
        let active = match held {
            Some(i) => old.containers@[i as int].open,
            None => !opt.has(WidgetOption::CLOSED),
        };
        let cnt = self.container_stack@.last();
        let c0 = match held {
            Some(i) => old.containers@[i as int],
            None => Container::cleared(),
        };
        &&& (res.bits == ResourceState::ACTIVE) == active
        &&& (!active ==> self.command_list@ == old.command_list@)
        &&& (active ==> {
            &&& (held matches Some(i) ==> cnt == i)
            &&& self.container_pool@[cnt as int].id == wid
            &&& self.window_after(old, wid, cnt, c0, r, opt)
        })
    }

    /// What opening a window leaves: either nothing opened and every stack as it was, or
    /// one root container pushed on the container and root lists, with one identifier
    /// scope, one layout frame and two clip rectangles.
    pub open spec fn opened_window(self, old: Self, r: ResourceState) -> bool {
        &&& (r.bits == 0 || r.bits == ResourceState::ACTIVE)
        &&& self.frame == old.frame
        &&& self.mouse_pos == old.mouse_pos
        &&& self.mouse_pressed == old.mouse_pressed
        &&& self.hover_root == old.hover_root
        &&& old.command_list@.is_prefix_of(self.command_list@)
        &&& if r.bits == 0 {
            &&& self.container_stack@ == old.container_stack@
            &&& self.root_list@ == old.root_list@
            &&& self.layout_stack@ == old.layout_stack@
            &&& self.clip_stack@ == old.clip_stack@
            &&& self.id_stack@ == old.id_stack@
        } else {
            let cnt = self.container_stack@.last();
            &&& self.container_stack@ == old.container_stack@.push(cnt)
            &&& self.root_list@ == (if old.root_list@.contains(cnt) { old.root_list@ } else { old.root_list@.push(cnt) })
            &&& self.layout_stack@.len() == old.layout_stack@.len() + 1
            &&& self.layout_stack@.drop_last() == old.layout_stack@
            &&& self.clip_stack@.len() == old.clip_stack@.len() + 2
            &&& self.clip_stack@.take(old.clip_stack@.len() as int) == old.clip_stack@
            &&& self.id_stack@.len() == old.id_stack@.len() + 1
            &&& self.id_stack@.drop_last() == old.id_stack@
            &&& self.containers@[cnt as int].head_idx == Some(old.command_list@.len() as usize)
        }
    }

    /// A fresh popup named `name`, at the pointer, open, in front and made the hover root.
    pub fn open_popup(&mut self, name: &str)
        requires
            old(self).wf(),
            old(self).can_acquire(Id(fnv(old(self).id_seed(), name.spec_bytes())), WidgetOption { bits: 0 }),
        ensures
            final(self).wf(),
            final(self).hover_root == final(self).next_hover_root,
            final(self).hover_root matches Some(c) && {
                &&& final(self).container_pool@[c as int].id == Id(fnv(old(self).id_seed(), name.spec_bytes()))
                &&& final(self).last_zindex == (if old(self).container_pool.holds(Id(fnv(old(self).id_seed(), name.spec_bytes()))) {
                    sat(old(self).last_zindex + 1) as i32
                } else {
                    sat(sat(old(self).last_zindex + 1) + 1) as i32
                })
                &&& final(self).containers@[c as int].open
                &&& final(self).containers@[c as int].rect == (Rect { x: old(self).mouse_pos.x, y: old(self).mouse_pos.y, w: 1, h: 1 })
                &&& final(self).containers@[c as int].zindex == final(self).last_zindex
            },
            final(self).container_stack == old(self).container_stack,
            final(self).layout_stack == old(self).layout_stack,
            final(self).clip_stack == old(self).clip_stack,
            final(self).id_stack == old(self).id_stack,
            final(self).root_list == old(self).root_list,
            final(self).frame == old(self).frame,
    {
        let cnt = self.get_container_index(name);
        self.next_hover_root = cnt;
        self.hover_root = cnt;
        if let Some(c) = cnt {
            let mut k = self.containers[c];
            k.rect = rect(self.mouse_pos.x, self.mouse_pos.y, 1, 1);
            k.open = true;
            self.containers.set(c, k);
            self.bring_to_front(c);
        }
    }

    /// Whether `cnt` is listed as a root in this frame already.
    pub fn root_listed(&self, cnt: usize) -> (r: bool)
        ensures
            r == self.root_list@.contains(cnt),
    {
        let mut i: usize = 0;
        while i < self.root_list.len()
            invariant
                i <= self.root_list@.len(),
                forall|k: int| 0 <= k < i ==> self.root_list@[k] != cnt,
            decreases self.root_list@.len() - i,
        {
            if self.root_list[i] == cnt {
                assert(self.root_list@[i as int] == cnt);
                return true;
            }
            i = i + 1;
        }
        false
    }

    /// Makes `cnt` the innermost container and a root (listed once per frame): records where its commands start,
    /// makes it the hover-root candidate when the pointer is inside it and it is above the
    /// current candidate, and pushes an unbounded clip rectangle.
    pub fn begin_root_container(&mut self, cnt: usize)
        requires
            old(self).wf(),
            cnt < CONTAINER_COUNT,
        ensures
            final(self).wf(),
            final(self).container_stack@ == old(self).container_stack@.push(cnt),
            final(self).root_list@ == (if old(self).root_list@.contains(cnt) {
                old(self).root_list@
            } else {
                old(self).root_list@.push(cnt)
            }),
            final(self).clip_stack@ == old(self).clip_stack@.push(
                Rect { x: 0, y: 0, w: UNCLIPPED_EXTENT, h: UNCLIPPED_EXTENT },
            ),
            final(self).containers@ == old(self).containers@.update(
                cnt as int,
                Container { head_idx: Some(old(self).command_list@.len() as usize), ..old(self).containers@[cnt as int] },
            ),
            final(self).next_hover_root == (if old(self).containers@[cnt as int].rect.contains(old(self).mouse_pos) && (
            old(self).next_hover_root is None || old(self).containers@[cnt as int].zindex
                > old(self).containers@[old(self).next_hover_root->0 as int].zindex) {
                Some(cnt)
            } else {
                old(self).next_hover_root
            }),
            *final(self) == (Context {
                container_stack: final(self).container_stack,
                root_list: final(self).root_list,
                clip_stack: final(self).clip_stack,
                containers: final(self).containers,
                next_hover_root: final(self).next_hover_root,
                root_stack: final(self).root_stack,
                ..*old(self)
            }),
            final(self).root_stack@ == old(self).root_stack@.push(cnt),
    {
        self.container_stack.push(cnt);
        self.root_stack.push(cnt);
        let listed = self.root_listed(cnt);
        if !listed {
            self.root_list.push(cnt);
        }
        let mut c = self.containers[cnt];
        c.head_idx = Some(self.command_list.len());
        self.containers.set(cnt, c);
        if c.rect.overlaps(self.mouse_pos) {
            let take = match self.next_hover_root {
                None => true,
                Some(h) => c.zindex > self.containers[h].zindex,
            };
            if take {
                self.next_hover_root = Some(cnt);
            }
        }
        self.clip_stack.push(Rect::unclipped());
        proof {
            assert forall|k: int| 0 <= k < self.container_stack@.len() implies crate::context::slot(#[trigger] self.container_stack@[k]) by {
                if k < old(self).container_stack@.len() {
                    assert(self.container_stack@[k] == old(self).container_stack@[k]);
                }
            }
            assert forall|k: int| 0 <= k < self.root_list@.len() implies crate::context::slot(#[trigger] self.root_list@[k]) by {
                if k < old(self).root_list@.len() {
                    assert(self.root_list@[k] == old(self).root_list@[k]);
                }
            }
        }
    }

    /// Closes the innermost root container: records where its commands end, pops its clip
    /// rectangle and the container.
    pub fn end_root_container(&mut self)
        requires
            old(self).wf(),
            old(self).container_stack@.len() > 0,
            old(self).layout_stack@.len() > 0,
        ensures
            final(self).wf(),
            final(self).popped_container(
                *old(self),
                1,
                1,
                Container {
                    tail_idx: Some(old(self).command_list@.len() as usize),
                    ..recorded(old(self).containers@[old(self).container_stack@.last() as int], old(self).layout_top())
                },
            ),
    {
        let cnt = self.get_current_container();
        let mut c = self.containers[cnt];
        c.tail_idx = Some(self.command_list.len());
        self.containers.set(cnt, c);
        self.root_stack.pop();
        self.pop_clip_rect();
        let ghost mid = *self;
        self.pop_container();
        proof {
            assert(self.clip_stack@ =~= popped(old(self).clip_stack@, 1));
            assert(self.root_stack@ =~= popped(old(self).root_stack@, 1));
            assert(self.containers@ =~= old(self).containers@.update(
                old(self).container_stack@.last() as int,
                Container {
                    tail_idx: Some(old(self).command_list@.len() as usize),
                    ..recorded(old(self).containers@[old(self).container_stack@.last() as int], old(self).layout_top())
                },
            ));
        }
    }

    /// Opens window `title`; `r` seeds its rectangle on first use. Draws its frame and
    /// title bar, moves it while its title is dragged, closes it from its close box,
    /// resizes it from its corner unless `NO_RESIZE`, sizes it to its content with
    /// `AUTO_SIZE`, and closes a popup on a press outside the hover root.
    pub fn begin_window(&mut self, title: &str, r: Rect, opt: WidgetOption) -> (res: ResourceState)
        requires
            old(self).wf(),
            old(self).can_acquire(Id(fnv(old(self).id_seed(), title.spec_bytes())), opt),
        ensures
            final(self).wf(),
            final(self).opened_window(*old(self), res),
            final(self).window_opened(*old(self), Id(fnv(old(self).id_seed(), title.spec_bytes())), r, opt, res),
    {
        let id = self.get_id_from_str(title);
        assert(old(self).command_list@.subrange(0, old(self).command_list@.len() as int) =~= old(self).command_list@);
        let cnt = match self.get_container_index_intern(id, opt) {
            Some(c) => c,
            None => {
                assert(0u32 != ResourceState::ACTIVE);
                return ResourceState::empty();
            },
        };
        if !self.containers[cnt].open {
            assert(0u32 != ResourceState::ACTIVE);
            return ResourceState::empty();
        }
        self.id_stack.push(id);
        assert(self.id_stack@.drop_last() =~= old(self).id_stack@);
        if self.containers[cnt].rect.w == 0 {
            let mut c = self.containers[cnt];
            c.rect = r;
            self.containers.set(cnt, c);
        }
        let ghost clips0 = self.clip_stack@;
        self.begin_root_container(cnt);
        let win = self.containers[cnt].rect;
        let ghost mid = *self;
        let body = self.window_chrome(id, cnt, win, title, opt);
        proof {
            crate::context::lemma_prefix_trans(old(self).command_list@, mid.command_list@, self.command_list@);
        }
        let ghost mid2 = *self;
        self.push_container_body(cnt, body, opt);
        proof {
            crate::context::lemma_prefix_trans(old(self).command_list@, mid2.command_list@, self.command_list@);
        }
        let ghost mid3 = *self;
        self.window_sizing(id, cnt, win, opt);
        proof {
            crate::context::lemma_prefix_trans(old(self).command_list@, mid3.command_list@, self.command_list@);
        }
        let b = self.containers[cnt].body;
        self.push_clip_rect(b);
        proof {
            assert(self.clip_stack@.take(clips0.len() as int) =~= clips0);
        }
        ResourceState::from_bits(ResourceState::ACTIVE)
    }

    /// The frame and title bar of window `cnt` at `win`; gives the body left below them.
    fn window_chrome(&mut self, wid: Id, cnt: usize, win: Rect, title: &str, opt: WidgetOption) -> (body: Rect)
        requires
            old(self).wf(),
            cnt < CONTAINER_COUNT,
            old(self).clip_stack@.len() > 0,
            old(self).clip_top() == unbounded(),
            old(self).container_stack@.len() > 0,
            old(self).container_stack@.last() == cnt,
            old(self).containers@[cnt as int].head_idx is Some,
            old(self).containers@[cnt as int].rect == win,
            old(self).id_stack@.len() > 0,
            old(self).id_stack@.last() == wid,
        ensures
            final(self).wf(),
            final(self).keeps_shape(*old(self)),
            forall|i: int| 0 <= i < CONTAINER_COUNT && i != cnt ==> #[trigger] final(self).containers@[i] == old(self).containers@[i],
            ({
                let o = old(self).containers@[cnt as int];
                let c = final(self).containers@[cnt as int];
                let titled = !opt.has(WidgetOption::NO_TITLE);
                let dragged = titled && old(self).title_outcome(wid, cnt, win, opt).1 == Some(title_id(wid))
                    && old(self).mouse_down.has(MouseButton::LEFT);
                let closed = titled && !opt.has(WidgetOption::NO_CLOSE) && old(self).mouse_pressed.has(MouseButton::LEFT)
                    && old(self).close_outcome(wid, cnt, win, opt).1 == Some(close_id(wid));
                &&& c == (Container { rect: c.rect, open: c.open, ..o })
                &&& c.rect == (if dragged { moved_by(win, old(self).mouse_delta) } else { win })
                &&& c.open == (o.open && !closed)
                &&& body == (if titled {
                    Rect { y: sat(win.y + old(self).style.title_height) as i32, h: sat(win.h - old(self).style.title_height) as i32, ..win }
                } else {
                    win
                })
            }),
    {
        let mut body = win;
        if !opt.has_no_frame() {
            self.draw_frame(win, ControlColor::WindowBG);
        }
        if opt.has_no_title() {
            return body;
        }
        let mut tr = win;
        tr.h = self.style.title_height;
        let ghost s0 = *self;
        self.draw_frame(tr, ControlColor::TitleBG);
        let tid = self.get_id_from_str("!title");
        self.update_control(tid, tr, opt);
        let ghost s1 = *self;
        self.draw_control_text(title, tr, ControlColor::TitleText, opt);
        proof {
            crate::context::lemma_prefix_trans(old(self).command_list@, s0.command_list@, s1.command_list@);
            crate::context::lemma_prefix_trans(old(self).command_list@, s1.command_list@, self.command_list@);
        }
        if Some(tid) == self.focus && self.mouse_down.is_left() {
            let mut c = self.containers[cnt];
            c.rect.x = sat_add(c.rect.x, self.mouse_delta.x);
            c.rect.y = sat_add(c.rect.y, self.mouse_delta.y);
            self.containers.set(cnt, c);
        }
        body.y = sat_add(body.y, tr.h);
        body.h = sat_sub(body.h, tr.h);
        if !opt.has_no_close() {
            let cid = self.get_id_from_str("!close");
            let cr = rect(sat_sub(sat_add(tr.x, tr.w), tr.h), tr.y, tr.h, tr.h);
            let tc = self.style.color(ControlColor::TitleText);
            let ghost s2 = *self;
            self.draw_icon(Icon::Close, cr, tc);
            proof {
                crate::context::lemma_prefix_trans(old(self).command_list@, s2.command_list@, self.command_list@);
            }
            self.update_control(cid, cr, opt);
            if self.mouse_pressed.is_left() && Some(cid) == self.focus {
                let mut c = self.containers[cnt];
                c.open = false;
                self.containers.set(cnt, c);
            }
        }
        body
    }

    /// Resizes window `cnt` from its corner handle unless `NO_RESIZE`, sizes it to its
    /// content with `AUTO_SIZE`, and closes a popup on a press outside the hover root.
    fn window_sizing(&mut self, wid: Id, cnt: usize, win: Rect, opt: WidgetOption)
        requires
            old(self).wf(),
            cnt < CONTAINER_COUNT,
            old(self).clip_stack@.len() > 0,
            old(self).layout_stack@.len() > 0,
            old(self).id_stack@.len() > 0,
            old(self).id_stack@.last() == wid,
        ensures
            final(self).wf(),
            final(self).keeps_shape(*old(self)),
            forall|i: int| 0 <= i < CONTAINER_COUNT && i != cnt ==> #[trigger] final(self).containers@[i] == old(self).containers@[i],
            ({
                let o = old(self).containers@[cnt as int];
                let c = final(self).containers@[cnt as int];
                let resizing = !opt.has(WidgetOption::NO_RESIZE) && final(self).focus == Some(resize_id(wid))
                    && old(self).mouse_down.has(MouseButton::LEFT);
                let resized = if resizing { resized_by(o.rect, old(self).mouse_delta) } else { o.rect };
                &&& c == (Container { rect: c.rect, open: c.open, ..o })
                &&& c.rect == (if opt.has(WidgetOption::AUTO_SIZE) {
                    fitted(resized, o.content_size, old(self).layout_top().body)
                } else {
                    resized
                })
                &&& c.open == (o.open && !(opt.has(WidgetOption::POPUP) && old(self).mouse_pressed.bits != 0 && old(self).hover_root != Some(cnt)))
                &&& opt.has(WidgetOption::NO_RESIZE) ==> final(self).focus == old(self).focus
            }),
    {
        if !opt.is_fixed() {
            let sz = self.style.title_height;
            let rid = self.get_id_from_str("!resize");
            let handle = rect(
                sat_sub(sat_add(win.x, win.w), sz),
                sat_sub(sat_add(win.y, win.h), sz),
                sz,
                sz,
            );
            self.update_control(rid, handle, opt);
            if Some(rid) == self.focus && self.mouse_down.is_left() {
                let mut c = self.containers[cnt];
                c.rect.w = max(MIN_WINDOW_WIDTH, sat_add(c.rect.w, self.mouse_delta.x));
                c.rect.h = max(MIN_WINDOW_HEIGHT, sat_add(c.rect.h, self.mouse_delta.y));
                self.containers.set(cnt, c);
            }
        }
        if opt.is_auto_sizing() {
            let lb = self.get_layout().body;
            let mut c = self.containers[cnt];
            c.rect.w = sat_add(c.content_size.x, sat_sub(c.rect.w, lb.w));
            c.rect.h = sat_add(c.content_size.y, sat_sub(c.rect.h, lb.h));
            self.containers.set(cnt, c);
        }
        if opt.is_popup() && !self.mouse_pressed.is_none() && self.hover_root != Some(cnt) {
            let mut c = self.containers[cnt];
            c.open = false;
            self.containers.set(cnt, c);
        }
    }

    /// Closes the window opened last.
    pub fn end_window(&mut self)
        requires
            old(self).wf(),
            old(self).container_stack@.len() > 0,
            old(self).layout_stack@.len() > 0,
        ensures
            final(self).wf(),
            final(self).popped_container(
                *old(self),
                2,
                1,
                Container {
                    tail_idx: Some(old(self).command_list@.len() as usize),
                    ..recorded(old(self).containers@[old(self).container_stack@.last() as int], old(self).layout_top())
                },
            ),
    {
        self.pop_clip_rect();
        self.end_root_container();
        proof {
            assert(self.clip_stack@ =~= popped(old(self).clip_stack@, 2));
        }
    }
}

} // verus!
