//! Collapsible headers; tree nodes share their logic.
use vstd::prelude::*;
use vstd::string::StringSliceAdditionalSpecFns;
use crate::context::{clipped_cmds, frame_cmds, lemma_prefix_trans, text_runs_from, Command, Context, Icon, ResourceState};
use crate::math::Rect;
use crate::layout::Layout;
use crate::id::{fnv, Id};
use crate::input::MouseButton;
use crate::math::{rect, sat_add, sat_sub};
use crate::pool::PoolItem;
use crate::style::{ControlColor, TextMetrics};
use crate::widget::WidgetOption;

verus! {

/// A collapsible header to show: its label and options.
#[derive(Clone, Copy, Debug)]
pub struct Header<'t> {
    pub label: &'t str,
    pub opt: WidgetOption,
}

impl<'t> Header<'t> {
    pub fn new(label: &'t str) -> (h: Self)
        ensures
            h.label == label,
            h.opt.bits == 0,
    {
        Header { label, opt: WidgetOption::empty() }
    }

    /// The same header, expanded until first clicked.
    pub fn expanded(self) -> (h: Self)
        ensures
            h.label == self.label,
            h.opt.bits == self.opt.bits | WidgetOption::EXPANDED,
    {
        Header { label: self.label, opt: self.opt.union(WidgetOption::from_bits(WidgetOption::EXPANDED)) }
    }

    /// Draws the header in `ctx`; the result is active while it is expanded.
    pub fn update<M: TextMetrics>(self, ctx: &mut Context<M>) -> (r: ResourceState)
        requires
            old(ctx).wf(),
            old(ctx).layout_stack@.len() > 0,
            old(ctx).clip_stack@.len() > 0,
            old(ctx).can_toggle(Id(fnv(old(ctx).id_seed(), self.label.spec_bytes()))),
        ensures
            final(ctx).wf(),
            final(ctx).toggled_header(*old(ctx), Id(fnv(old(ctx).id_seed(), self.label.spec_bytes())), self.opt, r),
    {
        ctx.header_ex(self.label, false, self.opt)
    }
}

impl<M: TextMetrics> Context<M> {
    pub fn header<'t>(&self, label: &'t str) -> (h: Header<'t>)
        ensures
            h.label == label,
            h.opt.bits == 0,
    {
        Header::new(label)
    }

    /// A header for `id` can be drawn: its state is remembered already, or a slot is free
    /// in this frame, or no left press can expand it.
    pub open spec fn can_toggle(&self, id: Id) -> bool {
        self.treenode_pool.holds(id) || self.treenode_pool.can_alloc(self.frame) || !self.mouse_pressed.has(
            MouseButton::LEFT,
        )
    }

    /// What drawing header `id` leaves. A left press while it has focus toggles whether
    /// the tree-node pool remembers it (remembered and touched, or forgotten); it is
    /// expanded after the call while remembered (or, with `EXPANDED`, while not), and the
    /// result says so.
    pub open spec fn toggled_header(self, old: Self, id: Id, opt: WidgetOption, r: ResourceState) -> bool {
        &&& self.header_effect(old, id, opt, r)
        &&& self.id_stack@ == old.id_stack@
        &&& self.layout_top().indent == old.layout_top().indent
    }

    /// The part of `toggled_header` that tree nodes share: result, stacks other than the
    /// identifier scopes, and the tree-node pool.
    pub open spec fn header_effect(self, old: Self, id: Id, opt: WidgetOption, r: ResourceState) -> bool {
        let held = old.treenode_pool.lookup(id);
        let clicked = old.mouse_pressed.has(MouseButton::LEFT) && self.focus == Some(id);
        let remembered = (held is Some) != clicked;
        let expanded = if opt.has(WidgetOption::EXPANDED) {
            !remembered
        } else {
            remembered
        };
        &&& (remembered ==> self.treenode_pool.holds(id))
        &&& (!remembered && id != Id(0) ==> !self.treenode_pool.holds(id))
        &&& r.bits == (if expanded {
            ResourceState::ACTIVE
        } else {
            0
        })
        &&& self.last_id == Some(id)
        &&& self.container_stack@ == old.container_stack@
        &&& self.clip_stack@ == old.clip_stack@
        &&& self.root_list@ == old.root_list@
        &&& self.layout_stack@.len() == old.layout_stack@.len()
        &&& self.layout_stack@.drop_last() == old.layout_stack@.drop_last()
        &&& self.frame == old.frame
        &&& self.mouse_pressed == old.mouse_pressed
        &&& self.style == old.style
        &&& old.command_list@.is_prefix_of(self.command_list@)
        &&& match held {
            Some(i) => self.treenode_pool@ == if clicked {
                old.treenode_pool@.update(i as int, PoolItem { id: Id(0), last_update: 0 })
            } else {
                old.treenode_pool@.update(i as int, PoolItem { id, last_update: old.frame })
            },
            None => if clicked {
                exists|k: int|
                    0 <= k < old.treenode_pool@.len() && #[trigger] old.treenode_pool@[k].last_update < old.frame
                        && self.treenode_pool@ == old.treenode_pool@.update(k, PoolItem { id, last_update: old.frame })
            } else {
                self.treenode_pool@ == old.treenode_pool@
            },
        }
    }

    /// The header takes a full-width row of default height (`last_rect`), and hover, focus
    /// and focus confirmation are what `update_control` gives over it.
    pub open spec fn header_row(self, old: Self, id: Id) -> bool {
        &&& exists|l: Layout|
            #![trigger l.spec_next(old.style)]
            l.widths@[0] == -1 && l == (Layout { widths: l.widths, ..old.layout_top().spec_row(1usize, 0) })
                && l.spec_next(old.style) == (self.layout_top(), self.last_rect)
        &&& self.header_cell(old, id)
    }

    /// `last_rect` is the header's full-width row of default height, and hover, focus and
    /// focus confirmation are what `update_control` gives over it.
    pub open spec fn header_cell(self, old: Self, id: Id) -> bool {
        &&& exists|l: Layout|
            #![trigger l.spec_next(old.style)]
            l.widths@[0] == -1 && l == (Layout { widths: l.widths, ..old.layout_top().spec_row(1usize, 0) })
                && l.spec_next(old.style).1 == self.last_rect
        &&& (self.hover, self.focus, self.updated_focus) == old.spec_update_control(
            id,
            self.last_rect,
            WidgetOption { bits: 0 },
        )
    }

    /// What drawing header `id` appends, `r` being its result: a hover frame (for a tree
    /// node, only while hovered) or the control's frame in the button colour, the expanded
    /// or collapsed icon at the row's left, then the label's text runs.
    pub open spec fn header_drawn(self, old: Self, id: Id, is_treenode: bool, r: ResourceState) -> bool {
        let cell = self.last_rect;
        let frame = if is_treenode {
            if self.hover == Some(id) {
                frame_cmds(old.style, old.clip_top(), cell, ControlColor::ButtonHover)
            } else {
                Seq::empty()
            }
        } else {
            frame_cmds(old.style, old.clip_top(), cell, self.control_color(id, ControlColor::Button))
        };
        let ir = Rect { x: cell.x, y: cell.y, w: cell.h, h: cell.h };
        let mark = clipped_cmds(
            old.spec_check_clip(ir),
            old.clip_top(),
            Command::Icon {
                rect: ir,
                id: if r.bits != 0 { Icon::Expanded } else { Icon::Collapsed },
                color: old.style.colors[ControlColor::Text.spec_index() as int],
            },
        );
        let n = old.command_list@.len() + frame.len() + mark.len();
        &&& n <= self.command_list@.len()
        &&& self.command_list@.subrange(0, n as int) == old.command_list@ + frame + mark
        &&& text_runs_from(self.command_list@, n as int)
    }

    /// A header row for `label`: a full-width row with an expand/collapse icon and the
    /// label; clicking it while focused toggles whether it is remembered as expanded.
    #[verifier::rlimit(60)]
    pub fn header_ex(&mut self, label: &str, is_treenode: bool, opt: WidgetOption) -> (r: ResourceState)
        requires
            old(self).wf(),
            old(self).layout_stack@.len() > 0,
            old(self).clip_stack@.len() > 0,
            old(self).can_toggle(Id(fnv(old(self).id_seed(), label.spec_bytes()))),
        ensures
            final(self).wf(),
            final(self).toggled_header(*old(self), Id(fnv(old(self).id_seed(), label.spec_bytes())), opt, r),
            final(self).header_row(*old(self), Id(fnv(old(self).id_seed(), label.spec_bytes()))),
            final(self).header_drawn(*old(self), Id(fnv(old(self).id_seed(), label.spec_bytes())), is_treenode, r),
    {
        let id = self.get_id_from_str(label);
        let idx = self.treenode_pool.get(id);
        let fill: [i32; 1] = [-1];
        self.layout_row(fill.as_slice(), 0);
        let ghost lrow = self.layout_top();
        let held = idx.is_some();
        let ghost before_next = self.layout_stack@;
        let mut r = self.layout_next();
        proof {
            assert(self.layout_stack@.drop_last() =~= before_next.drop_last());
            assert(self.layout_top().indent == old(self).layout_top().indent);
        }
        proof {
            assert(lrow.spec_next(old(self).style) == (self.layout_top(), self.last_rect));
            assert(lrow.widths@[0] == -1);
            assert(lrow.spec_next(old(self).style).1 == self.last_rect);
        }
        self.update_control(id, r, WidgetOption::empty());
        let clicked = self.mouse_pressed.is_left() && self.focus == Some(id);
        let active = held != clicked;
        let expanded = if opt.is_expanded() {
            !active
        } else {
            active
        };
        match idx {
            Some(i) => {
                if active {
                    self.treenode_pool.update(i, self.frame);
                    assert(self.treenode_pool@[i as int].id == id);
                } else {
                    self.treenode_pool.reset(i);
                    proof {
                        let op = old(self).treenode_pool@;
                        if id != Id(0) && self.treenode_pool.holds(id) {
                            let j = choose|j: int| 0 <= j < self.treenode_pool@.len() && #[trigger] self.treenode_pool@[j].id == id;
                            assert(j != i);
                            assert(op[j].id == id && op[i as int].id == id);
                            if j < i {
                                assert(op[j].id == op[i as int].id);
                            } else {
                                assert(op[i as int].id == op[j].id);
                            }
                        }
                    }
                }
            },
            None => {
                if active {
                    let k = self.treenode_pool.allocate(id, self.frame);
                    assert(old(self).treenode_pool@[k as int].last_update < old(self).frame);
                    assert(self.treenode_pool@[k as int].id == id);
                }
            },
        }
        let ghost s0 = *self;
        if is_treenode {
            if self.hover == Some(id) {
                self.draw_frame(r, ControlColor::ButtonHover);
            }
        } else {
            self.draw_control_frame(id, r, ControlColor::Button, WidgetOption::empty());
        }
        let ghost s1 = *self;
        let icon = if expanded {
            Icon::Expanded
        } else {
            Icon::Collapsed
        };
        let tc = self.style.color(ControlColor::Text);
        self.draw_icon(icon, rect(r.x, r.y, r.h, r.h), tc);
        let ghost s2 = *self;
        let shift = sat_sub(r.h, self.style.padding);
        r.x = sat_add(r.x, shift);
        r.w = sat_sub(r.w, shift);
        self.draw_control_text(label, r, ControlColor::Text, WidgetOption::empty());
        proof {
            assert(old(self).command_list@.subrange(0, old(self).command_list@.len() as int) =~= old(self).command_list@);
            lemma_prefix_trans(old(self).command_list@, s0.command_list@, s1.command_list@);
            lemma_prefix_trans(old(self).command_list@, s1.command_list@, s2.command_list@);
            lemma_prefix_trans(old(self).command_list@, s2.command_list@, self.command_list@);
            assert(s2.command_list@ =~= self.command_list@.subrange(0, s2.command_list@.len() as int));
            assert(0u32 & WidgetOption::NO_FRAME == 0) by (bit_vector);
            assert(1u32 != 0u32);
            if is_treenode && self.hover != Some(id) {
                assert(s1.command_list@ =~= old(self).command_list@ + Seq::<Command>::empty());
            }
        }
        if expanded {
            ResourceState::from_bits(ResourceState::ACTIVE)
        } else {
            ResourceState::empty()
        }
    }
}

} // verus!
