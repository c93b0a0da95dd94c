//! Buttons labelled with text or an icon.
use vstd::prelude::*;
use vstd::string::StringSliceAdditionalSpecFns;
use crate::context::{
    clipped_cmds, frame_cmds, lemma_prefix_trans, lemma_text_runs_extend, text_runs_from, Command, Context, Icon,
    ResourceState,
};
use crate::id::{fnv, le_bytes, Id};
use crate::input::MouseButton;
use crate::style::{ControlColor, TextMetrics};
use crate::widget::WidgetOption;

verus! {

/// What a button shows, and what its identifier is hashed from.
#[derive(Clone, Copy, Debug)]
pub enum ButtonLabel<'t> {
    Text(&'t str),
    Icon(Icon),
}

impl<'t> ButtonLabel<'t> {
    /// The bytes hashed into the button's identifier.
    pub open spec fn id_bytes(self) -> Seq<u8> {
        match self {
            ButtonLabel::Text(t) => t.spec_bytes(),
            ButtonLabel::Icon(i) => le_bytes(i.spec_code() as nat, 4),
        }
    }
}

/// A button to show: its label and options.
#[derive(Clone, Copy, Debug)]
pub struct Button<'t> {
    pub label: ButtonLabel<'t>,
    pub opt: WidgetOption,
}

impl<'t> Button<'t> {
    /// A button with centred content.
    pub fn new(label: ButtonLabel<'t>) -> (b: Self)
        ensures
            b.label == label,
            b.opt.bits == WidgetOption::ALIGN_CENTER,
    {
        Button { label, opt: WidgetOption::from_bits(WidgetOption::ALIGN_CENTER) }
    }

    /// Draws the button in `ctx`; the result is submitted when it was clicked.
    pub fn update<M: TextMetrics>(self, ctx: &mut Context<M>) -> (r: ResourceState)
        requires
            old(ctx).wf(),
            old(ctx).layout_stack@.len() > 0,
            old(ctx).clip_stack@.len() > 0,
        ensures
            final(ctx).wf(),
            final(ctx).pressed_button(*old(ctx), Id(fnv(old(ctx).id_seed(), self.label.id_bytes())), self.opt, r),
            final(ctx).button_drawn(*old(ctx), Id(fnv(old(ctx).id_seed(), self.label.id_bytes())), self.label, self.opt),
    {
        ctx.button_ex(self.label, self.opt)
    }
}

impl<M: TextMetrics> Context<M> {
    pub fn button<'t>(&self, label: &'t str) -> (b: Button<'t>)
        ensures
            b.label == ButtonLabel::Text(label),
            b.opt.bits == WidgetOption::ALIGN_CENTER,
    {
        Button::new(ButtonLabel::Text(label))
    }

    pub fn button_icon(&self, icon: Icon) -> (b: Button<'static>)
        ensures
            b.label == ButtonLabel::Icon(icon),
            b.opt.bits == WidgetOption::ALIGN_CENTER,
    {
        Button::new(ButtonLabel::Icon(icon))
    }

    /// What drawing button `id` leaves: hover and focus resolved over the next layout
    /// rectangle, and a submitted result exactly when a left press came while it has focus.
    pub open spec fn pressed_button(self, old: Self, id: Id, opt: WidgetOption, r: ResourceState) -> bool {
        let rect = old.layout_top().spec_next(old.style).1;
        let (h, f, u) = old.spec_update_control(id, rect, opt);
        &&& self.hover == h
        &&& self.focus == f
        &&& self.updated_focus == u
        &&& r.bits == (if old.mouse_pressed.has(MouseButton::LEFT) && f == Some(id) {
            ResourceState::SUBMIT
        } else {
            0
        })
        &&& self.container_stack@ == old.container_stack@
        &&& self.clip_stack@ == old.clip_stack@
        &&& self.id_stack@ == old.id_stack@
        &&& self.root_list@ == old.root_list@
        &&& self.layout_stack@ == old.layout_stack@.update(
            old.layout_stack@.len() - 1,
            old.layout_top().spec_next(old.style).0,
        )
        &&& self.containers == old.containers
        &&& self.frame == old.frame
        &&& old.command_list@.is_prefix_of(self.command_list@)
    }

    /// What drawing button `id` appends: the control's frame in the button colour (unless
    /// `NO_FRAME`), then its label: text runs for a text label, the icon for an icon label.
    pub open spec fn button_drawn(self, old: Self, id: Id, label: ButtonLabel, opt: WidgetOption) -> bool {
        let r = old.layout_top().spec_next(old.style).1;
        let frame = if opt.has(WidgetOption::NO_FRAME) {
            Seq::empty()
        } else {
            frame_cmds(old.style, old.clip_top(), r, self.control_color(id, ControlColor::Button))
        };
        let n = old.command_list@.len() + frame.len();
        &&& n <= self.command_list@.len()
        &&& self.command_list@.subrange(0, n as int) == old.command_list@ + frame
        &&& match label {
            ButtonLabel::Text(_) => text_runs_from(self.command_list@, n as int),
            ButtonLabel::Icon(i) => self.command_list@ == old.command_list@ + frame + clipped_cmds(
                old.spec_check_clip(r),
                old.clip_top(),
                Command::Icon { rect: r, id: i, color: old.style.colors[ControlColor::Text.spec_index() as int] },
            ),
        }
    }

    /// A button: submitted when clicked with the left button while it has focus.
    pub fn button_ex(&mut self, label: ButtonLabel, opt: WidgetOption) -> (r: ResourceState)
        requires
            old(self).wf(),
            old(self).layout_stack@.len() > 0,
            old(self).clip_stack@.len() > 0,
        ensures
            final(self).wf(),
            final(self).pressed_button(*old(self), Id(fnv(old(self).id_seed(), label.id_bytes())), opt, r),
            final(self).button_drawn(*old(self), Id(fnv(old(self).id_seed(), label.id_bytes())), label, opt),
    {
        let id = match label {
            ButtonLabel::Text(text) => self.get_id_from_str(text),
            ButtonLabel::Icon(icon) => self.get_id_u32(icon.code()),
        };
        let r = self.layout_next();
        self.update_control(id, r, opt);
        let submitted = self.mouse_pressed.is_left() && self.focus == Some(id);
        let ghost s0 = *self;
        self.draw_control_frame(id, r, ControlColor::Button, opt);
        let ghost s1 = *self;
        match label {
            ButtonLabel::Text(text) => self.draw_control_text(text, r, ControlColor::Text, opt),
            ButtonLabel::Icon(icon) => {
                let tc = self.style.color(ControlColor::Text);
                self.draw_icon(icon, r, tc);
            },
        }
        proof {
            assert(s0.command_list@.subrange(0, s0.command_list@.len() as int) =~= s0.command_list@);
            lemma_prefix_trans(s0.command_list@, s1.command_list@, self.command_list@);
            assert(s1.command_list@ =~= self.command_list@.subrange(0, s1.command_list@.len() as int));
            match label {
                ButtonLabel::Text(_) => {
                    assert(text_runs_from(self.command_list@, s1.command_list@.len() as int));
                },
                ButtonLabel::Icon(_) => {},
            }
        }
        if submitted {
            ResourceState::from_bits(ResourceState::SUBMIT)
        } else {
            ResourceState::empty()
        }
    }
}

} // verus!
