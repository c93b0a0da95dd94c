//! Panels: scrollable regions nested in the current container.
use vstd::prelude::*;
use vstd::string::StringSliceAdditionalSpecFns;
use crate::context::{lemma_prefix_trans, popped, recorded, Context};
use crate::id::{fnv, Id};
use crate::style::{ControlColor, TextMetrics};
use crate::widget::WidgetOption;

verus! {

/// A panel to show: its name and options.
#[derive(Clone, Copy, Debug)]
pub struct Panel<'a> {
    pub name: &'a str,
    pub opt: WidgetOption,
}

impl<'a> Panel<'a> {
    pub fn new(name: &'a str) -> (p: Self)
        ensures
            p.name == name,
            p.opt.bits == 0,
    {
        Panel { name, opt: WidgetOption::empty() }
    }

    pub fn options(self, opt: WidgetOption) -> (p: Self)
        ensures
            p.name == self.name,
            p.opt == opt,
    {
        Panel { name: self.name, opt }
    }

    /// Opens the panel in `ctx`; `end_panel` must close it.
    pub fn begin<M: TextMetrics>(self, ctx: &mut Context<M>)
        requires
            old(ctx).wf(),
            old(ctx).layout_stack@.len() > 0,
            old(ctx).clip_stack@.len() > 0,
            old(ctx).can_open_panel(Id(fnv(old(ctx).id_seed(), self.name.spec_bytes())), self.opt),
        ensures
            final(ctx).wf(),
            final(ctx).opened_panel(*old(ctx), Id(fnv(old(ctx).id_seed(), self.name.spec_bytes()))),
    {
        ctx.begin_panel(self.name, self.opt)
    }
}

impl<M: TextMetrics> Context<M> {
    pub fn panel<'a>(&self, name: &'a str) -> (p: Panel<'a>)
        ensures
            p.name == name,
            p.opt.bits == 0,
    {
        Panel::new(name)
    }

    /// A panel for `id` can be opened: the registry gives it a container.
    pub open spec fn can_open_panel(&self, id: Id, opt: WidgetOption) -> bool {
        &&& self.can_acquire(id, opt)
        &&& (opt.has(WidgetOption::CLOSED) ==> self.container_pool.holds(id))
    }

    /// What opening panel `id` leaves: its container pushed, with a scope, a layout frame
    /// and a clip rectangle of its own, and its rectangle taken from the layout.
    pub open spec fn opened_panel(self, old: Self, id: Id) -> bool {
        let cnt = self.container_stack@.last();
        &&& self.container_stack@ == old.container_stack@.push(cnt)
        &&& self.id_stack@ == old.id_stack@.push(id)
        &&& self.layout_stack@.len() == old.layout_stack@.len() + 1
        &&& self.clip_stack@.len() == old.clip_stack@.len() + 1
        &&& self.clip_stack@.drop_last() == old.clip_stack@
        &&& self.root_list@ == old.root_list@
        &&& self.containers@[cnt as int].rect == old.layout_top().spec_next(old.style).1
        &&& old.command_list@.is_prefix_of(self.command_list@)
    }

    /// Opens panel `name`: takes the next layout rectangle, draws its background unless
    /// `NO_FRAME`, and lays out its scrollable body.
    pub fn begin_panel(&mut self, name: &str, opt: WidgetOption)
        requires
            old(self).wf(),
            old(self).layout_stack@.len() > 0,
            old(self).clip_stack@.len() > 0,
            old(self).can_open_panel(Id(fnv(old(self).id_seed(), name.spec_bytes())), opt),
        ensures
            final(self).wf(),
            final(self).opened_panel(*old(self), Id(fnv(old(self).id_seed(), name.spec_bytes()))),
    {
        let id = self.get_id_from_str(name);
        self.id_stack.push(id);
        let cnt = self.get_container_index_intern(id, opt).unwrap();
        let r = self.layout_next();
        let mut c = self.containers[cnt];
        c.rect = r;
        self.containers.set(cnt, c);
        let ghost s0 = *self;
        if !opt.has_no_frame() {
            self.draw_frame(r, ControlColor::PanelBG);
        }
        self.container_stack.push(cnt);
        proof {
            assert forall|k: int| 0 <= k < self.container_stack@.len() implies crate::context::slot(#[trigger] self.container_stack@[k]) by {
                if k < s0.container_stack@.len() {
                    assert(self.container_stack@[k] == s0.container_stack@[k]);
                }
            }
        }
        let ghost s1 = *self;
        self.push_container_body(cnt, r, opt);
        let b = self.containers[cnt].body;
        self.push_clip_rect(b);
        proof {
            assert(old(self).command_list@.subrange(0, old(self).command_list@.len() as int) =~= old(self).command_list@);
            lemma_prefix_trans(old(self).command_list@, s0.command_list@, s1.command_list@);
            lemma_prefix_trans(old(self).command_list@, s1.command_list@, self.command_list@);
            assert(self.clip_stack@.drop_last() =~= old(self).clip_stack@);
        }
    }

    /// Closes the panel opened last.
    pub fn end_panel(&mut self)
        requires
            old(self).wf(),
            old(self).container_stack@.len() > 0,
            old(self).layout_stack@.len() > 0,
        ensures
            final(self).wf(),
            final(self).popped_container(
                *old(self),
                1,
                0,
                recorded(old(self).containers@[old(self).container_stack@.last() as int], old(self).layout_top()),
            ),
    {
        self.pop_clip_rect();
        self.pop_container();
        proof {
            assert(self.clip_stack@ =~= popped(old(self).clip_stack@, 1));
        }
    }
}

} // verus!
