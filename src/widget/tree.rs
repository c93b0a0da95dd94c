//! Tree nodes: headers that, while expanded, indent and scope what is drawn under them.
use vstd::prelude::*;
use vstd::string::StringSliceAdditionalSpecFns;
use crate::context::{Context, ResourceState};
use crate::layout::Layout;
use crate::id::{fnv, Id};
use crate::math::{sat, sat_add, sat_sub};
use crate::style::TextMetrics;
use crate::widget::WidgetOption;

verus! {

/// A tree node to show: its label and options.
#[derive(Clone, Copy, Debug)]
pub struct TreeNode<'t> {
    pub label: &'t str,
    pub opt: WidgetOption,
}

impl<'t> TreeNode<'t> {
    pub fn new(label: &'t str) -> (t: Self)
        ensures
            t.label == label,
            t.opt.bits == 0,
    {
        TreeNode { label, opt: WidgetOption::empty() }
    }

    /// Draws the node in `ctx`; when the result is active, `end_treenode` must close it.
    pub fn begin<M: TextMetrics>(self, ctx: &mut Context<M>) -> (r: ResourceState)
        requires
            old(ctx).wf(),
            old(ctx).layout_stack@.len() > 0,
            old(ctx).clip_stack@.len() > 0,
            old(ctx).can_toggle(Id(fnv(old(ctx).id_seed(), self.label.spec_bytes()))),
        ensures
            final(ctx).wf(),
            final(ctx).opened_treenode(*old(ctx), Id(fnv(old(ctx).id_seed(), self.label.spec_bytes())), self.opt, r),
    {
        ctx.begin_treenode_ex(self.label, self.opt)
    }
}

impl<M: TextMetrics> Context<M> {
    pub fn treenode<'t>(&self, label: &'t str) -> (t: TreeNode<'t>)
        ensures
            t.label == label,
            t.opt.bits == 0,
    {
        TreeNode::new(label)
    }

    /// What opening tree node `id` leaves: the header's effect and, while it is expanded,
    /// its identifier pushed as a scope and the layout indented by one step.
    pub open spec fn opened_treenode(self, old: Self, id: Id, opt: WidgetOption, r: ResourceState) -> bool {
        &&& self.header_effect(old, id, opt, r)
        &&& self.header_cell(old, id)
        &&& self.layout_stack@.len() == old.layout_stack@.len()
        &&& if r.bits != 0 {
            &&& self.id_stack@ == old.id_stack@.push(id)
            &&& self.layout_top().indent == sat(old.layout_top().indent + old.style.indent)
        } else {
            &&& self.id_stack@ == old.id_stack@
            &&& self.layout_top().indent == old.layout_top().indent
        }
    }

    /// A tree node for `label`; while expanded its content is indented and scoped under it.
    pub fn begin_treenode_ex(&mut self, label: &str, opt: WidgetOption) -> (r: ResourceState)
        requires
            old(self).wf(),
            old(self).layout_stack@.len() > 0,
            old(self).clip_stack@.len() > 0,
            old(self).can_toggle(Id(fnv(old(self).id_seed(), label.spec_bytes()))),
        ensures
            final(self).wf(),
            final(self).opened_treenode(*old(self), Id(fnv(old(self).id_seed(), label.spec_bytes())), opt, r),
    {
        let res = self.header_ex(label, true, opt);
        assert(1u32 & 1u32 != 0 && 0u32 & 1u32 == 0) by (bit_vector);
        if res.is_active() {
            if let Some(id) = self.last_id {
                let mut l = *self.get_layout();
                l.indent = sat_add(l.indent, self.style.indent);
                let n = self.layout_stack.len();
                self.layout_stack.set(n - 1, l);
                self.id_stack.push(id);
                proof {
                    assert(self.layout_stack@.drop_last() =~= old(self).layout_stack@.drop_last());
                }
            }
        }
        res
    }

    /// Closes the tree node opened last: removes its indent and its scope.
    pub fn end_treenode(&mut self)
        requires
            old(self).wf(),
            old(self).layout_stack@.len() > 0,
        ensures
            final(self).wf(),
            final(self).layout_stack@ == old(self).layout_stack@.update(
                old(self).layout_stack@.len() - 1,
                Layout { indent: sat(old(self).layout_top().indent - old(self).style.indent) as i32, ..old(self).layout_top() },
            ),
            final(self).id_stack@ == (if old(self).id_stack@.len() == 0 {
                old(self).id_stack@
            } else {
                old(self).id_stack@.drop_last()
            }),
            *final(self) == (Context { layout_stack: final(self).layout_stack, id_stack: final(self).id_stack, ..*old(self) }),
    {
        let mut l = *self.get_layout();
        l.indent = sat_sub(l.indent, self.style.indent);
        let n = self.layout_stack.len();
        self.layout_stack.set(n - 1, l);
        self.pop_id();
    }
}

} // verus!
