//! The layout cursor: rows of declared column widths handing out successive rectangles.
use vstd::prelude::*;
use crate::math::{sat, sat_add, sat_sub, spec_max, Rect, Vec2};
use crate::context::Context;
use crate::style::{Style, TextMetrics};

verus! {

/// Most columns a row can declare.
pub const MAX_WIDTHS: usize = 16;

/// How a rectangle given to `set_next` is placed.
#[derive(Clone, Copy, Debug, Default, PartialEq, Eq, Structural)]
pub enum LayoutPosition {
    #[default]
    Auto,
    Relative,
    Absolute,
}

/// One layout frame: a body, a cursor, the current row's widths and the extent reached.
#[derive(Clone, Copy, Debug)]
pub struct Layout {
    pub body: Rect,
    pub next: Rect,
    pub position: Vec2,
    pub size: Vec2,
    pub max: Vec2,
    pub widths: [i32; 16],
    pub items: usize,
    pub item_index: usize,
    pub next_row: i32,
    pub next_type: LayoutPosition,
    pub indent: i32,
}

/// The default side for a declared size of 0: the style's size plus padding on both sides.
pub open spec fn default_side(size: i32, padding: i32) -> int {
    sat(size + sat(padding + padding))
}

impl Layout {
    pub open spec fn wf(self) -> bool {
        self.items <= MAX_WIDTHS && (self.items > 0 ==> self.item_index <= self.items)
    }

    /// The layout after declaring a row of `n` columns with `height`; the widths array
    /// itself is described apart.
    pub open spec fn spec_row(self, n: usize, height: i32) -> Layout {
        Layout {
            items: n,
            position: Vec2 { x: self.indent, y: self.next_row },
            size: Vec2 { x: self.size.x, y: height },
            item_index: 0,
            ..self
        }
    }

    /// The layout with the cursor moved past `res` (still relative to the body), and the
    /// rectangle translated into the body.
    pub open spec fn spec_advance(self, res: Rect, style: Style) -> (Layout, Rect) {
        let out = Rect {
            x: sat(res.x + self.body.x) as i32,
            y: sat(res.y + self.body.y) as i32,
            w: res.w,
            h: res.h,
        };
        let l = Layout {
            position: Vec2 {
                x: sat(self.position.x + sat(res.w + style.spacing)) as i32,
                y: self.position.y,
            },
            next_row: spec_max(
                self.next_row as int,
                sat(sat(res.y + res.h) + style.spacing),
            ) as i32,
            max: Vec2 {
                x: spec_max(self.max.x as int, sat(out.x + out.w)) as i32,
                y: spec_max(self.max.y as int, sat(out.y + out.h)) as i32,
            },
            ..self
        };
        (l, out)
    }

    /// The row in effect for the next cell: the current one, or the same row again once
    /// every column of it has been handed out.
    pub open spec fn spec_wrapped(self) -> Layout {
        if self.item_index == self.items {
            self.spec_row(self.items, self.size.y)
        } else {
            self
        }
    }

    /// The next cell, relative to the body, and the layout with its column taken.
    pub open spec fn spec_cell(self, style: Style) -> (Layout, Rect) {
        let l = self.spec_wrapped();
        let w0 = if l.items > 0 {
            l.widths[l.item_index as int]
        } else {
            l.size.x
        };
        let h0 = l.size.y;
        let w1 = if w0 == 0 {
            default_side(style.size.x, style.padding) as i32
        } else {
            w0
        };
        let h1 = if h0 == 0 {
            default_side(style.size.y, style.padding) as i32
        } else {
            h0
        };
        let w2 = if w1 < 0 {
            sat(w1 + sat(sat(l.body.w - l.position.x) + 1)) as i32
        } else {
            w1
        };
        let h2 = if h1 < 0 {
            sat(h1 + sat(sat(l.body.h - l.position.y) + 1)) as i32
        } else {
            h1
        };
        let next_index = if l.item_index < usize::MAX {
            (l.item_index + 1) as usize
        } else {
            l.item_index
        };
        (Layout { item_index: next_index, ..l }, Rect { x: l.position.x, y: l.position.y, w: w2, h: h2 })
    }

    /// What `next` gives: the layout after the call and the rectangle handed out.
    pub open spec fn spec_next(self, style: Style) -> (Layout, Rect) {
        if self.next_type == LayoutPosition::Absolute {
            (Layout { next_type: LayoutPosition::Auto, ..self }, self.next)
        } else if self.next_type == LayoutPosition::Relative {
            Layout { next_type: LayoutPosition::Auto, ..self }.spec_advance(self.next, style)
        } else {
            let (l, res) = self.spec_cell(style);
            l.spec_advance(res, style)
        }
    }

    /// Declares the next row: its column widths and its height.
    pub fn row(&mut self, widths: &[i32], height: i32)
        requires
            widths@.len() <= MAX_WIDTHS,
        ensures
            final(self).widths@ == widths@ + old(self).widths@.skip(widths@.len() as int),
            *final(self) == (Layout { widths: final(self).widths, ..old(self).spec_row(widths@.len() as usize, height) }),
            final(self).wf(),
    {
        let n = widths.len();
        let mut i: usize = 0;
        while i < n
            invariant
                n == widths@.len(),
                n <= MAX_WIDTHS,
                i <= n,
                forall|k: int| 0 <= k < i ==> self.widths@[k] == widths@[k],
                forall|k: int| i <= k < MAX_WIDTHS ==> self.widths@[k] == old(self).widths@[k],
                self.body == old(self).body,
                self.next == old(self).next,
                self.position == old(self).position,
                self.size == old(self).size,
                self.max == old(self).max,
                self.items == old(self).items,
                self.item_index == old(self).item_index,
                self.next_row == old(self).next_row,
                self.next_type == old(self).next_type,
                self.indent == old(self).indent,
            decreases n - i,
        {
            self.widths[i] = widths[i];
            i = i + 1;
        }
        self.items = n;
        self.position = Vec2 { x: self.indent, y: self.next_row };
        self.size.y = height;
        self.item_index = 0;
        assert(self.widths@ =~= widths@ + old(self).widths@.skip(n as int));
    }

    fn advance(&mut self, res: Rect, style: &Style) -> (r: Rect)
        ensures
            (*final(self), r) == old(self).spec_advance(res, *style),
    {
        let out = Rect { x: sat_add(res.x, self.body.x), y: sat_add(res.y, self.body.y), w: res.w, h: res.h };
        self.position.x = sat_add(self.position.x, sat_add(res.w, style.spacing));
        let bottom = sat_add(sat_add(res.y, res.h), style.spacing);
        if bottom > self.next_row {
            self.next_row = bottom;
        }
        let right = sat_add(out.x, out.w);
        if right > self.max.x {
            self.max.x = right;
        }
        let low = sat_add(out.y, out.h);
        if low > self.max.y {
            self.max.y = low;
        }
        out
    }

    /// Hands out the next rectangle, already translated into the body.
    pub fn next(&mut self, style: &Style) -> (r: Rect)
        requires
            old(self).wf(),
        ensures
            (*final(self), r) == old(self).spec_next(*style),
            final(self).wf(),
    {
        if self.next_type != LayoutPosition::Auto {
            let kind = self.next_type;
            self.next_type = LayoutPosition::Auto;
            let res = self.next;
            if kind == LayoutPosition::Absolute {
                return res;
            }
            return self.advance(res, style);
        }
        if self.item_index == self.items {
            self.position = Vec2 { x: self.indent, y: self.next_row };
            self.item_index = 0;
        }
        let mut w = if self.items > 0 {
            self.widths[self.item_index]
        } else {
            self.size.x
        };
        let mut h = self.size.y;
        if w == 0 {
            w = sat_add(style.size.x, sat_add(style.padding, style.padding));
        }
        if h == 0 {
            h = sat_add(style.size.y, sat_add(style.padding, style.padding));
        }
        if w < 0 {
            w = sat_add(w, sat_add(sat_sub(self.body.w, self.position.x), 1));
        }
        if h < 0 {
            h = sat_add(h, sat_add(sat_sub(self.body.h, self.position.y), 1));
        }
        if self.item_index < usize::MAX {
            self.item_index = self.item_index + 1;
        }
        let res = Rect { x: self.position.x, y: self.position.y, w, h };
        self.advance(res, style)
    }
}

/// A coordinate far enough from the bounds of `i32` that sums of a few of them stay exact.
pub open spec fn moderate(v: int) -> bool {
    -0x100_0000 <= v <= 0x100_0000
}

/// Within one row, with widths that are not negative, each rectangle starts on the same line
/// exactly `width + spacing` after the start of the one before it; with spacing that is not
/// negative, successive rectangles therefore never overlap.
pub proof fn lemma_row_advances(l: Layout, style: Style)
    requires
        l.wf(),
        l.next_type == LayoutPosition::Auto,
        l.item_index + 1 < l.items,
        l.widths[l.item_index as int] >= 0,
        l.widths[l.item_index + 1] >= 0,
        moderate(l.widths[l.item_index as int] as int),
        moderate(l.widths[l.item_index + 1] as int),
        moderate(l.position.x as int),
        moderate(l.position.y as int),
        moderate(l.body.x as int),
        moderate(l.body.y as int),
        moderate(l.body.h as int),
        moderate(l.size.y as int),
        moderate(style.size.x as int),
        moderate(style.size.y as int),
        moderate(style.padding as int),
        moderate(style.spacing as int),
        style.size.x >= 0,
        style.padding >= 0,
    ensures
        ({
            let (l1, r1) = l.spec_next(style);
            let (l2, r2) = l1.spec_next(style);
            &&& r2.x == r1.x + r1.w + style.spacing
            &&& r2.y == r1.y
            &&& r1.w >= 0
            &&& (style.spacing >= 0 ==> r1.x + r1.w <= r2.x)
        }),
{
    let (c1, q1) = l.spec_cell(style);
    assert(c1.item_index == l.item_index + 1);
    assert(q1.x == l.position.x);
    let (l1, r1) = c1.spec_advance(q1, style);
    assert(l1.position.x == l.position.x + q1.w + style.spacing);
    assert(l1.item_index < l1.items);
    let (c2, q2) = l1.spec_cell(style);
    assert(q2.x == l1.position.x);
}


/// The frame that `push_layout` opens for `body` scrolled by `scroll`, before its first row
/// is declared.
pub open spec fn fresh_layout(l: Layout, body: Rect, scroll: Vec2) -> bool {
    &&& l.body == (Rect {
        x: sat(body.x - scroll.x) as i32,
        y: sat(body.y - scroll.y) as i32,
        w: body.w,
        h: body.h,
    })
    &&& l.next == (Rect { x: 0, y: 0, w: 0, h: 0 })
    &&& l.position == (Vec2 { x: 0, y: 0 })
    &&& l.size == (Vec2 { x: 0, y: 0 })
    &&& l.max.x == -0x1000000
    &&& l.max.y == -0x1000000
    &&& l.widths@[0] == 0
    &&& l.items == 1
    &&& l.item_index == 0
    &&& l.next_row == 0
    &&& l.next_type == LayoutPosition::Auto
    &&& l.indent == 0
}

/// The parent frame after a column closes: the cursor and the next row move past the
/// column, and the extents merge.
pub open spec fn merged_column(a: Layout, b: Layout) -> Layout {
    Layout {
        position: Vec2 {
            x: spec_max(a.position.x as int, sat(sat(b.position.x + b.body.x) - a.body.x)) as i32,
            y: a.position.y,
        },
        next_row: spec_max(a.next_row as int, sat(sat(b.next_row + b.body.y) - a.body.y)) as i32,
        max: Vec2 {
            x: spec_max(a.max.x as int, b.max.x as int) as i32,
            y: spec_max(a.max.y as int, b.max.y as int) as i32,
        },
        ..a
    }
}

impl<M: TextMetrics> Context<M> {
    /// The innermost layout frame.
    pub open spec fn layout_top(&self) -> Layout {
        self.layout_stack@.last()
    }

    /// Opens a layout frame over `body`, scrolled by `scroll`, with one default column.
    pub fn push_layout(&mut self, body: Rect, scroll: Vec2)
        requires
            old(self).wf(),
        ensures
            final(self).wf(),
            final(self).layout_stack@.len() == old(self).layout_stack@.len() + 1,
            final(self).layout_stack@.drop_last() == old(self).layout_stack@,
            fresh_layout(final(self).layout_top(), body, scroll),
            *final(self) == (Context { layout_stack: final(self).layout_stack, ..*old(self) }),
    {
        let mut l = Layout {
            body: Rect { x: sat_sub(body.x, scroll.x), y: sat_sub(body.y, scroll.y), w: body.w, h: body.h },
            next: Rect { x: 0, y: 0, w: 0, h: 0 },
            position: Vec2 { x: 0, y: 0 },
            size: Vec2 { x: 0, y: 0 },
            max: Vec2 { x: -0x1000000, y: -0x1000000 },
            widths: [0; 16],
            items: 0,
            item_index: 0,
            next_row: 0,
            next_type: LayoutPosition::Auto,
            indent: 0,
        };
        let w: [i32; 1] = [0];
        l.row(w.as_slice(), 0);
        self.layout_stack.push(l);
        proof {
            assert(self.layout_stack@.drop_last() =~= old(self).layout_stack@);
        }
    }

    /// The innermost layout frame.
    pub fn get_layout(&self) -> (r: &Layout)
        requires
            self.layout_stack@.len() > 0,
        ensures
            *r == self.layout_top(),
    {
        &self.layout_stack[self.layout_stack.len() - 1]
    }

    /// Replaces the innermost layout frame.
    fn set_layout(&mut self, l: Layout)
        requires
            old(self).wf(),
            old(self).layout_stack@.len() > 0,
            l.wf(),
        ensures
            final(self).wf(),
            final(self).layout_stack@ == old(self).layout_stack@.update(
                old(self).layout_stack@.len() - 1,
                l,
            ),
            *final(self) == (Context { layout_stack: final(self).layout_stack, ..*old(self) }),
    {
        let n = self.layout_stack.len();
        self.layout_stack.set(n - 1, l);
    }

    /// Opens a column over the next rectangle of the current frame.
    pub fn layout_begin_column(&mut self)
        requires
            old(self).wf(),
            old(self).layout_stack@.len() > 0,
        ensures
            final(self).wf(),
            final(self).layout_stack@.len() == old(self).layout_stack@.len() + 1,
            final(self).layout_stack@.drop_last() == old(self).layout_stack@.update(
                old(self).layout_stack@.len() - 1,
                old(self).layout_top().spec_next(old(self).style).0,
            ),
            fresh_layout(final(self).layout_top(), old(self).layout_top().spec_next(old(self).style).1, Vec2 { x: 0, y: 0 }),
            *final(self) == (Context { layout_stack: final(self).layout_stack, last_rect: final(self).last_rect, ..*old(self) }),
    {
        let r = self.layout_next();
        self.push_layout(r, Vec2 { x: 0, y: 0 });
    }

    /// Closes a column and merges its cursor and extent into the parent frame.
    pub fn layout_end_column(&mut self)
        requires
            old(self).wf(),
            old(self).layout_stack@.len() > 1,
        ensures
            final(self).wf(),
            final(self).layout_stack@ == old(self).layout_stack@.drop_last().update(
                old(self).layout_stack@.len() - 2,
                merged_column(old(self).layout_stack@[old(self).layout_stack@.len() - 2], old(self).layout_top()),
            ),
            *final(self) == (Context { layout_stack: final(self).layout_stack, ..*old(self) }),
    {
        let b = *self.get_layout();
        self.layout_stack.pop();
        let mut a = *self.get_layout();
        proof {
            assert(self.layout_stack@.len() > 0);
            assert(self.layout_stack@[self.layout_stack@.len() - 1].wf());
        }
        let px = sat_sub(sat_add(b.position.x, b.body.x), a.body.x);
        if px > a.position.x {
            a.position.x = px;
        }
        let ny = sat_sub(sat_add(b.next_row, b.body.y), a.body.y);
        if ny > a.next_row {
            a.next_row = ny;
        }
        if b.max.x > a.max.x {
            a.max.x = b.max.x;
        }
        if b.max.y > a.max.y {
            a.max.y = b.max.y;
        }
        self.set_layout(a);
    }

    /// Declares the next row of the current frame.
    pub fn layout_row(&mut self, widths: &[i32], height: i32)
        requires
            old(self).wf(),
            old(self).layout_stack@.len() > 0,
            widths@.len() <= MAX_WIDTHS,
        ensures
            final(self).wf(),
            final(self).layout_stack@.len() == old(self).layout_stack@.len(),
            final(self).layout_stack@.drop_last() == old(self).layout_stack@.drop_last(),
            final(self).layout_top().widths@ == widths@ + old(self).layout_top().widths@.skip(widths@.len() as int),
            final(self).layout_top() == (Layout {
                widths: final(self).layout_top().widths,
                ..old(self).layout_top().spec_row(widths@.len() as usize, height)
            }),
            *final(self) == (Context { layout_stack: final(self).layout_stack, ..*old(self) }),
    {
        let mut l = *self.get_layout();
        l.row(widths, height);
        self.set_layout(l);
        proof {
            assert(self.layout_stack@.drop_last() =~= old(self).layout_stack@.drop_last());
        }
    }

    /// Sets the width used where a row declares no columns.
    pub fn layout_width(&mut self, width: i32)
        requires
            old(self).wf(),
            old(self).layout_stack@.len() > 0,
        ensures
            final(self).wf(),
            final(self).layout_stack@ == old(self).layout_stack@.update(
                old(self).layout_stack@.len() - 1,
                Layout { size: Vec2 { x: width, y: old(self).layout_top().size.y }, ..old(self).layout_top() },
            ),
            *final(self) == (Context { layout_stack: final(self).layout_stack, ..*old(self) }),
    {
        let mut l = *self.get_layout();
        l.size.x = width;
        self.set_layout(l);
    }

    /// Sets the height of the current row.
    pub fn layout_height(&mut self, height: i32)
        requires
            old(self).wf(),
            old(self).layout_stack@.len() > 0,
        ensures
            final(self).wf(),
            final(self).layout_stack@ == old(self).layout_stack@.update(
                old(self).layout_stack@.len() - 1,
                Layout { size: Vec2 { x: old(self).layout_top().size.x, y: height }, ..old(self).layout_top() },
            ),
            *final(self) == (Context { layout_stack: final(self).layout_stack, ..*old(self) }),
    {
        let mut l = *self.get_layout();
        l.size.y = height;
        self.set_layout(l);
    }

    /// Makes the next `layout_next` hand out `r`, placed as `position` says.
    pub fn layout_set_next(&mut self, r: Rect, position: LayoutPosition)
        requires
            old(self).wf(),
            old(self).layout_stack@.len() > 0,
        ensures
            final(self).wf(),
            final(self).layout_stack@ == old(self).layout_stack@.update(
                old(self).layout_stack@.len() - 1,
                Layout { next: r, next_type: position, ..old(self).layout_top() },
            ),
            *final(self) == (Context { layout_stack: final(self).layout_stack, ..*old(self) }),
    {
        let mut l = *self.get_layout();
        l.next = r;
        l.next_type = position;
        self.set_layout(l);
    }

    /// Hands out the next rectangle of the current frame.
    pub fn layout_next(&mut self) -> (r: Rect)
        requires
            old(self).wf(),
            old(self).layout_stack@.len() > 0,
        ensures
            final(self).wf(),
            r == old(self).layout_top().spec_next(old(self).style).1,
            final(self).layout_stack@ == old(self).layout_stack@.update(
                old(self).layout_stack@.len() - 1,
                old(self).layout_top().spec_next(old(self).style).0,
            ),
            *final(self) == (Context { layout_stack: final(self).layout_stack, last_rect: r, ..*old(self) }),
    {
        let style = self.style;
        let mut l = *self.get_layout();
        let res = l.next(&style);
        self.set_layout(l);
        self.last_rect = res;
        res
    }
}

} // verus!