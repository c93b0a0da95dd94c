//! Labels, wrapped text, checkboxes and text boxes.
use vstd::prelude::*;
use vstd::string::{StrSliceExecFns, StringExecFns, StringSliceAdditionalSpecFns};
use crate::context::{
    clipped_cmds, frame_cmds, lemma_prefix_trans, lemma_text_runs_extend, text_runs_from, Clip, Command, Context, Icon,
    ResourceState,
};
use crate::layout::{merged_column, Layout};
use crate::id::{fnv, le_bytes, Id};
use crate::input::{KeyMode, MouseButton};
use crate::math::{rect, sat_add, sat_from_usize, sat_sub, vec2, Rect, Vec2};
use crate::style::{ControlColor, TextMetrics};
use crate::widget::WidgetOption;

verus! {

/// Relies on `String::pop`: it removes the last character and returns it, or returns
/// `None` and leaves an empty string as it is.
#[verifier::external_body]
fn pop_char(s: &mut String) -> (r: Option<char>)
    ensures
        old(s)@.len() == 0 ==> r is None && final(s)@ == old(s)@,
        old(s)@.len() > 0 ==> r == Some(old(s)@.last()) && final(s)@ == old(s)@.drop_last(),
{
    s.pop()
}

/// The text a text box holds after one frame with focus: the typed text appended, then one
/// character removed on backspace.
pub open spec fn edited_text(buf: Seq<char>, typed: Seq<char>, keys: KeyMode) -> Seq<char> {
    let appended = buf + typed;
    if keys.has(KeyMode::BACKSPACE) && appended.len() > 0 {
        appended.drop_last()
    } else {
        appended
    }
}

/// What a focused text box reports: changed when text was typed or removed, submitted on
/// return.
pub open spec fn edit_result(buf: Seq<char>, typed: Seq<char>, keys: KeyMode) -> u32 {
    let changed = typed.len() > 0 || (keys.has(KeyMode::BACKSPACE) && (buf + typed).len() > 0);
    (if changed {
        ResourceState::CHANGE
    } else {
        0u32
    }) | (if keys.has(KeyMode::RETURN) {
        ResourceState::SUBMIT
    } else {
        0u32
    })
}

impl<M: TextMetrics> Context<M> {
    /// `self` differs from `old` by one widget laid out in the current frame: the layout
    /// frame on top and drawing may differ; every other stack, the containers, the pools,
    /// hover and focus are as they were.
    pub open spec fn laid_out_from(self, old: Self) -> bool {
        &&& self.container_stack@ == old.container_stack@
        &&& self.root_list@ == old.root_list@
        &&& self.clip_stack@ == old.clip_stack@
        &&& self.id_stack@ == old.id_stack@
        &&& self.layout_stack@.len() == old.layout_stack@.len()
        &&& self.layout_stack@.drop_last() == old.layout_stack@.drop_last()
        &&& self.containers == old.containers
        &&& self.container_pool@ == old.container_pool@
        &&& self.treenode_pool@ == old.treenode_pool@
        &&& self.hover == old.hover
        &&& self.focus == old.focus
        &&& self.updated_focus == old.updated_focus
        &&& self.frame == old.frame
        &&& self.style == old.style
        &&& self.mouse_pos == old.mouse_pos
        &&& self.hover_root == old.hover_root
        &&& old.command_list@.is_prefix_of(self.command_list@)
    }

    /// A line of text in the next layout rectangle.
    pub fn label(&mut self, text: &str)
        requires
            old(self).wf(),
            old(self).layout_stack@.len() > 0,
            old(self).clip_stack@.len() > 0,
        ensures
            final(self).wf(),
            final(self).laid_out_from(*old(self)),
            final(self).layout_top() == old(self).layout_top().spec_next(old(self).style).0,
            text_runs_from(final(self).command_list@, old(self).command_list@.len() as int),
    {
        let r = self.layout_next();
        self.draw_control_text(text, r, ControlColor::Text, WidgetOption::empty());
        proof {
            assert(self.layout_stack@.drop_last() =~= old(self).layout_stack@.drop_last());
            assert(old(self).command_list@.subrange(0, old(self).command_list@.len() as int) =~= old(self).command_list@);
        }
    }

    /// Draws one word of wrapped text at `(rx, y)` if it fits before `limit`; gives the
    /// cursor after it, or `None` when the word does not fit.
    fn place_word(&mut self, word: &str, rx: i32, y: i32, limit: i64) -> (next: Option<i32>)
        requires
            old(self).wf(),
            old(self).clip_stack@.len() > 0,
        ensures
            final(self).wf(),
            final(self).drawn_from(*old(self)),
            text_runs_from(final(self).command_list@, old(self).command_list@.len() as int),
    {
        let font = self.style.font;
        let tw = self.get_text_width(font, word);
        if (tw as i64) + (rx as i64) < limit {
            let color = self.style.color(ControlColor::Text);
            self.draw_text(font, word, vec2(rx, y), color);
            proof {
                let n = old(self).command_list@.len() as int;
                assert forall|k: int| n <= k < self.command_list@.len() implies (#[trigger] self.command_list@[k] is Text
                    || self.command_list@[k] is Clip) by {
                    let (w, h) = choose|w: i32, h: i32|
                        #![trigger old(self).spec_check_clip(Rect { x: rx, y: y, w, h })]
                        w >= 0 && h >= 0 && {
                            let kind = old(self).spec_check_clip(Rect { x: rx, y: y, w, h });
                            &&& self.command_list@ == old(self).command_list@ + clipped_cmds(
                                kind,
                                old(self).clip_top(),
                                Command::Text {
                                    font,
                                    pos: Vec2 { x: rx, y },
                                    color,
                                    str_start: vstd::utf8::encode_utf8(old(self).text_stack@).len() as usize,
                                    str_len: word.spec_bytes().len() as usize,
                                },
                            )
                            &&& self.text_stack@ == (if kind == Clip::All {
                                old(self).text_stack@
                            } else {
                                old(self).text_stack@ + word@
                            })
                        };
                    assert(self.command_list@[k] == clipped_cmds(
                        old(self).spec_check_clip(Rect { x: rx, y: y, w, h }),
                        old(self).clip_top(),
                        Command::Text {
                            font,
                            pos: Vec2 { x: rx, y },
                            color,
                            str_start: vstd::utf8::encode_utf8(old(self).text_stack@).len() as usize,
                            str_len: word.spec_bytes().len() as usize,
                        },
                    )[k - n]);
                }
            }
            Some(sat_add(rx, tw))
        } else {
            assert(self.command_list@.subrange(0, self.command_list@.len() as int) =~= self.command_list@);
            proof {
                crate::context::lemma_tags_refl(*self);
            }
            None
        }
    }

    /// Multi-line text wrapped at spaces inside a column of the current layout: each line
    /// of `text` starts a layout row, and a word that does not fit moves on to the next row
    /// (the word itself is dropped).
    pub fn text(&mut self, text: &str)
        requires
            old(self).wf(),
            old(self).layout_stack@.len() > 0,
            old(self).clip_stack@.len() > 0,
        ensures
            final(self).wf(),
            final(self).laid_out_from(*old(self)),
            text_runs_from(final(self).command_list@, old(self).command_list@.len() as int),
            exists|col: Layout|
                #![trigger merged_column(old(self).layout_top().spec_next(old(self).style).0, col)]
                final(self).layout_top() == merged_column(old(self).layout_top().spec_next(old(self).style).0, col),
    {
        let font = self.style.font;
        let ghost k = old(self).layout_stack@.len() - 1;
        let ghost parent = old(self).layout_top().spec_next(old(self).style).0;
        let ghost n0 = old(self).command_list@.len() as int;
        self.layout_begin_column();
        proof {
            assert(self.layout_stack@.take(k) =~= old(self).layout_stack@.take(k));
            assert(self.layout_stack@.drop_last()[k] == parent);
            assert(self.layout_stack@[k] == parent);
        }
        let h = sat_from_usize(self.metrics.font_height(font));
        let fill: [i32; 1] = [-1];
        let ghost t0 = self.layout_stack@;
        self.layout_row(fill.as_slice(), h);
        proof {
            assert(self.layout_stack@.take(k) =~= t0.take(k));
            assert(self.layout_stack@.drop_last()[k] == t0.drop_last()[k]);
            assert(self.layout_stack@[k] == parent);
        }
        let ghost t1 = self.layout_stack@;
        let mut r = self.layout_next();
        proof {
            assert(self.layout_stack@.take(k) =~= t1.take(k));
            assert(self.layout_stack@[k] == t1[k]);
        }
        proof {
            assert(old(self).command_list@.subrange(0, old(self).command_list@.len() as int) =~= old(self).command_list@);
            assert(self.layout_stack@[k] == parent);
            assert(self.command_list@ == old(self).command_list@);
        }
        let n = text.unicode_len();
        let mut start: usize = 0;
        while start < n
            invariant
                self.wf(),
                self.clip_stack@.len() > 0,
                old(self).layout_stack@.len() > 0,
                self.layout_stack@[k] == parent,
                text_runs_from(self.command_list@, n0),
                n0 == old(self).command_list@.len(),
                k == old(self).layout_stack@.len() - 1,
                parent == old(self).layout_top().spec_next(old(self).style).0,
                n == text@.len(),
                self.layout_stack@.len() == old(self).layout_stack@.len() + 1,
                self.layout_stack@.take(old(self).layout_stack@.len() - 1) == old(self).layout_stack@.take(old(self).layout_stack@.len() - 1),
                self.clip_stack@ == old(self).clip_stack@,
                self.container_stack@ == old(self).container_stack@,
                self.root_list@ == old(self).root_list@,
                self.id_stack@ == old(self).id_stack@,
                self.containers == old(self).containers,
                self.container_pool@ == old(self).container_pool@,
                self.treenode_pool@ == old(self).treenode_pool@,
                self.hover == old(self).hover,
                self.focus == old(self).focus,
                self.updated_focus == old(self).updated_focus,
                self.frame == old(self).frame,
                self.style == old(self).style,
                self.mouse_pos == old(self).mouse_pos,
                self.hover_root == old(self).hover_root,
                old(self).command_list@.is_prefix_of(self.command_list@),
            decreases n - start,
        {
            let mut end = start;
            while end < n && text.get_char(end) != '\n'
                invariant
                    start <= end <= n,
                    n == text@.len(),
                decreases n - end,
            {
                end = end + 1;
            }
            let mut line_end = end;
            if end < n && line_end > start && text.get_char(line_end - 1) == '\r' {
                line_end = line_end - 1;
            }
            let mut rx = r.x;
            let mut w0 = start;
            while w0 < line_end
                invariant
                    self.wf(),
                    self.clip_stack@.len() > 0,
                    old(self).layout_stack@.len() > 0,
                    self.layout_stack@[k] == parent,
                    text_runs_from(self.command_list@, n0),
                    n0 == old(self).command_list@.len(),
                    k == old(self).layout_stack@.len() - 1,
                    parent == old(self).layout_top().spec_next(old(self).style).0,
                    start <= w0 <= line_end <= end <= n,
                    n == text@.len(),
                    self.layout_stack@.len() == old(self).layout_stack@.len() + 1,
                    self.layout_stack@.take(old(self).layout_stack@.len() - 1) == old(self).layout_stack@.take(old(self).layout_stack@.len() - 1),
                    self.clip_stack@ == old(self).clip_stack@,
                    self.container_stack@ == old(self).container_stack@,
                    self.root_list@ == old(self).root_list@,
                    self.id_stack@ == old(self).id_stack@,
                    self.containers == old(self).containers,
                    self.container_pool@ == old(self).container_pool@,
                    self.treenode_pool@ == old(self).treenode_pool@,
                    self.hover == old(self).hover,
                    self.focus == old(self).focus,
                    self.updated_focus == old(self).updated_focus,
                    self.frame == old(self).frame,
                    self.style == old(self).style,
                    self.mouse_pos == old(self).mouse_pos,
                    self.hover_root == old(self).hover_root,
                    old(self).command_list@.is_prefix_of(self.command_list@),
                decreases line_end - w0,
            {
                let mut w1 = w0;
                while w1 < line_end && text.get_char(w1) != ' '
                    invariant
                        w0 <= w1 <= line_end <= n,
                        n == text@.len(),
                    decreases line_end - w1,
                {
                    w1 = w1 + 1;
                }
                if w1 < line_end {
                    w1 = w1 + 1;
                }
                let word = text.substring_char(w0, w1);
                let ghost s0 = *self;
                match self.place_word(word, rx, r.y, r.x as i64 + r.w as i64) {
                    Some(next) => {
                        rx = next;
                    },
                    None => {
                        r = self.layout_next();
                        rx = r.x;
                        proof {
                            assert(self.layout_stack@.take(old(self).layout_stack@.len() - 1) =~= s0.layout_stack@.take(old(self).layout_stack@.len() - 1));
                        }
                    },
                }
                proof {
                    lemma_prefix_trans(old(self).command_list@, s0.command_list@, self.command_list@);
                    lemma_text_runs_extend(s0.command_list@, self.command_list@, n0);
                    assert(self.layout_stack@[k] == s0.layout_stack@[k]);
                }
                w0 = w1;
            }
            let ghost s1 = self.layout_stack@;
            r = self.layout_next();
            proof {
                assert(self.layout_stack@.take(old(self).layout_stack@.len() - 1) =~= s1.take(old(self).layout_stack@.len() - 1));
                assert(self.layout_stack@[k] == s1[k]);
            }
            start = if end < n {
                end + 1
            } else {
                n
            };
        }
        let ghost col = self.layout_top();
        self.layout_end_column();
        proof {
            assert(self.layout_stack@.drop_last() =~= old(self).layout_stack@.drop_last());
            assert(self.layout_top() == merged_column(parent, col));
        }
    }

    /// What a checkbox for `id` leaves: hover and focus resolved over the next layout
    /// rectangle; the value flipped, and the result changed, exactly when a left press came
    /// while the box has focus and the box has not flipped yet in this frame.
    pub open spec fn toggled_checkbox(self, old: Self, id: Id, before: bool, after: bool, r: ResourceState) -> bool {
        let rect = old.layout_top().spec_next(old.style).1;
        let (h, f, u) = old.spec_update_control(id, rect, WidgetOption { bits: 0 });
        let clicked = old.mouse_pressed.has(MouseButton::LEFT) && f == Some(id);
        let flip = clicked && !old.toggled_ids@.contains(id);
        &&& self.hover == h
        &&& self.focus == f
        &&& self.updated_focus == u
        &&& after == (before != flip)
        &&& self.toggled_ids@ == (if flip {
            old.toggled_ids@.push(id)
        } else {
            old.toggled_ids@
        })
        &&& r.bits == (if flip {
            ResourceState::CHANGE
        } else {
            0
        })
        &&& self.container_stack@ == old.container_stack@
        &&& self.clip_stack@ == old.clip_stack@
        &&& self.id_stack@ == old.id_stack@
        &&& self.root_list@ == old.root_list@
        &&& self.layout_stack@ == old.layout_stack@.update(
            old.layout_stack@.len() - 1,
            old.layout_top().spec_next(old.style).0,
        )
        &&& self.containers == old.containers
        &&& self.frame == old.frame
        &&& self.mouse_pressed == old.mouse_pressed
        &&& old.command_list@.is_prefix_of(self.command_list@)
    }

    /// What drawing checkbox `id` appends, its value being `value` after the call: the box's
    /// frame in the base colour, the check mark while `value` holds, then the label's text
    /// runs.
    pub open spec fn checkbox_drawn(self, old: Self, id: Id, value: bool) -> bool {
        let r = old.layout_top().spec_next(old.style).1;
        let check = Rect { x: r.x, y: r.y, w: r.h, h: r.h };
        let frame = frame_cmds(old.style, old.clip_top(), check, self.control_color(id, ControlColor::Base));
        let mark = if value {
            clipped_cmds(
                old.spec_check_clip(check),
                old.clip_top(),
                Command::Icon { rect: check, id: Icon::Check, color: old.style.colors[ControlColor::Text.spec_index() as int] },
            )
        } else {
            Seq::empty()
        };
        let n = old.command_list@.len() + frame.len() + mark.len();
        &&& n <= self.command_list@.len()
        &&& self.command_list@.subrange(0, n as int) == old.command_list@ + frame + mark
        &&& text_runs_from(self.command_list@, n as int)
    }

    /// Whether checkbox `id` has flipped its value in this frame.
    pub fn toggled_this_frame(&self, id: Id) -> (r: bool)
        ensures
            r == self.toggled_ids@.contains(id),
    {
        let mut i: usize = 0;
        while i < self.toggled_ids.len()
            invariant
                i <= self.toggled_ids@.len(),
                forall|k: int| 0 <= k < i ==> self.toggled_ids@[k] != id,
            decreases self.toggled_ids@.len() - i,
        {
            if self.toggled_ids[i] == id {
                assert(self.toggled_ids@[i as int] == id);
                return true;
            }
            i = i + 1;
        }
        false
    }

    /// A checkbox for the value that `key` stands for: a box, a check mark while `state`
    /// holds, and `label`; clicking it while it has focus flips `state`, once per frame.
    pub fn checkbox(&mut self, label: &str, state: &mut bool, key: usize) -> (r: ResourceState)
        requires
            old(self).wf(),
            old(self).layout_stack@.len() > 0,
            old(self).clip_stack@.len() > 0,
        ensures
            final(self).wf(),
            final(self).toggled_checkbox(*old(self), Id(fnv(old(self).id_seed(), le_bytes(key as nat, 8))), *old(state), *final(state), r),
            final(self).checkbox_drawn(*old(self), Id(fnv(old(self).id_seed(), le_bytes(key as nat, 8))), *final(state)),
    {
        let id = self.get_id_from_ptr(key);
        let r = self.layout_next();
        let check = rect(r.x, r.y, r.h, r.h);
        self.update_control(id, r, WidgetOption::empty());
        let clicked = self.mouse_pressed.is_left() && self.focus == Some(id);
        let flip = clicked && !self.toggled_this_frame(id);
        if flip {
            *state = !*state;
            self.toggled_ids.push(id);
        }
        let ghost s0 = *self;
        self.draw_control_frame(id, check, ControlColor::Base, WidgetOption::empty());
        let ghost sf = *self;
        if *state {
            let tc = self.style.color(ControlColor::Text);
            let ghost s1 = *self;
            self.draw_icon(Icon::Check, check, tc);
            proof {
                lemma_prefix_trans(s0.command_list@, s1.command_list@, self.command_list@);
            }
        }
        let ghost s2 = *self;
        let rest = rect(sat_add(r.x, check.w), r.y, sat_sub(r.w, check.w), r.h);
        self.draw_control_text(label, rest, ControlColor::Text, WidgetOption::empty());
        proof {
            assert(s0.command_list@.subrange(0, s0.command_list@.len() as int) =~= s0.command_list@);
            lemma_prefix_trans(s0.command_list@, s2.command_list@, self.command_list@);
            assert(s2.command_list@ =~= self.command_list@.subrange(0, s2.command_list@.len() as int));
            let frame = frame_cmds(old(self).style, old(self).clip_top(), check, self.control_color(id, ControlColor::Base));
            assert(0u32 & WidgetOption::NO_FRAME == 0) by (bit_vector);
            assert(sf.command_list@ == old(self).command_list@ + frame);
            let mark = if *state {
                clipped_cmds(
                    old(self).spec_check_clip(check),
                    old(self).clip_top(),
                    Command::Icon { rect: check, id: Icon::Check, color: old(self).style.colors[ControlColor::Text.spec_index() as int] },
                )
            } else {
                Seq::empty()
            };
            assert(s2.command_list@ =~= old(self).command_list@ + frame + mark);
        }
        if flip {
            ResourceState::from_bits(ResourceState::CHANGE)
        } else {
            ResourceState::empty()
        }
    }

    /// A text box editing `buf` under identifier `id` in rectangle `r`. While it has focus it
    /// takes the frame's typed text, removes a character on backspace and gives up focus,
    /// submitting, on return. It keeps focus while the mouse is released.
    pub fn textbox_raw(&mut self, buf: &mut String, id: Id, r: Rect, opt: WidgetOption) -> (res: ResourceState)
        requires
            old(self).wf(),
            old(self).clip_stack@.len() > 0,
        ensures
            final(self).wf(),
            ({
                let (h, f, u) = old(self).spec_update_control(id, r, WidgetOption { bits: opt.bits | WidgetOption::HOLD_FOCUS });
                &&& final(self).hover == h
                &&& if f == Some(id) {
                    &&& final(buf)@ == edited_text(old(buf)@, old(self).input_text@, old(self).key_pressed)
                    &&& res.bits == edit_result(old(buf)@, old(self).input_text@, old(self).key_pressed)
                    &&& final(self).focus == (if old(self).key_pressed.has(KeyMode::RETURN) {
                        None
                    } else {
                        f
                    })
                } else {
                    &&& final(buf)@ == old(buf)@
                    &&& res.bits == 0
                    &&& final(self).focus == f
                }
            }),
            final(self).container_stack@ == old(self).container_stack@,
            final(self).clip_stack@ == old(self).clip_stack@,
            final(self).id_stack@ == old(self).id_stack@,
            final(self).root_list@ == old(self).root_list@,
            final(self).layout_stack@ == old(self).layout_stack@,
            final(self).containers == old(self).containers,
            final(self).frame == old(self).frame,
            final(self).number_edit == old(self).number_edit,
            final(self).number_edit_buf == old(self).number_edit_buf,
            old(self).command_list@.is_prefix_of(final(self).command_list@),
            ({
                let frame = if opt.has(WidgetOption::NO_FRAME) {
                    Seq::empty()
                } else {
                    frame_cmds(old(self).style, old(self).clip_top(), r, final(self).control_color(id, ControlColor::Base))
                };
                let n = old(self).command_list@.len() + frame.len();
                &&& n <= final(self).command_list@.len()
                &&& final(self).command_list@.subrange(0, n as int) == old(self).command_list@ + frame
                &&& final(self).focus != Some(id) ==> text_runs_from(final(self).command_list@, n as int)
            }),
    {
        let hold = opt.union(WidgetOption::from_bits(WidgetOption::HOLD_FOCUS));
        self.update_control(id, r, hold);
        let mut changed = false;
        let mut submitted = false;
        if self.focus == Some(id) {
            if !self.input_text.as_str().is_empty() {
                buf.append(self.input_text.as_str());
                changed = true;
            }
            if self.key_pressed.is_backspace() && !buf.as_str().is_empty() {
                pop_char(buf);
                changed = true;
            }
            if self.key_pressed.is_return() {
                self.set_focus(None);
                submitted = true;
            }
        }
        proof {
            assert(old(buf)@ + old(self).input_text@ =~= if old(self).input_text@.len() > 0 {
                old(buf)@ + old(self).input_text@
            } else {
                old(buf)@
            });
        }
        let ghost s0 = *self;
        self.draw_control_frame(id, r, ControlColor::Base, opt);
        let ghost s1 = *self;
        if self.focus == Some(id) {
            let color = self.style.color(ControlColor::Text);
            let font = self.style.font;
            let textw = self.get_text_width(font, buf.as_str());
            let texth = self.get_text_height(font, buf.as_str());
            let ofx = sat_sub(sat_sub(sat_sub(r.w, self.style.padding), textw), 1);
            let textx = sat_add(r.x, if ofx < self.style.padding {
                ofx
            } else {
                self.style.padding
            });
            let texty = sat_add(r.y, sat_sub(r.h, texth) / 2);
            self.push_clip_rect(r);
            let ghost s2 = *self;
            self.draw_text(font, buf.as_str(), vec2(textx, texty), color);
            let ghost s3 = *self;
            self.draw_rect(rect(sat_add(textx, textw), texty, 1, texth), color);
            self.pop_clip_rect();
            proof {
                lemma_prefix_trans(s1.command_list@, s2.command_list@, s3.command_list@);
                lemma_prefix_trans(s1.command_list@, s3.command_list@, self.command_list@);
                assert(self.clip_stack@ =~= s1.clip_stack@);
            }
        } else {
            self.draw_control_text(buf.as_str(), r, ControlColor::Text, opt);
            proof {
                assert(s1.command_list@ =~= self.command_list@.subrange(0, s1.command_list@.len() as int));
            }
        }
        proof {
            assert(old(self).command_list@.subrange(0, old(self).command_list@.len() as int) =~= old(self).command_list@);
            lemma_prefix_trans(old(self).command_list@, s0.command_list@, s1.command_list@);
            lemma_prefix_trans(old(self).command_list@, s1.command_list@, self.command_list@);
        }
        assert((0u32 | 0u32) == 0u32) by (bit_vector);
        let c = if changed {
            ResourceState::CHANGE
        } else {
            0u32
        };
        let s = if submitted {
            ResourceState::SUBMIT
        } else {
            0u32
        };
        ResourceState::from_bits(c | s)
    }

    /// A text box for `buf` in the next layout rectangle, identified by `key`.
    pub fn textbox_ex(&mut self, buf: &mut String, opt: WidgetOption, key: usize) -> (res: ResourceState)
        requires
            old(self).wf(),
            old(self).layout_stack@.len() > 0,
            old(self).clip_stack@.len() > 0,
        ensures
            final(self).wf(),
            ({
                let id = Id(fnv(old(self).id_seed(), le_bytes(key as nat, 8)));
                let r = old(self).layout_top().spec_next(old(self).style).1;
                let (h, f, u) = old(self).spec_update_control(id, r, WidgetOption { bits: opt.bits | WidgetOption::HOLD_FOCUS });
                if f == Some(id) {
                    &&& final(buf)@ == edited_text(old(buf)@, old(self).input_text@, old(self).key_pressed)
                    &&& res.bits == edit_result(old(buf)@, old(self).input_text@, old(self).key_pressed)
                } else {
                    &&& final(buf)@ == old(buf)@
                    &&& res.bits == 0
                }
            }),
            final(self).container_stack@ == old(self).container_stack@,
            final(self).clip_stack@ == old(self).clip_stack@,
            final(self).id_stack@ == old(self).id_stack@,
            final(self).layout_stack@.len() == old(self).layout_stack@.len(),
            old(self).command_list@.is_prefix_of(final(self).command_list@),
    {
        let id = self.get_id_from_ptr(key);
        let r = self.layout_next();
        self.textbox_raw(buf, id, r, opt)
    }

    /// Enters numeric edit mode for `id`, seeded with `text`, on a left press with shift
    /// held while `id` is hovered.
    pub fn number_edit_begin(&mut self, id: Id, text: String) -> (started: bool)
        ensures
            started == (old(self).mouse_pressed.has(MouseButton::LEFT) && old(self).key_down.has(KeyMode::SHIFT)
                && old(self).hover == Some(id)),
            final(self).number_edit_buf@ == (if started { text@ } else { old(self).number_edit_buf@ }),
            *final(self) == (Context {
                number_edit: if started { Some(id) } else { old(self).number_edit },
                number_edit_buf: final(self).number_edit_buf,
                ..*old(self)
            }),
    {
        if self.mouse_pressed.is_left() && self.key_down.is_shift() && self.hover == Some(id) {
            self.number_edit = Some(id);
            self.number_edit_buf = text;
            true
        } else {
            false
        }
    }

    /// One frame of numeric edit mode for `id` in `r`: the edit buffer runs as a text box.
    /// When the box is submitted or loses focus, edit mode ends and the edited text is
    /// handed back to be parsed; otherwise the result is active, so the number widget does
    /// nothing else this frame. Outside edit mode for `id` nothing happens.
    pub fn number_edit_step(&mut self, id: Id, r: Rect) -> (res: (ResourceState, Option<String>))
        requires
            old(self).wf(),
            old(self).clip_stack@.len() > 0,
        ensures
            final(self).wf(),
            old(self).number_edit != Some(id) ==> res.0.bits == 0 && res.1 is None && *final(self) == *old(self),
            old(self).number_edit == Some(id) ==> {
                let (h, f, u) = old(self).spec_update_control(id, r, WidgetOption { bits: 0u32 | WidgetOption::HOLD_FOCUS });
                let text = if f == Some(id) {
                    edited_text(old(self).number_edit_buf@, old(self).input_text@, old(self).key_pressed)
                } else {
                    old(self).number_edit_buf@
                };
                let done = f != Some(id) || old(self).key_pressed.has(KeyMode::RETURN);
                &&& final(self).hover == h
                &&& final(self).number_edit_buf@ == text
                &&& (done ==> (res.1 matches Some(t) && t@ == text) && final(self).number_edit is None && res.0.bits == 0)
                &&& (!done ==> res.1 is None && res.0.bits == ResourceState::ACTIVE && final(self).number_edit == Some(id))
            },
            final(self).container_stack@ == old(self).container_stack@,
            final(self).clip_stack@ == old(self).clip_stack@,
            final(self).id_stack@ == old(self).id_stack@,
            final(self).layout_stack@ == old(self).layout_stack@,
            final(self).containers == old(self).containers,
            old(self).command_list@.is_prefix_of(final(self).command_list@),
    {
        if self.number_edit != Some(id) {
            assert(self.command_list@.subrange(0, self.command_list@.len() as int) =~= self.command_list@);
            return (ResourceState::empty(), None);
        }
        let mut temp = self.number_edit_buf.clone();
        let res = self.textbox_raw(&mut temp, id, r, WidgetOption::empty());
        self.number_edit_buf = temp;
        proof {
            assert(((4u32 | 2u32) & 2u32) != 0u32 && ((0u32 | 2u32) & 2u32) != 0u32 && ((4u32 | 0u32) & 2u32) == 0u32
                && ((0u32 | 0u32) & 2u32) == 0u32 && (0u32 & 2u32) == 0u32) by (bit_vector);
        }
        if res.is_submitted() || self.focus != Some(id) {
            self.number_edit = None;
            (ResourceState::empty(), Some(self.number_edit_buf.clone()))
        } else {
            (ResourceState::from_bits(ResourceState::ACTIVE), None)
        }
    }
}

} // verus!
