//! The frame engine: per-frame input, identity scopes, the clip stack, the command buffer,
//! persistent containers and the hover/focus state machine.
use vstd::prelude::*;
use vstd::string::{StrSliceExecFns, StringExecFns, StringSliceAdditionalSpecFns};
use crate::color::Color;
use crate::id::{fnv, le_bytes, Id, FNV_BASIS};
use crate::input::{KeyMode, MouseButton};
use crate::widget::WidgetOption;
use crate::layout::{fresh_layout, Layout};
use crate::math::{clamp, max, mul_div, sat, trunc_div, sat_add, sat_from_usize, sat_sub, spec_max, spec_min, vec2, Rect, Vec2};
use crate::pool::{Pool, PoolItem};
use crate::style::{ControlColor, FontId, Style, TextMetrics};

verus! {

/// Number of persistent containers, and of remembered tree nodes.
pub const CONTAINER_COUNT: usize = 48;

/// How a rectangle relates to the current clip rectangle.
#[derive(Clone, Copy, Debug, PartialEq, Eq, Structural)]
pub enum Clip {
    /// Wholly inside: drawn as it is.
    Inside,
    /// Partly inside: drawn under a clip command.
    Part,
    /// Wholly outside: not drawn.
    All,
}

/// The icons a renderer is asked to draw.
#[derive(Clone, Copy, Debug, PartialEq, Eq, Structural)]
pub enum Icon {
    Close,
    Check,
    Collapsed,
    Expanded,
}

impl Icon {
    pub open spec fn spec_code(self) -> u32 {
        match self {
            Icon::Close => 1,
            Icon::Check => 2,
            Icon::Collapsed => 3,
            Icon::Expanded => 4,
        }
    }

    /// The icon's number, as hashed into identifiers.
    pub fn code(&self) -> (r: u32)
        ensures
            r == self.spec_code(),
    {
        match self {
            Icon::Close => 1,
            Icon::Check => 2,
            Icon::Collapsed => 3,
            Icon::Expanded => 4,
        }
    }
}

/// What a widget reports to its caller for this frame, as a set of bits.
#[derive(Clone, Copy, Debug, Default, PartialEq, Eq, Structural)]
pub struct ResourceState {
    pub bits: u32,
}

impl ResourceState {
    pub const ACTIVE: u32 = 1;
    pub const SUBMIT: u32 = 2;
    pub const CHANGE: u32 = 4;

    pub open spec fn has(self, flag: u32) -> bool {
        self.bits & flag != 0
    }

    /// No flag set.
    pub fn empty() -> (r: Self)
        ensures
            r.bits == 0,
    {
        ResourceState { bits: 0 }
    }

    pub fn from_bits(bits: u32) -> (r: Self)
        ensures
            r.bits == bits,
    {
        ResourceState { bits }
    }

    pub fn bits(&self) -> (r: u32)
        ensures
            r == self.bits,
    {
        self.bits
    }

    /// The flags set in either operand.
    pub fn union(self, other: Self) -> (r: Self)
        ensures
            r.bits == self.bits | other.bits,
    {
        ResourceState { bits: self.bits | other.bits }
    }

    /// The flags of `self` that `other` does not set.
    pub fn difference(self, other: Self) -> (r: Self)
        ensures
            r.bits == self.bits & !other.bits,
    {
        ResourceState { bits: self.bits & !other.bits }
    }

    /// Whether the two share a flag.
    pub fn intersects(&self, other: Self) -> (r: bool)
        ensures
            r == (self.bits & other.bits != 0),
    {
        self.bits & other.bits != 0
    }

    pub fn is_changed(&self) -> (r: bool)
        ensures
            r == self.has(ResourceState::CHANGE),
    {
        self.bits & ResourceState::CHANGE != 0
    }

    pub fn is_submitted(&self) -> (r: bool)
        ensures
            r == self.has(ResourceState::SUBMIT),
    {
        self.bits & ResourceState::SUBMIT != 0
    }

    pub fn is_active(&self) -> (r: bool)
        ensures
            r == self.has(ResourceState::ACTIVE),
    {
        self.bits & ResourceState::ACTIVE != 0
    }

    pub fn is_none(&self) -> (r: bool)
        ensures
            r == (self.bits == 0),
    {
        self.bits == 0
    }
}

/// Persistent state of a window, popup or panel.
#[derive(Clone, Copy, Debug, Default)]
pub struct Container {
    pub head_idx: Option<usize>,
    pub tail_idx: Option<usize>,
    pub rect: Rect,
    pub body: Rect,
    pub content_size: Vec2,
    pub scroll: Vec2,
    pub zindex: i32,
    pub open: bool,
}

impl Container {
    /// A cleared container: no command range, zero geometry, closed.
    pub fn new() -> (c: Container)
        ensures
            c == Container::cleared(),
    {
        Container {
            head_idx: None,
            tail_idx: None,
            rect: Rect { x: 0, y: 0, w: 0, h: 0 },
            body: Rect { x: 0, y: 0, w: 0, h: 0 },
            content_size: Vec2 { x: 0, y: 0 },
            scroll: Vec2 { x: 0, y: 0 },
            zindex: 0,
            open: false,
        }
    }

    pub open spec fn cleared() -> Container {
        Container {
            head_idx: None,
            tail_idx: None,
            rect: Rect { x: 0, y: 0, w: 0, h: 0 },
            body: Rect { x: 0, y: 0, w: 0, h: 0 },
            content_size: Vec2 { x: 0, y: 0 },
            scroll: Vec2 { x: 0, y: 0 },
            zindex: 0,
            open: false,
        }
    }
}

/// One entry of the command buffer.
#[derive(Clone, Copy, Debug)]
pub enum Command {
    /// Sets the clip rectangle.
    Clip { rect: Rect },
    /// A filled rectangle.
    Rect { rect: Rect, color: Color },
    /// A run of text: `str_len` bytes of the frame's text arena from `str_start`.
    Text { font: FontId, pos: Vec2, color: Color, str_start: usize, str_len: usize },
    /// An icon inside a rectangle.
    Icon { rect: Rect, id: Icon, color: Color },
}

/// The whole state of the user interface, owned by one caller and mutated frame by frame.
pub struct Context<M: TextMetrics> {
    pub metrics: M,
    pub style: Style,
    pub hover: Option<Id>,
    pub focus: Option<Id>,
    pub last_id: Option<Id>,
    pub last_rect: Rect,
    pub last_zindex: i32,
    pub updated_focus: bool,
    pub frame: usize,
    pub hover_root: Option<usize>,
    pub next_hover_root: Option<usize>,
    pub scroll_target: Option<usize>,
    pub number_edit_buf: String,
    pub number_edit: Option<Id>,
    pub command_list: Vec<Command>,
    pub root_list: Vec<usize>,
    pub container_stack: Vec<usize>,
    pub clip_stack: Vec<Rect>,
    pub id_stack: Vec<Id>,
    pub layout_stack: Vec<Layout>,
    pub text_stack: String,
    pub container_pool: Pool<48>,
    pub containers: Vec<Container>,
    pub treenode_pool: Pool<48>,
    pub mouse_pos: Vec2,
    pub last_mouse_pos: Vec2,
    pub mouse_delta: Vec2,
    pub scroll_delta: Vec2,
    pub mouse_down: MouseButton,
    pub mouse_pressed: MouseButton,
    pub key_down: KeyMode,
    pub key_pressed: KeyMode,
    pub input_text: String,
    /// Checkboxes that flipped their value in this frame.
    pub toggled_ids: Vec<Id>,
    /// For each command, the root container that was innermost when it was drawn.
    pub command_roots: Vec<Option<usize>>,
    /// The root containers open now, innermost last.
    pub root_stack: Vec<usize>,
}

/// Whether `i` names a container slot.
pub open spec fn slot(i: usize) -> bool {
    i < CONTAINER_COUNT
}

/// The z-index of the container that `roots[k]` names.
pub open spec fn z_at(containers: Seq<Container>, roots: Seq<usize>, k: int) -> i32 {
    containers[roots[k] as int].zindex
}

/// `roots` in non-decreasing order of their containers' z-index.
pub open spec fn sorted_by_z(containers: Seq<Container>, roots: Seq<usize>) -> bool {
    forall|a: int, b: int| 0 <= a < b < roots.len() ==> z_at(containers, roots, a) <= z_at(containers, roots, b)
}

/// The positions, below `n`, of the commands tagged with root `r`, in buffer order.
pub open spec fn owned_idx(tags: Seq<Option<usize>>, r: usize, n: nat) -> Seq<int>
    decreases n,
{
    if n == 0 {
        Seq::empty()
    } else {
        owned_idx(tags, r, (n - 1) as nat) + if n - 1 < tags.len() && tags[n - 1] == Some(r) {
            seq![n - 1]
        } else {
            Seq::empty()
        }
    }
}

/// The positions of the commands of the roots in `roots`, root after root, each root's
/// own commands in buffer order.
pub open spec fn chain_idx(roots: Seq<usize>, tags: Seq<Option<usize>>, n: nat) -> Seq<int>
    decreases roots.len(),
{
    if roots.len() == 0 {
        Seq::empty()
    } else {
        chain_idx(roots.drop_last(), tags, n) + owned_idx(tags, roots.last(), n)
    }
}

/// The commands at `idx`.
pub open spec fn at_positions(cmds: Seq<Command>, idx: Seq<int>) -> Seq<Command> {
    idx.map_values(|k: int| cmds[k])
}

/// Whether the hover root is met walking down the container stack before leaving the
/// innermost root container.
pub open spec fn reaches_hover_root(stack: Seq<usize>, containers: Seq<Container>, h: usize) -> bool
    decreases stack.len(),
{
    if stack.len() == 0 {
        false
    } else if stack.last() == h {
        true
    } else if containers[stack.last() as int].head_idx is Some {
        false
    } else {
        reaches_hover_root(stack.drop_last(), containers, h)
    }
}

fn swap_adjacent(v: &mut Vec<usize>, j: usize)
    requires
        0 < j < old(v)@.len(),
    ensures
        final(v)@ == old(v)@.update(j - 1, old(v)@[j as int]).update(j as int, old(v)@[j - 1]),
        final(v)@.to_multiset() == old(v)@.to_multiset(),
{
    let a = v[j - 1];
    let b = v[j];
    v.set(j - 1, b);
    v.set(j, a);
    proof {
        broadcast use vstd::seq_lib::to_multiset_update, vstd::seq_lib::to_multiset_contains, vstd::multiset::group_multiset_axioms;
        let s = old(v)@;
        assert(s.to_multiset().count(a) > 0);
        let s1 = s.update(j - 1, b);
        assert(s1.to_multiset() == s.to_multiset().insert(b).remove(a));
        assert(s1[j as int] == b);
        assert(s1.update(j as int, a).to_multiset() == s1.to_multiset().insert(a).remove(b));
        assert(s.to_multiset().insert(b).remove(a).insert(a).remove(b) =~= s.to_multiset());
    }
}

/// Sorts `roots` by their containers' z-index, keeping equal ones in order.
fn sort_by_zindex(roots: &mut Vec<usize>, containers: &Vec<Container>)
    requires
        forall|k: int| 0 <= k < old(roots)@.len() ==> #[trigger] old(roots)@[k] < containers@.len(),
    ensures
        final(roots)@.to_multiset() == old(roots)@.to_multiset(),
        final(roots)@.len() == old(roots)@.len(),
        sorted_by_z(containers@, final(roots)@),
        forall|k: int| 0 <= k < final(roots)@.len() ==> #[trigger] final(roots)@[k] < containers@.len(),
{
    let n = roots.len();
    let mut i: usize = 1;
    if n == 0 {
        return;
    }
    while i < n
        invariant
            1 <= i <= n,
            n == roots@.len(),
            roots@.to_multiset() == old(roots)@.to_multiset(),
            forall|k: int| 0 <= k < roots@.len() ==> #[trigger] roots@[k] < containers@.len(),
            forall|a: int, b: int| 0 <= a < b < i ==> z_at(containers@, roots@, a) <= z_at(containers@, roots@, b),
        decreases n - i,
    {
        let mut j: usize = i;
        while j > 0 && containers[roots[j - 1]].zindex > containers[roots[j]].zindex
            invariant
                1 <= i < n,
                j <= i,
                n == roots@.len(),
                roots@.to_multiset() == old(roots)@.to_multiset(),
                forall|k: int| 0 <= k < roots@.len() ==> #[trigger] roots@[k] < containers@.len(),
                forall|a: int, b: int|
                    0 <= a < b <= i && a != j && b != j ==> z_at(containers@, roots@, a) <= z_at(containers@, roots@, b),
                forall|b: int| j < b <= i ==> z_at(containers@, roots@, j as int) <= #[trigger] z_at(containers@, roots@, b),
            decreases j,
        {
            let ghost r0 = roots@;
            swap_adjacent(roots, j);
            proof {
                let cs = containers@;
                let r1 = roots@;
                let jj = j as int;
                assert forall|a: int, b: int| 0 <= a < b <= i && a != jj - 1 && b != jj - 1 implies z_at(cs, r1, a) <= z_at(cs, r1, b) by {
                    if a == jj {
                        assert(z_at(cs, r0, jj - 1) <= z_at(cs, r0, b));
                    } else if b == jj {
                        assert(z_at(cs, r0, a) <= z_at(cs, r0, jj - 1));
                    } else {
                        assert(z_at(cs, r0, a) <= z_at(cs, r0, b));
                    }
                }
                assert forall|b: int| jj - 1 < b <= i implies z_at(cs, r1, jj - 1) <= #[trigger] z_at(cs, r1, b) by {
                    if b > jj {
                        assert(z_at(cs, r0, jj) <= z_at(cs, r0, b));
                    }
                }
                assert forall|k: int| 0 <= k < r1.len() implies #[trigger] r1[k] < cs.len() by {
                    if k != jj - 1 && k != jj {
                        assert(r1[k] == r0[k]);
                    }
                }
            }
            j = j - 1;
        }
        proof {
            let cs = containers@;
            let r = roots@;
            assert forall|a: int, b: int| 0 <= a < b <= i implies z_at(cs, r, a) <= z_at(cs, r, b) by {
                if b == j && a < j - 1 {
                    assert(z_at(cs, r, a) <= z_at(cs, r, j - 1));
                }
            }
        }
        i = i + 1;
    }
}

/// Where `r` stands against the clip rectangle `cr`.
pub open spec fn clip_class(r: Rect, cr: Rect) -> Clip {
    if r.x > cr.right() || r.right() < cr.x || r.y > cr.bottom() || r.bottom() < cr.y {
        Clip::All
    } else if r.x >= cr.x && r.right() <= cr.right() && r.y >= cr.y && r.bottom() <= cr.bottom() {
        Clip::Inside
    } else {
        Clip::Part
    }
}

/// The box of size `w` by `h` at `p`.
pub open spec fn boxed_at(p: Vec2, w: i32, h: i32) -> Rect {
    Rect { x: p.x, y: p.y, w, h }
}

/// Where `draw_control_text` puts text `tw` wide and `th` high inside `rect`: vertically
/// centred; horizontally centred, right-aligned or left-aligned inside the padding.
pub open spec fn aligned_pos(rect: Rect, tw: i32, th: i32, opt: WidgetOption, padding: i32) -> Vec2 {
    let y = sat(rect.y + trunc_div(sat(rect.h - th), 2));
    let x = if opt.has(WidgetOption::ALIGN_CENTER) {
        sat(rect.x + trunc_div(sat(rect.w - tw), 2))
    } else if opt.has(WidgetOption::ALIGN_RIGHT) {
        sat(sat(sat(rect.x + rect.w) - tw) - padding)
    } else {
        sat(rect.x + padding)
    };
    Vec2 { x: x as i32, y: y as i32 }
}

/// Half of `v`, rounded toward zero.
fn half(v: i32) -> (r: i32)
    ensures
        r == trunc_div(v as int, 2),
{
    v / 2
}

/// What `draw_rect` appends: the rectangle cut to the clip, where anything is left of it.
pub open spec fn rect_cmds(rect: Rect, color: Color, clip: Rect) -> Seq<Command> {
    let r = rect.spec_intersect(clip);
    if r.w > 0 && r.h > 0 {
        seq![Command::Rect { rect: r, color }]
    } else {
        Seq::empty()
    }
}

/// The edges `draw_box` draws for `r`: top, bottom, left, right, each one pixel thick.
pub open spec fn box_edges(r: Rect) -> (Rect, Rect, Rect, Rect) {
    (
        Rect { x: sat(r.x + 1) as i32, y: r.y, w: sat(r.w - 2) as i32, h: 1 },
        Rect { x: sat(r.x + 1) as i32, y: sat(sat(r.y + r.h) - 1) as i32, w: sat(r.w - 2) as i32, h: 1 },
        Rect { x: r.x, y: r.y, w: 1, h: r.h },
        Rect { x: sat(sat(r.x + r.w) - 1) as i32, y: r.y, w: 1, h: r.h },
    )
}

pub open spec fn box_cmds(r: Rect, color: Color, clip: Rect) -> Seq<Command> {
    let (t, b, l, rt) = box_edges(r);
    rect_cmds(t, color, clip) + rect_cmds(b, color, clip) + rect_cmds(l, color, clip) + rect_cmds(rt, color, clip)
}

/// What a clipped primitive appends: nothing when wholly clipped; the command alone when
/// wholly inside; else the command between a clip to `clip` and a reset of the clip.
pub open spec fn clipped_cmds(kind: Clip, clip: Rect, cmd: Command) -> Seq<Command> {
    match kind {
        Clip::All => Seq::empty(),
        Clip::Inside => seq![cmd],
        Clip::Part => seq![
            Command::Clip { rect: clip },
            cmd,
            Command::Clip { rect: Rect { x: 0, y: 0, w: crate::math::UNCLIPPED_EXTENT, h: crate::math::UNCLIPPED_EXTENT } },
        ],
    }
}

/// Roles drawn without a border.
pub open spec fn borderless(c: ControlColor) -> bool {
    c == ControlColor::ScrollBase || c == ControlColor::ScrollThumb || c == ControlColor::TitleBG
}

/// Being a prefix is transitive.
pub(crate) proof fn lemma_prefix_trans<A>(a: Seq<A>, b: Seq<A>, c: Seq<A>)
    requires
        a.is_prefix_of(b),
        b.is_prefix_of(c),
    ensures
        a.is_prefix_of(c),
{
    assert(a =~= c.subrange(0, a.len() as int));
}

proof fn lemma_owned(tags: Seq<Option<usize>>, r: usize, n: nat)
    ensures
        owned_idx(tags, r, n).no_duplicates(),
        forall|j: int| 0 <= j < owned_idx(tags, r, n).len() ==> 0 <= #[trigger] owned_idx(tags, r, n)[j] < n,
        forall|k: int|
            owned_idx(tags, r, n).contains(k) <==> 0 <= k < n && k < tags.len() && tags[k] == Some(r),
    decreases n,
{
    if n > 0 {
        let m = (n - 1) as nat;
        lemma_owned(tags, r, m);
        let p = owned_idx(tags, r, m);
        if m < tags.len() && tags[m as int] == Some(r) {
            assert(owned_idx(tags, r, n) =~= p.push(m as int));
            assert(!p.contains(m as int));
            assert forall|k: int| owned_idx(tags, r, n).contains(k) <==> 0 <= k < n && k < tags.len() && tags[k] == Some(r) by {
                if owned_idx(tags, r, n).contains(k) && k != m {
                    let j = choose|j: int| 0 <= j < owned_idx(tags, r, n).len() && owned_idx(tags, r, n)[j] == k;
                    assert(p[j] == k);
                }
                if 0 <= k < m && k < tags.len() && tags[k] == Some(r) {
                    assert(p.contains(k));
                    let j = choose|j: int| 0 <= j < p.len() && p[j] == k;
                    assert(owned_idx(tags, r, n)[j] == k);
                }
                if k == m && tags[k] == Some(r) {
                    assert(owned_idx(tags, r, n)[p.len() as int] == k);
                }
            }
        } else {
            assert(owned_idx(tags, r, n) =~= p);
        }
    }
}

proof fn lemma_chain(roots: Seq<usize>, tags: Seq<Option<usize>>, n: nat)
    requires
        roots.no_duplicates(),
    ensures
        chain_idx(roots, tags, n).no_duplicates(),
        forall|k: int|
            chain_idx(roots, tags, n).contains(k) <==> 0 <= k < n && k < tags.len() && tags[k] is Some && roots.contains(
                tags[k]->0,
            ),
    decreases roots.len(),
{
    if roots.len() > 0 {
        let rs = roots.drop_last();
        let r = roots.last();
        assert(rs.no_duplicates()) by {
            assert forall|a: int, b: int| 0 <= a < b < rs.len() implies rs[a] != rs[b] by {
                assert(roots[a] == rs[a] && roots[b] == rs[b]);
            }
        }
        lemma_chain(rs, tags, n);
        lemma_owned(tags, r, n);
        let c = chain_idx(rs, tags, n);
        let o = owned_idx(tags, r, n);
        assert(!rs.contains(r)) by {
            if rs.contains(r) {
                let j = choose|j: int| 0 <= j < rs.len() && rs[j] == r;
                assert(roots[j] == roots[roots.len() - 1]);
            }
        }
        assert forall|k: int| (c + o).contains(k) <==> 0 <= k < n && k < tags.len() && tags[k] is Some && roots.contains(tags[k]->0) by {
            if (c + o).contains(k) {
                let j = choose|j: int| 0 <= j < (c + o).len() && (c + o)[j] == k;
                if j < c.len() {
                    assert(c.contains(k));
                    let t = choose|t: int| 0 <= t < rs.len() && rs[t] == tags[k]->0;
                    assert(roots[t] == rs[t]);
                } else {
                    assert(o[j - c.len()] == k);
                    assert(o.contains(k));
                    assert(roots[roots.len() - 1] == r);
                }
            }
            if 0 <= k < n && k < tags.len() && tags[k] is Some && roots.contains(tags[k]->0) {
                let t = choose|t: int| 0 <= t < roots.len() && roots[t] == tags[k]->0;
                if t < roots.len() - 1 {
                    assert(rs[t] == roots[t]);
                    assert(c.contains(k));
                    let j = choose|j: int| 0 <= j < c.len() && c[j] == k;
                    assert((c + o)[j] == k);
                } else {
                    assert(o.contains(k));
                    let j = choose|j: int| 0 <= j < o.len() && o[j] == k;
                    assert((c + o)[c.len() + j] == k);
                }
            }
        }
        assert((c + o).no_duplicates()) by {
            assert forall|a: int, b: int| 0 <= a < b < (c + o).len() implies (c + o)[a] != (c + o)[b] by {
                if b < c.len() {
                } else if a >= c.len() {
                    assert(o[a - c.len()] != o[b - c.len()]);
                } else {
                    let k = c[a];
                    assert(c.contains(k));
                    assert(o.contains(o[b - c.len()]));
                    if k == o[b - c.len()] {
                        let t = choose|t: int| 0 <= t < rs.len() && rs[t] == tags[k]->0;
                        assert(rs.contains(r));
                    }
                }
            }
        }
    }
}

/// The final command order holds every command exactly once whose root was drawn in the
/// frame (`root_list` lists each root once), and no other: its positions are distinct, and a position appears exactly when
/// the command there was drawn under a root of `root_list` (a command drawn inside a
/// nested root belongs to that root alone, not to the root around it). Roots come in
/// `root_list` order, which `end` leaves in non-decreasing z-index.
pub proof fn lemma_commands_once<M: TextMetrics>(ctx: Context<M>)
    requires
        ctx.wf(),
    ensures
        ctx.chain_positions().no_duplicates(),
        forall|k: int|
            ctx.chain_positions().contains(k) <==> 0 <= k < ctx.command_list@.len() && k < ctx.command_roots@.len()
                && ctx.command_roots@[k] is Some && ctx.root_list@.contains(ctx.command_roots@[k]->0),
        ctx.command_chain() == at_positions(ctx.command_list@, ctx.chain_positions()),
{
    lemma_chain(ctx.root_list@, ctx.command_roots@, ctx.command_list@.len());
}

pub(crate) proof fn lemma_tags_refl<M: TextMetrics>(a: Context<M>)
    ensures
        a.tagged_from(a),
{
    assert(a.command_roots@ =~= a.command_roots@ + Seq::new(0nat, |_i: int| a.owner()));
}

pub(crate) proof fn lemma_tags_compose<M: TextMetrics>(a: Context<M>, b: Context<M>, c: Context<M>)
    requires
        b.tagged_from(a),
        c.tagged_from(b),
        b.owner() == a.owner(),
        a.command_list@.len() <= b.command_list@.len() <= c.command_list@.len(),
    ensures
        c.tagged_from(a),
{
    assert(c.command_roots@ =~= a.command_roots@ + Seq::new(
        (c.command_list@.len() - a.command_list@.len()) as nat,
        |_i: int| a.owner(),
    ));
}

/// The body left for content once scrollbar strips are taken: a strip on the right when
/// the content `cs` is taller than the container's last body `last`, one at the bottom
/// when it is wider.
pub open spec fn shrunk_body(body: Rect, cs: Vec2, last: Rect, sz: i32) -> Rect {
    Rect {
        w: if cs.y > last.h { sat(body.w - sz) as i32 } else { body.w },
        h: if cs.x > last.w { sat(body.h - sz) as i32 } else { body.h },
        ..body
    }
}

/// The content size that scrollbars compare with: the recorded one plus padding on both
/// sides.
pub open spec fn padded_content(c: Container, padding: i32) -> Vec2 {
    let pad2 = sat(padding + padding);
    Vec2 { x: sat(c.content_size.x + pad2) as i32, y: sat(c.content_size.y + pad2) as i32 }
}

proof fn lemma_reaches_same_heads(stack: Seq<usize>, a: Seq<Container>, b: Seq<Container>, h: usize)
    requires
        a.len() == b.len(),
        forall|i: int| 0 <= i < a.len() ==> #[trigger] a[i].head_idx == b[i].head_idx,
        forall|k: int| 0 <= k < stack.len() ==> #[trigger] stack[k] < a.len(),
    ensures
        reaches_hover_root(stack, a, h) == reaches_hover_root(stack, b, h),
    decreases stack.len(),
{
    if stack.len() > 0 {
        assert(a[stack.last() as int].head_idx == b[stack.last() as int].head_idx);
        lemma_reaches_same_heads(stack.drop_last(), a, b, h);
    }
}

/// `s` with its last `n` elements removed (all of them when it has fewer).
pub open spec fn popped<A>(s: Seq<A>, n: nat) -> Seq<A> {
    if s.len() >= n {
        s.take(s.len() - n)
    } else {
        Seq::empty()
    }
}

/// The record of a container closed over layout frame `l`: its content size is the
/// layout's extent from the body's origin.
pub open spec fn recorded(c: Container, l: Layout) -> Container {
    Container {
        content_size: Vec2 { x: sat(l.max.x - l.body.x) as i32, y: sat(l.max.y - l.body.y) as i32 },
        ..c
    }
}

/// Every command of `cmds` from position `n` on is a text run or a clip change.
pub open spec fn text_runs_from(cmds: Seq<Command>, n: int) -> bool {
    forall|k: int| n <= k < cmds.len() ==> (#[trigger] cmds[k] is Text || cmds[k] is Clip)
}

pub(crate) proof fn lemma_text_runs_extend(a: Seq<Command>, b: Seq<Command>, n: int)
    requires
        0 <= n <= a.len(),
        text_runs_from(a, n),
        a.is_prefix_of(b),
        text_runs_from(b, a.len() as int),
    ensures
        text_runs_from(b, n),
{
    assert forall|k: int| n <= k < b.len() implies (#[trigger] b[k] is Text || b[k] is Clip) by {
        if k < a.len() {
            assert(a =~= b.subrange(0, a.len() as int));
            assert(a[k] == b[k]);
        }
    }
}

pub(crate) proof fn lemma_clipped_text_runs(a: Seq<Command>, kind: Clip, clip: Rect, cmd: Command)
    requires
        cmd is Text,
    ensures
        text_runs_from(a + clipped_cmds(kind, clip, cmd), a.len() as int),
{
    let b = a + clipped_cmds(kind, clip, cmd);
    assert forall|k: int| a.len() <= k < b.len() implies (#[trigger] b[k] is Text || b[k] is Clip) by {
        assert(b[k] == clipped_cmds(kind, clip, cmd)[k - a.len()]);
    }
}

/// What `draw_frame` appends under `clip` with `style`: the background in the role's
/// colour and, unless the role is borderless or the border colour is transparent, a border
/// around it.
#[verifier::opaque]
pub open spec fn frame_cmds(style: Style, clip: Rect, rect: Rect, colorid: ControlColor) -> Seq<Command> {
    let border = style.colors[ControlColor::Border.spec_index() as int];
    rect_cmds(rect, style.colors[colorid.spec_index() as int], clip) + if borderless(colorid) || border.a == 0 {
        Seq::empty()
    } else {
        box_cmds(rect.spec_expand(1), border, clip)
    }
}

/// Number of line feeds in `s`.
pub open spec fn newlines(s: Seq<char>) -> nat
    decreases s.len(),
{
    if s.len() == 0 {
        0
    } else {
        newlines(s.drop_last()) + if s.last() == '\n' {
            1nat
        } else {
            0nat
        }
    }
}

/// Number of lines of `s`, where a final line feed opens no new line.
pub open spec fn line_count(s: Seq<char>) -> nat {
    newlines(s) + if s.len() > 0 && s.last() != '\n' {
        1nat
    } else {
        0nat
    }
}

proof fn lemma_newlines_bound(s: Seq<char>)
    ensures
        newlines(s) <= s.len(),
    decreases s.len(),
{
    if s.len() > 0 {
        lemma_newlines_bound(s.drop_last());
    }
}

/// Counts the lines of `text`.
pub fn count_lines(text: &str) -> (r: usize)
    ensures
        r == line_count(text@),
{
    let n = text.unicode_len();
    let mut count: usize = 0;
    let mut i: usize = 0;
    while i < n
        invariant
            n == text@.len(),
            i <= n,
            count == newlines(text@.take(i as int)),
            count <= i,
        decreases n - i,
    {
        proof {
            assert(text@.take(i + 1).drop_last() =~= text@.take(i as int));
        }
        if text.get_char(i) == '\n' {
            count = count + 1;
        }
        i = i + 1;
    }
    assert(text@.take(n as int) =~= text@);
    proof {
        lemma_newlines_bound(text@);
        if n > 0 {
            lemma_newlines_bound(text@.drop_last());
        }
    }
    if n > 0 && text.get_char(n - 1) != '\n' {
        count = count + 1;
    }
    count
}

impl<M: TextMetrics> Context<M> {
    /// The invariant every public operation keeps: container indices name slots, both pools
    /// and every layout frame are well formed.
    pub open spec fn wf(&self) -> bool {
        &&& self.containers@.len() == CONTAINER_COUNT
        &&& self.container_pool.wf()
        &&& self.treenode_pool.wf()
        &&& forall|k: int| 0 <= k < self.container_stack@.len() ==> slot(#[trigger] self.container_stack@[k])
        &&& forall|k: int| 0 <= k < self.root_list@.len() ==> slot(#[trigger] self.root_list@[k])
        &&& self.root_list@.no_duplicates()
        &&& forall|k: int| 0 <= k < self.layout_stack@.len() ==> (#[trigger] self.layout_stack@[k]).wf()
        &&& (self.hover_root matches Some(h) ==> slot(h))
        &&& (self.next_hover_root matches Some(h) ==> slot(h))
        &&& (self.scroll_target matches Some(h) ==> slot(h))
    }

    /// The seed of the innermost identifier scope.
    pub open spec fn id_seed(&self) -> u32 {
        if self.id_stack@.len() == 0 {
            FNV_BASIS
        } else {
            self.id_stack@.last().0
        }
    }

    /// The current clip rectangle, or the unbounded one when none is pushed.
    pub open spec fn clip_or_unclipped(&self) -> Rect {
        if self.clip_stack@.len() == 0 {
            Rect { x: 0, y: 0, w: crate::math::UNCLIPPED_EXTENT, h: crate::math::UNCLIPPED_EXTENT }
        } else {
            self.clip_top()
        }
    }

    /// The current clip rectangle.
    pub open spec fn clip_top(&self) -> Rect {
        self.clip_stack@.last()
    }

    /// The positions of the final command order: for each root in `root_list` order, the
    /// commands drawn while it was the innermost open root.
    pub open spec fn chain_positions(&self) -> Seq<int> {
        chain_idx(self.root_list@, self.command_roots@, self.command_list@.len())
    }

    /// The final command order.
    pub open spec fn command_chain(&self) -> Seq<Command> {
        at_positions(self.command_list@, self.chain_positions())
    }

    /// A press in this frame brings the root under the pointer to the front, unless it is
    /// in front already.
    pub open spec fn raises_hover_root(&self) -> bool {
        &&& self.mouse_pressed.bits != 0
        &&& self.next_hover_root is Some
        &&& self.containers@[self.next_hover_root->0 as int].zindex < self.last_zindex
        &&& self.containers@[self.next_hover_root->0 as int].zindex >= 0
    }

    /// A context with default style, no containers in use and no input.
    pub fn new(metrics: M) -> (c: Self)
        ensures
            c.wf(),
            c.frame == 0,
            c.focus is None,
            c.hover is None,
            c.command_list@.len() == 0,
            c.root_list@.len() == 0,
            c.container_stack@.len() == 0,
            c.clip_stack@.len() == 0,
            c.id_stack@.len() == 0,
            c.layout_stack@.len() == 0,
            c.last_zindex == 0,
            forall|i: int| 0 <= i < CONTAINER_COUNT ==> #[trigger] c.containers@[i] == Container::cleared(),
    {
        let mut containers: Vec<Container> = Vec::new();
        let mut i: usize = 0;
        while i < CONTAINER_COUNT
            invariant
                i <= CONTAINER_COUNT,
                containers@.len() == i,
                forall|k: int| 0 <= k < i ==> #[trigger] containers@[k] == Container::cleared(),
            decreases CONTAINER_COUNT - i,
        {
            containers.push(Container::new());
            i = i + 1;
        }
        Context {
            metrics,
            style: Style::default(),
            hover: None,
            focus: None,
            last_id: None,
            last_rect: Rect { x: 0, y: 0, w: 0, h: 0 },
            last_zindex: 0,
            updated_focus: false,
            frame: 0,
            hover_root: None,
            next_hover_root: None,
            scroll_target: None,
            number_edit_buf: String::new(),
            number_edit: None,
            command_list: Vec::new(),
            root_list: Vec::new(),
            container_stack: Vec::new(),
            clip_stack: Vec::new(),
            id_stack: Vec::new(),
            layout_stack: Vec::new(),
            text_stack: String::new(),
            container_pool: Pool::new(),
            containers,
            treenode_pool: Pool::new(),
            mouse_pos: Vec2 { x: 0, y: 0 },
            last_mouse_pos: Vec2 { x: 0, y: 0 },
            mouse_delta: Vec2 { x: 0, y: 0 },
            scroll_delta: Vec2 { x: 0, y: 0 },
            mouse_down: MouseButton::empty(),
            mouse_pressed: MouseButton::empty(),
            key_down: KeyMode::empty(),
            key_pressed: KeyMode::empty(),
            input_text: String::new(),
            toggled_ids: Vec::new(),
            command_roots: Vec::new(),
            root_stack: Vec::new(),
        }
    }

    /// Starts a frame: clears the per-frame buffers, adopts the hover root found last frame,
    /// computes the mouse delta and advances the frame number.
    pub fn begin(&mut self)
        requires
            old(self).wf(),
            old(self).frame < usize::MAX,
        ensures
            final(self).wf(),
            final(self).root_list@.len() == 0,
            final(self).toggled_ids@.len() == 0,
            final(self).command_roots@.len() == 0,
            final(self).root_stack@.len() == 0,
            final(self).command_list@.len() == 0,
            final(self).text_stack@.len() == 0,
            final(self).scroll_target is None,
            final(self).hover_root == old(self).next_hover_root,
            final(self).next_hover_root is None,
            final(self).mouse_delta == (Vec2 {
                x: sat(old(self).mouse_pos.x - old(self).last_mouse_pos.x) as i32,
                y: sat(old(self).mouse_pos.y - old(self).last_mouse_pos.y) as i32,
            }),
            final(self).frame == old(self).frame + 1,
            final(self).containers == old(self).containers,
            final(self).container_pool@ == old(self).container_pool@,
            final(self).treenode_pool@ == old(self).treenode_pool@,
            final(self).focus == old(self).focus,
            final(self).hover == old(self).hover,
            final(self).updated_focus == old(self).updated_focus,
            final(self).mouse_pos == old(self).mouse_pos,
            final(self).mouse_down == old(self).mouse_down,
            final(self).mouse_pressed == old(self).mouse_pressed,
            final(self).key_down == old(self).key_down,
            final(self).key_pressed == old(self).key_pressed,
            final(self).input_text@ == old(self).input_text@,
            final(self).scroll_delta == old(self).scroll_delta,
            final(self).last_zindex == old(self).last_zindex,
            final(self).container_stack == old(self).container_stack,
            final(self).clip_stack == old(self).clip_stack,
            final(self).id_stack == old(self).id_stack,
            final(self).layout_stack == old(self).layout_stack,
            final(self).style == old(self).style,
    {
        self.root_list.clear();
        self.toggled_ids.clear();
        self.command_roots.clear();
        self.root_stack.clear();
        self.text_stack = String::new();
        self.scroll_target = None;
        self.hover_root = self.next_hover_root;
        self.next_hover_root = None;
        self.mouse_delta.x = sat_sub(self.mouse_pos.x, self.last_mouse_pos.x);
        self.mouse_delta.y = sat_sub(self.mouse_pos.y, self.last_mouse_pos.y);
        self.command_list.clear();
        self.frame = self.frame + 1;
    }

    /// Ends a frame: applies the scroll wheel to the scroll target, drops focus that no
    /// widget confirmed, brings a newly pressed hover root to the front, clears the
    /// per-frame input and orders the root containers by z-index.
    pub fn end(&mut self)
        requires
            old(self).wf(),
            old(self).container_stack@.len() == 0,
            old(self).clip_stack@.len() == 0,
            old(self).id_stack@.len() == 0,
            old(self).layout_stack@.len() == 0,
        ensures
            final(self).wf(),
            final(self).root_list@.to_multiset() == old(self).root_list@.to_multiset(),
            final(self).root_list@.len() == old(self).root_list@.len(),
            sorted_by_z(final(self).containers@, final(self).root_list@),
            final(self).focus == (if old(self).updated_focus { old(self).focus } else { None }),
            !final(self).updated_focus,
            final(self).key_pressed.bits == 0,
            final(self).mouse_pressed.bits == 0,
            final(self).input_text@.len() == 0,
            final(self).scroll_delta == (Vec2 { x: 0, y: 0 }),
            final(self).last_mouse_pos == old(self).mouse_pos,
            final(self).mouse_pos == old(self).mouse_pos,
            final(self).mouse_down == old(self).mouse_down,
            final(self).key_down == old(self).key_down,
            final(self).hover == old(self).hover,
            final(self).frame == old(self).frame,
            final(self).command_list == old(self).command_list,
            final(self).next_hover_root == old(self).next_hover_root,
            final(self).container_pool@ == old(self).container_pool@,
            final(self).treenode_pool@ == old(self).treenode_pool@,
            final(self).style == old(self).style,
            final(self).container_stack@.len() == 0,
            final(self).clip_stack@.len() == 0,
            final(self).id_stack@.len() == 0,
            final(self).layout_stack@.len() == 0,
            forall|i: int| 0 <= i < CONTAINER_COUNT ==> {
                let o = old(self).containers@[i];
                let c = #[trigger] final(self).containers@[i];
                &&& c.rect == o.rect
                &&& c.open == o.open
                &&& c.head_idx == o.head_idx
                &&& c.tail_idx == o.tail_idx
                &&& c.body == o.body
                &&& c.content_size == o.content_size
                &&& (old(self).scroll_target != Some(i as usize) ==> c.scroll == o.scroll)
                &&& c.zindex == (if old(self).raises_hover_root() && old(self).next_hover_root == Some(i as usize) {
                    final(self).last_zindex
                } else {
                    o.zindex
                })
            },
            final(self).last_zindex == (if old(self).raises_hover_root() {
                sat(old(self).last_zindex + 1) as i32
            } else {
                old(self).last_zindex
            }),
    {
        if let Some(t) = self.scroll_target {
            let mut c = self.containers[t];
            c.scroll.x = sat_add(c.scroll.x, self.scroll_delta.x);
            c.scroll.y = sat_add(c.scroll.y, self.scroll_delta.y);
            self.containers.set(t, c);
        }
        if !self.updated_focus {
            self.focus = None;
        }
        self.updated_focus = false;
        if !self.mouse_pressed.is_none() {
            if let Some(h) = self.next_hover_root {
                let z = self.containers[h].zindex;
                if z < self.last_zindex && z >= 0 {
                    self.bring_to_front(h);
                }
            }
        }
        self.key_pressed = KeyMode::empty();
        self.input_text = String::new();
        self.mouse_pressed = MouseButton::empty();
        self.scroll_delta = vec2(0, 0);
        self.last_mouse_pos = self.mouse_pos;
        let ghost before = self.root_list@;
        sort_by_zindex(&mut self.root_list, &self.containers);
        proof {
            before.lemma_multiset_has_no_duplicates();
            self.root_list@.lemma_multiset_has_no_duplicates_conv();
        }
    }

    /// Gives focus to `id` (or clears it) and marks focus as confirmed for this frame.
    pub fn set_focus(&mut self, id: Option<Id>)
        ensures
            *final(self) == (Context { focus: id, updated_focus: true, ..*old(self) }),
    {
        self.focus = id;
        self.updated_focus = true;
    }

    /// The seed of the innermost identifier scope.
    fn seed(&self) -> (r: Id)
        ensures
            r.0 == self.id_seed(),
    {
        let n = self.id_stack.len();
        if n == 0 {
            Id::start()
        } else {
            self.id_stack[n - 1]
        }
    }

    /// The identifier of an integer in the current scope: FNV-1a over its four bytes.
    pub fn get_id_u32(&mut self, orig_id: u32) -> (r: Id)
        ensures
            r.0 == fnv(old(self).id_seed(), le_bytes(orig_id as nat, 4)),
            final(self).last_id == Some(r),
            *final(self) == (Context { last_id: Some(r), ..*old(self) }),
    {
        let mut res = self.seed();
        res.hash_le(orig_id as u64, 4);
        self.last_id = Some(res);
        res
    }

    /// The identifier of a caller-chosen key (a stable handle of the widget's value) in the
    /// current scope: FNV-1a over the key's eight bytes.
    pub fn get_id_from_ptr(&mut self, key: usize) -> (r: Id)
        ensures
            r.0 == fnv(old(self).id_seed(), le_bytes(key as nat, 8)),
            *final(self) == (Context { last_id: Some(r), ..*old(self) }),
    {
        let mut res = self.seed();
        res.hash_le(key as u64, 8);
        self.last_id = Some(res);
        res
    }

    /// The identifier of a string in the current scope: FNV-1a over its UTF-8 bytes.
    pub fn get_id_from_str(&mut self, s: &str) -> (r: Id)
        ensures
            r.0 == fnv(old(self).id_seed(), s.spec_bytes()),
            *final(self) == (Context { last_id: Some(r), ..*old(self) }),
    {
        let mut res = self.seed();
        res.hash(s.as_bytes());
        self.last_id = Some(res);
        res
    }

    /// Opens an identifier scope seeded with the key's identifier.
    pub fn push_id_from_ptr(&mut self, key: usize)
        ensures
            final(self).id_stack@ == old(self).id_stack@.push(
                Id(fnv(old(self).id_seed(), le_bytes(key as nat, 8))),
            ),
            *final(self) == (Context { last_id: final(self).last_id, id_stack: final(self).id_stack, ..*old(self) }),
    {
        let id = self.get_id_from_ptr(key);
        self.id_stack.push(id);
    }

    /// Opens an identifier scope seeded with the string's identifier.
    pub fn push_id_from_str(&mut self, s: &str)
        ensures
            final(self).id_stack@ == old(self).id_stack@.push(Id(fnv(old(self).id_seed(), s.spec_bytes()))),
            *final(self) == (Context { last_id: final(self).last_id, id_stack: final(self).id_stack, ..*old(self) }),
    {
        let id = self.get_id_from_str(s);
        self.id_stack.push(id);
    }

    /// Closes the innermost identifier scope.
    pub fn pop_id(&mut self)
        ensures
            final(self).id_stack@ == (if old(self).id_stack@.len() == 0 {
                old(self).id_stack@
            } else {
                old(self).id_stack@.drop_last()
            }),
            *final(self) == (Context { id_stack: final(self).id_stack, ..*old(self) }),
    {
        self.id_stack.pop();
    }

    /// Pushes the intersection of `rect` with the current clip rectangle (or with the
    /// unbounded rectangle when none is pushed).
    pub fn push_clip_rect(&mut self, rect: Rect)
        ensures
            final(self).clip_stack@ == old(self).clip_stack@.push(rect.spec_intersect(
                if old(self).clip_stack@.len() == 0 {
                    Rect { x: 0, y: 0, w: crate::math::UNCLIPPED_EXTENT, h: crate::math::UNCLIPPED_EXTENT }
                } else {
                    old(self).clip_top()
                },
            )),
            *final(self) == (Context { clip_stack: final(self).clip_stack, ..*old(self) }),
    {
        let n = self.clip_stack.len();
        let last = if n == 0 {
            Rect::unclipped()
        } else {
            self.clip_stack[n - 1]
        };
        self.clip_stack.push(rect.intersect(last));
    }

    /// Restores the clip rectangle in effect before the last push.
    pub fn pop_clip_rect(&mut self)
        ensures
            final(self).clip_stack@ == (if old(self).clip_stack@.len() == 0 {
                old(self).clip_stack@
            } else {
                old(self).clip_stack@.drop_last()
            }),
            *final(self) == (Context { clip_stack: final(self).clip_stack, ..*old(self) }),
    {
        self.clip_stack.pop();
    }

    /// The current clip rectangle.
    pub fn get_clip_rect(&self) -> (r: Rect)
        requires
            self.clip_stack@.len() > 0,
        ensures
            r == self.clip_top(),
    {
        self.clip_stack[self.clip_stack.len() - 1]
    }

    /// Where `r` stands against the current clip rectangle.
    pub open spec fn spec_check_clip(&self, r: Rect) -> Clip {
        clip_class(r, self.clip_top())
    }

    /// Classifies `r` against the current clip rectangle.
    pub fn check_clip(&self, r: Rect) -> (c: Clip)
        requires
            self.clip_stack@.len() > 0,
        ensures
            c == self.spec_check_clip(r),
    {
        let cr = self.get_clip_rect();
        let (rx, ry, rr, rb) = (r.x as i64, r.y as i64, r.x as i64 + r.w as i64, r.y as i64 + r.h as i64);
        let (cx, cy, cright, cb) = (cr.x as i64, cr.y as i64, cr.x as i64 + cr.w as i64, cr.y as i64 + cr.h as i64);
        if rx > cright || rr < cx || ry > cb || rb < cy {
            return Clip::All;
        }
        if rx >= cx && rr <= cright && ry >= cy && rb <= cb {
            return Clip::Inside;
        }
        Clip::Part
    }

    /// Index of the innermost open container.
    pub fn get_current_container(&self) -> (r: usize)
        requires
            self.wf(),
            self.container_stack@.len() > 0,
        ensures
            r == self.container_stack@.last(),
            r < CONTAINER_COUNT,
    {
        self.container_stack[self.container_stack.len() - 1]
    }

    pub fn get_current_container_rect(&self) -> (r: Rect)
        requires
            self.wf(),
            self.container_stack@.len() > 0,
        ensures
            r == self.containers@[self.container_stack@.last() as int].rect,
    {
        self.containers[self.get_current_container()].rect
    }

    pub fn set_current_container_rect(&mut self, rect: &Rect)
        requires
            old(self).wf(),
            old(self).container_stack@.len() > 0,
        ensures
            final(self).wf(),
            final(self).containers@ == old(self).containers@.update(
                old(self).container_stack@.last() as int,
                Container { rect: *rect, ..old(self).containers@[old(self).container_stack@.last() as int] },
            ),
            *final(self) == (Context { containers: final(self).containers, ..*old(self) }),
    {
        let i = self.get_current_container();
        let mut c = self.containers[i];
        c.rect = *rect;
        self.containers.set(i, c);
    }

    pub fn get_current_container_scroll(&self) -> (r: Vec2)
        requires
            self.wf(),
            self.container_stack@.len() > 0,
        ensures
            r == self.containers@[self.container_stack@.last() as int].scroll,
    {
        self.containers[self.get_current_container()].scroll
    }

    pub fn set_current_container_scroll(&mut self, scroll: &Vec2)
        requires
            old(self).wf(),
            old(self).container_stack@.len() > 0,
        ensures
            final(self).wf(),
            final(self).containers@ == old(self).containers@.update(
                old(self).container_stack@.last() as int,
                Container { scroll: *scroll, ..old(self).containers@[old(self).container_stack@.last() as int] },
            ),
            *final(self) == (Context { containers: final(self).containers, ..*old(self) }),
    {
        let i = self.get_current_container();
        let mut c = self.containers[i];
        c.scroll = *scroll;
        self.containers.set(i, c);
    }

    pub fn get_current_container_content_size(&self) -> (r: Vec2)
        requires
            self.wf(),
            self.container_stack@.len() > 0,
        ensures
            r == self.containers@[self.container_stack@.last() as int].content_size,
    {
        self.containers[self.get_current_container()].content_size
    }

    pub fn get_current_container_body(&self) -> (r: Rect)
        requires
            self.wf(),
            self.container_stack@.len() > 0,
        ensures
            r == self.containers@[self.container_stack@.last() as int].body,
    {
        self.containers[self.get_current_container()].body
    }

    /// Puts container `cnt` above every other: it takes the next z-index.
    pub fn bring_to_front(&mut self, cnt: usize)
        requires
            old(self).wf(),
            cnt < CONTAINER_COUNT,
        ensures
            final(self).wf(),
            final(self).last_zindex == sat(old(self).last_zindex + 1),
            final(self).containers@ == old(self).containers@.update(
                cnt as int,
                Container { zindex: final(self).last_zindex, ..old(self).containers@[cnt as int] },
            ),
            *final(self) == (Context { containers: final(self).containers, last_zindex: final(self).last_zindex, ..*old(self) }),
    {
        self.last_zindex = sat_add(self.last_zindex, 1);
        let mut c = self.containers[cnt];
        c.zindex = self.last_zindex;
        self.containers.set(cnt, c);
    }

    /// Appends `s` to the frame's text arena and gives the byte offset where it starts.
    pub fn push_text(&mut self, s: &str) -> (r: usize)
        ensures
            r == vstd::utf8::encode_utf8(old(self).text_stack@).len() as usize,
            final(self).text_stack@ == old(self).text_stack@ + s@,
            *final(self) == (Context { text_stack: final(self).text_stack, ..*old(self) }),
    {
        let start = self.text_stack.as_str().len();
        self.text_stack.append(s);
        start
    }

    /// The commands to render, in final order: for each root in `root_list` order, the
    /// commands drawn while it was the innermost open root, in the order they were drawn.
    /// A root opened inside another is not repeated in the outer one's commands.
    pub fn commands(&self) -> (r: Vec<Command>)
        ensures
            r@ == self.command_chain(),
    {
        let mut out: Vec<Command> = Vec::new();
        let n = self.command_list.len();
        let mut i: usize = 0;
        assert(out@ =~= at_positions(self.command_list@, chain_idx(self.root_list@.take(0), self.command_roots@, n as nat)));
        while i < self.root_list.len()
            invariant
                n == self.command_list@.len(),
                i <= self.root_list@.len(),
                out@ == at_positions(self.command_list@, chain_idx(self.root_list@.take(i as int), self.command_roots@, n as nat)),
            decreases self.root_list@.len() - i,
        {
            let r = self.root_list[i];
            let ghost before = chain_idx(self.root_list@.take(i as int), self.command_roots@, n as nat);
            let mut k: usize = 0;
            assert(before + owned_idx(self.command_roots@, r, 0) =~= before);
            while k < n
                invariant
                    n == self.command_list@.len(),
                    k <= n,
                    r == self.root_list@[i as int],
                    i < self.root_list@.len(),
                    out@ == at_positions(self.command_list@, before + owned_idx(self.command_roots@, r, k as nat)),
                decreases n - k,
            {
                let ghost prev = owned_idx(self.command_roots@, r, k as nat);
                let ghost cmds = self.command_list@;
                if k < self.command_roots.len() && self.command_roots[k] == Some(r) {
                    out.push(self.command_list[k]);
                    assert(before + owned_idx(self.command_roots@, r, (k + 1) as nat) =~= (before + prev).push(k as int));
                    assert(at_positions(cmds, (before + prev).push(k as int)) =~= at_positions(cmds, before + prev).push(cmds[k as int]));
                } else {
                    assert(before + owned_idx(self.command_roots@, r, (k + 1) as nat) =~= before + prev);
                }
                k = k + 1;
            }
            proof {
                assert(self.root_list@.take(i + 1).drop_last() =~= self.root_list@.take(i as int));
                assert(before + owned_idx(self.command_roots@, r, n as nat) == chain_idx(self.root_list@.take(i + 1), self.command_roots@, n as nat));
            }
            i = i + 1;
        }
        assert(self.root_list@.take(i as int) =~= self.root_list@);
        out
    }

    /// `self` differs from `old` only by what drawing touches: commands and text appended,
    /// and a clip stack holding the same rectangles.
    pub open spec fn drawn_from(self, old: Self) -> bool {
        &&& self == (Context { command_list: self.command_list, command_roots: self.command_roots, text_stack: self.text_stack, clip_stack: self.clip_stack, ..old })
        &&& self.clip_stack@ == old.clip_stack@
        &&& old.command_list@.is_prefix_of(self.command_list@)
        &&& self.tagged_from(old)
    }

    /// `self` keeps the stacks, lists, input and registries of `old`; hover, focus, drawing
    /// and the containers' contents may differ.
    pub open spec fn keeps_shape(self, old: Self) -> bool {
        &&& self.container_stack@ == old.container_stack@
        &&& self.root_list@ == old.root_list@
        &&& self.layout_stack@ == old.layout_stack@
        &&& self.clip_stack@ == old.clip_stack@
        &&& self.id_stack@ == old.id_stack@
        &&& self.frame == old.frame
        &&& self.mouse_pos == old.mouse_pos
        &&& self.mouse_down == old.mouse_down
        &&& self.mouse_pressed == old.mouse_pressed
        &&& self.mouse_delta == old.mouse_delta
        &&& self.hover_root == old.hover_root
        &&& self.next_hover_root == old.next_hover_root
        &&& self.style == old.style
        &&& self.last_zindex == old.last_zindex
        &&& self.container_pool@ == old.container_pool@
        &&& self.treenode_pool@ == old.treenode_pool@
        &&& old.command_list@.is_prefix_of(self.command_list@)
    }

    /// The role a control is drawn in: its focus variant while it has focus, else its hover
    /// variant while hovered.
    pub open spec fn control_color(&self, id: Id, colorid: ControlColor) -> ControlColor {
        if self.focus == Some(id) {
            colorid.focused()
        } else if self.hover == Some(id) {
            colorid.hovered()
        } else {
            colorid
        }
    }

    /// `self` is `old` with its innermost container closed, and nothing else changed: the
    /// container, its layout frame and its identifier scope popped, `clips` clip rectangles
    /// and `roots` open roots popped, and the container's record replaced by `c`.
    pub open spec fn popped_container(self, old: Self, clips: nat, roots: nat, c: Container) -> bool {
        &&& self == (Context {
            container_stack: self.container_stack,
            layout_stack: self.layout_stack,
            clip_stack: self.clip_stack,
            id_stack: self.id_stack,
            root_stack: self.root_stack,
            containers: self.containers,
            ..old
        })
        &&& self.container_stack@ == old.container_stack@.drop_last()
        &&& self.layout_stack@ == old.layout_stack@.drop_last()
        &&& self.id_stack@ == popped(old.id_stack@, 1)
        &&& self.clip_stack@ == popped(old.clip_stack@, clips)
        &&& self.root_stack@ == popped(old.root_stack@, roots)
        &&& self.containers@ == old.containers@.update(old.container_stack@.last() as int, c)
    }

    /// Whether the innermost root container on the stack leads down to the hover root.
    pub open spec fn spec_in_hover_root(&self) -> bool {
        match self.hover_root {
            Some(h) => reaches_hover_root(self.container_stack@, self.containers@, h),
            None => false,
        }
    }

    /// Whether the pointer is over `rect`, inside the clip, within the hover root.
    pub open spec fn spec_mouse_over(&self, rect: Rect) -> bool {
        rect.contains(self.mouse_pos) && self.clip_top().contains(self.mouse_pos) && self.spec_in_hover_root()
    }

    /// The root container that commands drawn now belong to: the innermost open root.
    pub open spec fn owner(&self) -> Option<usize> {
        if self.root_stack@.len() == 0 {
            None
        } else {
            Some(self.root_stack@.last())
        }
    }

    /// Every command appended since `old` is tagged with the root that was innermost then.
    pub open spec fn tagged_from(self, old: Self) -> bool {
        self.command_roots@ == old.command_roots@ + Seq::new(
            (self.command_list@.len() - old.command_list@.len()) as nat,
            |_i: int| old.owner(),
        )
    }

    /// Appends `cmd`, tagged with the innermost open root.
    fn push_command(&mut self, cmd: Command)
        ensures
            final(self).command_list@ == old(self).command_list@.push(cmd),
            final(self).command_roots@ == old(self).command_roots@.push(old(self).owner()),
            final(self).tagged_from(*old(self)),
            *final(self) == (Context { command_list: final(self).command_list, command_roots: final(self).command_roots, ..*old(self) }),
    {
        let owner = if self.root_stack.len() == 0 {
            None
        } else {
            Some(self.root_stack[self.root_stack.len() - 1])
        };
        self.command_list.push(cmd);
        self.command_roots.push(owner);
        assert(self.command_roots@ =~= old(self).command_roots@ + Seq::new(1nat, |_i: int| old(self).owner()));
    }

    /// Appends a clip command.
    pub fn set_clip(&mut self, rect: Rect)
        ensures
            final(self).command_list@ == old(self).command_list@.push(Command::Clip { rect }),
            final(self).tagged_from(*old(self)),
            *final(self) == (Context { command_list: final(self).command_list, command_roots: final(self).command_roots, ..*old(self) }),
    {
        self.push_command(Command::Clip { rect });
    }

    /// Draws a filled rectangle, cut to the clip rectangle; nothing when nothing is left.
    pub fn draw_rect(&mut self, rect: Rect, color: Color)
        requires
            old(self).clip_stack@.len() > 0,
        ensures
            final(self).command_list@ == old(self).command_list@ + rect_cmds(rect, color, old(self).clip_top()),
            final(self).tagged_from(*old(self)),
            *final(self) == (Context { command_list: final(self).command_list, command_roots: final(self).command_roots, ..*old(self) }),
    {
        let r = rect.intersect(self.get_clip_rect());
        if r.w > 0 && r.h > 0 {
            self.push_command(Command::Rect { rect: r, color });
        } else {
            assert(self.command_roots@ =~= old(self).command_roots@ + Seq::new(0nat, |_i: int| old(self).owner()));
        }
        assert(self.command_list@ =~= old(self).command_list@ + rect_cmds(rect, color, old(self).clip_top()));
    }

    /// Draws the one-pixel outline of `r`.
    pub fn draw_box(&mut self, r: Rect, color: Color)
        requires
            old(self).clip_stack@.len() > 0,
        ensures
            final(self).command_list@ == old(self).command_list@ + box_cmds(r, color, old(self).clip_top()),
            *final(self) == (Context { command_list: final(self).command_list, command_roots: final(self).command_roots, ..*old(self) }),
    {
        let ghost clip = self.clip_top();
        let x1 = sat_add(r.x, 1);
        let w2 = sat_sub(r.w, 2);
        self.draw_rect(Rect { x: x1, y: r.y, w: w2, h: 1 }, color);
        self.draw_rect(Rect { x: x1, y: sat_sub(sat_add(r.y, r.h), 1), w: w2, h: 1 }, color);
        self.draw_rect(Rect { x: r.x, y: r.y, w: 1, h: r.h }, color);
        self.draw_rect(Rect { x: sat_sub(sat_add(r.x, r.w), 1), y: r.y, w: 1, h: r.h }, color);
        assert(self.command_list@ =~= old(self).command_list@ + box_cmds(r, color, clip));
    }

    /// Draws the background of `rect` in the role's colour and, unless the role is borderless
    /// or the border colour is transparent, a border around it.
    #[verifier::rlimit(50)]
    pub fn draw_frame(&mut self, rect: Rect, colorid: ControlColor)
        requires
            old(self).clip_stack@.len() > 0,
        ensures
            final(self).command_list@ == old(self).command_list@ + frame_cmds(old(self).style, old(self).clip_top(), rect, colorid),
            old(self).command_list@.is_prefix_of(final(self).command_list@),
            *final(self) == (Context { command_list: final(self).command_list, command_roots: final(self).command_roots, ..*old(self) }),
    {
        reveal(frame_cmds);
        let c = self.style.color(colorid);
        self.draw_rect(rect, c);
        if colorid == ControlColor::ScrollBase || colorid == ControlColor::ScrollThumb || colorid == ControlColor::TitleBG {
            assert(self.command_list@ =~= self.command_list@ + Seq::<Command>::empty());
            return;
        }
        let border = self.style.color(ControlColor::Border);
        if border.a != 0 {
            self.draw_box(rect.expand(1), border);
        } else {
            assert(self.command_list@ =~= self.command_list@ + Seq::<Command>::empty());
        }
    }

    /// Width of the widest line of `text`.
    pub fn get_text_width(&self, font: FontId, text: &str) -> (r: i32)
        ensures
            r >= 0,
    {
        let n = text.unicode_len();
        let mut res: usize = 0;
        let mut acc: usize = 0;
        let mut i: usize = 0;
        while i < n
            invariant
                n == text@.len(),
                i <= n,
            decreases n - i,
        {
            let c = text.get_char(i);
            if c == '\n' {
                if acc > res {
                    res = acc;
                }
                acc = 0;
            }
            acc = acc.saturating_add(self.metrics.char_width(font, c));
            i = i + 1;
        }
        if acc > res {
            res = acc;
        }
        sat_from_usize(res)
    }

    /// Height of `text`: its number of lines times the font's line height.
    pub fn get_text_height(&self, font: FontId, text: &str) -> (r: i32)
        ensures
            r >= 0,
    {
        let h = self.metrics.font_height(font);
        let lc = count_lines(text);
        match lc.checked_mul(h) {
            Some(v) => sat_from_usize(v),
            None => i32::MAX,
        }
    }

    /// Draws `s` at `pos`, clipped as its box requires; the box's size is what the metrics
    /// give for `s`.
    pub fn draw_text(&mut self, font: FontId, s: &str, pos: Vec2, color: Color)
        requires
            old(self).clip_stack@.len() > 0,
        ensures
            final(self).drawn_from(*old(self)),
            ({
                let cmd = Command::Text {
                    font,
                    pos,
                    color,
                    str_start: vstd::utf8::encode_utf8(old(self).text_stack@).len() as usize,
                    str_len: s.spec_bytes().len() as usize,
                };
                exists|w: i32, h: i32|
                    #![trigger old(self).spec_check_clip(Rect { x: pos.x, y: pos.y, w, h })]
                    w >= 0 && h >= 0 && {
                        let kind = old(self).spec_check_clip(Rect { x: pos.x, y: pos.y, w, h });
                        &&& final(self).command_list@ == old(self).command_list@ + clipped_cmds(kind, old(self).clip_top(), cmd)
                        &&& final(self).text_stack@ == (if kind == Clip::All {
                            old(self).text_stack@
                        } else {
                            old(self).text_stack@ + s@
                        })
                    }
            }),
    {
        let w = self.get_text_width(font, s);
        let h = self.get_text_height(font, s);
        let r = Rect { x: pos.x, y: pos.y, w, h };
        let clipped = self.check_clip(r);
        let ghost clip = self.clip_top();
        proof {
            lemma_tags_refl(*self);
        }
        if clipped == Clip::All {
            assert(self.command_list@ =~= old(self).command_list@ + clipped_cmds(Clip::All, clip, Command::Clip { rect: clip }));
            return;
        }
        if clipped == Clip::Part {
            let c = self.get_clip_rect();
            self.set_clip(c);
        }
        let str_start = self.push_text(s);
        let cmd = Command::Text { font, pos, color, str_start, str_len: s.len() };
        let ghost s1 = *self;
        self.push_command(cmd);
        proof {
            lemma_tags_compose(*old(self), s1, *self);
        }
        let ghost s2 = *self;
        if clipped != Clip::Inside {
            self.set_clip(Rect::unclipped());
            proof {
                lemma_tags_compose(*old(self), s2, *self);
            }
        }
        assert(self.command_list@ =~= old(self).command_list@ + clipped_cmds(clipped, clip, cmd));
        assert(old(self).command_list@.is_prefix_of(self.command_list@));
    }

    /// Draws an icon in `rect`, clipped as the rectangle requires.
    pub fn draw_icon(&mut self, id: Icon, rect: Rect, color: Color)
        requires
            old(self).clip_stack@.len() > 0,
        ensures
            final(self).command_list@ == old(self).command_list@ + clipped_cmds(
                old(self).spec_check_clip(rect),
                old(self).clip_top(),
                Command::Icon { rect, id, color },
            ),
            final(self).tagged_from(*old(self)),
            *final(self) == (Context { command_list: final(self).command_list, command_roots: final(self).command_roots, ..*old(self) }),
    {
        let clipped = self.check_clip(rect);
        let ghost clip = self.clip_top();
        proof {
            lemma_tags_refl(*self);
        }
        if clipped == Clip::All {
            assert(self.command_list@ =~= old(self).command_list@ + clipped_cmds(clipped, clip, Command::Icon { rect, id, color }));
            return;
        }
        if clipped == Clip::Part {
            let c = self.get_clip_rect();
            self.set_clip(c);
        }
        let ghost s1 = *self;
        self.push_command(Command::Icon { rect, id, color });
        proof {
            lemma_tags_compose(*old(self), s1, *self);
        }
        let ghost s2 = *self;
        if clipped != Clip::Inside {
            self.set_clip(Rect::unclipped());
            proof {
                lemma_tags_compose(*old(self), s2, *self);
            }
        }
        assert(self.command_list@ =~= old(self).command_list@ + clipped_cmds(clipped, clip, Command::Icon { rect, id, color }));
    }

    /// Whether widgets in the current container may be hovered: walking down the container
    /// stack, the hover root comes before the innermost root container is left.
    pub fn in_hover_root(&self) -> (r: bool)
        requires
            self.wf(),
        ensures
            r == self.spec_in_hover_root(),
    {
        match self.hover_root {
            Some(h) => {
                let len = self.container_stack.len();
                let mut i: usize = 0;
                assert(self.container_stack@.take(len as int) =~= self.container_stack@);
                while i < len
                    invariant
                        self.wf(),
                        self.hover_root == Some(h),
                        len == self.container_stack@.len(),
                        i <= len,
                        reaches_hover_root(self.container_stack@, self.containers@, h)
                            == reaches_hover_root(self.container_stack@.take(len - i), self.containers@, h),
                    decreases len - i,
                {
                    let ghost st = self.container_stack@.take(len - i);
                    let top = self.container_stack[len - i - 1];
                    assert(st.len() > 0);
                    assert(st.last() == top);
                    if top == h {
                        assert(reaches_hover_root(st, self.containers@, h));
                        return true;
                    }
                    if self.containers[top].head_idx.is_some() {
                        assert(self.containers@[st.last() as int].head_idx is Some);
                        assert(!reaches_hover_root(st, self.containers@, h));
                        return false;
                    }
                    assert(st.drop_last() =~= self.container_stack@.take(len - i - 1));
                    i = i + 1;
                }
                false
            },
            None => false,
        }
    }

    /// Whether the pointer is over `rect`, inside the clip rectangle, within the hover root.
    pub fn mouse_over(&self, rect: Rect) -> (r: bool)
        requires
            self.wf(),
            self.clip_stack@.len() > 0,
        ensures
            r == self.spec_mouse_over(rect),
    {
        rect.overlaps(self.mouse_pos) && self.get_clip_rect().overlaps(self.mouse_pos) && self.in_hover_root()
    }

    /// The frame of a control: the role's colour, turned to its focus or hover variant.
    pub fn draw_control_frame(&mut self, id: Id, rect: Rect, colorid: ControlColor, opt: WidgetOption)
        requires
            old(self).clip_stack@.len() > 0,
        ensures
            *final(self) == (Context { command_list: final(self).command_list, command_roots: final(self).command_roots, ..*old(self) }),
            final(self).command_list@ == old(self).command_list@ + if opt.has(WidgetOption::NO_FRAME) {
                Seq::empty()
            } else {
                frame_cmds(old(self).style, old(self).clip_top(), rect, old(self).control_color(id, colorid))
            },
            old(self).command_list@.is_prefix_of(final(self).command_list@),
    {
        if opt.has_no_frame() {
            assert(self.command_list@ =~= old(self).command_list@ + Seq::<Command>::empty());
            return;
        }
        let mut c = colorid;
        if self.focus == Some(id) {
            c.focus();
        } else if self.hover == Some(id) {
            c.hover();
        }
        self.draw_frame(rect, c);
    }

    /// Draws `s` inside `rect`, vertically centred, aligned as `opt` says.
    pub fn draw_control_text(&mut self, s: &str, rect: Rect, colorid: ControlColor, opt: WidgetOption)
        requires
            old(self).clip_stack@.len() > 0,
        ensures
            final(self).drawn_from(*old(self)),
            text_runs_from(final(self).command_list@, old(self).command_list@.len() as int),
            exists|tw: i32, th: i32, w: i32, h: i32|
                #![trigger boxed_at(aligned_pos(rect, tw, th, opt, old(self).style.padding), w, h)]
                tw >= 0 && th >= 0 && w >= 0 && h >= 0 && {
                    let pos = aligned_pos(rect, tw, th, opt, old(self).style.padding);
                    let clip = rect.spec_intersect(old(self).clip_top());
                    let kind = clip_class(boxed_at(pos, w, h), clip);
                    let cmd = Command::Text {
                        font: old(self).style.font,
                        pos,
                        color: old(self).style.colors[colorid.spec_index() as int],
                        str_start: vstd::utf8::encode_utf8(old(self).text_stack@).len() as usize,
                        str_len: s.spec_bytes().len() as usize,
                    };
                    &&& final(self).command_list@ == old(self).command_list@ + clipped_cmds(kind, clip, cmd)
                    &&& final(self).text_stack@ == (if kind == Clip::All {
                        old(self).text_stack@
                    } else {
                        old(self).text_stack@ + s@
                    })
                },
    {
        let font = self.style.font;
        let tw = self.get_text_width(font, s);
        self.push_clip_rect(rect);
        let th = self.get_text_height(font, s);
        let y = sat_add(rect.y, half(sat_sub(rect.h, th)));
        let x = if opt.is_aligned_center() {
            sat_add(rect.x, half(sat_sub(rect.w, tw)))
        } else if opt.is_aligned_right() {
            sat_sub(sat_sub(sat_add(rect.x, rect.w), tw), self.style.padding)
        } else {
            sat_add(rect.x, self.style.padding)
        };
        let c = self.style.color(colorid);
        let ghost mid = *self;
        self.draw_text(font, s, Vec2 { x, y }, c);
        self.pop_clip_rect();
        proof {
            let pos = Vec2 { x, y };
            assert(pos == aligned_pos(rect, tw, th, opt, old(self).style.padding));
            let cmd = Command::Text {
                font,
                pos,
                color: c,
                str_start: vstd::utf8::encode_utf8(mid.text_stack@).len() as usize,
                str_len: s.spec_bytes().len() as usize,
            };
            let (w, h) = choose|w: i32, h: i32|
                #![trigger mid.spec_check_clip(Rect { x: pos.x, y: pos.y, w, h })]
                w >= 0 && h >= 0 && {
                    let kind = mid.spec_check_clip(Rect { x: pos.x, y: pos.y, w, h });
                    &&& self.command_list@ == mid.command_list@ + clipped_cmds(kind, mid.clip_top(), cmd)
                    &&& self.text_stack@ == (if kind == Clip::All {
                        mid.text_stack@
                    } else {
                        mid.text_stack@ + s@
                    })
                };
            assert(boxed_at(aligned_pos(rect, tw, th, opt, old(self).style.padding), w, h) == Rect { x: pos.x, y: pos.y, w, h });
            lemma_clipped_text_runs(mid.command_list@, mid.spec_check_clip(Rect { x: pos.x, y: pos.y, w, h }), mid.clip_top(), cmd);
        }
        assert(self.clip_stack@ =~= old(self).clip_stack@);
    }

    /// Hover, focus and focus confirmation after `update_control(id, rect, opt)`.
    pub open spec fn spec_update_control(&self, id: Id, rect: Rect, opt: WidgetOption) -> (Option<Id>, Option<Id>, bool) {
        self.control_outcome(id, self.spec_mouse_over(rect), opt)
    }

    /// Hover, focus and focus confirmation after a control `id` updates, given whether the
    /// pointer is over it; reads only hover, focus and the mouse buttons.
    pub open spec fn control_outcome(&self, id: Id, over: bool, opt: WidgetOption) -> (Option<Id>, Option<Id>, bool) {
        let confirmed = self.updated_focus || self.focus == Some(id);
        if opt.has(WidgetOption::NO_INTERACT) {
            (self.hover, self.focus, confirmed)
        } else {
            let pressed = self.mouse_pressed.bits != 0;
            let held = self.mouse_down.bits != 0;
            let hover1 = if over && !held {
                Some(id)
            } else {
                self.hover
            };
            let drop_focus = self.focus == Some(id) && ((pressed && !over) || (!held && !opt.has(
                WidgetOption::HOLD_FOCUS,
            )));
            let focus1 = if drop_focus {
                None
            } else {
                self.focus
            };
            if hover1 == Some(id) {
                if pressed {
                    (hover1, Some(id), true)
                } else if !over {
                    (None, focus1, confirmed || drop_focus)
                } else {
                    (hover1, focus1, confirmed || drop_focus)
                }
            } else {
                (hover1, focus1, confirmed || drop_focus)
            }
        }
    }

    /// Resolves hover and focus for one interactive widget.
    pub fn update_control(&mut self, id: Id, rect: Rect, opt: WidgetOption)
        requires
            old(self).wf(),
            old(self).clip_stack@.len() > 0,
        ensures
            ({
                let (h, f, u) = old(self).spec_update_control(id, rect, opt);
                *final(self) == (Context { hover: h, focus: f, updated_focus: u, ..*old(self) })
            }),
            final(self).wf(),
    {
        let mouseover = self.mouse_over(rect);
        if self.focus == Some(id) {
            self.updated_focus = true;
        }
        if opt.is_not_interactive() {
            return;
        }
        if mouseover && self.mouse_down.is_none() {
            self.hover = Some(id);
        }
        if self.focus == Some(id) {
            if !self.mouse_pressed.is_none() && !mouseover {
                self.set_focus(None);
            }
            if self.mouse_down.is_none() && !opt.is_holding_focus() {
                self.set_focus(None);
            }
        }
        if self.hover == Some(id) {
            if !self.mouse_pressed.is_none() {
                self.set_focus(Some(id));
            } else if !mouseover {
                self.hover = None;
            }
        }
    }

    /// Whether the registry can give a container for `id`: it already holds one, or none is
    /// asked for, or a slot is free in this frame.
    pub open spec fn can_acquire(&self, id: Id, opt: WidgetOption) -> bool {
        self.container_pool.holds(id) || opt.has(WidgetOption::CLOSED) || self.container_pool.can_alloc(self.frame)
    }

    /// The container for `id`: the one registered, touched unless it is closed and `CLOSED`
    /// is asked; else a fresh one, open and in front, unless `CLOSED` is asked.
    pub fn get_container_index_intern(&mut self, id: Id, opt: WidgetOption) -> (r: Option<usize>)
        requires
            old(self).wf(),
            old(self).can_acquire(id, opt),
        ensures
            final(self).wf(),
            r matches Some(k) ==> k < CONTAINER_COUNT && final(self).container_pool@[k as int].id == id,
            *final(self) == (Context {
                container_pool: final(self).container_pool,
                containers: final(self).containers,
                last_zindex: final(self).last_zindex,
                ..*old(self)
            }),
            match old(self).container_pool.lookup(id) {
                Some(i) => {
                    &&& r == Some(i)
                    &&& final(self).containers == old(self).containers
                    &&& final(self).last_zindex == old(self).last_zindex
                    &&& final(self).container_pool@ == if old(self).containers@[i as int].open || !opt.has(WidgetOption::CLOSED) {
                        old(self).container_pool@.update(i as int, PoolItem { id, last_update: old(self).frame })
                    } else {
                        old(self).container_pool@
                    }
                },
                None => if opt.has(WidgetOption::CLOSED) {
                    r is None && *final(self) == *old(self)
                } else {
                    &&& r is Some
                    &&& old(self).container_pool@[r->0 as int].last_update < old(self).frame
                    &&& forall|j: int| 0 <= j < CONTAINER_COUNT ==> old(self).container_pool@[r->0 as int].last_update <= #[trigger] old(self).container_pool@[j].last_update
                    &&& forall|j: int| 0 <= j < r->0 ==> old(self).container_pool@[r->0 as int].last_update < #[trigger] old(self).container_pool@[j].last_update
                    &&& final(self).container_pool@ == old(self).container_pool@.update(
                        r->0 as int,
                        PoolItem { id, last_update: old(self).frame },
                    )
                    &&& final(self).last_zindex == sat(old(self).last_zindex + 1)
                    &&& final(self).containers@ == old(self).containers@.update(
                        r->0 as int,
                        Container { open: true, zindex: final(self).last_zindex, ..Container::cleared() },
                    )
                },
            },
    {
        if let Some(idx) = self.container_pool.get(id) {
            assert(old(self).container_pool@[idx as int].id == id);
            if self.containers[idx].open || !opt.is_closed() {
                self.container_pool.update(idx, self.frame);
                assert(old(self).container_pool@[idx as int].id == id);
                assert(self.container_pool@ =~= old(self).container_pool@.update(idx as int, PoolItem { id, last_update: old(self).frame }));
            }
            return Some(idx);
        }
        if opt.is_closed() {
            return None;
        }
        let idx = self.container_pool.allocate(id, self.frame);
        let mut c = Container::new();
        c.open = true;
        self.containers.set(idx, c);
        self.bring_to_front(idx);
        Some(idx)
    }

    /// The container named `name` in the current scope, created when missing.
    pub fn get_container_index(&mut self, name: &str) -> (r: Option<usize>)
        requires
            old(self).wf(),
            old(self).can_acquire(Id(fnv(old(self).id_seed(), name.spec_bytes())), WidgetOption { bits: 0 }),
        ensures
            final(self).wf(),
            r is Some,
            r->0 < CONTAINER_COUNT,
            final(self).container_pool@[r->0 as int].id == Id(fnv(old(self).id_seed(), name.spec_bytes())),
            final(self).last_zindex == (if old(self).container_pool.holds(Id(fnv(old(self).id_seed(), name.spec_bytes()))) {
                old(self).last_zindex
            } else {
                sat(old(self).last_zindex + 1) as i32
            }),
            final(self).id_stack == old(self).id_stack,
            final(self).container_stack == old(self).container_stack,
            final(self).layout_stack == old(self).layout_stack,
            final(self).clip_stack == old(self).clip_stack,
            final(self).root_list == old(self).root_list,
            final(self).command_list == old(self).command_list,
            final(self).frame == old(self).frame,
            final(self).mouse_pos == old(self).mouse_pos,
    {
        let id = self.get_id_from_str(name);
        assert(0u32 & 2048u32 == 0) by (bit_vector);
        self.get_container_index_intern(id, WidgetOption::empty())
    }

    /// Closes the innermost container: records its content size from the layout's extent,
    /// and pops the container, its layout frame and its identifier scope.
    pub fn pop_container(&mut self)
        requires
            old(self).wf(),
            old(self).container_stack@.len() > 0,
            old(self).layout_stack@.len() > 0,
        ensures
            final(self).wf(),
            final(self).popped_container(
                *old(self),
                0,
                0,
                recorded(old(self).containers@[old(self).container_stack@.last() as int], old(self).layout_top()),
            ),
    {
        let cnt = self.get_current_container();
        let layout = *self.get_layout();
        let mut c = self.containers[cnt];
        c.content_size.x = sat_sub(layout.max.x, layout.body.x);
        c.content_size.y = sat_sub(layout.max.y, layout.body.y);
        self.containers.set(cnt, c);
        self.container_stack.pop();
        self.layout_stack.pop();
        self.pop_id();
        assert(self.id_stack@ =~= popped(old(self).id_stack@, 1));
        assert(self.clip_stack@ =~= popped(old(self).clip_stack@, 0));
        assert(self.root_stack@ =~= popped(old(self).root_stack@, 0));
        proof {
            assert forall|k: int| 0 <= k < self.layout_stack@.len() implies (#[trigger] self.layout_stack@[k]).wf() by {
                assert(self.layout_stack@[k] == old(self).layout_stack@[k]);
            }
            assert forall|k: int| 0 <= k < self.container_stack@.len() implies slot(#[trigger] self.container_stack@[k]) by {
                assert(self.container_stack@[k] == old(self).container_stack@[k]);
            }
        }
    }

    /// What one scrollbar of container `cnt` (vertical when `vertical`) beside `b` does,
    /// for content `cs`, under clip `clip`, with `in_root` telling whether the container
    /// leads to the hover root. Where the content overflows `b` on that axis and `b` has
    /// room, the bar is a control: its offset moves by the pointer's drag scaled to the
    /// content while it has focus and the left button is held, is kept within
    /// `[0, content - extent]`, and the container becomes the scroll-wheel target when the
    /// pointer is over `b`. Elsewhere the offset is 0.
    #[verifier::opaque]
    pub open spec fn axis_effect(
        self,
        old: Self,
        cnt: usize,
        b: Rect,
        cs: Vec2,
        vertical: bool,
        clip: Rect,
        in_root: bool,
    ) -> bool {
        let content = if vertical { cs.y } else { cs.x };
        let extent = if vertical { b.h } else { b.w };
        let maxscroll = sat(content - extent);
        let shown = maxscroll > 0 && extent > 0;
        let sid = Id(fnv(old.id_seed(), if vertical { "!scrollbary".spec_bytes() } else { "!scrollbarx".spec_bytes() }));
        let sz = old.style.scrollbar_size;
        let base = if vertical {
            Rect { x: sat(b.x + b.w) as i32, y: b.y, w: sz, h: b.h }
        } else {
            Rect { x: b.x, y: sat(b.y + b.h) as i32, w: b.w, h: sz }
        };
        let over = base.contains(old.mouse_pos) && clip.contains(old.mouse_pos) && in_root;
        let (h, f, u) = old.control_outcome(sid, over, WidgetOption { bits: 0 });
        let o = old.containers@[cnt as int];
        let c = self.containers@[cnt as int];
        let off0 = if vertical { o.scroll.y } else { o.scroll.x };
        let off = if vertical { c.scroll.y } else { c.scroll.x };
        let delta = if vertical { old.mouse_delta.y } else { old.mouse_delta.x };
        let dragging = f == Some(sid) && old.mouse_down.has(MouseButton::LEFT);
        let moved = if dragging {
            sat(off0 + sat(trunc_div(delta * content, extent as int)))
        } else {
            off0 as int
        };
        &&& off == (if shown { spec_min(maxscroll, spec_max(0, moved)) } else { 0 })
        &&& (vertical ==> c == (Container { scroll: Vec2 { x: o.scroll.x, y: c.scroll.y }, ..o }))
        &&& (!vertical ==> c == (Container { scroll: Vec2 { x: c.scroll.x, y: o.scroll.y }, ..o }))
        &&& (self.hover, self.focus, self.updated_focus) == (if shown {
            (h, f, u)
        } else {
            (old.hover, old.focus, old.updated_focus)
        })
        &&& self.scroll_target == (if shown && b.contains(old.mouse_pos) && clip.contains(old.mouse_pos) && in_root {
            Some(cnt)
        } else {
            old.scroll_target
        })
    }

    proof fn lemma_axis_effect_congruent(
        self,
        a: Self,
        b: Self,
        cnt: usize,
        r: Rect,
        cs: Vec2,
        vertical: bool,
        clip: Rect,
        in_root: bool,
    )
        requires
            a.id_stack@ == b.id_stack@,
            a.style == b.style,
            a.mouse_pos == b.mouse_pos,
            a.mouse_down == b.mouse_down,
            a.mouse_pressed == b.mouse_pressed,
            a.mouse_delta == b.mouse_delta,
            a.hover == b.hover,
            a.focus == b.focus,
            a.updated_focus == b.updated_focus,
            a.containers@ == b.containers@,
            a.scroll_target == b.scroll_target,
        ensures
            self.axis_effect(a, cnt, r, cs, vertical, clip, in_root) == self.axis_effect(b, cnt, r, cs, vertical, clip, in_root),
    {
        reveal(Context::axis_effect);
    }

    proof fn lemma_axis_effect_result(
        self,
        other: Self,
        old: Self,
        cnt: usize,
        r: Rect,
        cs: Vec2,
        vertical: bool,
        clip: Rect,
        in_root: bool,
    )
        requires
            self.containers@ == other.containers@,
            self.hover == other.hover,
            self.focus == other.focus,
            self.updated_focus == other.updated_focus,
            self.scroll_target == other.scroll_target,
        ensures
            self.axis_effect(old, cnt, r, cs, vertical, clip, in_root) == other.axis_effect(old, cnt, r, cs, vertical, clip, in_root),
    {
        reveal(Context::axis_effect);
    }

    /// The scrollbars of container `cnt` around `body`: shrinks `body` where content
    /// overflows it, lets the bars drag the scroll offset, keeps each offset within
    /// `[0, content - body]` (or at 0 where nothing overflows), and makes the container the
    /// scroll-wheel target when the pointer is over its body.
    #[verifier::rlimit(50)]
    fn scrollbars(&mut self, cnt: usize, body: &mut Rect)
        requires
            old(self).wf(),
            cnt < CONTAINER_COUNT,
        ensures
            final(self).wf(),
            final(self).keeps_shape(*old(self)),
            forall|i: int| 0 <= i < CONTAINER_COUNT && i != cnt ==> #[trigger] final(self).containers@[i] == old(self).containers@[i],
            ({
                let o = old(self).containers@[cnt as int];
                let cs = padded_content(o, old(self).style.padding);
                let clip = old(body).spec_intersect(old(self).clip_or_unclipped());
                let in_root = old(self).spec_in_hover_root();
                &&& final(self).containers@[cnt as int] == (Container { scroll: final(self).containers@[cnt as int].scroll, ..o })
                &&& *final(body) == shrunk_body(*old(body), cs, o.body, old(self).style.scrollbar_size)
                &&& exists|mid: Context<M>|
                    #![trigger mid.axis_effect(*old(self), cnt, *final(body), cs, true, clip, in_root)]
                    mid.axis_effect(*old(self), cnt, *final(body), cs, true, clip, in_root)
                        && final(self).axis_effect(mid, cnt, *final(body), cs, false, clip, in_root)
            }),
    {
        let sz = self.style.scrollbar_size;
        let pad2 = sat_add(self.style.padding, self.style.padding);
        let mut cs = self.containers[cnt].content_size;
        cs.x = sat_add(cs.x, pad2);
        cs.y = sat_add(cs.y, pad2);
        self.push_clip_rect(*body);
        if cs.y > self.containers[cnt].body.h {
            body.w = sat_sub(body.w, sz);
        }
        if cs.x > self.containers[cnt].body.w {
            body.h = sat_sub(body.h, sz);
        }
        let b = *body;
        let ghost s0 = *self;
        self.scroll_axis(cnt, b, cs, true);
        let ghost s1 = *self;
        proof {
            if let Some(h) = old(self).hover_root {
                lemma_reaches_same_heads(self.container_stack@, old(self).containers@, self.containers@, h);
            }
        }
        self.scroll_axis(cnt, b, cs, false);
        proof {
            lemma_prefix_trans(s0.command_list@, s1.command_list@, self.command_list@);
            let o = old(self).containers@[cnt as int];
            assert(cs == padded_content(o, old(self).style.padding));
            assert(s0.clip_top() == old(body).spec_intersect(old(self).clip_or_unclipped()));
            assert(s1.spec_in_hover_root() == old(self).spec_in_hover_root());
            assert(s1.clip_top() == s0.clip_top());
            s1.lemma_axis_effect_congruent(s0, *old(self), cnt, b, cs, true, s0.clip_top(), old(self).spec_in_hover_root());
            assert(s1.axis_effect(*old(self), cnt, b, cs, true, s0.clip_top(), old(self).spec_in_hover_root()));
            assert(self.axis_effect(s1, cnt, b, cs, false, s0.clip_top(), old(self).spec_in_hover_root()));
        }
        let ghost s2 = *self;
        self.pop_clip_rect();
        assert(self.clip_stack@ =~= old(self).clip_stack@);
        proof {
            self.lemma_axis_effect_result(s2, s1, cnt, b, cs, false, s0.clip_top(), old(self).spec_in_hover_root());
        }
    }

    /// One scrollbar of container `cnt` (the vertical one when `vertical`) beside `b`, for
    /// content of size `cs`.
    #[verifier::rlimit(40)]
    fn scroll_axis(&mut self, cnt: usize, b: Rect, cs: Vec2, vertical: bool)
        requires
            old(self).wf(),
            cnt < CONTAINER_COUNT,
            old(self).clip_stack@.len() > 0,
        ensures
            final(self).wf(),
            final(self).keeps_shape(*old(self)),
            forall|i: int| 0 <= i < CONTAINER_COUNT && i != cnt ==> #[trigger] final(self).containers@[i] == old(self).containers@[i],
            final(self).axis_effect(*old(self), cnt, b, cs, vertical, old(self).clip_top(), old(self).spec_in_hover_root()),
            final(self).containers@[cnt as int] == (Container {
                scroll: final(self).containers@[cnt as int].scroll,
                ..old(self).containers@[cnt as int]
            }),
    {
        reveal(Context::axis_effect);
        let (content, extent) = if vertical {
            (cs.y, b.h)
        } else {
            (cs.x, b.w)
        };
        let maxscroll = sat_sub(content, extent);
        let mut c = self.containers[cnt];
        if !(maxscroll > 0 && extent > 0) {
            if vertical {
                c.scroll.y = 0;
            } else {
                c.scroll.x = 0;
            }
            self.containers.set(cnt, c);
            assert(self.command_list@.subrange(0, self.command_list@.len() as int) =~= self.command_list@);
            return;
        }
        let sz = self.style.scrollbar_size;
        let (id, base) = if vertical {
            (self.get_id_from_str("!scrollbary"), Rect { x: sat_add(b.x, b.w), y: b.y, w: sz, h: b.h })
        } else {
            (self.get_id_from_str("!scrollbarx"), Rect { x: b.x, y: sat_add(b.y, b.h), w: b.w, h: sz })
        };
        self.update_control(id, base, WidgetOption::empty());
        let dragging = self.focus == Some(id) && self.mouse_down.is_left();
        let mut offset = if vertical {
            c.scroll.y
        } else {
            c.scroll.x
        };
        if dragging {
            let delta = if vertical {
                self.mouse_delta.y
            } else {
                self.mouse_delta.x
            };
            offset = sat_add(offset, mul_div(delta, content, extent));
        }
        offset = clamp(offset, 0, maxscroll);
        if vertical {
            c.scroll.y = offset;
        } else {
            c.scroll.x = offset;
        }
        self.containers.set(cnt, c);
        let ghost s0 = *self;
        self.draw_frame(base, ControlColor::ScrollBase);
        let mut thumb = base;
        if vertical {
            thumb.h = max(self.style.thumb_size, mul_div(base.h, b.h, content));
            thumb.y = sat_add(thumb.y, mul_div(offset, sat_sub(base.h, thumb.h), maxscroll));
        } else {
            thumb.w = max(self.style.thumb_size, mul_div(base.w, b.w, content));
            thumb.x = sat_add(thumb.x, mul_div(offset, sat_sub(base.w, thumb.w), maxscroll));
        }
        let ghost s1 = *self;
        self.draw_frame(thumb, ControlColor::ScrollThumb);
        proof {
            lemma_prefix_trans(old(self).command_list@, s0.command_list@, s1.command_list@);
            lemma_prefix_trans(old(self).command_list@, s1.command_list@, self.command_list@);
        }
        proof {
            if let Some(h) = old(self).hover_root {
                lemma_reaches_same_heads(self.container_stack@, old(self).containers@, self.containers@, h);
            }
        }
        if self.mouse_over(b) {
            self.scroll_target = Some(cnt);
        }
    }

    /// Lays out the body of container `cnt`: scrollbars unless `NO_SCROLL`, then a layout
    /// frame over the body less padding, scrolled by the container's offset.
    pub fn push_container_body(&mut self, cnt: usize, body: Rect, opt: WidgetOption)
        requires
            old(self).wf(),
            cnt < CONTAINER_COUNT,
        ensures
            final(self).wf(),
            final(self).container_stack@ == old(self).container_stack@,
            final(self).layout_stack@.len() == old(self).layout_stack@.len() + 1,
            final(self).layout_stack@.drop_last() == old(self).layout_stack@,
            final(self).id_stack@ == old(self).id_stack@,
            final(self).clip_stack@ == old(self).clip_stack@,
            final(self).root_list@ == old(self).root_list@,
            final(self).mouse_down == old(self).mouse_down,
            final(self).mouse_delta == old(self).mouse_delta,
            final(self).frame == old(self).frame,
            final(self).mouse_pos == old(self).mouse_pos,
            final(self).mouse_pressed == old(self).mouse_pressed,
            final(self).hover_root == old(self).hover_root,
            final(self).next_hover_root == old(self).next_hover_root,
            final(self).container_pool@ == old(self).container_pool@,
            final(self).treenode_pool@ == old(self).treenode_pool@,
            final(self).style == old(self).style,
            final(self).last_zindex == old(self).last_zindex,
            old(self).command_list@.is_prefix_of(final(self).command_list@),
            forall|i: int| 0 <= i < CONTAINER_COUNT && i != cnt ==> #[trigger] final(self).containers@[i] == old(self).containers@[i],
            ({
                let o = old(self).containers@[cnt as int];
                let c = final(self).containers@[cnt as int];
                &&& c == (Container { scroll: c.scroll, body: c.body, ..o })
                &&& c.body == (if opt.has(WidgetOption::NO_SCROLL) {
                    body
                } else {
                    shrunk_body(body, padded_content(o, old(self).style.padding), o.body, old(self).style.scrollbar_size)
                })
                &&& (opt.has(WidgetOption::NO_SCROLL) ==> c.scroll == o.scroll)
                &&& fresh_layout(final(self).layout_top(), c.body.spec_expand(sat(0 - old(self).style.padding) as i32), c.scroll)
            }),
    {
        let mut b = body;
        if !opt.has_no_scroll() {
            self.scrollbars(cnt, &mut b);
        }
        let scroll = self.containers[cnt].scroll;
        let pad = self.style.padding;
        self.push_layout(b.expand(sat_sub(0, pad)), scroll);
        let mut c = self.containers[cnt];
        c.body = b;
        self.containers.set(cnt, c);
    }
}

} // verus!
