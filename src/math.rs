//! Integer geometry: points, rectangles and the saturating arithmetic used on them.
use vstd::prelude::*;

verus! {

/// Clamps a mathematical integer into the range of `i32`.
pub open spec fn sat(v: int) -> int {
    if v > i32::MAX {
        i32::MAX as int
    } else if v < i32::MIN {
        i32::MIN as int
    } else {
        v
    }
}

/// Addition that saturates at the bounds of `i32`.
pub fn sat_add(a: i32, b: i32) -> (r: i32)
    ensures
        r == sat(a + b),
{
    let s: i64 = a as i64 + b as i64;
    if s > i32::MAX as i64 {
        i32::MAX
    } else if s < i32::MIN as i64 {
        i32::MIN
    } else {
        s as i32
    }
}

/// Subtraction that saturates at the bounds of `i32`.
pub fn sat_sub(a: i32, b: i32) -> (r: i32)
    ensures
        r == sat(a - b),
{
    let s: i64 = a as i64 - b as i64;
    if s > i32::MAX as i64 {
        i32::MAX
    } else if s < i32::MIN as i64 {
        i32::MIN
    } else {
        s as i32
    }
}

/// Converts a count into a coordinate, saturating at `i32::MAX`.
pub fn sat_from_usize(n: usize) -> (r: i32)
    ensures
        r == sat(n as int),
{
    if n > i32::MAX as usize {
        i32::MAX
    } else {
        n as i32
    }
}

/// Division rounding toward zero, as Rust's `/` on integers does.
pub open spec fn trunc_div(x: int, d: int) -> int {
    if x >= 0 {
        x / d
    } else {
        -((-x) / d)
    }
}

/// `a * b / d` computed without overflow (rounding toward zero), saturated into `i32`.
pub fn mul_div(a: i32, b: i32, d: i32) -> (r: i32)
    requires
        d > 0,
    ensures
        r == sat(trunc_div(a * b, d as int)),
{
    proof {
        assert(-0x4000_0000_0000_0000 <= (a as int) * (b as int) && (a as int) * (b as int) <= 0x4000_0000_0000_0000) by (nonlinear_arith)
            requires
                i32::MIN <= a <= i32::MAX,
                i32::MIN <= b <= i32::MAX,
        ;
    }
    let p: i64 = a as i64 * b as i64;
    proof {
        let x = p as int;
        let dd = d as int;
        assert(x >= 0 ==> 0 <= x / dd <= x) by (nonlinear_arith)
            requires
                dd > 0,
        ;
        assert(x < 0 ==> 0 <= (x * -1) / dd <= x * -1) by (nonlinear_arith)
            requires
                dd > 0,
        ;
    }
    let q = match p.checked_div(d as i64) {
        Some(q) => q,
        None => 0,
    };
    assert(q as int == trunc_div(a * b, d as int));
    if q > i32::MAX as i64 {
        i32::MAX
    } else if q < i32::MIN as i64 {
        i32::MIN
    } else {
        q as i32
    }
}

#[derive(Clone, Copy, Debug, Default, PartialEq, Eq, Structural)]
pub struct Vec2 {
    pub x: i32,
    pub y: i32,
}

pub fn vec2(x: i32, y: i32) -> (r: Vec2)
    ensures
        r == (Vec2 { x, y }),
{
    Vec2 { x, y }
}

#[derive(Clone, Copy, Debug, Default, PartialEq, Eq, Structural)]
pub struct Rect {
    pub x: i32,
    pub y: i32,
    pub w: i32,
    pub h: i32,
}

pub fn rect(x: i32, y: i32, w: i32, h: i32) -> (r: Rect)
    ensures
        r == (Rect { x, y, w, h }),
{
    Rect { x, y, w, h }
}

/// Side of the rectangle that stands for "no clipping".
pub const UNCLIPPED_EXTENT: i32 = 0x1000000;

pub open spec fn spec_min(a: int, b: int) -> int {
    if a < b {
        a
    } else {
        b
    }
}

pub open spec fn spec_max(a: int, b: int) -> int {
    if a > b {
        a
    } else {
        b
    }
}

pub fn min(a: i32, b: i32) -> (r: i32)
    ensures
        r == spec_min(a as int, b as int),
{
    if a < b {
        a
    } else {
        b
    }
}

pub fn max(a: i32, b: i32) -> (r: i32)
    ensures
        r == spec_max(a as int, b as int),
{
    if a > b {
        a
    } else {
        b
    }
}

/// `x` clamped into `[a, b]`; where `a > b` the upper bound wins.
pub fn clamp(x: i32, a: i32, b: i32) -> (r: i32)
    ensures
        r == spec_min(b as int, spec_max(a as int, x as int)),
        a <= b ==> a <= r <= b,
        a <= x <= b ==> r == x,
{
    min(b, max(a, x))
}

impl Rect {
    pub open spec fn right(self) -> int {
        self.x + self.w
    }

    pub open spec fn bottom(self) -> int {
        self.y + self.h
    }

    /// The rectangle grown by `n` on every side.
    pub open spec fn spec_expand(self, n: i32) -> Rect {
        Rect {
            x: sat(self.x - n) as i32,
            y: sat(self.y - n) as i32,
            w: sat(self.w + sat(n + n)) as i32,
            h: sat(self.h + sat(n + n)) as i32,
        }
    }

    /// The overlap of two rectangles; empty overlaps keep the larger origin and a zero side.
    pub open spec fn spec_intersect(self, r2: Rect) -> Rect {
        let x1 = spec_max(self.x as int, r2.x as int);
        let y1 = spec_max(self.y as int, r2.y as int);
        let x2 = spec_min(sat(self.right()), sat(r2.right()));
        let y2 = spec_min(sat(self.bottom()), sat(r2.bottom()));
        let x2 = if x2 < x1 {
            x1
        } else {
            x2
        };
        let y2 = if y2 < y1 {
            y1
        } else {
            y2
        };
        Rect { x: x1 as i32, y: y1 as i32, w: sat(x2 - x1) as i32, h: sat(y2 - y1) as i32 }
    }

    pub open spec fn contains(self, p: Vec2) -> bool {
        self.x <= p.x < self.right() && self.y <= p.y < self.bottom()
    }

    pub fn zero() -> (r: Rect)
        ensures
            r == (Rect { x: 0, y: 0, w: 0, h: 0 }),
    {
        rect(0, 0, 0, 0)
    }

    /// The clip rectangle that lets everything through.
    pub fn unclipped() -> (r: Rect)
        ensures
            r == (Rect { x: 0, y: 0, w: UNCLIPPED_EXTENT, h: UNCLIPPED_EXTENT }),
    {
        rect(0, 0, UNCLIPPED_EXTENT, UNCLIPPED_EXTENT)
    }

    pub fn expand(&self, n: i32) -> (r: Rect)
        ensures
            r == self.spec_expand(n),
    {
        let d = sat_add(n, n);
        rect(sat_sub(self.x, n), sat_sub(self.y, n), sat_add(self.w, d), sat_add(self.h, d))
    }

    pub fn intersect(&self, r2: Rect) -> (r: Rect)
        ensures
            r == self.spec_intersect(r2),
    {
        let x1 = max(self.x, r2.x);
        let y1 = max(self.y, r2.y);
        let mut x2 = min(sat_add(self.x, self.w), sat_add(r2.x, r2.w));
        let mut y2 = min(sat_add(self.y, self.h), sat_add(r2.y, r2.h));
        if x2 < x1 {
            x2 = x1;
        }
        if y2 < y1 {
            y2 = y1;
        }
        rect(x1, y1, sat_sub(x2, x1), sat_sub(y2, y1))
    }

    /// Whether the point lies inside the rectangle (left and top edges included).
    pub fn overlaps(&self, p: Vec2) -> (r: bool)
        ensures
            r == self.contains(p),
    {
        p.x >= self.x && (p.x as i64) < self.x as i64 + self.w as i64 && p.y >= self.y
            && (p.y as i64) < self.y as i64 + self.h as i64
    }
}

} // verus!
