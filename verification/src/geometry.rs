//! Fraction-based target geometry.
//!
//! A [`Rect`] lives in a single top-left-origin, absolute coordinate space of whole device
//! units (points on macOS, physical pixels on Windows). Targets are expressed as exact
//! fractions `(x, y, w, h) / den` of a display's work area, so screen size and origin never
//! enter the table. A fractional cell is placed by its edges: each edge is the work-area
//! origin plus the floor of the edge's fraction of the work-area length, so cells that share
//! an edge fraction share the same device edge.

use vstd::prelude::*;
use crate::actions::{Action, Half};

verus! {

/// Largest magnitude of a coordinate or length accepted by the geometry functions.
pub const COORD_LIMIT: i64 = 1099511627776;

/// Largest denominator of a [`Fraction`].
pub const FRACTION_DEN_LIMIT: i64 = 16777216;

/// A rectangle in a top-left-origin absolute space.
#[derive(Debug, Clone, Copy, PartialEq, Eq, Structural)]
pub struct Rect {
    pub x: i64,
    pub y: i64,
    pub w: i64,
    pub h: i64,
}

/// Whether `v` lies within the coordinate limit.
pub open spec fn coord_ok(v: int) -> bool {
    -COORD_LIMIT <= v <= COORD_LIMIT
}

impl Rect {
    /// The empty rectangle at the origin.
    pub fn zero() -> (r: Rect)
        ensures
            r == (Rect { x: 0, y: 0, w: 0, h: 0 }),
    {
        Rect { x: 0, y: 0, w: 0, h: 0 }
    }

    pub fn new(x: i64, y: i64, w: i64, h: i64) -> (r: Rect)
        ensures
            r == (Rect { x, y, w, h }),
    {
        Rect { x, y, w, h }
    }

    /// Every coordinate and length lies within [`COORD_LIMIT`].
    pub open spec fn bounded(self) -> bool {
        &&& coord_ok(self.x as int)
        &&& coord_ok(self.y as int)
        &&& coord_ok(self.w as int)
        &&& coord_ok(self.h as int)
    }

    /// Whether every coordinate and length lies within [`COORD_LIMIT`].
    pub fn is_bounded(&self) -> (r: bool)
        ensures
            r == self.bounded(),
    {
        -COORD_LIMIT <= self.x && self.x <= COORD_LIMIT && -COORD_LIMIT <= self.y && self.y <= COORD_LIMIT
            && -COORD_LIMIT <= self.w && self.w <= COORD_LIMIT && -COORD_LIMIT <= self.h && self.h
            <= COORD_LIMIT
    }

    /// Whether the point `(px2 / 2, py2 / 2)` (given in doubled coordinates) lies inside this
    /// rectangle, half-open on the far edges.
    pub open spec fn spec_contains2(self, px2: int, py2: int) -> bool {
        &&& 2 * self.x <= px2
        &&& px2 < 2 * (self.x + self.w)
        &&& 2 * self.y <= py2
        &&& py2 < 2 * (self.y + self.h)
    }

    /// Whether this rectangle contains the center of `other` (half-open on the far edges).
    pub open spec fn spec_contains_center_of(self, other: Rect) -> bool {
        self.spec_contains2(2 * other.x + other.w, 2 * other.y + other.h)
    }

    /// Center point in doubled coordinates `(2·cx, 2·cy)`, so it stays exact.
    fn center2(self) -> (r: (i64, i64))
        requires
            self.bounded(),
        ensures
            r.0 == 2 * self.x + self.w,
            r.1 == 2 * self.y + self.h,
    {
        (2 * self.x + self.w, 2 * self.y + self.h)
    }

    /// Whether the point given in doubled coordinates lies inside this rectangle.
    fn contains2(self, px2: i64, py2: i64) -> (r: bool)
        requires
            self.bounded(),
        ensures
            r == self.spec_contains2(px2 as int, py2 as int),
    {
        px2 >= 2 * self.x && px2 < 2 * (self.x + self.w) && py2 >= 2 * self.y && py2 < 2 * (
        self.y + self.h)
    }
}

/// An exact fraction `(x, y, w, h) / den` of a work area.
#[derive(Debug, Clone, Copy, PartialEq, Eq, Structural)]
pub struct Fraction {
    pub x: i64,
    pub y: i64,
    pub w: i64,
    pub h: i64,
    pub den: i64,
}

impl Fraction {
    pub fn new(x: i64, y: i64, w: i64, h: i64, den: i64) -> (r: Fraction)
        ensures
            r == (Fraction { x, y, w, h, den }),
    {
        Fraction { x, y, w, h, den }
    }

    /// Each component is a fraction in `0..=1` with a positive denominator.
    pub open spec fn valid(self) -> bool {
        &&& 0 < self.den <= FRACTION_DEN_LIMIT
        &&& 0 <= self.x <= self.den
        &&& 0 <= self.y <= self.den
        &&& 0 <= self.w <= self.den
        &&& 0 <= self.h <= self.den
    }
}

/// `⌊len · num / den⌋`.
pub open spec fn scale(len: int, num: int, den: int) -> int {
    (len * num) / den
}

/// The absolute rectangle covering fraction `f` of `work`, placed by its edges.
pub open spec fn spec_fraction_to_rect(work: Rect, f: Fraction) -> Rect {
    let left = work.x + scale(work.w as int, f.x as int, f.den as int);
    let right = work.x + scale(work.w as int, f.x + f.w, f.den as int);
    let top = work.y + scale(work.h as int, f.y as int, f.den as int);
    let bottom = work.y + scale(work.h as int, f.y + f.h, f.den as int);
    Rect { x: left as i64, y: top as i64, w: (right - left) as i64, h: (bottom - top) as i64 }
}

/// Bounds on `⌊len · num / den⌋` for a fraction `num / den` in `0..=2`.
proof fn lemma_scale_bounds(len: int, num: int, den: int)
    requires
        0 < den,
        0 <= num <= 2 * den,
    ensures
        len >= 0 ==> 0 <= scale(len, num, den) <= 2 * len,
        len < 0 ==> 2 * len <= scale(len, num, den) <= 0,
        num <= den && len >= 0 ==> scale(len, num, den) <= len,
        num <= den && len < 0 ==> len <= scale(len, num, den),
{
    assert(len * (2 * den) == (2 * len) * den) by (nonlinear_arith);
    vstd::arithmetic::div_mod::lemma_div_multiples_vanish(2 * len, den);
    vstd::arithmetic::div_mod::lemma_div_multiples_vanish(len, den);
    assert(den * len == len * den) by (nonlinear_arith);
    assert(den * (2 * len) == (2 * len) * den) by (nonlinear_arith);
    vstd::arithmetic::div_mod::lemma_div_multiples_vanish(0, den);
    if len >= 0 {
        assert(0 <= len * num <= len * (2 * den)) by (nonlinear_arith)
            requires 0 <= num <= 2 * den, len >= 0;
        vstd::arithmetic::div_mod::lemma_div_is_ordered(len * num, len * (2 * den), den);
        vstd::arithmetic::div_mod::lemma_div_is_ordered(0, len * num, den);
        if num <= den {
            assert(len * num <= len * den) by (nonlinear_arith)
                requires 0 <= num <= den, len >= 0;
            vstd::arithmetic::div_mod::lemma_div_is_ordered(len * num, len * den, den);
        }
    } else {
        assert(len * (2 * den) <= len * num <= 0) by (nonlinear_arith)
            requires 0 <= num <= 2 * den, len < 0;
        vstd::arithmetic::div_mod::lemma_div_is_ordered(len * (2 * den), len * num, den);
        vstd::arithmetic::div_mod::lemma_div_is_ordered(len * num, 0, den);
        if num <= den {
            assert(len * den <= len * num) by (nonlinear_arith)
                requires 0 <= num <= den, len < 0;
            vstd::arithmetic::div_mod::lemma_div_is_ordered(len * den, len * num, den);
        }
    }
}

/// `⌈len · num / den⌉`: the fraction `num / den` of `len`, rounded up.
pub open spec fn scale_up(len: int, num: int, den: int) -> int {
    (len * num + den - 1) / den
}

/// Rounding up keeps a fraction in `0..=1` of a length within that length, and never falls
/// short of the exact fraction.
proof fn lemma_scale_up_bounds(len: int, num: int, den: int)
    requires
        0 < den,
        0 <= num <= den,
    ensures
        len >= 0 ==> 0 <= scale_up(len, num, den) <= len,
        len < 0 ==> len <= scale_up(len, num, den) <= 0,
        scale_up(len, num, den) * den >= len * num,
{
    let a = len * num + den - 1;
    let q = a / den;
    let r = a % den;
    vstd::arithmetic::div_mod::lemma_fundamental_div_mod(a, den);
    vstd::arithmetic::div_mod::lemma_mod_bound(a, den);
    assert(q * den >= len * num) by (nonlinear_arith)
        requires a == den * q + r, 0 <= r < den, a == len * num + den - 1;
    if len >= 0 {
        assert(0 <= len * num <= len * den) by (nonlinear_arith)
            requires 0 <= num <= den, len >= 0;
        assert(0 <= q <= len) by (nonlinear_arith)
            requires a == den * q + r, 0 <= r < den, a == len * num + den - 1, 0 <= len * num <= len * den, 0 < den;
    } else {
        assert(len * den <= len * num <= 0) by (nonlinear_arith)
            requires 0 <= num <= den, len < 0;
        assert(len <= q <= 0) by (nonlinear_arith)
            requires a == den * q + r, 0 <= r < den, a == len * num + den - 1, len * den <= len * num <= 0, 0 < den;
    }
}

/// `⌈len · num / den⌉` computed exactly.
fn scale_up_exec(len: i64, num: i64, den: i64) -> (r: i64)
    requires
        coord_ok(len as int),
        0 < den <= FRACTION_DEN_LIMIT,
        0 <= num <= den,
    ensures
        r == scale_up(len as int, num as int, den as int),
{
    proof {
        lemma_scale_up_bounds(len as int, num as int, den as int);
        assert(-0x1_0000_0000_0000_0000_0000 <= (len as int) * (num as int) <= 0x1_0000_0000_0000_0000_0000) by (nonlinear_arith)
            requires coord_ok(len as int), 0 <= num <= FRACTION_DEN_LIMIT;
    }
    let p: i128 = (len as i128) * (num as i128) + (den as i128) - 1;
    floor_div(p, den as i128) as i64
}

/// Largest magnitude of an intermediate product handled by [`floor_div`] (2^100).
pub const WIDE_LIMIT: i128 = 0x10_0000_0000_0000_0000_0000_0000;

/// `|a · b| ≤ A · B` when `|a| ≤ A` and `|b| ≤ B`.
proof fn lemma_mul_magnitude(a: int, b: int, bound_a: int, bound_b: int)
    by (nonlinear_arith)
    requires
        -bound_a <= a <= bound_a,
        -bound_b <= b <= bound_b,
    ensures
        -(bound_a * bound_b) <= a * b <= bound_a * bound_b,
{
}

/// Dividing by a positive integer does not grow the magnitude.
proof fn lemma_div_magnitude(a: int, b: int)
    requires
        b > 0,
    ensures
        a >= 0 ==> 0 <= a / b <= a,
        a < 0 ==> a <= a / b < 0,
{
    if a >= 0 {
        vstd::arithmetic::div_mod::lemma_div_pos_is_pos(a, b);
        vstd::arithmetic::div_mod::lemma_div_is_ordered_by_denominator(a, 1, b);
    } else {
        vstd::arithmetic::div_mod::lemma_fundamental_div_mod(a, b);
        vstd::arithmetic::div_mod::lemma_mod_bound(a, b);
        assert(b * (a / b) <= a) ;
        if a / b >= 0 {
            assert(b * (a / b) >= 0) by (nonlinear_arith)
                requires b > 0, a / b >= 0;
        }
        assert(a <= a / b) by (nonlinear_arith)
            requires b * (a / b) <= a, a < 0, b > 0, a / b < 0;
    }
}

/// `⌊a / b⌋` for a positive divisor.
fn floor_div(a: i128, b: i128) -> (q: i128)
    requires
        b > 0,
        -WIDE_LIMIT <= a <= WIDE_LIMIT,
    ensures
        q == a / b,
{
    if a >= 0 {
        a / b
    } else {
        let n: i128 = -a;
        let q: i128 = n / b;
        let r: i128 = n % b;
        proof {
            vstd::arithmetic::div_mod::lemma_fundamental_div_mod(n as int, b as int);
        }
        if r == 0 {
            proof {
                assert(a == (-q) * b + 0) by (nonlinear_arith)
                    requires n == b * q + r, a == -n, r == 0;
                vstd::arithmetic::div_mod::lemma_fundamental_div_mod_converse(a as int, b as int, -q as int, 0);
            }
            -q
        } else {
            proof {
                assert(a == (-q - 1) * b + (b - r)) by (nonlinear_arith)
                    requires n == b * q + r, a == -n;
                vstd::arithmetic::div_mod::lemma_fundamental_div_mod_converse(a as int, b as int, -q - 1, b - r);
            }
            -q - 1
        }
    }
}

/// `⌊len · num / den⌋`, computed exactly.
fn scale_exec(len: i64, num: i64, den: i64) -> (r: i64)
    requires
        coord_ok(len as int),
        0 < den <= FRACTION_DEN_LIMIT,
        0 <= num <= 2 * den,
    ensures
        r == scale(len as int, num as int, den as int),
{
    proof {
        lemma_scale_bounds(len as int, num as int, den as int);
        assert(-0x1_0000_0000_0000_0000_0000 <= (len as int) * (num as int) <= 0x1_0000_0000_0000_0000_0000) by (nonlinear_arith)
            requires coord_ok(len as int), 0 <= num <= 2 * FRACTION_DEN_LIMIT;
    }
    let p: i128 = (len as i128) * (num as i128);
    floor_div(p, den as i128) as i64
}

/// Turn a fraction of `work` into an absolute [`Rect`] inside that work area. The work
/// area's origin is carried through, so a display at a negative offset works unchanged.
pub fn fraction_to_rect(work: Rect, fraction: Fraction) -> (r: Rect)
    requires
        work.bounded(),
        fraction.valid(),
    ensures
        r == spec_fraction_to_rect(work, fraction),
{
    proof {
        lemma_scale_bounds(work.w as int, fraction.x as int, fraction.den as int);
        lemma_scale_bounds(work.w as int, fraction.x + fraction.w, fraction.den as int);
        lemma_scale_bounds(work.h as int, fraction.y as int, fraction.den as int);
        lemma_scale_bounds(work.h as int, fraction.y + fraction.h, fraction.den as int);
    }
    let left = work.x + scale_exec(work.w, fraction.x, fraction.den);
    let right = work.x + scale_exec(work.w, fraction.x + fraction.w, fraction.den);
    let top = work.y + scale_exec(work.h, fraction.y, fraction.den);
    let bottom = work.y + scale_exec(work.h, fraction.y + fraction.h, fraction.den);
    Rect { x: left, y: top, w: right - left, h: bottom - top }
}

/// `max(v, 0)`.
pub open spec fn nonneg(v: int) -> int {
    if v > 0 { v } else { 0 }
}

/// Length of the overlap of the intervals `[a, a + al)` and `[b, b + bl)` (0 if disjoint).
pub open spec fn span_overlap(a: int, al: int, b: int, bl: int) -> int {
    let hi = if a + al < b + bl { a + al } else { b + bl };
    let lo = if a > b { a } else { b };
    nonneg(hi - lo)
}

/// Area of the overlap between two rectangles (0 if they don't overlap).
pub open spec fn spec_overlap_area(a: Rect, b: Rect) -> int {
    span_overlap(a.x as int, a.w as int, b.x as int, b.w as int) * span_overlap(
        a.y as int,
        a.h as int,
        b.y as int,
        b.h as int,
    )
}

/// Display `d` outranks display `e` for `window`: a strictly larger overlap, or an equal
/// overlap where `d` contains the window's center and `e` does not.
pub open spec fn spec_beats(window: Rect, d: Rect, e: Rect) -> bool {
    let od = spec_overlap_area(window, d);
    let oe = spec_overlap_area(window, e);
    od > oe || (od == oe && d.spec_contains_center_of(window) && !e.spec_contains_center_of(window))
}

/// `i` is the first display of `displays` that no display outranks.
pub open spec fn is_first_best(window: Rect, displays: Seq<Rect>, i: int) -> bool {
    &&& 0 <= i < displays.len()
    &&& forall|j: int| 0 <= j < displays.len() ==> !spec_beats(window, displays[j], displays[i])
    &&& forall|j: int| 0 <= j < i ==> spec_beats(window, displays[i], displays[j])
}

/// Length of the overlap of two intervals.
fn overlap_len(a: i64, al: i64, b: i64, bl: i64) -> (r: i64)
    requires
        coord_ok(a as int),
        coord_ok(al as int),
        coord_ok(b as int),
        coord_ok(bl as int),
    ensures
        r == span_overlap(a as int, al as int, b as int, bl as int),
        0 <= r <= 4 * COORD_LIMIT,
{
    let hi = if a + al < b + bl { a + al } else { b + bl };
    let lo = if a > b { a } else { b };
    if hi - lo > 0 { hi - lo } else { 0 }
}

/// Area of the overlap between two rectangles (0 if they don't overlap).
fn overlap_area(a: Rect, b: Rect) -> (r: i128)
    requires
        a.bounded(),
        b.bounded(),
    ensures
        r == spec_overlap_area(a, b),
{
    let x = overlap_len(a.x, a.w, b.x, b.w);
    let y = overlap_len(a.y, a.h, b.y, b.h);
    proof {
        assert(0 <= (x as int) * (y as int) <= (4 * COORD_LIMIT) * (4 * COORD_LIMIT)) by (nonlinear_arith)
            requires 0 <= x <= 4 * COORD_LIMIT, 0 <= y <= 4 * COORD_LIMIT;
    }
    (x as i128) * (y as i128)
}

/// Pick the work area of the display a window is on. The chosen display is the one whose
/// work area has the **largest overlap** with `window`. Ties — and windows that overlap
/// nothing — break toward the display that contains the window's center, then toward the
/// first display. With no displays it returns `window` unchanged.
pub fn display_for(window: Rect, displays: &[Rect]) -> (r: Rect)
    requires
        window.bounded(),
        forall|i: int| 0 <= i < displays@.len() ==> (#[trigger] displays@[i]).bounded(),
    ensures
        displays@.len() == 0 ==> r == window,
        displays@.len() > 0 ==> exists|i: int|
            is_first_best(window, displays@, i) && r == #[trigger] displays@[i],
{
    if displays.len() == 0 {
        return window;
    }
    let (cx2, cy2) = window.center2();
    let mut best: usize = 0;
    let mut best_area: i128 = overlap_area(window, displays[0]);
    let mut best_center: bool = displays[0].contains2(cx2, cy2);
    let mut i: usize = 1;
    while i < displays.len()
        invariant
            window.bounded(),
            forall|k: int| 0 <= k < displays@.len() ==> (#[trigger] displays@[k]).bounded(),
            cx2 == 2 * window.x + window.w,
            cy2 == 2 * window.y + window.h,
            1 <= i <= displays@.len(),
            best < i,
            best_area == spec_overlap_area(window, displays@[best as int]),
            best_center == displays@[best as int].spec_contains_center_of(window),
            forall|j: int| 0 <= j < i ==> !spec_beats(window, displays@[j], displays@[best as int]),
            forall|j: int| 0 <= j < best ==> spec_beats(window, displays@[best as int], displays@[j]),
        decreases displays@.len() - i,
    {
        let d = displays[i];
        let area = overlap_area(window, d);
        let center = d.contains2(cx2, cy2);
        if area > best_area || (area == best_area && center && !best_center) {
            best = i;
            best_area = area;
            best_center = center;
        }
        i = i + 1;
    }
    displays[best]
}

/// Parts per million: the denominator of the sizing tunables.
pub const PPM: i64 = 1000000;

/// User-tunable sizing factors, each in parts per million of the work area.
#[derive(Debug, Clone, Copy, PartialEq, Eq, Structural)]
pub struct Tunables {
    /// Almost Maximize fills this fraction of the work area, centered.
    pub almost_maximize_factor: i64,
    /// Smaller / Larger add or remove this fraction of the work area per press.
    pub resize_step: i64,
    /// Smaller won't shrink below this fraction of the work area.
    pub min_size: i64,
}

impl Tunables {
    /// The factory sizing: Almost Maximize fills 90%, Smaller/Larger step by 5%, and the
    /// window never shrinks below 20% of the work area.
    pub open spec fn spec_default() -> Tunables {
        Tunables { almost_maximize_factor: 900000, resize_step: 50000, min_size: 200000 }
    }

    /// The factory sizing.
    pub fn default_values() -> (r: Tunables)
        ensures
            r == Tunables::spec_default(),
    {
        Tunables { almost_maximize_factor: 900000, resize_step: 50000, min_size: 200000 }
    }

    /// Every factor is a fraction of the work area in `0..=1`.
    pub open spec fn valid(self) -> bool {
        &&& 0 <= self.almost_maximize_factor <= PPM
        &&& 0 <= self.resize_step <= PPM
        &&& 0 <= self.min_size <= PPM
    }
}

impl Tunables {
    /// Whether every factor lies in `0..=1` of the work area.
    pub fn is_valid(&self) -> (r: bool)
        ensures
            r == self.valid(),
    {
        0 <= self.almost_maximize_factor && self.almost_maximize_factor <= PPM && 0 <= self.resize_step
            && self.resize_step <= PPM && 0 <= self.min_size && self.min_size <= PPM
    }
}

/// Whether a window frame, its work area, every display and the tunables are all within the
/// limits the geometry works in.
pub fn geometry_in_range(current: Rect, work: Rect, displays: &[Rect], tunables: Tunables) -> (r: bool)
    ensures
        r == (current.bounded() && work.bounded() && tunables.valid() && forall|i: int|
            0 <= i < displays@.len() ==> (#[trigger] displays@[i]).bounded()),
{
    if !current.is_bounded() || !work.is_bounded() || !tunables.is_valid() {
        return false;
    }
    let mut i: usize = 0;
    while i < displays.len()
        invariant
            i <= displays@.len(),
            forall|j: int| 0 <= j < i ==> (#[trigger] displays@[j]).bounded(),
        decreases displays@.len() - i,
    {
        if !displays[i].is_bounded() {
            return false;
        }
        i = i + 1;
    }
    true
}

impl Default for Tunables {
    fn default() -> (r: Tunables)
        ensures
            r == Tunables::spec_default(),
    {
        Tunables::default_values()
    }
}

/// `v` clamped into `[lo, hi]`.
pub open spec fn clamp(v: int, lo: int, hi: int) -> int {
    if v < lo { lo } else if v > hi { hi } else { v }
}

/// The smaller of two integers.
pub open spec fn min_int(a: int, b: int) -> int {
    if a < b { a } else { b }
}

/// Resize `win` by `dw`/`dh` (added to width/height) keeping its center fixed (rounded
/// down), then clamp into `work`: size floored at `min_w`/`min_h` (or the work area, if
/// smaller) and capped at the work area, origin kept on-screen.
pub open spec fn spec_resize_around_center(
    win: Rect,
    work: Rect,
    dw: int,
    dh: int,
    min_w: int,
    min_h: int,
) -> Rect {
    let w = clamp(win.w + dw, min_int(min_w, work.w as int), work.w as int);
    let h = clamp(win.h + dh, min_int(min_h, work.h as int), work.h as int);
    let x = clamp((2 * win.x + win.w - w) / 2, work.x as int, work.x + work.w - w);
    let y = clamp((2 * win.y + win.h - h) / 2, work.y as int, work.y + work.h - h);
    Rect { x: x as i64, y: y as i64, w: w as i64, h: h as i64 }
}

fn clamp_exec(v: i64, lo: i64, hi: i64) -> (r: i64)
    ensures
        r == clamp(v as int, lo as int, hi as int),
{
    if v < lo {
        lo
    } else if v > hi {
        hi
    } else {
        v
    }
}

/// Resize around the window's center, capped at the work area and floored at a minimum.
fn resize_around_center(win: Rect, work: Rect, dw: i64, dh: i64, min_w: i64, min_h: i64) -> (r: Rect)
    requires
        win.bounded(),
        work.bounded(),
        coord_ok(dw as int),
        coord_ok(dh as int),
        coord_ok(min_w as int),
        coord_ok(min_h as int),
    ensures
        r == spec_resize_around_center(win, work, dw as int, dh as int, min_w as int, min_h as int),
{
    let w = clamp_exec(win.w + dw, if min_w < work.w { min_w } else { work.w }, work.w);
    let h = clamp_exec(win.h + dh, if min_h < work.h { min_h } else { work.h }, work.h);
    let cx = floor_div((2 * win.x + win.w - w) as i128, 2) as i64;
    let cy = floor_div((2 * win.y + win.h - h) as i128, 2) as i64;
    let x = clamp_exec(cx, work.x, work.x + work.w - w);
    let y = clamp_exec(cy, work.y, work.y + work.h - h);
    Rect { x, y, w, h }
}

/// The fixed fraction of the work area that `action` fills, for the actions that are a
/// single, direct placement independent of the current frame.
pub open spec fn spec_cell(action: Action) -> Option<Fraction> {
    match action {
        Action::CenterHalf => Some(Fraction { x: 1, y: 0, w: 2, h: 4, den: 4 }),
        Action::FirstThird => Some(Fraction { x: 0, y: 0, w: 1, h: 3, den: 3 }),
        Action::CenterThird => Some(Fraction { x: 1, y: 0, w: 1, h: 3, den: 3 }),
        Action::LastThird => Some(Fraction { x: 2, y: 0, w: 1, h: 3, den: 3 }),
        Action::FirstTwoThirds => Some(Fraction { x: 0, y: 0, w: 2, h: 3, den: 3 }),
        Action::LastTwoThirds => Some(Fraction { x: 1, y: 0, w: 2, h: 3, den: 3 }),
        Action::TopLeft => Some(Fraction { x: 0, y: 0, w: 1, h: 1, den: 2 }),
        Action::TopRight => Some(Fraction { x: 1, y: 0, w: 1, h: 1, den: 2 }),
        Action::BottomLeft => Some(Fraction { x: 0, y: 1, w: 1, h: 1, den: 2 }),
        Action::BottomRight => Some(Fraction { x: 1, y: 1, w: 1, h: 1, den: 2 }),
        Action::Maximize => Some(Fraction { x: 0, y: 0, w: 1, h: 1, den: 1 }),
        Action::FirstFourth => Some(Fraction { x: 0, y: 0, w: 1, h: 4, den: 4 }),
        Action::SecondFourth => Some(Fraction { x: 1, y: 0, w: 1, h: 4, den: 4 }),
        Action::ThirdFourth => Some(Fraction { x: 2, y: 0, w: 1, h: 4, den: 4 }),
        Action::LastFourth => Some(Fraction { x: 3, y: 0, w: 1, h: 4, den: 4 }),
        Action::SixthTopLeft => Some(Fraction { x: 0, y: 0, w: 2, h: 3, den: 6 }),
        Action::SixthTopCenter => Some(Fraction { x: 2, y: 0, w: 2, h: 3, den: 6 }),
        Action::SixthTopRight => Some(Fraction { x: 4, y: 0, w: 2, h: 3, den: 6 }),
        Action::SixthBottomLeft => Some(Fraction { x: 0, y: 3, w: 2, h: 3, den: 6 }),
        Action::SixthBottomCenter => Some(Fraction { x: 2, y: 3, w: 2, h: 3, den: 6 }),
        Action::SixthBottomRight => Some(Fraction { x: 4, y: 3, w: 2, h: 3, den: 6 }),
        _ => None,
    }
}

/// The fixed fraction of the work area that `action` fills, if it is a direct placement.
pub fn cell(action: Action) -> (r: Option<Fraction>)
    ensures
        r == spec_cell(action),
        r matches Some(f) ==> f.valid(),
{
    match action {
        Action::CenterHalf => Some(Fraction { x: 1, y: 0, w: 2, h: 4, den: 4 }),
        Action::FirstThird => Some(Fraction { x: 0, y: 0, w: 1, h: 3, den: 3 }),
        Action::CenterThird => Some(Fraction { x: 1, y: 0, w: 1, h: 3, den: 3 }),
        Action::LastThird => Some(Fraction { x: 2, y: 0, w: 1, h: 3, den: 3 }),
        Action::FirstTwoThirds => Some(Fraction { x: 0, y: 0, w: 2, h: 3, den: 3 }),
        Action::LastTwoThirds => Some(Fraction { x: 1, y: 0, w: 2, h: 3, den: 3 }),
        Action::TopLeft => Some(Fraction { x: 0, y: 0, w: 1, h: 1, den: 2 }),
        Action::TopRight => Some(Fraction { x: 1, y: 0, w: 1, h: 1, den: 2 }),
        Action::BottomLeft => Some(Fraction { x: 0, y: 1, w: 1, h: 1, den: 2 }),
        Action::BottomRight => Some(Fraction { x: 1, y: 1, w: 1, h: 1, den: 2 }),
        Action::Maximize => Some(Fraction { x: 0, y: 0, w: 1, h: 1, den: 1 }),
        Action::FirstFourth => Some(Fraction { x: 0, y: 0, w: 1, h: 4, den: 4 }),
        Action::SecondFourth => Some(Fraction { x: 1, y: 0, w: 1, h: 4, den: 4 }),
        Action::ThirdFourth => Some(Fraction { x: 2, y: 0, w: 1, h: 4, den: 4 }),
        Action::LastFourth => Some(Fraction { x: 3, y: 0, w: 1, h: 4, den: 4 }),
        Action::SixthTopLeft => Some(Fraction { x: 0, y: 0, w: 2, h: 3, den: 6 }),
        Action::SixthTopCenter => Some(Fraction { x: 2, y: 0, w: 2, h: 3, den: 6 }),
        Action::SixthTopRight => Some(Fraction { x: 4, y: 0, w: 2, h: 3, den: 6 }),
        Action::SixthBottomLeft => Some(Fraction { x: 0, y: 3, w: 2, h: 3, den: 6 }),
        Action::SixthBottomCenter => Some(Fraction { x: 2, y: 3, w: 2, h: 3, den: 6 }),
        Action::SixthBottomRight => Some(Fraction { x: 4, y: 3, w: 2, h: 3, den: 6 }),
        _ => None,
    }
}

/// The Almost Maximize fraction for factor `f` (parts per million): `((1-f)/2, (1-f)/2, f, f)`.
pub open spec fn spec_almost_maximize_fraction(f: i64) -> Fraction {
    Fraction {
        x: (PPM - f) as i64,
        y: (PPM - f) as i64,
        w: (2 * f) as i64,
        h: (2 * f) as i64,
        den: (2 * PPM) as i64,
    }
}

/// The geometry table: the absolute target rect for `action` at cycle `step`, for a window
/// currently at `current` on the display with work area `work`, with sizing tunables `t`.
/// `displays` carries every display's work area for the cross-display moves. `None` means
/// the action places nothing: Restore (handled by the dispatcher from the snap state), and a
/// display move with a single display.
pub open spec fn spec_target_for(
    action: Action,
    step: int,
    current: Rect,
    work: Rect,
    displays: Seq<Rect>,
    t: Tunables,
) -> Option<Rect> {
    if let Some(h) = action.spec_as_half() {
        Some(spec_fraction_to_rect(work, h.spec_cycle()[step % 3]))
    } else if let Some(f) = spec_cell(action) {
        Some(spec_fraction_to_rect(work, f))
    } else {
        match action {
            Action::AlmostMaximize => Some(
                spec_fraction_to_rect(work, spec_almost_maximize_fraction(t.almost_maximize_factor)),
            ),
            Action::MaximizeHeight => Some(Rect { x: current.x, y: work.y, w: current.w, h: work.h }),
            Action::Center => Some(
                Rect {
                    x: (work.x + nonneg((work.w - current.w) / 2)) as i64,
                    y: (work.y + nonneg((work.h - current.h) / 2)) as i64,
                    w: current.w,
                    h: current.h,
                },
            ),
            Action::Larger => Some(
                spec_resize_around_center(
                    current,
                    work,
                    scale(work.w as int, t.resize_step as int, PPM as int),
                    scale(work.h as int, t.resize_step as int, PPM as int),
                    scale_up(work.w as int, t.min_size as int, PPM as int),
                    scale_up(work.h as int, t.min_size as int, PPM as int),
                ),
            ),
            Action::Smaller => Some(
                spec_resize_around_center(
                    current,
                    work,
                    -scale(work.w as int, t.resize_step as int, PPM as int),
                    -scale(work.h as int, t.resize_step as int, PPM as int),
                    scale_up(work.w as int, t.min_size as int, PPM as int),
                    scale_up(work.h as int, t.min_size as int, PPM as int),
                ),
            ),
            Action::MoveLeft => Some(Rect { x: work.x, y: current.y, w: current.w, h: current.h }),
            Action::MoveRight => Some(
                Rect { x: (work.x + work.w - current.w) as i64, y: current.y, w: current.w, h: current.h },
            ),
            Action::MoveUp => Some(Rect { x: current.x, y: work.y, w: current.w, h: current.h }),
            Action::MoveDown => Some(
                Rect { x: current.x, y: (work.y + work.h - current.h) as i64, w: current.w, h: current.h },
            ),
            Action::NextDisplay => spec_display_move(current, work, displays, true),
            Action::PreviousDisplay => spec_display_move(current, work, displays, false),
            _ => None,
        }
    }
}

/// The geometry table with live sizing tunables.
pub fn target_for_with(
    action: Action,
    step: usize,
    current: Rect,
    work: Rect,
    displays: &[Rect],
    tunables: Tunables,
) -> (r: Option<Rect>)
    requires
        current.bounded(),
        work.bounded(),
        forall|i: int| 0 <= i < displays@.len() ==> (#[trigger] displays@[i]).bounded(),
        tunables.valid(),
    ensures
        r == spec_target_for(action, step as int, current, work, displays@, tunables),
{
    if let Some(half) = action.as_half() {
        let cycle = half.cycle();
        proof {
            half.lemma_cycle_valid();
        }
        return Some(fraction_to_rect(work, cycle[step % 3]));
    }
    if let Some(f) = cell(action) {
        return Some(fraction_to_rect(work, f));
    }
    match action {
        Action::AlmostMaximize => {
            let f = tunables.almost_maximize_factor;
            Some(fraction_to_rect(work, Fraction { x: PPM - f, y: PPM - f, w: 2 * f, h: 2 * f, den: 2 * PPM }))
        },
        Action::MaximizeHeight => Some(Rect { x: current.x, y: work.y, w: current.w, h: work.h }),
        Action::Center => {
            let dx = floor_div((work.w - current.w) as i128, 2) as i64;
            let dy = floor_div((work.h - current.h) as i128, 2) as i64;
            Some(
                Rect {
                    x: work.x + if dx > 0 { dx } else { 0 },
                    y: work.y + if dy > 0 { dy } else { 0 },
                    w: current.w,
                    h: current.h,
                },
            )
        },
        Action::Larger | Action::Smaller => {
            proof {
                lemma_scale_bounds(work.w as int, tunables.resize_step as int, PPM as int);
                lemma_scale_bounds(work.h as int, tunables.resize_step as int, PPM as int);
                lemma_scale_up_bounds(work.w as int, tunables.min_size as int, PPM as int);
                lemma_scale_up_bounds(work.h as int, tunables.min_size as int, PPM as int);
            }
            let sw = scale_exec(work.w, tunables.resize_step, PPM);
            let sh = scale_exec(work.h, tunables.resize_step, PPM);
            let min_w = scale_up_exec(work.w, tunables.min_size, PPM);
            let min_h = scale_up_exec(work.h, tunables.min_size, PPM);
            if action == Action::Larger {
                Some(resize_around_center(current, work, sw, sh, min_w, min_h))
            } else {
                Some(resize_around_center(current, work, -sw, -sh, min_w, min_h))
            }
        },
        Action::MoveLeft => Some(Rect { x: work.x, y: current.y, w: current.w, h: current.h }),
        Action::MoveRight => Some(
            Rect { x: work.x + work.w - current.w, y: current.y, w: current.w, h: current.h },
        ),
        Action::MoveUp => Some(Rect { x: current.x, y: work.y, w: current.w, h: current.h }),
        Action::MoveDown => Some(
            Rect { x: current.x, y: work.y + work.h - current.h, w: current.w, h: current.h },
        ),
        Action::NextDisplay => display_move(current, work, displays, true),
        Action::PreviousDisplay => display_move(current, work, displays, false),
        _ => None,
    }
}

/// The geometry table at the factory sizing tunables.
pub fn target_for(
    action: Action,
    step: usize,
    current: Rect,
    work: Rect,
    displays: &[Rect],
) -> (r: Option<Rect>)
    requires
        current.bounded(),
        work.bounded(),
        forall|i: int| 0 <= i < displays@.len() ==> (#[trigger] displays@[i]).bounded(),
    ensures
        r == spec_target_for(action, step as int, current, work, displays@, Tunables::spec_default()),
{
    target_for_with(action, step, current, work, displays, Tunables::default_values())
}

/// Display `a` comes before display `b` walking in direction `forward`: left→right by
/// work-area origin (x, then y) when `forward`, right→left otherwise.
pub open spec fn precedes(forward: bool, a: Rect, b: Rect) -> bool {
    if forward {
        a.x < b.x || (a.x == b.x && a.y < b.y)
    } else {
        b.x < a.x || (b.x == a.x && b.y < a.y)
    }
}

/// `i` is the first of the displays that come right after `src` in direction `forward`.
pub open spec fn is_next_after(forward: bool, displays: Seq<Rect>, src: Rect, i: int) -> bool {
    &&& 0 <= i < displays.len()
    &&& precedes(forward, src, displays[i])
    &&& forall|j: int|
        0 <= j < displays.len() && precedes(forward, src, displays[j]) ==> !precedes(
            forward,
            displays[j],
            displays[i],
        )
    &&& forall|j: int|
        0 <= j < i && precedes(forward, src, displays[j]) ==> precedes(forward, displays[i], displays[j])
}

/// `i` is the first of the displays that come first in direction `forward` (the wrap-around
/// target).
pub open spec fn is_first_in_order(forward: bool, displays: Seq<Rect>, i: int) -> bool {
    &&& 0 <= i < displays.len()
    &&& forall|j: int| 0 <= j < displays.len() ==> !precedes(forward, displays[j], displays[i])
    &&& forall|j: int| 0 <= j < i ==> precedes(forward, displays[i], displays[j])
}

/// `i` is the display a Next (`forward`) or Previous display move from `src` goes to: the
/// adjacent display in left→right order, wrapping around at the ends.
pub open spec fn is_adjacent_display(forward: bool, displays: Seq<Rect>, src: Rect, i: int) -> bool {
    if exists|j: int| 0 <= j < displays.len() && precedes(forward, src, #[trigger] displays[j]) {
        is_next_after(forward, displays, src, i)
    } else {
        is_first_in_order(forward, displays, i)
    }
}

/// `win`, measured as a fraction of work area `src`, placed at the same fraction of work
/// area `dst` (edges rounded down), then clamped into `dst`.
pub open spec fn spec_transfer(win: Rect, src: Rect, dst: Rect) -> Rect {
    let left = dst.x + ((win.x - src.x) * dst.w) / (src.w as int);
    let right = dst.x + ((win.x + win.w - src.x) * dst.w) / (src.w as int);
    let top = dst.y + ((win.y - src.y) * dst.h) / (src.h as int);
    let bottom = dst.y + ((win.y + win.h - src.y) * dst.h) / (src.h as int);
    let w = clamp(right - left, 0, dst.w as int);
    let h = clamp(bottom - top, 0, dst.h as int);
    Rect {
        x: clamp(left, dst.x as int, dst.x + dst.w - w) as i64,
        y: clamp(top, dst.y as int, dst.y + dst.h - h) as i64,
        w: w as i64,
        h: h as i64,
    }
}

/// `v` clamped into `[lo, hi]`, computed wide.
fn clamp_wide(v: i128, lo: i128, hi: i128) -> (r: i128)
    ensures
        r == clamp(v as int, lo as int, hi as int),
{
    if v < lo {
        lo
    } else if v > hi {
        hi
    } else {
        v
    }
}

/// The same fraction of `dst` that `win` occupies of `src`, clamped into `dst`.
fn transfer(win: Rect, src: Rect, dst: Rect) -> (r: Rect)
    requires
        win.bounded(),
        src.bounded(),
        dst.bounded(),
        src.w > 0,
        src.h > 0,
    ensures
        r == spec_transfer(win, src, dst),
{
    proof {
        let lim: int = 4398046511104;
        assert(lim == 4 * COORD_LIMIT);
        lemma_mul_magnitude(win.x - src.x, dst.w as int, lim, lim);
        lemma_mul_magnitude(win.x + win.w - src.x, dst.w as int, lim, lim);
        lemma_mul_magnitude(win.y - src.y, dst.h as int, lim, lim);
        lemma_mul_magnitude(win.y + win.h - src.y, dst.h as int, lim, lim);
        assert(lim * lim == 19342813113834066795298816int) by (nonlinear_arith)
            requires lim == 4398046511104int;
        lemma_div_magnitude((win.x - src.x) * dst.w, src.w as int);
        lemma_div_magnitude((win.x + win.w - src.x) * dst.w, src.w as int);
        lemma_div_magnitude((win.y - src.y) * dst.h, src.h as int);
        lemma_div_magnitude((win.y + win.h - src.y) * dst.h, src.h as int);
    }
    let left: i128 = dst.x as i128 + floor_div((win.x as i128 - src.x as i128) * dst.w as i128, src.w as i128);
    let right: i128 = dst.x as i128 + floor_div(
        (win.x as i128 + win.w as i128 - src.x as i128) * dst.w as i128,
        src.w as i128,
    );
    let top: i128 = dst.y as i128 + floor_div((win.y as i128 - src.y as i128) * dst.h as i128, src.h as i128);
    let bottom: i128 = dst.y as i128 + floor_div(
        (win.y as i128 + win.h as i128 - src.y as i128) * dst.h as i128,
        src.h as i128,
    );
    let w = clamp_wide(right - left, 0, dst.w as i128);
    let h = clamp_wide(bottom - top, 0, dst.h as i128);
    let x = clamp_wide(left, dst.x as i128, dst.x as i128 + dst.w as i128 - w);
    let y = clamp_wide(top, dst.y as i128, dst.y as i128 + dst.h as i128 - h);
    Rect { x: x as i64, y: y as i64, w: w as i64, h: h as i64 }
}

/// Whether display `a` comes before display `b` walking in direction `forward`.
fn precedes_exec(forward: bool, a: Rect, b: Rect) -> (r: bool)
    ensures
        r == precedes(forward, a, b),
{
    if forward {
        a.x < b.x || (a.x == b.x && a.y < b.y)
    } else {
        b.x < a.x || (b.x == a.x && b.y < a.y)
    }
}

/// Index of the display a Next (`forward`) or Previous display move from `src` goes to.
fn adjacent_display(forward: bool, displays: &[Rect], src: Rect) -> (r: usize)
    requires
        displays@.len() > 0,
    ensures
        is_adjacent_display(forward, displays@, src, r as int),
{
    let mut after: Option<usize> = None;
    let mut first: usize = 0;
    let mut i: usize = 1;
    if precedes_exec(forward, src, displays[0]) {
        after = Some(0);
    }
    while i < displays.len()
        invariant
            1 <= i <= displays@.len(),
            first < i,
            forall|j: int| 0 <= j < i ==> !precedes(forward, displays@[j], displays@[first as int]),
            forall|j: int| 0 <= j < first ==> precedes(forward, displays@[first as int], displays@[j]),
            after is None ==> forall|j: int| 0 <= j < i ==> !precedes(forward, src, #[trigger] displays@[j]),
            after matches Some(a) ==> {
                &&& a < i
                &&& precedes(forward, src, displays@[a as int])
                &&& forall|j: int|
                    0 <= j < i && precedes(forward, src, displays@[j]) ==> !precedes(
                        forward,
                        displays@[j],
                        displays@[a as int],
                    )
                &&& forall|j: int|
                    0 <= j < a && precedes(forward, src, displays@[j]) ==> precedes(
                        forward,
                        displays@[a as int],
                        displays@[j],
                    )
            },
        decreases displays@.len() - i,
    {
        let d = displays[i];
        if precedes_exec(forward, d, displays[first]) {
            first = i;
        }
        if precedes_exec(forward, src, d) {
            match after {
                Some(a) => {
                    if precedes_exec(forward, d, displays[a]) {
                        after = Some(i);
                    }
                },
                None => {
                    after = Some(i);
                },
            }
        }
        i = i + 1;
    }
    match after {
        Some(a) => a,
        None => first,
    }
}

/// The adjacent display is unique.
pub proof fn lemma_adjacent_display_unique(forward: bool, displays: Seq<Rect>, src: Rect, i: int, j: int)
    requires
        is_adjacent_display(forward, displays, src, i),
        is_adjacent_display(forward, displays, src, j),
    ensures
        i == j,
{
    if i < j {
        assert(precedes(forward, displays[j], displays[i]));
    } else if j < i {
        assert(precedes(forward, displays[i], displays[j]));
    }
}

/// Moving to the adjacent display and then back the other way returns to the display the
/// move started from (the one with the same work-area origin).
pub proof fn lemma_adjacent_display_round_trip(forward: bool, displays: Seq<Rect>, s: int, i: int, j: int)
    requires
        0 <= s < displays.len(),
        is_adjacent_display(forward, displays, displays[s], i),
        is_adjacent_display(!forward, displays, displays[i], j),
    ensures
        displays[j].x == displays[s].x,
        displays[j].y == displays[s].y,
{
    let src = displays[s];
    if exists|k: int| 0 <= k < displays.len() && precedes(forward, src, #[trigger] displays[k]) {
        assert(is_next_after(forward, displays, src, i));
        assert(precedes(!forward, displays[i], displays[s]));
        assert(is_next_after(!forward, displays, displays[i], j));
        assert(!precedes(!forward, displays[s], displays[j]));
        if precedes(forward, src, displays[j]) {
            assert(!precedes(forward, displays[j], displays[i]));
        }
    } else {
        assert(is_first_in_order(forward, displays, i));
        if exists|k: int| 0 <= k < displays.len() && precedes(!forward, displays[i], #[trigger] displays[k]) {
            let k = choose|k: int| 0 <= k < displays.len() && precedes(!forward, displays[i], #[trigger] displays[k]);
            assert(!precedes(forward, displays[k], displays[i]));
        }
        assert(is_first_in_order(!forward, displays, j));
        assert(!precedes(!forward, displays[s], displays[j]));
        assert(!precedes(forward, src, displays[j]));
    }
}

/// Move to the adjacent display (Next when `forward`, else Previous), preserving the
/// window's relative size and position: its fraction of the current work area `src` is
/// applied to the destination work area. Displays are ordered left→right by work-area
/// origin (x, then y), wrapping at the ends. Fewer than two displays, or a degenerate
/// current work area, is a graceful no-op (`None`).
pub open spec fn spec_display_move(win: Rect, src: Rect, displays: Seq<Rect>, forward: bool) -> Option<Rect> {
    if displays.len() < 2 || src.w <= 0 || src.h <= 0 {
        None
    } else {
        let i = choose|i: int| is_adjacent_display(forward, displays, src, i);
        Some(spec_transfer(win, src, displays[i]))
    }
}

/// Move `win` from work area `src` to the adjacent display (see [`spec_display_move`]).
pub fn display_move(win: Rect, src: Rect, displays: &[Rect], forward: bool) -> (r: Option<Rect>)
    requires
        win.bounded(),
        src.bounded(),
        forall|i: int| 0 <= i < displays@.len() ==> (#[trigger] displays@[i]).bounded(),
    ensures
        r == spec_display_move(win, src, displays@, forward),
{
    if displays.len() < 2 || src.w <= 0 || src.h <= 0 {
        return None;
    }
    let i = adjacent_display(forward, displays, src);
    proof {
        let j = choose|j: int| is_adjacent_display(forward, displays@, src, j);
        lemma_adjacent_display_unique(forward, displays@, src, i as int, j);
    }
    Some(transfer(win, src, displays[i]))
}

/// Display selection is deterministic: at most one display is the first best.
pub proof fn lemma_first_best_unique(window: Rect, displays: Seq<Rect>, i: int, j: int)
    requires
        is_first_best(window, displays, i),
        is_first_best(window, displays, j),
    ensures
        i == j,
{
    if i < j {
        assert(spec_beats(window, displays[j], displays[i]));
    } else if j < i {
        assert(spec_beats(window, displays[i], displays[j]));
    }
}

/// A non-empty display list always has a first best display.
pub proof fn lemma_first_best_exists(window: Rect, displays: Seq<Rect>)
    requires
        displays.len() > 0,
    ensures
        exists|i: int| is_first_best(window, displays, i),
    decreases displays.len(),
{
    if displays.len() == 1 {
        assert(is_first_best(window, displays, 0));
    } else {
        let prefix = displays.drop_last();
        lemma_first_best_exists(window, prefix);
        let i = choose|i: int| is_first_best(window, prefix, i);
        let last = displays.len() - 1;
        assert forall|j: int| 0 <= j < last implies displays[j] == prefix[j] by {}
        if spec_beats(window, displays[last], displays[i]) {
            assert forall|j: int| 0 <= j < displays.len() implies !spec_beats(
                window,
                displays[j],
                displays[last],
            ) by {
                if j < last {
                    assert(!spec_beats(window, prefix[j], prefix[i]));
                }
            }
            assert forall|j: int| 0 <= j < last implies spec_beats(
                window,
                displays[last],
                displays[j],
            ) by {
                assert(!spec_beats(window, prefix[j], prefix[i]));
            }
            assert(is_first_best(window, displays, last));
        } else {
            assert forall|j: int| 0 <= j < displays.len() implies !spec_beats(
                window,
                displays[j],
                displays[i],
            ) by {
                if j < last {
                    assert(!spec_beats(window, prefix[j], prefix[i]));
                }
            }
            assert forall|j: int| 0 <= j < i implies spec_beats(
                window,
                displays[i],
                displays[j],
            ) by {
                assert(spec_beats(window, prefix[i], prefix[j]));
            }
            assert(is_first_best(window, displays, i));
        }
    }
}

/// A fraction with every component and `x + w`, `y + h` in `0..=1` places a rectangle
/// inside a work area of non-negative size.
pub proof fn lemma_fraction_inside_work(work: Rect, f: Fraction)
    requires
        work.bounded(),
        f.valid(),
        f.x + f.w <= f.den,
        f.y + f.h <= f.den,
        work.w >= 0,
        work.h >= 0,
    ensures
        work.x <= spec_fraction_to_rect(work, f).x,
        spec_fraction_to_rect(work, f).w >= 0,
        spec_fraction_to_rect(work, f).x + spec_fraction_to_rect(work, f).w <= work.x + work.w,
        work.y <= spec_fraction_to_rect(work, f).y,
        spec_fraction_to_rect(work, f).h >= 0,
        spec_fraction_to_rect(work, f).y + spec_fraction_to_rect(work, f).h <= work.y + work.h,
{
    lemma_scale_bounds(work.w as int, f.x as int, f.den as int);
    lemma_scale_bounds(work.w as int, f.x + f.w, f.den as int);
    lemma_scale_bounds(work.h as int, f.y as int, f.den as int);
    lemma_scale_bounds(work.h as int, f.y + f.h, f.den as int);
    lemma_scale_monotone(work.w as int, f.x as int, f.x + f.w, f.den as int);
    lemma_scale_monotone(work.h as int, f.y as int, f.y + f.h, f.den as int);
}

/// `⌊len · a / den⌋ ≤ ⌊len · b / den⌋` for `a ≤ b` and a non-negative length.
proof fn lemma_scale_monotone(len: int, a: int, b: int, den: int)
    requires
        len >= 0,
        a <= b,
        den > 0,
    ensures
        scale(len, a, den) <= scale(len, b, den),
{
    assert(len * a <= len * b) by (nonlinear_arith)
        requires len >= 0, a <= b;
    vstd::arithmetic::div_mod::lemma_div_is_ordered(len * a, len * b, den);
}

/// Cells that meet at a fraction edge meet at the same device edge: no gap and no
/// overlap, however the work-area length divides.
pub proof fn lemma_adjacent_columns_meet(work: Rect, left: Fraction, right: Fraction)
    requires
        work.bounded(),
        left.valid(),
        right.valid(),
        left.den == right.den,
        left.x + left.w == right.x,
    ensures
        spec_fraction_to_rect(work, left).x + spec_fraction_to_rect(work, left).w
            == spec_fraction_to_rect(work, right).x,
{
    lemma_scale_bounds(work.w as int, left.x as int, left.den as int);
    lemma_scale_bounds(work.w as int, left.x + left.w, left.den as int);
}

/// Cells that meet at a fraction edge meet at the same device edge (rows).
pub proof fn lemma_adjacent_rows_meet(work: Rect, top: Fraction, bottom: Fraction)
    requires
        work.bounded(),
        top.valid(),
        bottom.valid(),
        top.den == bottom.den,
        top.y + top.h == bottom.y,
    ensures
        spec_fraction_to_rect(work, top).y + spec_fraction_to_rect(work, top).h
            == spec_fraction_to_rect(work, bottom).y,
{
    lemma_scale_bounds(work.h as int, top.y as int, top.den as int);
    lemma_scale_bounds(work.h as int, top.y + top.h, top.den as int);
}

/// A fraction that starts at 0 starts at the work-area edge; one that ends at 1 ends at the
/// far work-area edge.
pub proof fn lemma_full_span_edges(work: Rect, f: Fraction)
    requires
        work.bounded(),
        f.valid(),
    ensures
        f.x == 0 ==> spec_fraction_to_rect(work, f).x == work.x,
        f.x + f.w == f.den ==> spec_fraction_to_rect(work, f).x + spec_fraction_to_rect(work, f).w
            == work.x + work.w,
        f.y == 0 ==> spec_fraction_to_rect(work, f).y == work.y,
        f.y + f.h == f.den ==> spec_fraction_to_rect(work, f).y + spec_fraction_to_rect(work, f).h
            == work.y + work.h,
{
    lemma_scale_bounds(work.w as int, f.x as int, f.den as int);
    lemma_scale_bounds(work.w as int, f.x + f.w, f.den as int);
    lemma_scale_bounds(work.h as int, f.y as int, f.den as int);
    lemma_scale_bounds(work.h as int, f.y + f.h, f.den as int);
    vstd::arithmetic::div_mod::lemma_div_multiples_vanish(work.w as int, f.den as int);
    vstd::arithmetic::div_mod::lemma_div_multiples_vanish(work.h as int, f.den as int);
    assert(f.den * work.w == work.w * f.den) by (nonlinear_arith);
    assert(f.den * work.h == work.h * f.den) by (nonlinear_arith);
    assert(work.w * 0 == 0 && work.h * 0 == 0);
    assert(0int / (f.den as int) == 0);
}

/// Smaller and Larger keep the window inside a work area of non-negative size: the size
/// is capped at the work area and floored at the minimum (or the work area, if smaller),
/// and the origin stays on-screen.
pub proof fn lemma_resize_stays_inside(win: Rect, work: Rect, dw: int, dh: int, min_w: int, min_h: int)
    requires
        win.bounded(),
        work.bounded(),
        coord_ok(dw),
        coord_ok(dh),
        coord_ok(min_w),
        coord_ok(min_h),
        work.w >= 0,
        work.h >= 0,
    ensures
        ({
            let r = spec_resize_around_center(win, work, dw, dh, min_w, min_h);
            &&& min_int(min_w, work.w as int) <= r.w <= work.w
            &&& min_int(min_h, work.h as int) <= r.h <= work.h
            &&& work.x <= r.x
            &&& r.x + r.w <= work.x + work.w
            &&& work.y <= r.y
            &&& r.y + r.h <= work.y + work.h
        }),
{
}

/// The window after `k` presses of Larger from `win` on the display with work area `work`.
pub open spec fn larger_presses(win: Rect, work: Rect, t: Tunables, k: nat) -> Rect
    decreases k,
{
    if k == 0 {
        win
    } else {
        match spec_target_for(Action::Larger, 0, larger_presses(win, work, t, (k - 1) as nat), work, Seq::empty(), t) {
            Some(r) => r,
            None => win,
        }
    }
}

/// Repeated Larger never leaves the work area and grows the window by the step on each press
/// until it fills the work area: after `k` presses the width is at least the smaller of the
/// work-area width and the starting width plus `k` steps, and likewise the height. With a
/// positive step, enough presses fill the work area exactly, and no press overshoots it.
pub proof fn lemma_repeated_larger_converges(win: Rect, work: Rect, t: Tunables, k: nat)
    requires
        win.bounded(),
        work.bounded(),
        0 <= work.w,
        0 <= work.h,
        coord_ok(work.x + work.w),
        coord_ok(work.y + work.h),
        t.valid(),
        k >= 1,
    ensures
        ({
            let r = larger_presses(win, work, t, k);
            let sw = scale(work.w as int, t.resize_step as int, PPM as int);
            let sh = scale(work.h as int, t.resize_step as int, PPM as int);
            &&& r.w <= work.w
            &&& r.h <= work.h
            &&& work.x <= r.x
            &&& r.x + r.w <= work.x + work.w
            &&& work.y <= r.y
            &&& r.y + r.h <= work.y + work.h
            &&& r.w >= min_int(work.w as int, win.w + k * sw)
            &&& r.h >= min_int(work.h as int, win.h + k * sh)
        }),
    decreases k,
{
    let sw = scale(work.w as int, t.resize_step as int, PPM as int);
    let sh = scale(work.h as int, t.resize_step as int, PPM as int);
    let mw = scale_up(work.w as int, t.min_size as int, PPM as int);
    let mh = scale_up(work.h as int, t.min_size as int, PPM as int);
    lemma_scale_bounds(work.w as int, t.resize_step as int, PPM as int);
    lemma_scale_bounds(work.h as int, t.resize_step as int, PPM as int);
    lemma_scale_up_bounds(work.w as int, t.min_size as int, PPM as int);
    lemma_scale_up_bounds(work.h as int, t.min_size as int, PPM as int);
    let prev = larger_presses(win, work, t, (k - 1) as nat);
    if k > 1 {
        lemma_repeated_larger_converges(win, work, t, (k - 1) as nat);
        assert(prev.bounded());
        assert(prev.w + sw >= min_int(work.w as int, win.w + k * sw)) by (nonlinear_arith)
            requires
                prev.w >= min_int(work.w as int, win.w + (k - 1) * sw),
                sw >= 0,
        {
        }
        assert(prev.h + sh >= min_int(work.h as int, win.h + k * sh)) by (nonlinear_arith)
            requires
                prev.h >= min_int(work.h as int, win.h + (k - 1) * sh),
                sh >= 0,
        {
        }
    }
    assert(larger_presses(win, work, t, k) == spec_resize_around_center(prev, work, sw, sh, mw, mh));
    lemma_resize_stays_inside(prev, work, sw, sh, mw, mh);
}

/// Smaller and Larger keep the window inside the work area and never make it narrower or
/// shorter than `min_size` of the work area: `w · PPM ≥ work.w · min_size`, likewise the height.
pub proof fn lemma_resize_keeps_minimum(action: Action, step: int, current: Rect, work: Rect, displays: Seq<Rect>, t: Tunables)
    requires
        action == Action::Larger || action == Action::Smaller,
        current.bounded(),
        work.bounded(),
        0 <= work.w,
        0 <= work.h,
        t.valid(),
    ensures
        spec_target_for(action, step, current, work, displays, t) matches Some(r) && {
            &&& r.w * PPM >= work.w * t.min_size
            &&& r.h * PPM >= work.h * t.min_size
            &&& r.w <= work.w
            &&& r.h <= work.h
            &&& work.x <= r.x
            &&& r.x + r.w <= work.x + work.w
            &&& work.y <= r.y
            &&& r.y + r.h <= work.y + work.h
        },
{
    let sw = scale(work.w as int, t.resize_step as int, PPM as int);
    let sh = scale(work.h as int, t.resize_step as int, PPM as int);
    let mw = scale_up(work.w as int, t.min_size as int, PPM as int);
    let mh = scale_up(work.h as int, t.min_size as int, PPM as int);
    lemma_scale_bounds(work.w as int, t.resize_step as int, PPM as int);
    lemma_scale_bounds(work.h as int, t.resize_step as int, PPM as int);
    lemma_scale_up_bounds(work.w as int, t.min_size as int, PPM as int);
    lemma_scale_up_bounds(work.h as int, t.min_size as int, PPM as int);
    assert(work.w * PPM >= work.w * t.min_size) by (nonlinear_arith)
        requires 0 <= work.w, 0 <= t.min_size <= PPM;
    assert(work.h * PPM >= work.h * t.min_size) by (nonlinear_arith)
        requires 0 <= work.h, 0 <= t.min_size <= PPM;
    let dw = if action == Action::Larger { sw } else { -sw };
    let dh = if action == Action::Larger { sh } else { -sh };
    lemma_resize_stays_inside(current, work, dw, dh, mw, mh);
    let r = spec_resize_around_center(current, work, dw, dh, mw, mh);
    assert(spec_target_for(action, step, current, work, displays, t) == Some(r));
    assert(r.w * PPM >= work.w * t.min_size) by (nonlinear_arith)
        requires
            r.w >= min_int(mw, work.w as int),
            mw * PPM >= work.w * t.min_size,
            work.w * PPM >= work.w * t.min_size,
            PPM > 0;
    assert(r.h * PPM >= work.h * t.min_size) by (nonlinear_arith)
        requires
            r.h >= min_int(mh, work.h as int),
            mh * PPM >= work.h * t.min_size,
            work.h * PPM >= work.h * t.min_size,
            PPM > 0;
}

/// `q` is `⌊a / d⌋`: the largest integer whose multiple of `d` does not pass `a`.
pub open spec fn is_floor_quotient(q: int, a: int, d: int) -> bool {
    q * d <= a < (q + 1) * d
}

/// Integer division rounds down: `a / d` is the floor quotient, and it is the only one.
proof fn lemma_floor_quotient(a: int, d: int, q: int)
    requires
        d > 0,
    ensures
        is_floor_quotient(a / d, a, d),
        is_floor_quotient(q, a, d) ==> q == a / d,
{
    vstd::arithmetic::div_mod::lemma_fundamental_div_mod(a, d);
    vstd::arithmetic::div_mod::lemma_mod_bound(a, d);
    let f = a / d;
    assert(f * d <= a < (f + 1) * d) by (nonlinear_arith)
        requires a == d * f + a % d, 0 <= a % d < d;
    if is_floor_quotient(q, a, d) {
        if q < f {
            assert((q + 1) * d <= f * d) by (nonlinear_arith)
                requires q + 1 <= f, d > 0;
        } else if q > f {
            assert((f + 1) * d <= q * d) by (nonlinear_arith)
                requires f + 1 <= q, d > 0;
        }
    }
}

/// The overlap area is the area of the intersection of the two rectangles: it does not
/// depend on which one is the window; a rectangle lying inside another overlaps it by its
/// whole area; rectangles apart on either axis do not overlap.
pub proof fn lemma_overlap_area_is_intersection(a: Rect, b: Rect)
    ensures
        spec_overlap_area(a, b) == spec_overlap_area(b, a),
        0 <= a.w && 0 <= a.h && b.x <= a.x && a.x + a.w <= b.x + b.w && b.y <= a.y && a.y + a.h <= b.y + b.h
            ==> spec_overlap_area(a, b) == a.w * a.h,
        a.x + a.w <= b.x || b.x + b.w <= a.x || a.y + a.h <= b.y || b.y + b.h <= a.y ==> spec_overlap_area(a, b)
            == 0,
        spec_overlap_area(a, b) >= 0,
{
    let sx = span_overlap(a.x as int, a.w as int, b.x as int, b.w as int);
    let sy = span_overlap(a.y as int, a.h as int, b.y as int, b.h as int);
    assert(sx == span_overlap(b.x as int, b.w as int, a.x as int, a.w as int));
    assert(sy == span_overlap(b.y as int, b.h as int, a.y as int, a.h as int));
    assert(sx >= 0 && sy >= 0);
    assert(sx * sy >= 0) by (nonlinear_arith)
        requires sx >= 0, sy >= 0;
    if a.x + a.w <= b.x || b.x + b.w <= a.x {
        assert(sx == 0);
        assert(sx * sy == 0) by (nonlinear_arith)
            requires sx == 0;
    }
    if a.y + a.h <= b.y || b.y + b.h <= a.y {
        assert(sy == 0);
        assert(sx * sy == 0) by (nonlinear_arith)
            requires sy == 0;
    }
}

/// A display move keeps the window's relative position and size on each axis: for a window
/// inside its work area `src`, every edge of the moved window lies at the same fraction of
/// `dst` as it did of `src`, rounded down (`(edge − dst.x) · src.w ≤ (old edge − src.x) · dst.w
/// < (edge − dst.x + 1) · src.w`, likewise vertically with the heights).
pub proof fn lemma_transfer_keeps_fractions(win: Rect, src: Rect, dst: Rect)
    requires
        win.bounded(),
        src.bounded(),
        dst.bounded(),
        src.w > 0,
        src.h > 0,
        dst.w >= 0,
        dst.h >= 0,
        win.w >= 0,
        win.h >= 0,
        src.x <= win.x,
        win.x + win.w <= src.x + src.w,
        src.y <= win.y,
        win.y + win.h <= src.y + src.h,
    ensures
        ({
            let r = spec_transfer(win, src, dst);
            &&& is_floor_quotient(r.x - dst.x, (win.x - src.x) * dst.w, src.w as int)
            &&& is_floor_quotient(r.x + r.w - dst.x, (win.x + win.w - src.x) * dst.w, src.w as int)
            &&& is_floor_quotient(r.y - dst.y, (win.y - src.y) * dst.h, src.h as int)
            &&& is_floor_quotient(r.y + r.h - dst.y, (win.y + win.h - src.y) * dst.h, src.h as int)
        }),
{
    let ax = (win.x - src.x) * dst.w;
    let bx = (win.x + win.w - src.x) * dst.w;
    let ay = (win.y - src.y) * dst.h;
    let by = (win.y + win.h - src.y) * dst.h;
    lemma_floor_quotient(ax, src.w as int, 0);
    lemma_floor_quotient(bx, src.w as int, 0);
    lemma_floor_quotient(ay, src.h as int, 0);
    lemma_floor_quotient(by, src.h as int, 0);
    let l = ax / (src.w as int);
    let rr = bx / (src.w as int);
    let t = ay / (src.h as int);
    let bt = by / (src.h as int);
    // Inside `src`, the proportional edges stay inside `dst` and in order.
    assert(0 <= ax <= bx <= src.w * dst.w) by (nonlinear_arith)
        requires
            0 <= win.x - src.x,
            win.x - src.x <= win.x + win.w - src.x,
            win.x + win.w - src.x <= src.w,
            dst.w >= 0,
            ax == (win.x - src.x) * dst.w,
            bx == (win.x + win.w - src.x) * dst.w;
    assert(0 <= ay <= by <= src.h * dst.h) by (nonlinear_arith)
        requires
            0 <= win.y - src.y,
            win.y - src.y <= win.y + win.h - src.y,
            win.y + win.h - src.y <= src.h,
            dst.h >= 0,
            ay == (win.y - src.y) * dst.h,
            by == (win.y + win.h - src.y) * dst.h;
    vstd::arithmetic::div_mod::lemma_div_is_ordered(ax, bx, src.w as int);
    vstd::arithmetic::div_mod::lemma_div_is_ordered(0, ax, src.w as int);
    vstd::arithmetic::div_mod::lemma_div_is_ordered(bx, src.w * dst.w, src.w as int);
    vstd::arithmetic::div_mod::lemma_div_multiples_vanish(dst.w as int, src.w as int);
    vstd::arithmetic::div_mod::lemma_div_multiples_vanish(0, src.w as int);
    vstd::arithmetic::div_mod::lemma_div_is_ordered(ay, by, src.h as int);
    vstd::arithmetic::div_mod::lemma_div_is_ordered(0, ay, src.h as int);
    vstd::arithmetic::div_mod::lemma_div_is_ordered(by, src.h * dst.h, src.h as int);
    vstd::arithmetic::div_mod::lemma_div_multiples_vanish(dst.h as int, src.h as int);
    vstd::arithmetic::div_mod::lemma_div_multiples_vanish(0, src.h as int);
    assert(0 <= l <= rr <= dst.w);
    assert(0 <= t <= bt <= dst.h);
}

/// A window filling its work area fills the destination work area after a display move.
pub proof fn lemma_transfer_full_window(src: Rect, dst: Rect)
    requires
        src.bounded(),
        dst.bounded(),
        src.w > 0,
        src.h > 0,
        dst.w >= 0,
        dst.h >= 0,
    ensures
        spec_transfer(src, src, dst) == dst,
{
    lemma_transfer_keeps_fractions(src, src, dst);
    let r = spec_transfer(src, src, dst);
    lemma_floor_quotient(0, src.w as int, r.x - dst.x);
    lemma_floor_quotient(0, src.w as int, 0);
    lemma_floor_quotient(src.w * dst.w, src.w as int, r.x + r.w - dst.x);
    lemma_floor_quotient(0, src.h as int, r.y - dst.y);
    lemma_floor_quotient(0, src.h as int, 0);
    lemma_floor_quotient(src.h * dst.h, src.h as int, r.y + r.h - dst.y);
    assert((src.x + src.w - src.x) * dst.w == src.w * dst.w) by (nonlinear_arith);
    assert((src.y + src.h - src.y) * dst.h == src.h * dst.h) by (nonlinear_arith);
    vstd::arithmetic::div_mod::lemma_div_multiples_vanish(dst.w as int, src.w as int);
    vstd::arithmetic::div_mod::lemma_div_multiples_vanish(dst.h as int, src.h as int);
    assert(src.w * dst.w == dst.w * src.w) by (nonlinear_arith);
    assert(src.h * dst.h == dst.h * src.h) by (nonlinear_arith);
}

/// Move to Edge slides the window flush against one edge of its own work area and keeps its
/// size and its position along the other axis.
pub proof fn lemma_move_to_edge(step: int, current: Rect, work: Rect, displays: Seq<Rect>, t: Tunables)
    requires
        current.bounded(),
        work.bounded(),
    ensures
        spec_target_for(Action::MoveLeft, step, current, work, displays, t) matches Some(r) && r.x == work.x
            && r.y == current.y && r.w == current.w && r.h == current.h,
        spec_target_for(Action::MoveRight, step, current, work, displays, t) matches Some(r) && r.x + r.w == work.x
            + work.w && r.y == current.y && r.w == current.w && r.h == current.h,
        spec_target_for(Action::MoveUp, step, current, work, displays, t) matches Some(r) && r.y == work.y && r.x
            == current.x && r.w == current.w && r.h == current.h,
        spec_target_for(Action::MoveDown, step, current, work, displays, t) matches Some(r) && r.y + r.h == work.y
            + work.h && r.x == current.x && r.w == current.w && r.h == current.h,
{
}

/// Smaller and Larger change each side by exactly one step, the `resize_step` fraction of the
/// work area's side rounded down (`s · PPM ≤ work.w · resize_step < (s + 1) · PPM`), whenever
/// the changed side stays within the work area and at least `min_size` of it.
pub proof fn lemma_resize_takes_one_step(
    action: Action,
    step: int,
    current: Rect,
    work: Rect,
    displays: Seq<Rect>,
    t: Tunables,
    sw: int,
    sh: int,
)
    requires
        action == Action::Larger || action == Action::Smaller,
        current.bounded(),
        work.bounded(),
        0 <= work.w,
        0 <= work.h,
        t.valid(),
        is_floor_quotient(sw, work.w * t.resize_step, PPM as int),
        is_floor_quotient(sh, work.h * t.resize_step, PPM as int),
    ensures
        spec_target_for(action, step, current, work, displays, t) matches Some(r) && {
            let w = if action == Action::Larger { current.w + sw } else { current.w - sw };
            let h = if action == Action::Larger { current.h + sh } else { current.h - sh };
            &&& (w <= work.w && w * PPM >= work.w * t.min_size ==> r.w == w)
            &&& (h <= work.h && h * PPM >= work.h * t.min_size ==> r.h == h)
        },
{
    let a_w = work.w * t.resize_step;
    let a_h = work.h * t.resize_step;
    lemma_floor_quotient(a_w, PPM as int, sw);
    lemma_floor_quotient(a_h, PPM as int, sh);
    assert(sw == scale(work.w as int, t.resize_step as int, PPM as int));
    assert(sh == scale(work.h as int, t.resize_step as int, PPM as int));
    let m_w = work.w * t.min_size;
    let m_h = work.h * t.min_size;
    let mw = scale_up(work.w as int, t.min_size as int, PPM as int);
    let mh = scale_up(work.h as int, t.min_size as int, PPM as int);
    lemma_floor_quotient(m_w + PPM - 1, PPM as int, 0);
    lemma_floor_quotient(m_h + PPM - 1, PPM as int, 0);
    lemma_scale_bounds(work.w as int, t.resize_step as int, PPM as int);
    lemma_scale_bounds(work.h as int, t.resize_step as int, PPM as int);
    lemma_scale_up_bounds(work.w as int, t.min_size as int, PPM as int);
    lemma_scale_up_bounds(work.h as int, t.min_size as int, PPM as int);
    let w = if action == Action::Larger { current.w + sw } else { current.w - sw };
    let h = if action == Action::Larger { current.h + sh } else { current.h - sh };
    if w * PPM >= m_w {
        assert(w >= mw) by (nonlinear_arith)
            requires mw * PPM <= m_w + PPM - 1, w * PPM >= m_w, PPM > 0;
    }
    if h * PPM >= m_h {
        assert(h >= mh) by (nonlinear_arith)
            requires mh * PPM <= m_h + PPM - 1, h * PPM >= m_h, PPM > 0;
    }
    let dw = if action == Action::Larger { sw } else { -sw };
    let dh = if action == Action::Larger { sh } else { -sh };
    lemma_resize_stays_inside(current, work, dw, dh, mw, mh);
    assert(spec_target_for(action, step, current, work, displays, t) == Some(
        spec_resize_around_center(current, work, dw, dh, mw, mh),
    ));
}

/// Center keeps the window's size and puts equal margins (to within one unit) on each side
/// inside its work area; a window larger than the work area on an axis is put against the
/// work area's near edge on that axis.
pub proof fn lemma_center_keeps_size_and_centers(step: int, current: Rect, work: Rect, displays: Seq<Rect>, t: Tunables)
    requires
        current.bounded(),
        work.bounded(),
        0 <= current.w,
        0 <= current.h,
    ensures
        spec_target_for(Action::Center, step, current, work, displays, t) matches Some(r) && {
            &&& r.w == current.w
            &&& r.h == current.h
            &&& (current.w <= work.w ==> {
                let left = r.x - work.x;
                let right = work.x + work.w - (r.x + r.w);
                0 <= left <= right <= left + 1
            })
            &&& (current.w > work.w ==> r.x == work.x)
            &&& (current.h <= work.h ==> {
                let top = r.y - work.y;
                let bottom = work.y + work.h - (r.y + r.h);
                0 <= top <= bottom <= top + 1
            })
            &&& (current.h > work.h ==> r.y == work.y)
        },
{
    let dx = work.w - current.w;
    let dy = work.h - current.h;
    lemma_floor_quotient(dx as int, 2, 0);
    lemma_floor_quotient(dy as int, 2, 0);
}

/// Maximize Height spans the work area's full height and keeps the window's width and left
/// edge.
pub proof fn lemma_maximize_height(step: int, current: Rect, work: Rect, displays: Seq<Rect>, t: Tunables)
    requires
        current.bounded(),
        work.bounded(),
    ensures
        spec_target_for(Action::MaximizeHeight, step, current, work, displays, t) == Some(
            Rect { x: current.x, y: work.y, w: current.w, h: work.h },
        ),
{
}

/// Maximize fills the work area exactly, and Almost Maximize fills the `almost_maximize_factor`
/// fraction of each side (rounded to whole units) with equal margins to within one unit.
pub proof fn lemma_maximize_fills(step: int, current: Rect, work: Rect, displays: Seq<Rect>, t: Tunables)
    requires
        current.bounded(),
        work.bounded(),
        0 <= work.w,
        0 <= work.h,
        t.valid(),
    ensures
        spec_target_for(Action::Maximize, step, current, work, displays, t) == Some(work),
        spec_target_for(Action::AlmostMaximize, step, current, work, displays, t) matches Some(r) && {
            let f = t.almost_maximize_factor;
            let left = r.x - work.x;
            let right = work.x + work.w - (r.x + r.w);
            let top = r.y - work.y;
            let bottom = work.y + work.h - (r.y + r.h);
            &&& 0 <= left && 0 <= right && 0 <= top && 0 <= bottom
            &&& right - 1 <= left <= right + 1
            &&& bottom - 1 <= top <= bottom + 1
            &&& r.w * PPM <= work.w * f + 2 * PPM && work.w * f <= r.w * PPM + 2 * PPM
            &&& r.h * PPM <= work.h * f + 2 * PPM && work.h * f <= r.h * PPM + 2 * PPM
        },
{
    let f = t.almost_maximize_factor;
    let fr = spec_almost_maximize_fraction(f);
    assert(spec_cell(Action::Maximize) == Some(Fraction { x: 0, y: 0, w: 1, h: 1, den: 1 }));
    vstd::arithmetic::div_mod::lemma_div_multiples_vanish(0, 1);
    assert(work.w * 1 == work.w && work.h * 1 == work.h);
    vstd::arithmetic::div_mod::lemma_div_basics(work.w as int);
    vstd::arithmetic::div_mod::lemma_div_basics(work.h as int);
    vstd::arithmetic::div_mod::lemma_div_basics(0);
    let d = 2 * PPM;
    let lx = work.w * (PPM - f);
    let rx = work.w * (PPM + f);
    let ly = work.h * (PPM - f);
    let ry = work.h * (PPM + f);
    lemma_floor_quotient(lx, d as int, 0);
    lemma_floor_quotient(rx, d as int, 0);
    lemma_floor_quotient(ly, d as int, 0);
    lemma_floor_quotient(ry, d as int, 0);
    let l = lx / d;
    let rr = rx / d;
    let tt = ly / d;
    let bb = ry / d;
    assert(lx + rx == work.w * d && rx - lx == 2 * (work.w * f) && ly + ry == work.h * d && ry - ly == 2 * (work.h * f)
        && ly >= 0 && ry <= work.h * d) by (nonlinear_arith)
        requires
            lx == work.w * (PPM - f),
            rx == work.w * (PPM + f),
            ly == work.h * (PPM - f),
            ry == work.h * (PPM + f),
            d == 2 * PPM,
            0 <= f <= PPM,
            0 <= work.h;
    assert(l + (work.w - rr) - 2 <= l + (work.w - rr) && 0 <= l && rr <= work.w && rr - l <= work.w) by (nonlinear_arith)
        requires
            l * d <= lx < (l + 1) * d,
            rr * d <= rx < (rr + 1) * d,
            lx == work.w * (PPM - f),
            rx == work.w * (PPM + f),
            0 <= f <= PPM,
            0 <= work.w,
            d == 2 * PPM,
            PPM > 0;
    assert(work.w - rr - 1 <= l <= work.w - rr + 1) by (nonlinear_arith)
        requires
            l * d <= lx < (l + 1) * d,
            rr * d <= rx < (rr + 1) * d,
            lx + rx == work.w * d,
            d > 0;
    assert(work.h - bb - 1 <= tt <= work.h - bb + 1 && 0 <= tt && bb <= work.h) by (nonlinear_arith)
        requires
            tt * d <= ly < (tt + 1) * d,
            bb * d <= ry < (bb + 1) * d,
            ly + ry == work.h * d,
            ly >= 0,
            ry <= work.h * d,
            d > 0;
    assert((rr - l) * PPM <= work.w * f + 2 * PPM && work.w * f <= (rr - l) * PPM + 2 * PPM) by (nonlinear_arith)
        requires
            l * d <= lx < (l + 1) * d,
            rr * d <= rx < (rr + 1) * d,
            rx - lx == 2 * (work.w * f),
            d == 2 * PPM,
            PPM > 0;
    assert((bb - tt) * PPM <= work.h * f + 2 * PPM && work.h * f <= (bb - tt) * PPM + 2 * PPM) by (nonlinear_arith)
        requires
            tt * d <= ly < (tt + 1) * d,
            bb * d <= ry < (bb + 1) * d,
            ry - ly == 2 * (work.h * f),
            d == 2 * PPM,
            PPM > 0;
    assert(fr.x + fr.w == PPM + f);
    assert(fr.y + fr.h == PPM + f);
}

/// `r` moved by `(dx, dy)`, its size kept.
pub open spec fn shifted(r: Rect, dx: int, dy: int) -> Rect {
    Rect { x: (r.x + dx) as i64, y: (r.y + dy) as i64, w: r.w, h: r.h }
}

/// Placing a fraction of a work area moved by `(dx, dy)` moves the placed rectangle by the
/// same offset.
proof fn lemma_fraction_rect_shift(work: Rect, f: Fraction, dx: int, dy: int)
    requires
        work.bounded(),
        coord_ok(work.x + dx),
        coord_ok(work.y + dy),
        f.valid(),
    ensures
        spec_fraction_to_rect(shifted(work, dx, dy), f) == shifted(spec_fraction_to_rect(work, f), dx, dy),
{
    lemma_scale_bounds(work.w as int, f.x as int, f.den as int);
    lemma_scale_bounds(work.w as int, f.x + f.w, f.den as int);
    lemma_scale_bounds(work.h as int, f.y as int, f.den as int);
    lemma_scale_bounds(work.h as int, f.y + f.h, f.den as int);
}

/// Resizing around the center of a window moved, with its work area, by `(dx, dy)` gives
/// the same rectangle moved by that offset.
proof fn lemma_resize_shift(
    win: Rect,
    work: Rect,
    dw: int,
    dh: int,
    min_w: int,
    min_h: int,
    dx: int,
    dy: int,
)
    requires
        win.bounded(),
        work.bounded(),
        coord_ok(win.x + dx),
        coord_ok(win.y + dy),
        coord_ok(work.x + dx),
        coord_ok(work.y + dy),
        coord_ok(dw),
        coord_ok(dh),
        coord_ok(min_w),
        coord_ok(min_h),
    ensures
        spec_resize_around_center(shifted(win, dx, dy), shifted(work, dx, dy), dw, dh, min_w, min_h)
            == shifted(spec_resize_around_center(win, work, dw, dh, min_w, min_h), dx, dy),
{
    let w = clamp(win.w + dw, min_int(min_w, work.w as int), work.w as int);
    let h = clamp(win.h + dh, min_int(min_h, work.h as int), work.h as int);
    let a = 2 * win.x + win.w - w;
    let b = 2 * win.y + win.h - h;
    lemma_floor_quotient(a, 2, 0);
    lemma_floor_quotient(a + 2 * dx, 2, a / 2 + dx);
    lemma_floor_quotient(b, 2, 0);
    lemma_floor_quotient(b + 2 * dy, 2, b / 2 + dy);
}

/// Placement does not depend on where the display sits: moving the window and its work
/// area by the same offset moves every target by that offset. This holds for every action
/// but the display moves, whose targets also depend on the other displays.
pub proof fn lemma_target_translation_covariant(
    action: Action,
    step: int,
    current: Rect,
    work: Rect,
    displays: Seq<Rect>,
    t: Tunables,
    dx: int,
    dy: int,
)
    requires
        action != Action::NextDisplay,
        action != Action::PreviousDisplay,
        current.bounded(),
        work.bounded(),
        coord_ok(current.x + dx),
        coord_ok(current.y + dy),
        coord_ok(work.x + dx),
        coord_ok(work.y + dy),
        t.valid(),
    ensures
        spec_target_for(action, step, shifted(current, dx, dy), shifted(work, dx, dy), displays, t) == match
            spec_target_for(action, step, current, work, displays, t) {
            Some(r) => Some(shifted(r, dx, dy)),
            None => None,
        },
{
    if let Some(h) = action.spec_as_half() {
        h.lemma_cycle_valid();
        lemma_fraction_rect_shift(work, h.spec_cycle()[step % 3], dx, dy);
    } else if let Some(f) = spec_cell(action) {
        assert(f.valid());
        lemma_fraction_rect_shift(work, f, dx, dy);
    } else if action == Action::AlmostMaximize {
        lemma_fraction_rect_shift(work, spec_almost_maximize_fraction(t.almost_maximize_factor), dx, dy);
    } else if action == Action::Larger || action == Action::Smaller {
        lemma_scale_bounds(work.w as int, t.resize_step as int, PPM as int);
        lemma_scale_bounds(work.h as int, t.resize_step as int, PPM as int);
        lemma_scale_up_bounds(work.w as int, t.min_size as int, PPM as int);
        lemma_scale_up_bounds(work.h as int, t.min_size as int, PPM as int);
        let sw = scale(work.w as int, t.resize_step as int, PPM as int);
        let sh = scale(work.h as int, t.resize_step as int, PPM as int);
        let mw = scale_up(work.w as int, t.min_size as int, PPM as int);
        let mh = scale_up(work.h as int, t.min_size as int, PPM as int);
        lemma_resize_shift(current, work, sw, sh, mw, mh, dx, dy);
        lemma_resize_shift(current, work, -sw, -sh, mw, mh, dx, dy);
    }
}

/// The chosen display has the largest overlap: no display overlaps the window by more than
/// the first best one does.
pub proof fn lemma_first_best_has_largest_overlap(window: Rect, displays: Seq<Rect>, i: int)
    requires
        is_first_best(window, displays, i),
    ensures
        forall|j: int|
            0 <= j < displays.len() ==> spec_overlap_area(window, #[trigger] displays[j]) <= spec_overlap_area(
                window,
                displays[i],
            ),
{
    assert forall|j: int| 0 <= j < displays.len() implies spec_overlap_area(window, #[trigger] displays[j])
        <= spec_overlap_area(window, displays[i]) by {
        assert(!spec_beats(window, displays[j], displays[i]));
    }
}

/// A non-empty window lying inside the work area of one display, apart from every other
/// display, is on that display.
pub proof fn lemma_window_inside_one_display(window: Rect, displays: Seq<Rect>, i: int, k: int)
    requires
        0 <= i < displays.len(),
        is_first_best(window, displays, k),
        window.w > 0,
        window.h > 0,
        displays[i].x <= window.x,
        window.x + window.w <= displays[i].x + displays[i].w,
        displays[i].y <= window.y,
        window.y + window.h <= displays[i].y + displays[i].h,
        forall|j: int|
            0 <= j < displays.len() && j != i ==> {
                let d = displays[i];
                let e = #[trigger] displays[j];
                d.x + d.w <= e.x || e.x + e.w <= d.x || d.y + d.h <= e.y || e.y + e.h <= d.y
            },
    ensures
        k == i,
{
    let d = displays[i];
    lemma_overlap_area_is_intersection(window, d);
    assert(window.w * window.h > 0) by (nonlinear_arith)
        requires window.w > 0, window.h > 0;
    if k != i {
        let e = displays[k];
        lemma_overlap_area_is_intersection(window, e);
        assert(spec_overlap_area(window, e) == 0);
        assert(spec_beats(window, d, e));
    }
}

/// A display move always lands inside the destination work area, no larger than it.
pub proof fn lemma_transfer_inside_destination(win: Rect, src: Rect, dst: Rect)
    requires
        win.bounded(),
        src.bounded(),
        dst.bounded(),
        src.w > 0,
        src.h > 0,
        dst.w >= 0,
        dst.h >= 0,
    ensures
        ({
            let r = spec_transfer(win, src, dst);
            &&& 0 <= r.w <= dst.w
            &&& 0 <= r.h <= dst.h
            &&& dst.x <= r.x
            &&& r.x + r.w <= dst.x + dst.w
            &&& dst.y <= r.y
            &&& r.y + r.h <= dst.y + dst.h
        }),
{
    let lim: int = 4398046511104;
    lemma_mul_magnitude(win.x - src.x, dst.w as int, lim, lim);
    lemma_mul_magnitude(win.x + win.w - src.x, dst.w as int, lim, lim);
    lemma_mul_magnitude(win.y - src.y, dst.h as int, lim, lim);
    lemma_mul_magnitude(win.y + win.h - src.y, dst.h as int, lim, lim);
    assert(lim * lim == 19342813113834066795298816int) by (nonlinear_arith)
        requires lim == 4398046511104int;
    lemma_div_magnitude((win.x - src.x) * dst.w, src.w as int);
    lemma_div_magnitude((win.x + win.w - src.x) * dst.w, src.w as int);
    lemma_div_magnitude((win.y - src.y) * dst.h, src.h as int);
    lemma_div_magnitude((win.y + win.h - src.y) * dst.h, src.h as int);
}

/// Repeating a directional half cycles through its sizes and starts over every three
/// presses: press `step + 3` places the window where press `step` did.
pub proof fn lemma_half_cycle_repeats(
    action: Action,
    step: int,
    current: Rect,
    work: Rect,
    displays: Seq<Rect>,
    t: Tunables,
)
    requires
        action.spec_as_half() is Some,
        step >= 0,
    ensures
        spec_target_for(action, step + 3, current, work, displays, t) == spec_target_for(
            action,
            step,
            current,
            work,
            displays,
            t,
        ),
{
    vstd::arithmetic::div_mod::lemma_mod_add_multiples_vanish(step, 3);
}

/// A cell's edges are the work-area origin plus the rounded-down edge fractions, and each
/// side is its fraction of the work area's side to within one unit.
proof fn lemma_cell_extent(work: Rect, f: Fraction)
    requires
        work.bounded(),
        f.valid(),
        f.x + f.w <= f.den,
        f.y + f.h <= f.den,
        work.w >= 0,
        work.h >= 0,
    ensures
        ({
            let r = spec_fraction_to_rect(work, f);
            &&& r.x == work.x + scale(work.w as int, f.x as int, f.den as int)
            &&& r.x + r.w == work.x + scale(work.w as int, f.x + f.w, f.den as int)
            &&& r.y == work.y + scale(work.h as int, f.y as int, f.den as int)
            &&& r.y + r.h == work.y + scale(work.h as int, f.y + f.h, f.den as int)
            &&& work.w * f.w - f.den < r.w * f.den < work.w * f.w + f.den
            &&& work.h * f.h - f.den < r.h * f.den < work.h * f.h + f.den
        }),
{
    lemma_fraction_inside_work(work, f);
    lemma_piece_size(work.w as int, f.x as int, f.w as int, f.den as int);
    lemma_piece_size(work.h as int, f.y as int, f.h as int, f.den as int);
    let r = spec_fraction_to_rect(work, f);
    lemma_scale_bounds(work.w as int, f.x as int, f.den as int);
    lemma_scale_bounds(work.w as int, f.x + f.w, f.den as int);
    lemma_scale_bounds(work.h as int, f.y as int, f.den as int);
    lemma_scale_bounds(work.h as int, f.y + f.h, f.den as int);
    assert(r.w == scale(work.w as int, f.x + f.w, f.den as int) - scale(work.w as int, f.x as int, f.den as int));
    assert(r.h == scale(work.h as int, f.y + f.h, f.den as int) - scale(work.h as int, f.y as int, f.den as int));
}

/// The piece between the rounded-down fractions `a / den` and `(a + w) / den` of a length is
/// `w / den` of it to within one unit.
proof fn lemma_piece_size(len: int, a: int, w: int, den: int)
    requires
        den > 0,
    ensures
        len * w - den < (scale(len, a + w, den) - scale(len, a, den)) * den < len * w + den,
{
    lemma_floor_quotient(len * a, den, 0);
    lemma_floor_quotient(len * (a + w), den, 0);
    let qa = scale(len, a, den);
    let qb = scale(len, a + w, den);
    assert(len * w - den < (qb - qa) * den < len * w + den) by (nonlinear_arith)
        requires
            qa * den <= len * a < (qa + 1) * den,
            qb * den <= len * (a + w) < (qb + 1) * den;
}

/// Scaling the numerator and denominator of a fraction by the same factor does not move the
/// rounded-down edge.
proof fn lemma_scale_reduce(len: int, a: int, den: int, k: int)
    requires
        den > 0,
        k > 0,
    ensures
        scale(len, k * a, k * den) == scale(len, a, den),
{
    let q = scale(len, a, den);
    lemma_floor_quotient(len * a, den, 0);
    assert(k * den > 0) by (nonlinear_arith)
        requires k > 0, den > 0;
    assert(q * (k * den) <= len * (k * a) < (q + 1) * (k * den)) by (nonlinear_arith)
        requires q * den <= len * a < (q + 1) * den, k > 0;
    lemma_floor_quotient(len * (k * a), k * den, q);
}

/// First, Center and Last Third tile the work area left to right at full height, each a
/// third of its width to within one unit; First Two Thirds covers the first two and Last
/// Two Thirds the last two.
pub proof fn lemma_thirds_tile(step: int, current: Rect, work: Rect, displays: Seq<Rect>, t: Tunables)
    requires
        work.bounded(),
        work.w >= 0,
        work.h >= 0,
    ensures
        ({
            let a = spec_target_for(Action::FirstThird, step, current, work, displays, t).unwrap();
            let b = spec_target_for(Action::CenterThird, step, current, work, displays, t).unwrap();
            let c = spec_target_for(Action::LastThird, step, current, work, displays, t).unwrap();
            let l = spec_target_for(Action::FirstTwoThirds, step, current, work, displays, t).unwrap();
            let r = spec_target_for(Action::LastTwoThirds, step, current, work, displays, t).unwrap();
            &&& a.x == work.x
            &&& a.x + a.w == b.x
            &&& b.x + b.w == c.x
            &&& c.x + c.w == work.x + work.w
            &&& l.x == a.x && l.x + l.w == b.x + b.w
            &&& r.x == b.x && r.x + r.w == c.x + c.w
            &&& work.w - 3 < 3 * a.w < work.w + 3
            &&& work.w - 3 < 3 * b.w < work.w + 3
            &&& work.w - 3 < 3 * c.w < work.w + 3
            &&& a.y == work.y && a.h == work.h
            &&& b.y == work.y && b.h == work.h
            &&& c.y == work.y && c.h == work.h
            &&& l.y == work.y && l.h == work.h
            &&& r.y == work.y && r.h == work.h
        }),
{
    let fa = spec_cell(Action::FirstThird).unwrap();
    let fb = spec_cell(Action::CenterThird).unwrap();
    let fc = spec_cell(Action::LastThird).unwrap();
    let fl = spec_cell(Action::FirstTwoThirds).unwrap();
    let fr = spec_cell(Action::LastTwoThirds).unwrap();
    lemma_cell_extent(work, fa);
    lemma_cell_extent(work, fb);
    lemma_cell_extent(work, fc);
    lemma_cell_extent(work, fl);
    lemma_cell_extent(work, fr);
    lemma_full_span_edges(work, fa);
    lemma_full_span_edges(work, fc);
}

/// The four fourths tile the work area left to right at full height, each a quarter of its
/// width to within one unit; Center Half covers the middle two.
pub proof fn lemma_fourths_tile(step: int, current: Rect, work: Rect, displays: Seq<Rect>, t: Tunables)
    requires
        work.bounded(),
        work.w >= 0,
        work.h >= 0,
    ensures
        ({
            let a = spec_target_for(Action::FirstFourth, step, current, work, displays, t).unwrap();
            let b = spec_target_for(Action::SecondFourth, step, current, work, displays, t).unwrap();
            let c = spec_target_for(Action::ThirdFourth, step, current, work, displays, t).unwrap();
            let d = spec_target_for(Action::LastFourth, step, current, work, displays, t).unwrap();
            let m = spec_target_for(Action::CenterHalf, step, current, work, displays, t).unwrap();
            &&& a.x == work.x
            &&& a.x + a.w == b.x
            &&& b.x + b.w == c.x
            &&& c.x + c.w == d.x
            &&& d.x + d.w == work.x + work.w
            &&& m.x == b.x && m.x + m.w == c.x + c.w
            &&& work.w - 4 < 4 * a.w < work.w + 4
            &&& work.w - 4 < 4 * b.w < work.w + 4
            &&& work.w - 4 < 4 * c.w < work.w + 4
            &&& work.w - 4 < 4 * d.w < work.w + 4
            &&& a.y == work.y && a.h == work.h
            &&& b.y == work.y && b.h == work.h
            &&& c.y == work.y && c.h == work.h
            &&& d.y == work.y && d.h == work.h
            &&& m.y == work.y && m.h == work.h
        }),
{
    let fa = spec_cell(Action::FirstFourth).unwrap();
    let fb = spec_cell(Action::SecondFourth).unwrap();
    let fc = spec_cell(Action::ThirdFourth).unwrap();
    let fd = spec_cell(Action::LastFourth).unwrap();
    let fm = spec_cell(Action::CenterHalf).unwrap();
    lemma_cell_extent(work, fa);
    lemma_cell_extent(work, fb);
    lemma_cell_extent(work, fc);
    lemma_cell_extent(work, fd);
    lemma_cell_extent(work, fm);
    lemma_full_span_edges(work, fa);
    lemma_full_span_edges(work, fd);
}

/// The four corners tile the work area as quadrants, each half its width and half its height
/// to within one unit; the six sixths split it into the three thirds' columns and the
/// quadrants' two rows.
pub proof fn lemma_corners_and_sixths_tile(
    step: int,
    current: Rect,
    work: Rect,
    displays: Seq<Rect>,
    t: Tunables,
)
    requires
        work.bounded(),
        work.w >= 0,
        work.h >= 0,
    ensures
        ({
            let tl = spec_target_for(Action::TopLeft, step, current, work, displays, t).unwrap();
            let tr = spec_target_for(Action::TopRight, step, current, work, displays, t).unwrap();
            let bl = spec_target_for(Action::BottomLeft, step, current, work, displays, t).unwrap();
            let br = spec_target_for(Action::BottomRight, step, current, work, displays, t).unwrap();
            let c1 = spec_target_for(Action::FirstThird, step, current, work, displays, t).unwrap();
            let c2 = spec_target_for(Action::CenterThird, step, current, work, displays, t).unwrap();
            let c3 = spec_target_for(Action::LastThird, step, current, work, displays, t).unwrap();
            let s1 = spec_target_for(Action::SixthTopLeft, step, current, work, displays, t).unwrap();
            let s2 = spec_target_for(Action::SixthTopCenter, step, current, work, displays, t).unwrap();
            let s3 = spec_target_for(Action::SixthTopRight, step, current, work, displays, t).unwrap();
            let s4 = spec_target_for(Action::SixthBottomLeft, step, current, work, displays, t).unwrap();
            let s5 = spec_target_for(Action::SixthBottomCenter, step, current, work, displays, t).unwrap();
            let s6 = spec_target_for(Action::SixthBottomRight, step, current, work, displays, t).unwrap();
            &&& tl.x == work.x && tl.y == work.y
            &&& tr.x == tl.x + tl.w && tr.y == work.y && tr.x + tr.w == work.x + work.w
            &&& bl.x == work.x && bl.y == tl.y + tl.h && bl.y + bl.h == work.y + work.h
            &&& br.x == tr.x && br.y == bl.y && br.x + br.w == work.x + work.w && br.y + br.h == work.y + work.h
            &&& tl.w == bl.w && tr.w == br.w && tl.h == tr.h && bl.h == br.h
            &&& work.w - 2 < 2 * tl.w < work.w + 2 && work.w - 2 < 2 * tr.w < work.w + 2
            &&& work.h - 2 < 2 * tl.h < work.h + 2 && work.h - 2 < 2 * bl.h < work.h + 2
            &&& s1.x == c1.x && s1.w == c1.w && s4.x == c1.x && s4.w == c1.w
            &&& s2.x == c2.x && s2.w == c2.w && s5.x == c2.x && s5.w == c2.w
            &&& s3.x == c3.x && s3.w == c3.w && s6.x == c3.x && s6.w == c3.w
            &&& s1.y == tl.y && s1.h == tl.h && s2.y == tl.y && s2.h == tl.h && s3.y == tl.y && s3.h == tl.h
            &&& s4.y == bl.y && s4.h == bl.h && s5.y == bl.y && s5.h == bl.h && s6.y == bl.y && s6.h == bl.h
        }),
{
    let ftl = spec_cell(Action::TopLeft).unwrap();
    let ftr = spec_cell(Action::TopRight).unwrap();
    let fbl = spec_cell(Action::BottomLeft).unwrap();
    let fbr = spec_cell(Action::BottomRight).unwrap();
    lemma_cell_extent(work, ftl);
    lemma_cell_extent(work, ftr);
    lemma_cell_extent(work, fbl);
    lemma_cell_extent(work, fbr);
    lemma_full_span_edges(work, ftl);
    lemma_full_span_edges(work, fbr);
    lemma_cell_extent(work, spec_cell(Action::FirstThird).unwrap());
    lemma_cell_extent(work, spec_cell(Action::CenterThird).unwrap());
    lemma_cell_extent(work, spec_cell(Action::LastThird).unwrap());
    lemma_cell_extent(work, spec_cell(Action::SixthTopLeft).unwrap());
    lemma_cell_extent(work, spec_cell(Action::SixthTopCenter).unwrap());
    lemma_cell_extent(work, spec_cell(Action::SixthTopRight).unwrap());
    lemma_cell_extent(work, spec_cell(Action::SixthBottomLeft).unwrap());
    lemma_cell_extent(work, spec_cell(Action::SixthBottomCenter).unwrap());
    lemma_cell_extent(work, spec_cell(Action::SixthBottomRight).unwrap());
    let w = work.w as int;
    let h = work.h as int;
    lemma_scale_reduce(w, 1, 3, 2);
    lemma_scale_reduce(w, 2, 3, 2);
    lemma_scale_reduce(w, 3, 3, 2);
    lemma_scale_reduce(h, 1, 2, 3);
    lemma_scale_reduce(h, 2, 2, 3);
    lemma_scale_reduce(h, 0, 2, 3);
    lemma_scale_reduce(w, 0, 3, 2);
}

/// Next Display goes right: when some display starts to the right of the current one, the
/// target starts no further left than the current one and no further right than any display
/// to its right; when no display follows the current one (none further right, none at the
/// same left edge further down), the move wraps to a leftmost display.
pub proof fn lemma_next_display_goes_right(displays: Seq<Rect>, src: Rect, i: int)
    requires
        is_adjacent_display(true, displays, src, i),
    ensures
        (exists|k: int| 0 <= k < displays.len() && (#[trigger] displays[k]).x > src.x) ==> {
            &&& src.x <= displays[i].x
            &&& forall|j: int| 0 <= j < displays.len() && (#[trigger] displays[j]).x > src.x ==> displays[i].x <= displays[j].x
        },
        (forall|j: int|
            0 <= j < displays.len() ==> (#[trigger] displays[j]).x < src.x || (displays[j].x == src.x
                && displays[j].y <= src.y)) ==> forall|j: int|
            0 <= j < displays.len() ==> displays[i].x <= (#[trigger] displays[j]).x,
{
    if exists|k: int| 0 <= k < displays.len() && (#[trigger] displays[k]).x > src.x {
        let k = choose|k: int| 0 <= k < displays.len() && (#[trigger] displays[k]).x > src.x;
        assert(precedes(true, src, displays[k]));
        assert(is_next_after(true, displays, src, i));
        assert forall|j: int| 0 <= j < displays.len() && (#[trigger] displays[j]).x > src.x implies displays[i].x
            <= displays[j].x by {
            assert(precedes(true, src, displays[j]));
            assert(!precedes(true, displays[j], displays[i]));
        }
    }
    if forall|j: int|
        0 <= j < displays.len() ==> (#[trigger] displays[j]).x < src.x || (displays[j].x == src.x && displays[j].y
            <= src.y) {
        assert(!exists|j: int| 0 <= j < displays.len() && precedes(true, src, #[trigger] displays[j]));
        assert(is_first_in_order(true, displays, i));
        assert forall|j: int| 0 <= j < displays.len() implies displays[i].x <= (#[trigger] displays[j]).x by {
            assert(!precedes(true, displays[j], displays[i]));
        }
    }
}

/// Previous Display goes left: when some display starts to the left of the current one,
/// the target starts no further right than the current one and no further left than any
/// display to its left; when no display precedes the current one (none further left, none
/// at the same left edge further up), the move wraps to a rightmost display.
pub proof fn lemma_previous_display_goes_left(displays: Seq<Rect>, src: Rect, i: int)
    requires
        is_adjacent_display(false, displays, src, i),
    ensures
        (exists|k: int| 0 <= k < displays.len() && (#[trigger] displays[k]).x < src.x) ==> {
            &&& displays[i].x <= src.x
            &&& forall|j: int| 0 <= j < displays.len() && (#[trigger] displays[j]).x < src.x ==> displays[j].x <= displays[i].x
        },
        (forall|j: int|
            0 <= j < displays.len() ==> (#[trigger] displays[j]).x > src.x || (displays[j].x == src.x
                && displays[j].y >= src.y)) ==> forall|j: int|
            0 <= j < displays.len() ==> (#[trigger] displays[j]).x <= displays[i].x,
{
    if exists|k: int| 0 <= k < displays.len() && (#[trigger] displays[k]).x < src.x {
        let k = choose|k: int| 0 <= k < displays.len() && (#[trigger] displays[k]).x < src.x;
        assert(precedes(false, src, displays[k]));
        assert(is_next_after(false, displays, src, i));
        assert forall|j: int| 0 <= j < displays.len() && (#[trigger] displays[j]).x < src.x implies displays[j].x
            <= displays[i].x by {
            assert(precedes(false, src, displays[j]));
            assert(!precedes(false, displays[j], displays[i]));
        }
    }
    if forall|j: int|
        0 <= j < displays.len() ==> (#[trigger] displays[j]).x > src.x || (displays[j].x == src.x && displays[j].y
            >= src.y) {
        assert(!exists|j: int| 0 <= j < displays.len() && precedes(false, src, #[trigger] displays[j]));
        assert(is_first_in_order(false, displays, i));
        assert forall|j: int| 0 <= j < displays.len() implies (#[trigger] displays[j]).x <= displays[i].x by {
            assert(!precedes(false, displays[j], displays[i]));
        }
    }
}

} // verus!
