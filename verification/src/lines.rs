use vstd::prelude::*;
use vstd::arithmetic::div_mod::{lemma_fundamental_div_mod_converse_div, lemma_fundamental_div_mod_converse_mod};

use crate::direction::abs_int;
use crate::misc::ICoord;

verus! {

/// Fixed-point rounding offset of the DDA algorithm (16 fractional bits).
pub const DDA_MODIFIER: i32 = 0xbfff;

/// Whether Bresenham's algorithm walks the line along y (the line is steeper than 45 degrees).
pub open spec fn bres_steep(start: ICoord, end: ICoord) -> bool {
    abs_int(end.1 - start.1) > abs_int(end.0 - start.0)
}

/// The point with its coordinates exchanged when the line is steep.
pub open spec fn bres_flip(p: ICoord, steep: bool) -> ICoord {
    if steep {
        (p.1, p.0)
    } else {
        p
    }
}

/// The endpoint from which Bresenham's algorithm starts walking, in walking coordinates
/// (x is the major axis): the one with the smaller major coordinate, `start` on ties.
pub open spec fn bres_from(start: ICoord, end: ICoord) -> ICoord {
    let s = bres_flip(start, bres_steep(start, end));
    let e = bres_flip(end, bres_steep(start, end));
    if s.0 > e.0 {
        e
    } else {
        s
    }
}

/// The endpoint at which Bresenham's algorithm stops, in walking coordinates.
pub open spec fn bres_to(start: ICoord, end: ICoord) -> ICoord {
    let s = bres_flip(start, bres_steep(start, end));
    let e = bres_flip(end, bres_steep(start, end));
    if s.0 > e.0 {
        s
    } else {
        e
    }
}

/// The number of minor-axis steps Bresenham's algorithm has taken before emitting the `k`-th
/// point: `ceil((k * dy - dx / 2) / dx)`, the rounding of the ideal line with ties moved late.
pub open spec fn bres_offset(dx: int, dy: int, k: int) -> int {
    if dx == 0 {
        0
    } else {
        (k * dy - dx / 2 + dx - 1) / dx
    }
}

/// The `k`-th point that Bresenham's algorithm emits.
pub open spec fn bres_point(start: ICoord, end: ICoord, k: int) -> ICoord {
    let a = bres_from(start, end);
    let b = bres_to(start, end);
    let dx = b.0 - a.0;
    let dy = abs_int(b.1 - a.1);
    let step: int = if a.1 < b.1 { 1 } else { -1 };
    bres_flip(((a.0 + k) as i32, (a.1 + step * bres_offset(dx, dy, k)) as i32), bres_steep(start, end))
}

/// The points of the line from `start` to `end` drawn with Bresenham's algorithm.
pub open spec fn bresenham_line(start: ICoord, end: ICoord) -> Seq<ICoord> {
    let n = bres_to(start, end).0 - bres_from(start, end).0 + 1;
    Seq::new(n as nat, |k: int| bres_point(start, end, k))
}

/// Sign of an integer.
pub open spec fn sign(v: int) -> int {
    if v > 0 {
        1
    } else if v < 0 {
        -1
    } else {
        0
    }
}

/// The larger of the absolute steps of a line: its number of points minus one.
pub open spec fn line_steps(start: ICoord, end: ICoord) -> int {
    let nx = abs_int(end.0 - start.0);
    let ny = abs_int(end.1 - start.1);
    if nx > ny { nx } else { ny }
}

/// Whether the DDA algorithm walks the line along y.
pub open spec fn dda_y_major(start: ICoord, end: ICoord) -> bool {
    abs_int(end.1 - start.1) > abs_int(end.0 - start.0)
}

/// The 16.16 fixed-point minor-axis increment per major-axis step of the DDA algorithm.
pub open spec fn dda_delta(start: ICoord, end: ICoord) -> int {
    let nx = abs_int(end.0 - start.0);
    let ny = abs_int(end.1 - start.1);
    if dda_y_major(start, end) {
        (nx * 65536) / ny
    } else if nx == 0 {
        0
    } else {
        (ny * 65536) / nx
    }
}

/// The minor-axis offset of the `k`-th DDA point: the rounded fixed-point position.
pub open spec fn dda_offset(start: ICoord, end: ICoord, k: int) -> int {
    (k * dda_delta(start, end) + DDA_MODIFIER) / 65536
}

/// The `k`-th point that the DDA algorithm emits: one major-axis step towards `end` per point,
/// and the rounded minor-axis offset towards `end`.
pub open spec fn dda_point(start: ICoord, end: ICoord, k: int) -> ICoord {
    let sx = sign(end.0 - start.0);
    let sy = sign(end.1 - start.1);
    let off = dda_offset(start, end, k);
    if dda_y_major(start, end) {
        ((start.0 + sx * off) as i32, (start.1 + sy * k) as i32)
    } else {
        ((start.0 + sx * k) as i32, (start.1 + sy * off) as i32)
    }
}

/// The points of the line from `start` to `end` drawn with the DDA algorithm.
pub open spec fn dda_line(start: ICoord, end: ICoord) -> Seq<ICoord> {
    Seq::new((line_steps(start, end) + 1) as nat, |k: int| dda_point(start, end, k))
}

/// The machine range conditions of `push_bresenham`: the offsets between the two points,
/// and their absolute values, are `i32`s.
pub open spec fn bresenham_in_range(start: ICoord, end: ICoord) -> bool {
    &&& i32::MIN < end.0 - start.0 <= i32::MAX
    &&& i32::MIN < end.1 - start.1 <= i32::MAX
}

/// The coordinate `base + sign * steps`, for a step count within the line's extent from `base`
/// towards `base + delta`: it lies between the two, so it fits an `i32`.
fn step_from(base: i32, delta: i64, sign_: i64, steps: i64) -> (r: i32)
    requires
        i32::MIN <= base + delta <= i32::MAX,
        sign_ == sign(delta as int),
        0 <= steps <= abs_int(delta as int),
    ensures
        r == base + sign_ * steps,
{
    proof {
        assert(i32::MIN <= base + sign_ * steps <= i32::MAX) by (nonlinear_arith)
            requires
                i32::MIN <= base + delta <= i32::MAX,
                i32::MIN <= base <= i32::MAX,
                sign_ == sign(delta as int),
                0 <= steps <= abs_int(delta as int),
        ;
    }
    (base as i64 + sign_ * steps) as i32
}

/// A point `c` steps from `base` towards `base + d`, within the extent of `d`, fits an `i32`.
proof fn lemma_between_fits(base: int, d: int, c: int)
    requires
        i32::MIN <= base <= i32::MAX,
        i32::MIN <= base + d <= i32::MAX,
        0 <= c <= abs_int(d),
    ensures
        i32::MIN <= base + sign(d) * c <= i32::MAX,
{
    if d > 0 {
        assert(sign(d) * c == c);
    } else if d < 0 {
        assert(sign(d) * c == -c);
    } else {
        assert(sign(d) * c == 0);
    }
}

/// Lines provides a static API of functions for drawing lines.
pub struct Lines;

/// In walking coordinates `err` tracks the position of the ideal line.
proof fn lemma_bres_offset(dx: int, dy: int, h: int, k: int, m: int, err: int)
    requires
        dx > 0,
        h == dx / 2,
        err == h - k * dy + m * dx,
        0 <= err < dx,
    ensures
        bres_offset(dx, dy, k) == m,
{
    let num = k * dy - h + dx - 1;
    assert(num == m * dx + (dx - 1 - err));
    lemma_fundamental_div_mod_converse_div(num, dx, m, dx - 1 - err);
}

impl Lines {
    /// Pushes the points of the line between two points into a vec using Bresenham's algorithm.
    pub fn push_bresenham(start: ICoord, end: ICoord, line: &mut Vec<ICoord>)
        requires
            bresenham_in_range(start, end),
        ensures
            final(line)@ == old(line)@ + bresenham_line(start, end),
    {
        let ghost base = old(line)@;
        let ady = if end.1 - start.1 < 0 { -(end.1 - start.1) } else { end.1 - start.1 };
        let adx = if end.0 - start.0 < 0 { -(end.0 - start.0) } else { end.0 - start.0 };
        let steep = ady > adx;
        let mut s = start;
        let mut e = end;
        if steep {
            s = (start.1, start.0);
            e = (end.1, end.0);
        }
        if s.0 > e.0 {
            let t = s;
            s = e;
            e = t;
        }
        assert(s == bres_from(start, end));
        assert(e == bres_to(start, end));
        let dx = e.0 - s.0;
        let dy = if e.1 - s.1 < 0 { -(e.1 - s.1) } else { e.1 - s.1 };
        assert(dy <= dx);
        let y_step: i32 = if s.1 < e.1 { 1 } else { -1 };
        let mut err = dx / 2;
        let ghost h = dx / 2;
        let mut y = s.1;
        let mut x = s.0;
        let ghost mut m: int = 0;
        let ghost mut kk: int = 0;
        loop
            invariant_except_break
                line@.len() == base.len() + (x - s.0),
                forall|j: int|
                    0 <= j < x - s.0 ==> #[trigger] line@[base.len() + j] == bres_point(start, end, j),
            invariant
                s == bres_from(start, end),
                e == bres_to(start, end),
                steep == bres_steep(start, end),
                bresenham_in_range(start, end),
                dx == e.0 - s.0,
                dy == abs_int(e.1 - s.1),
                0 <= dy <= dx,
                y_step == (if s.1 < e.1 { 1int } else { -1int }),
                h == dx / 2,
                s.0 <= x <= e.0,
                kk == x - s.0,
                err == h - kk * dy + m * dx,
                dx > 0 ==> 0 <= err < dx,
                dx == 0 ==> err == 0 && m == 0,
                0 <= m <= dy,
                y == (if s.1 < e.1 { s.1 + m } else { s.1 - m }),
                line@.subrange(0, base.len() as int) == base,
            ensures
                line@.len() == base.len() + dx + 1,
                forall|j: int|
                    0 <= j <= dx ==> #[trigger] line@[base.len() + j] == bres_point(start, end, j),
            decreases e.0 - x,
        {
            proof {
                if dx > 0 {
                    lemma_bres_offset(dx as int, dy as int, h, (x - s.0) as int, m, err as int);
                }
            }
            let ghost before = line@;
            let ghost pt = bres_point(start, end, kk);
            proof {
                let step: int = if s.1 < e.1 { 1 } else { -1 };
                assert(bres_offset(dx as int, dy as int, kk) == m);
                if s.1 < e.1 {
                    assert(step * m == m);
                } else {
                    assert(step * m == -m);
                }
                assert(y == s.1 + step * m);
                assert(pt == bres_flip((x, y), steep));
            }
            if steep {
                line.push((y, x));
            } else {
                line.push((x, y));
            }
            assert(line@ == before.push(pt));
            assert(line@.subrange(0, base.len() as int) =~= base);
            assert forall|j: int| 0 <= j <= kk implies #[trigger] line@[base.len() + j] == bres_point(start, end, j) by {
                if j < kk {
                    assert(line@[base.len() + j] == before[base.len() + j]);
                }
            }
            if x == e.0 {
                break;
            }
            let ghost k = (x - s.0) as int;
            let ghost e0 = err as int;
            proof {
                assert((k + 1) * dy == k * dy + dy) by (nonlinear_arith);
            }
            err = err - dy;
            if err < 0 {
                proof {
                    assert(m + 1 <= dy) by (nonlinear_arith)
                        requires
                            e0 - dy < 0,
                            e0 == h - k * dy + m * dx,
                            (k + 1) * dy == k * dy + dy,
                            k + 1 <= dx,
                            h >= 0,
                            0 <= dy <= dx,
                            dx > 0,
                    {
                        assert((m + 1) * dx < (k + 1) * dy - h + dx) by (nonlinear_arith)
                            requires
                                e0 - dy < 0,
                                e0 == h - k * dy + m * dx,
                                (k + 1) * dy == k * dy + dy,
                                dx > 0;
                        assert((k + 1) * dy <= dx * dy) by (nonlinear_arith)
                            requires k + 1 <= dx, dy >= 0;
                        assert((m + 1) * dx < (dy + 1) * dx) by (nonlinear_arith)
                            requires
                                (m + 1) * dx < (k + 1) * dy - h + dx,
                                (k + 1) * dy <= dx * dy,
                                h >= 0;
                        assert(m + 1 < dy + 1) by (nonlinear_arith)
                            requires (m + 1) * dx < (dy + 1) * dx, dx > 0;
                    }
                    assert((m + 1) * dx == m * dx + dx) by (nonlinear_arith);
                    m = m + 1;
                }
                y = y + y_step;
                err = err + dx;
            }
            x = x + 1;
            proof {
                kk = kk + 1;
            }
        }
        assert(line@ =~= base + bresenham_line(start, end)) by {
            assert forall|k: int| 0 <= k < line@.len() implies line@[k] == (base
                + bresenham_line(start, end))[k] by {
                if k >= base.len() {
                    assert(line@[base.len() + (k - base.len())] == bres_point(start, end, k - base.len()));
                } else {
                    assert(line@.subrange(0, base.len() as int)[k] == base[k]);
                }
            }
        }
    }

    /// Returns the points of the line between two points using Bresenham's algorithm.
    pub fn bresenham(start: ICoord, end: ICoord) -> (r: Vec<ICoord>)
        requires
            bresenham_in_range(start, end),
        ensures
            r@ == bresenham_line(start, end),
    {
        let mut line = Vec::new();
        Self::push_bresenham(start, end, &mut line);
        assert(line@ =~= bresenham_line(start, end));
        line
    }

    /// Pushes the points of a line between two points into a vec using the DDA algorithm:
    /// one step along the major axis per point, with the minor axis position kept as a
    /// 16.16 fixed-point fraction.
    pub fn push_dda(start: ICoord, end: ICoord, line: &mut Vec<ICoord>)
        ensures
            final(line)@ == old(line)@ + dda_line(start, end),
    {
        let ghost base = old(line)@;
        let dx: i64 = end.0 as i64 - start.0 as i64;
        let dy: i64 = end.1 as i64 - start.1 as i64;
        let nx: i64 = if dx < 0 { -dx } else { dx };
        let ny: i64 = if dy < 0 { -dy } else { dy };
        let mn: i64 = if nx > ny { nx } else { ny };
        // A line of a single point.
        if mn == 0 {
            line.push(start);
            assert(dda_point(start, end, 0) == start);
            assert(line@ =~= base + dda_line(start, end));
            return ;
        }
        let y_major = ny > nx;
        let (n_major, n_minor) = if y_major { (ny, nx) } else { (nx, ny) };
        let delta: i64 = (n_minor * 65536) / n_major;
        proof {
            assert(delta == dda_delta(start, end));
            assert(delta * n_major <= n_minor * 65536) by (nonlinear_arith)
                requires
                    delta == (n_minor as int * 65536) / (n_major as int),
                    n_major > 0,
                    n_minor >= 0,
            {
                vstd::arithmetic::div_mod::lemma_fundamental_div_mod(n_minor as int * 65536, n_major as int);
                vstd::arithmetic::div_mod::lemma_mod_pos_bound(n_minor as int * 65536, n_major as int);
            }
            assert(delta >= 0) by (nonlinear_arith)
                requires delta == (n_minor as int * 65536) / (n_major as int), n_major > 0, n_minor >= 0;
        }
        let sx: i64 = if dx > 0 { 1 } else if dx < 0 { -1 } else { 0 };
        let sy: i64 = if dy > 0 { 1 } else if dy < 0 { -1 } else { 0 };
        let mut frac: i64 = 0;
        let mut k: i64 = 0;
        loop
            invariant_except_break
                line@.len() == base.len() + k,
                forall|j: int|
                    0 <= j < k ==> #[trigger] line@[base.len() + j] == dda_point(start, end, j),
            invariant
                dx == end.0 - start.0,
                dy == end.1 - start.1,
                mn == line_steps(start, end),
                1 <= mn <= 0x1_0000_0000,
                y_major == dda_y_major(start, end),
                n_major == mn,
                0 <= n_minor <= n_major,
                n_minor == (if y_major { nx } else { ny }),
                nx == abs_int(dx as int),
                ny == abs_int(dy as int),
                delta == dda_delta(start, end),
                0 <= delta,
                delta * n_major <= n_minor * 65536,
                sx == sign(dx as int),
                sy == sign(dy as int),
                0 <= k <= mn,
                frac == k * delta,
                line@.subrange(0, base.len() as int) == base,
            ensures
                line@.len() == base.len() + mn + 1,
                forall|j: int|
                    0 <= j <= mn ==> #[trigger] line@[base.len() + j] == dda_point(start, end, j),
            decreases mn - k,
        {
            proof {
                assert(k * delta <= n_minor * 65536) by (nonlinear_arith)
                    requires
                        0 <= k <= n_major,
                        0 <= delta,
                        delta * n_major <= n_minor * 65536;
                assert(k * delta >= 0) by (nonlinear_arith)
                    requires k >= 0, delta >= 0;
            }
            let v = frac + DDA_MODIFIER as i64;
            let off = v / 65536;
            proof {
                assert(off <= n_minor) by (nonlinear_arith)
                    requires
                        off == (k * delta + 0xbfff) / 65536,
                        k * delta <= n_minor * 65536,
                        k * delta >= 0;
                assert(off >= 0);
                assert(off == dda_offset(start, end, k as int));
                lemma_sign_abs(dx as int);
                lemma_sign_abs(dy as int);
                assert(sx * off == sign(dx as int) * off);
                // The point lies between start and end, so it fits an i32.
                if y_major {
                    assert(abs_int(sx * off) <= nx) by (nonlinear_arith)
                        requires 0 <= off <= nx, sx == 1 || sx == 0 || sx == -1;
                    assert(abs_int(sy * k) <= ny) by (nonlinear_arith)
                        requires 0 <= k <= ny, sy == 1 || sy == 0 || sy == -1;
                } else {
                    assert(abs_int(sx * k) <= nx) by (nonlinear_arith)
                        requires 0 <= k <= nx, sx == 1 || sx == 0 || sx == -1;
                    assert(abs_int(sy * off) <= ny) by (nonlinear_arith)
                        requires 0 <= off <= ny, sy == 1 || sy == 0 || sy == -1;
                }
                assert(sx * abs_int(sx * off) == sx * off || sx == 0) by (nonlinear_arith)
                    requires sx == 1 || sx == 0 || sx == -1, off >= 0;
            }
            let p: ICoord = if y_major {
                (step_from(start.0, dx, sx, off), step_from(start.1, dy, sy, k))
            } else {
                (step_from(start.0, dx, sx, k), step_from(start.1, dy, sy, off))
            };
            line.push(p);
            assert(line@.subrange(0, base.len() as int) =~= base);
            if k == mn {
                break;
            }
            proof {
                assert((k + 1) * delta == k * delta + delta) by (nonlinear_arith);
                assert((k + 1) * delta <= n_minor * 65536) by (nonlinear_arith)
                    requires
                        0 <= k + 1 <= n_major,
                        0 <= delta,
                        delta * n_major <= n_minor * 65536;
            }
            frac = frac + delta;
            k = k + 1;
        }
        assert(line@ =~= base + dda_line(start, end)) by {
            assert forall|i: int| 0 <= i < line@.len() implies line@[i] == (base + dda_line(start, end))[i] by {
                if i >= base.len() {
                    assert(line@[base.len() + (i - base.len())] == dda_point(start, end, i - base.len()));
                } else {
                    assert(line@.subrange(0, base.len() as int)[i] == base[i]);
                }
            }
        }
    }

    /// Returns the points of a line between two points using the DDA algorithm.
    pub fn dda(start: ICoord, end: ICoord) -> (r: Vec<ICoord>)
        ensures
            r@ == dda_line(start, end),
    {
        let mut line = Vec::new();
        Self::push_dda(start, end, &mut line);
        assert(line@ =~= dda_line(start, end));
        line
    }
}

/// Floor division by a positive number grows by at most one when the dividend grows by at
/// most the divisor.
proof fn lemma_div_step(a: int, inc: int, d: int)
    requires
        d > 0,
        0 <= inc <= d,
    ensures
        a / d <= (a + inc) / d <= a / d + 1,
{
    vstd::arithmetic::div_mod::lemma_fundamental_div_mod(a, d);
    let q = a / d;
    let r = a % d;
    vstd::arithmetic::div_mod::lemma_mod_bound(a, d);
    assert(d * q == q * d) by (nonlinear_arith);
    if r + inc < d {
        lemma_fundamental_div_mod_converse_div(a + inc, d, q, r + inc);
    } else {
        assert((q + 1) * d == q * d + d) by (nonlinear_arith);
        lemma_fundamental_div_mod_converse_div(a + inc, d, q + 1, r + inc - d);
    }
}

/// Bresenham's offsets start at 0, end at `dy` and grow by at most one per step.
proof fn lemma_bres_offsets(dx: int, dy: int, k: int)
    requires
        0 <= dy <= dx,
        0 <= k,
    ensures
        bres_offset(dx, dy, 0) == 0,
        bres_offset(dx, dy, dx) == dy,
        bres_offset(dx, dy, k) <= bres_offset(dx, dy, k + 1) <= bres_offset(dx, dy, k) + 1,
        k <= dx ==> 0 <= bres_offset(dx, dy, k) <= dy,
{
    if dx > 0 {
        if k <= dx {
            assert(k * dy <= dx * dy) by (nonlinear_arith)
                requires k <= dx, dy >= 0;
            assert(k * dy >= 0) by (nonlinear_arith)
                requires k >= 0, dy >= 0;
            vstd::arithmetic::div_mod::lemma_div_is_ordered(k * dy - dx / 2 + dx - 1, dx * dy - dx / 2 + dx - 1, dx);
            vstd::arithmetic::div_mod::lemma_div_is_ordered(0 - dx / 2 + dx - 1, k * dy - dx / 2 + dx - 1, dx);
        }
        let h = dx / 2;
        lemma_fundamental_div_mod_converse_div(-h + dx - 1, dx, 0, dx - 1 - h);
        assert(dx * dy - h + dx - 1 == dy * dx + (dx - 1 - h)) by (nonlinear_arith);
        lemma_fundamental_div_mod_converse_div(dx * dy - h + dx - 1, dx, dy, dx - 1 - h);
        assert((k + 1) * dy == k * dy + dy) by (nonlinear_arith);
        lemma_div_step(k * dy - h + dx - 1, dy, dx);
    }
}

/// A number is its sign times its absolute value.
proof fn lemma_sign_abs(d: int)
    ensures
        sign(d) * abs_int(d) == d,
{
    if d > 0 {
        assert(sign(d) == 1);
    } else if d < 0 {
        assert(sign(d) == -1);
        assert(-1 * (-d) == d);
    } else {
        assert(sign(d) * 0 == 0);
    }
}

/// The end points of Bresenham's walk, in walking coordinates.
proof fn lemma_bres_endpoints(start: ICoord, end: ICoord)
    requires
        bresenham_in_range(start, end),
    ensures
        bres_point(start, end, 0) == bres_flip(bres_from(start, end), bres_steep(start, end)),
        bres_point(start, end, line_steps(start, end)) == bres_flip(
            bres_to(start, end),
            bres_steep(start, end),
        ),
{
    let a = bres_from(start, end);
    let b = bres_to(start, end);
    let dx = b.0 - a.0;
    let dy = abs_int(b.1 - a.1);
    let step: int = if a.1 < b.1 { 1 } else { -1 };
    lemma_bres_offsets(dx, dy, 0);
    assert(dx == line_steps(start, end));
    assert(step * 0 == 0);
    assert(a.1 + step * dy == b.1) by (nonlinear_arith)
        requires
            step == (if a.1 < b.1 { 1int } else { -1int }),
            dy == abs_int(b.1 - a.1),
    ;
}

/// Consecutive points of Bresenham's walk, in walking coordinates.
proof fn lemma_bres_adjacent(start: ICoord, end: ICoord, k: int)
    requires
        bresenham_in_range(start, end),
        0 <= k < line_steps(start, end),
    ensures
        ({
            let a = bres_from(start, end);
            let b = bres_to(start, end);
            let p = bres_flip(bres_point(start, end, k), bres_steep(start, end));
            let q = bres_flip(bres_point(start, end, k + 1), bres_steep(start, end));
            &&& q.0 == p.0 + 1
            &&& (a.1 < b.1 ==> p.1 <= q.1 <= p.1 + 1)
            &&& (a.1 >= b.1 ==> p.1 - 1 <= q.1 <= p.1)
        }),
{
    let a = bres_from(start, end);
    let b = bres_to(start, end);
    let dx = b.0 - a.0;
    let dy = abs_int(b.1 - a.1);
    let step: int = if a.1 < b.1 { 1 } else { -1 };
    lemma_bres_offsets(dx, dy, k);
    lemma_bres_offsets(dx, dy, k + 1);
    let o0 = bres_offset(dx, dy, k);
    let o1 = bres_offset(dx, dy, k + 1);
    assert(step * o0 == (if a.1 < b.1 { o0 } else { -o0 })) by (nonlinear_arith)
        requires step == (if a.1 < b.1 { 1int } else { -1int });
    assert(step * o1 == (if a.1 < b.1 { o1 } else { -o1 })) by (nonlinear_arith)
        requires step == (if a.1 < b.1 { 1int } else { -1int });
}

/// Bresenham's line has one point per step along its major axis; its end points are the two
/// given points (in walking order, so possibly reversed), and consecutive points are adjacent
/// (they differ by one along the major axis and by at most one along the other).
pub proof fn law_bresenham_line(start: ICoord, end: ICoord, k: int)
    requires
        bresenham_in_range(start, end),
        0 <= k < line_steps(start, end),
    ensures
        bresenham_line(start, end).len() == line_steps(start, end) + 1,
        (bresenham_line(start, end)[0] == start && bresenham_line(start, end).last() == end) || (
        bresenham_line(start, end)[0] == end && bresenham_line(start, end).last() == start),
        abs_int(bresenham_line(start, end)[k + 1].0 - bresenham_line(start, end)[k].0) <= 1,
        abs_int(bresenham_line(start, end)[k + 1].1 - bresenham_line(start, end)[k].1) <= 1,
        bresenham_line(start, end)[k + 1] != bresenham_line(start, end)[k],
{
    lemma_bres_endpoints(start, end);
    lemma_bres_adjacent(start, end, k);
    let n = line_steps(start, end);
    let line = bresenham_line(start, end);
    assert(line[0] == bres_point(start, end, 0));
    assert(line[n] == bres_point(start, end, n));
    assert(line[k] == bres_point(start, end, k));
    assert(line[k + 1] == bres_point(start, end, k + 1));
}

/// The DDA line has one point per step along its major axis, starts at `start`, and consecutive
/// points are adjacent (they differ by one along the major axis and by at most one along the
/// other). It ends at `end` when it has at most 0xc000 steps; on longer lines the 16-bit
/// fraction can fall one short on the minor axis.
pub proof fn law_dda_line(start: ICoord, end: ICoord, k: int)
    requires
        0 <= k < line_steps(start, end),
    ensures
        dda_line(start, end).len() == line_steps(start, end) + 1,
        dda_line(start, end)[0] == start,
        line_steps(start, end) <= 0xc000 ==> dda_line(start, end).last() == end,
        abs_int(dda_line(start, end)[k + 1].0 - dda_line(start, end)[k].0) <= 1,
        abs_int(dda_line(start, end)[k + 1].1 - dda_line(start, end)[k].1) <= 1,
        dda_line(start, end)[k + 1] != dda_line(start, end)[k],
{
    let nx = abs_int(end.0 - start.0);
    let ny = abs_int(end.1 - start.1);
    let mn = line_steps(start, end);
    let (nmaj, nmin) = if dda_y_major(start, end) { (ny, nx) } else { (nx, ny) };
    let delta = dda_delta(start, end);
    assert(nmaj == mn);
    assert(mn > 0);
    assert(delta == (nmin * 65536) / nmaj);
    // The first point: offset 0.
    lemma_fundamental_div_mod_converse_div(0 * delta + 0xbfff, 65536, 0, 0xbfff);
    // The last point: offset n_minor.
    vstd::arithmetic::div_mod::lemma_fundamental_div_mod(nmin * 65536, nmaj);
    vstd::arithmetic::div_mod::lemma_mod_pos_bound(nmin * 65536, nmaj);
    let rem = (nmin * 65536) % nmaj;
    assert(mn * delta + 0xbfff == nmin * 65536 + (0xbfff - rem)) by (nonlinear_arith)
        requires
            nmin * 65536 == nmaj * delta + rem,
            mn == nmaj;
    if mn <= 0xc000 {
        lemma_fundamental_div_mod_converse_div(mn * delta + 0xbfff, 65536, nmin, 0xbfff - rem);
    }
    // Consecutive points: the offset grows by at most one.
    assert(delta <= 65536) by (nonlinear_arith)
        requires
            delta == (nmin * 65536) / nmaj,
            0 <= nmin <= nmaj,
            nmaj > 0,
    {
        vstd::arithmetic::div_mod::lemma_div_is_ordered(nmin * 65536, nmaj * 65536, nmaj);
        vstd::arithmetic::div_mod::lemma_div_multiples_vanish(65536, nmaj);
    }
    assert(delta >= 0) by (nonlinear_arith)
        requires delta == (nmin * 65536) / nmaj, nmaj > 0, nmin >= 0;
    assert((k + 1) * delta + 0xbfff == (k * delta + 0xbfff) + delta) by (nonlinear_arith);
    lemma_div_step(k * delta + 0xbfff, delta, 65536);
    assert(k * delta >= 0) by (nonlinear_arith) requires k >= 0, delta >= 0;
    assert(k * delta <= nmin * 65536) by (nonlinear_arith)
        requires
            0 <= k <= nmaj,
            0 <= delta,
            delta == (nmin * 65536) / nmaj,
            nmaj > 0,
            nmin >= 0,
    {
        vstd::arithmetic::div_mod::lemma_fundamental_div_mod(nmin * 65536, nmaj);
        vstd::arithmetic::div_mod::lemma_mod_pos_bound(nmin * 65536, nmaj);
    }
    assert((k + 1) * delta <= nmin * 65536) by (nonlinear_arith)
        requires
            0 <= k + 1 <= nmaj,
            0 <= delta,
            delta == (nmin * 65536) / nmaj,
            nmaj > 0,
            nmin >= 0,
    {
        vstd::arithmetic::div_mod::lemma_fundamental_div_mod(nmin * 65536, nmaj);
        vstd::arithmetic::div_mod::lemma_mod_pos_bound(nmin * 65536, nmaj);
    }
    assert(dda_offset(start, end, k + 1) <= nmin) by (nonlinear_arith)
        requires
            dda_offset(start, end, k + 1) == ((k + 1) * delta + 0xbfff) / 65536,
            (k + 1) * delta <= nmin * 65536,
            (k + 1) * delta >= 0;
    assert(dda_offset(start, end, k) >= 0);
    lemma_sign_abs(end.0 - start.0);
    lemma_sign_abs(end.1 - start.1);
    assert(k * delta <= nmin * 65536) by (nonlinear_arith)
        requires
            0 <= k <= nmaj,
            0 <= delta,
            delta == (nmin * 65536) / nmaj,
            nmaj > 0,
            nmin >= 0,
    {
        vstd::arithmetic::div_mod::lemma_fundamental_div_mod(nmin * 65536, nmaj);
        vstd::arithmetic::div_mod::lemma_mod_pos_bound(nmin * 65536, nmaj);
    }
    assert(dda_offset(start, end, k) <= nmin) by (nonlinear_arith)
        requires
            dda_offset(start, end, k) == (k * delta + 0xbfff) / 65536,
            k * delta <= nmin * 65536,
            k * delta >= 0;
    let o0 = dda_offset(start, end, k);
    let o1 = dda_offset(start, end, k + 1);
    if dda_y_major(start, end) {
        lemma_between_fits(start.0 as int, end.0 - start.0, o0);
        lemma_between_fits(start.0 as int, end.0 - start.0, o1);
        lemma_between_fits(start.1 as int, end.1 - start.1, k);
        lemma_between_fits(start.1 as int, end.1 - start.1, k + 1);
    } else {
        lemma_between_fits(start.0 as int, end.0 - start.0, k);
        lemma_between_fits(start.0 as int, end.0 - start.0, k + 1);
        lemma_between_fits(start.1 as int, end.1 - start.1, o0);
        lemma_between_fits(start.1 as int, end.1 - start.1, o1);
    }
    assert(sign(end.0 - start.0) * (k + 1) == sign(end.0 - start.0) * k + sign(end.0 - start.0)) by (nonlinear_arith);
    assert(sign(end.1 - start.1) * (k + 1) == sign(end.1 - start.1) * k + sign(end.1 - start.1)) by (nonlinear_arith);
    assert(abs_int(sign(end.0 - start.0) * o1 - sign(end.0 - start.0) * o0) <= 1) by (nonlinear_arith)
        requires
            o0 <= o1 <= o0 + 1,
            sign(end.0 - start.0) == 1 || sign(end.0 - start.0) == 0 || sign(end.0 - start.0) == -1;
    assert(abs_int(sign(end.1 - start.1) * o1 - sign(end.1 - start.1) * o0) <= 1) by (nonlinear_arith)
        requires
            o0 <= o1 <= o0 + 1,
            sign(end.1 - start.1) == 1 || sign(end.1 - start.1) == 0 || sign(end.1 - start.1) == -1;
    let line = dda_line(start, end);
    assert(line[mn] == dda_point(start, end, mn));
    if mn <= 0xc000 {
        assert(dda_offset(start, end, mn) == nmin);
    }
    if dda_y_major(start, end) {
        assert(sign(end.1 - start.1) * mn == end.1 - start.1);
        assert(sign(end.0 - start.0) * nmin == end.0 - start.0);
    } else {
        assert(sign(end.0 - start.0) * mn == end.0 - start.0);
        assert(sign(end.1 - start.1) * nmin == end.1 - start.1);
    }
}

} // verus!
