//! Lead targeting: the point a pod steers toward this tick.
use vstd::arithmetic::div_mod::{
    lemma_div_is_ordered, lemma_div_multiples_vanish, lemma_fundamental_div_mod,
};
use vstd::prelude::*;

use crate::geometry::{
    abs, det, dot, intersect_lines, intersection, isqrt, trunc_div, Angle, Position,
    Vector, COORD_LIMIT,
};

verus! {

/// How far past the checkpoint centre an aim point may lie.
pub const CAPTURE_RADIUS: i64 = 600;

/// `m·√n <= a`, for `n > 0`.
pub open spec fn root_le(m: int, n: int, a: int) -> bool {
    if m <= 0 {
        a >= 0 || a * a <= m * m * n
    } else {
        a > 0 && m * m * n <= a * a
    }
}

/// `x` is `c + a/√n` truncated toward zero, for `n > 0`.
pub open spec fn is_truncation(x: int, c: int, a: int, n: int) -> bool {
    if root_le(-c, n, a) {
        root_le(x - c, n, a) && !root_le(x - c + 1, n, a)
    } else {
        root_le(c - x, n, -a) && !root_le(c - x + 1, n, -a)
    }
}

proof fn lemma_root_le_monotonic(m1: int, m2: int, n: int, a: int)
    requires
        n > 0,
        m1 <= m2,
        root_le(m2, n, a),
    ensures
        root_le(m1, n, a),
{
    if m1 <= 0 && m2 <= 0 && a < 0 {
        assert(m2 * m2 * n <= m1 * m1 * n) by (nonlinear_arith)
            requires
                m1 <= m2 <= 0,
                n > 0,
        ;
    } else if m1 > 0 {
        assert(m1 * m1 * n <= m2 * m2 * n) by (nonlinear_arith)
            requires
                0 < m1 <= m2,
                n > 0,
        ;
    }
}

/// `a/√n` rounded down.
fn floor_ratio(a: i64, n: u64) -> (f: i64)
    requires
        n > 0,
        -0x4000_0000 <= a <= 0x4000_0000,
    ensures
        root_le(f as int, n as int, a as int),
        !root_le(f + 1, n as int, a as int),
        -0x4000_0001 <= f <= 0x4000_0000,
{
    let m: u64 = if a < 0 {
        (-a) as u64
    } else {
        a as u64
    };
    assert(m * m <= 0x1000_0000_0000_0000) by (nonlinear_arith)
        requires
            m <= 0x4000_0000,
    ;
    let sq: u64 = m * m;
    let q: u64 = sq / n;
    let s = isqrt(q);
    proof {
        lemma_fundamental_div_mod(sq as int, n as int);
        assert(s * s * n <= sq) by (nonlinear_arith)
            requires
                s * s <= q,
                sq == n * q + sq % n,
                0 <= sq % n,
                n > 0,
        ;
        assert((s + 1) * (s + 1) * n > sq) by (nonlinear_arith)
            requires
                q < (s + 1) * (s + 1),
                sq == n * q + sq % n,
                sq % n < n,
                n > 0,
        ;
        assert(s <= m) by (nonlinear_arith)
            requires
                s * s * n <= m * m,
                n > 0,
        ;
    }
    if a >= 0 {
        proof {
            assert(sq == a * a);
            assert(s as int + 1 > 0);
            if s > 0 {
                assert(s * s * n > 0) by (nonlinear_arith)
                    requires
                        s > 0,
                        n > 0,
                ;
            }
        }
        s as i64
    } else {
        assert(s * s * n <= 0x1000_0000_0000_0000) by (nonlinear_arith)
            requires
                s * s * n <= m * m,
                m * m <= 0x1000_0000_0000_0000,
        ;
        assert(sq == a * a) by (nonlinear_arith)
            requires
                m == -a,
                sq == m * m,
        ;
        let exact = (s as u128) * (s as u128) * (n as u128) == sq as u128;
        if exact {
            proof {
                if s == 0 {
                    assert(m * m > 0) by (nonlinear_arith)
                        requires
                            m > 0,
                    ;
                }
                assert((s - 1) * (s - 1) * n < s * s * n) by (nonlinear_arith)
                    requires
                        s >= 1,
                        n > 0,
                ;
                assert((-(s as int)) * (-(s as int)) == s * s) by (nonlinear_arith);
                assert((-(s as int) + 1) * (-(s as int) + 1) == (s - 1) * (s - 1)) by (
                nonlinear_arith);
            }
            -(s as i64)
        } else {
            proof {
                assert((-(s as int) - 1) * (-(s as int) - 1) == (s + 1) * (s + 1)) by (
                nonlinear_arith);
                assert((-(s as int)) * (-(s as int)) == s * s) by (nonlinear_arith);
            }
            -(s as i64) - 1
        }
    }
}

/// `c + a/√n` truncated toward zero.
fn truncate_shift(c: i64, a: i64, n: u64) -> (x: i64)
    requires
        n > 0,
        -0x4000_0000 <= a <= 0x4000_0000,
        -0x4000_0000 <= c <= 0x4000_0000,
    ensures
        is_truncation(x as int, c as int, a as int, n as int),
{
    let f = floor_ratio(a, n);
    if c + f >= 0 {
        proof {
            if !root_le(-c, n as int, a as int) {
                lemma_root_le_monotonic(-c, f as int, n as int, a as int);
            }
        }
        c + f
    } else {
        let g = floor_ratio(-a, n);
        proof {
            if root_le(-c, n as int, a as int) {
                lemma_root_le_monotonic(f + 1, -c, n as int, a as int);
            }
        }
        c - g
    }
}

/// The velocity components accepted by the solver: a move between two
/// positions of the world.
pub open spec fn velocity_in_range(v: Vector) -> bool {
    -2 * COORD_LIMIT <= v.x <= 2 * COORD_LIMIT && -2 * COORD_LIMIT <= v.y <= 2 * COORD_LIMIT
}

pub open spec fn as_vector(p: Position) -> Vector {
    Vector { x: p.x as i64, y: p.y as i64 }
}

/// The vector from `from` to `to`.
pub open spec fn offset(from: Position, to: Position) -> Vector {
    Vector { x: (to.x - from.x) as i64, y: (to.y - from.y) as i64 }
}

/// `v` turned by a quarter turn counter-clockwise.
pub open spec fn perpendicular(v: Vector) -> Vector {
    Vector { x: (-v.y) as i64, y: v.x }
}

/// Whether lead targeting applies: the pod moves, it moves toward the
/// checkpoint (`|angle| < 90°`), and neither the component test nor a
/// parallel pair of directions makes the intersection degenerate.
pub open spec fn leads(position: Position, velocity: Vector, checkpoint: Position) -> bool {
    let p = offset(position, checkpoint);
    let perp = perpendicular(p);
    &&& !(velocity.x == 0 && velocity.y == 0)
    &&& (Angle { cos_part: dot(p, velocity) as i128, sin_part: det(p, velocity) as i128 }).below_right_spec()
    &&& perp.x - velocity.x != 0
    &&& perp.y - velocity.y != 0
    &&& det(perp, velocity) != 0
}

/// The intersection `checkpoint + t·perp` lies at `t = lead_num / lead_den`.
pub open spec fn lead_num(position: Position, velocity: Vector, checkpoint: Position) -> int {
    det(offset(checkpoint, position), velocity)
}

pub open spec fn lead_den(position: Position, velocity: Vector, checkpoint: Position) -> int {
    det(perpendicular(offset(position, checkpoint)), velocity)
}

/// The candidate lead point lies more than the capture radius away from the
/// checkpoint: `|t·perp| > CAPTURE_RADIUS`.
pub open spec fn beyond_radius(position: Position, velocity: Vector, checkpoint: Position) -> bool {
    let num = lead_num(position, velocity, checkpoint);
    let den = lead_den(position, velocity, checkpoint);
    let p = offset(position, checkpoint);
    num * num * (p.x * p.x + p.y * p.y) > CAPTURE_RADIUS * CAPTURE_RADIUS * (den * den)
}

/// The sign of `t`.
pub open spec fn lead_sign(position: Position, velocity: Vector, checkpoint: Position) -> int {
    let num = lead_num(position, velocity, checkpoint);
    let den = lead_den(position, velocity, checkpoint);
    if num * den > 0 {
        1
    } else if num * den < 0 {
        -1
    } else {
        0
    }
}

/// The aim point for a pod at `position` moving by `velocity` toward
/// `checkpoint`, truncated toward zero.
pub open spec fn is_aim_point(position: Position, velocity: Vector, checkpoint: Position, r: Vector) -> bool {
    let p = offset(position, checkpoint);
    let perp = perpendicular(p);
    let n = p.x * p.x + p.y * p.y;
    let s = lead_sign(position, velocity, checkpoint);
    if !leads(position, velocity, checkpoint) {
        r.x == checkpoint.x && r.y == checkpoint.y
    } else if !beyond_radius(position, velocity, checkpoint) {
        (r.x as int, r.y as int) == intersection(as_vector(checkpoint), perp, as_vector(position), velocity)
    } else {
        &&& is_truncation(r.x as int, checkpoint.x as int, CAPTURE_RADIUS * s * perp.x, n)
        &&& is_truncation(r.y as int, checkpoint.y as int, CAPTURE_RADIUS * s * perp.y, n)
    }
}

proof fn lemma_mul_bound(a: int, b: int, ba: int, bb: int)
    requires
        -ba <= a <= ba,
        -bb <= b <= bb,
    ensures
        -(ba * bb) <= a * b <= ba * bb,
{
    assert(-(ba * bb) <= a * b <= ba * bb) by (nonlinear_arith)
        requires
            -ba <= a <= ba,
            -bb <= b <= bb,
    ;
}

/// Truncating `(c·k + b) / k` stays within `r` of `c` when `|b| <= r·|k|`.
proof fn lemma_trunc_div_near(c: int, b: int, k: int, r: int)
    requires
        k != 0,
        r >= 0,
        -r * abs(k) <= b <= r * abs(k),
    ensures
        c - r <= trunc_div(c * k + b, k) <= c + r,
{
    let x = c * k + b;
    let ak = abs(k);
    let ax = if k > 0 {
        x
    } else {
        -x
    };
    assert(ax == c * ak + (if k > 0 {
        b
    } else {
        -b
    })) by (nonlinear_arith)
        requires
            ak == abs(k),
            ax == (if k > 0 {
                x
            } else {
                -x
            }),
            x == c * k + b,
    ;
    assert((c - r) * ak <= ax <= (c + r) * ak) by (nonlinear_arith)
        requires
            ax == c * ak + (if k > 0 {
                b
            } else {
                -b
            }),
            -r * ak <= b <= r * ak,
    ;
    lemma_div_multiples_vanish(c - r, ak);
    lemma_div_multiples_vanish(c + r, ak);
    lemma_div_multiples_vanish(-(c - r), ak);
    lemma_div_multiples_vanish(-(c + r), ak);
    assert(ak * (c - r) == (c - r) * ak && ak * (c + r) == (c + r) * ak) by (nonlinear_arith);
    assert(ak * -(c - r) == -((c - r) * ak) && ak * -(c + r) == -((c + r) * ak)) by (
    nonlinear_arith);
    if ax >= 0 {
        lemma_div_is_ordered((c - r) * ak, ax, ak);
        lemma_div_is_ordered(ax, (c + r) * ak, ak);
        assert(trunc_div(x, k) == ax / ak);
    } else {
        lemma_div_is_ordered(-((c + r) * ak), -ax, ak);
        lemma_div_is_ordered(-ax, -((c - r) * ak), ak);
        assert(trunc_div(x, k) == -((-ax) / ak));
    }
}

/// `-r·√n <= a` and `a < (r + 1)·√n` when `|a| <= r·√n`.
proof fn lemma_root_le_range(n: int, a: int, r: int)
    requires
        n > 0,
        r >= 0,
        a * a <= r * r * n,
    ensures
        root_le(-r, n, a),
        !root_le(r + 1, n, a),
{
    assert((-r) * (-r) == r * r) by (nonlinear_arith);
    assert(r * r * n < (r + 1) * (r + 1) * n) by (nonlinear_arith)
        requires
            r >= 0,
            n > 0,
    ;
}

/// A truncation of `c + a/√n` with `|a| <= r·√n` lies within `r` of `c`.
proof fn lemma_truncation_near(x: int, c: int, a: int, n: int, r: int)
    requires
        n > 0,
        r >= 0,
        a * a <= r * r * n,
        is_truncation(x, c, a, n),
    ensures
        c - r <= x <= c + r,
{
    assert((-a) * (-a) == a * a) by (nonlinear_arith);
    lemma_root_le_range(n, a, r);
    lemma_root_le_range(n, -a, r);
    if root_le(-c, n, a) {
        if x - c + 1 <= -r {
            lemma_root_le_monotonic(x - c + 1, -r, n, a);
        }
        if x - c >= r + 1 {
            lemma_root_le_monotonic(r + 1, x - c, n, a);
        }
    } else {
        if c - x + 1 <= -r {
            lemma_root_le_monotonic(c - x + 1, -r, n, -a);
        }
        if c - x >= r + 1 {
            lemma_root_le_monotonic(r + 1, c - x, n, -a);
        }
    }
}

/// In the unclamped case the lead point is `checkpoint + t·perp` with
/// `|t·perp| <= CAPTURE_RADIUS`, so each coordinate stays within the radius.
proof fn lemma_lead_point_near(position: Position, velocity: Vector, checkpoint: Position)
    requires
        position.in_world(),
        checkpoint.in_world(),
        velocity_in_range(velocity),
        leads(position, velocity, checkpoint),
        !beyond_radius(position, velocity, checkpoint),
    ensures
        checkpoint.x - CAPTURE_RADIUS <= intersection(
            as_vector(checkpoint),
            perpendicular(offset(position, checkpoint)),
            as_vector(position),
            velocity,
        ).0 <= checkpoint.x + CAPTURE_RADIUS,
        checkpoint.y - CAPTURE_RADIUS <= intersection(
            as_vector(checkpoint),
            perpendicular(offset(position, checkpoint)),
            as_vector(position),
            velocity,
        ).1 <= checkpoint.y + CAPTURE_RADIUS,
{
    let p = offset(position, checkpoint);
    let perp = perpendicular(p);
    let a = as_vector(checkpoint);
    let c = as_vector(position);
    let k = det(perp, velocity);
    let num = (c.x - a.x) * velocity.y - (c.y - a.y) * velocity.x;
    let n = p.x * p.x + p.y * p.y;
    let r = CAPTURE_RADIUS as int;
    assert(num == lead_num(position, velocity, checkpoint));
    assert(k == lead_den(position, velocity, checkpoint));
    assert(num * num * n <= r * r * (k * k));
    assert(perp.x * perp.x <= n && perp.y * perp.y <= n) by (nonlinear_arith)
        requires
            perp.x == -p.y,
            perp.y == p.x,
            n == p.x * p.x + p.y * p.y,
    ;
    assert(-r * abs(k) <= perp.x * num <= r * abs(k)) by (nonlinear_arith)
        requires
            perp.x * perp.x <= n,
            num * num * n <= r * r * (k * k),
            r > 0,
    ;
    assert(-r * abs(k) <= perp.y * num <= r * abs(k)) by (nonlinear_arith)
        requires
            perp.y * perp.y <= n,
            num * num * n <= r * r * (k * k),
            r > 0,
    ;
    lemma_trunc_div_near(a.x as int, perp.x * num, k, r);
    lemma_trunc_div_near(a.y as int, perp.y * num, k, r);
}

/// Computes the aim point: the checkpoint itself unless lead targeting
/// applies; else the crossing of the velocity line through the pod with the
/// line through the checkpoint perpendicular to the pod-to-checkpoint
/// direction, pulled back to the capture radius when it lies beyond it.
pub fn solve_aim(position: &Position, velocity: &Vector, checkpoint: &Position) -> (r: Vector)
    requires
        position.in_world(),
        checkpoint.in_world(),
        velocity_in_range(*velocity),
    ensures
        is_aim_point(*position, *velocity, *checkpoint, r),
        velocity.x == 0 && velocity.y == 0 ==> r.x == checkpoint.x && r.y == checkpoint.y,
{
    let target = Vector::new(checkpoint);
    if velocity.is_zero() {
        return target;
    }
    let pos = Vector::new(position);
    let pod_to_checkpoint = target.substract(&pos);
    let perp = pod_to_checkpoint.rotate(1);
    let ghost b: int = 0x10_0000;
    proof {
        lemma_mul_bound(pod_to_checkpoint.x as int, velocity.x as int, b, b);
        lemma_mul_bound(pod_to_checkpoint.y as int, velocity.y as int, b, b);
        lemma_mul_bound(pod_to_checkpoint.x as int, velocity.y as int, b, b);
        lemma_mul_bound(pod_to_checkpoint.y as int, velocity.x as int, b, b);
        lemma_mul_bound(pod_to_checkpoint.x as int, pod_to_checkpoint.x as int, b, b);
        lemma_mul_bound(pod_to_checkpoint.y as int, pod_to_checkpoint.y as int, b, b);
    }
    let angle = pod_to_checkpoint.get_angle(velocity);
    if !angle.below_right() {
        return target;
    }
    if perp.x - velocity.x == 0 || perp.y - velocity.y == 0 {
        return target;
    }
    proof {
        lemma_mul_bound(perp.x as int, velocity.y as int, b, b);
        lemma_mul_bound(perp.y as int, velocity.x as int, b, b);
        lemma_mul_bound(-pod_to_checkpoint.x as int, velocity.y as int, b, b);
        lemma_mul_bound(-pod_to_checkpoint.y as int, velocity.x as int, b, b);
    }
    let den = perp.determinant(velocity);
    if den == 0 {
        return target;
    }
    let back = pos.substract(&target);
    let num = back.determinant(velocity);
    let n = pod_to_checkpoint.module_squared();
    assert(n > 0) by (nonlinear_arith)
        requires
            n == pod_to_checkpoint.x * pod_to_checkpoint.x + pod_to_checkpoint.y
                * pod_to_checkpoint.y,
            den == perp.x * velocity.y - perp.y * velocity.x,
            perp.x == -pod_to_checkpoint.y,
            perp.y == pod_to_checkpoint.x,
            den != 0,
    ;
    let ghost bb: int = 0x200_0000_0000;
    assert(-bb <= num <= bb && -bb <= den <= bb && 0 <= n <= bb);
    proof {
        lemma_mul_bound(num as int, num as int, bb, bb);
        lemma_mul_bound(den as int, den as int, bb, bb);
        lemma_mul_bound(num * num, n as int, bb * bb, bb);
    }
    let radius = CAPTURE_RADIUS as i128;
    if num * num * n > radius * radius * (den * den) {
        let sign: i64 = if (num > 0) == (den > 0) {
            1
        } else {
            -1
        };
        proof {
            assert(den * den >= 0) by (nonlinear_arith);
            if num == 0 {
                assert(num * num * n == 0) by (nonlinear_arith)
                    requires
                        num == 0,
                ;
            }
            if num > 0 && den > 0 || num < 0 && den < 0 {
                assert(num * den > 0) by (nonlinear_arith)
                    requires
                        num > 0 && den > 0 || num < 0 && den < 0,
                ;
            } else {
                assert(num * den < 0) by (nonlinear_arith)
                    requires
                        num > 0 && den < 0 || num < 0 && den > 0,
                ;
            }
        }
        let scale: i64 = CAPTURE_RADIUS * sign;
        proof {
            lemma_mul_bound(scale as int, perp.x as int, 600, b);
            lemma_mul_bound(scale as int, perp.y as int, 600, b);
        }
        let x = truncate_shift(checkpoint.x as i64, scale * perp.x, n as u64);
        let y = truncate_shift(checkpoint.y as i64, scale * perp.y, n as u64);
        Vector { x, y }
    } else {
        proof {
            lemma_lead_point_near(*position, *velocity, *checkpoint);
        }
        intersect_lines(&target, &perp, &pos, velocity)
    }
}

/// Every aim point lies within the capture radius of the checkpoint along
/// each axis.
pub proof fn lemma_aim_within_capture_box(
    position: Position,
    velocity: Vector,
    checkpoint: Position,
    r: Vector,
)
    requires
        position.in_world(),
        checkpoint.in_world(),
        velocity_in_range(velocity),
        is_aim_point(position, velocity, checkpoint, r),
    ensures
        abs(r.x - checkpoint.x) <= CAPTURE_RADIUS,
        abs(r.y - checkpoint.y) <= CAPTURE_RADIUS,
{
    if leads(position, velocity, checkpoint) {
        if !beyond_radius(position, velocity, checkpoint) {
            lemma_lead_point_near(position, velocity, checkpoint);
        } else {
            let p = offset(position, checkpoint);
            let perp = perpendicular(p);
            let n = p.x * p.x + p.y * p.y;
            let s = lead_sign(position, velocity, checkpoint);
            let rad = CAPTURE_RADIUS as int;
            assert(n > 0) by (nonlinear_arith)
                requires
                    n == p.x * p.x + p.y * p.y,
                    det(perp, velocity) != 0,
                    perp.x == -p.y,
                    perp.y == p.x,
            ;
            assert((rad * s * perp.x) * (rad * s * perp.x) <= rad * rad * n) by (nonlinear_arith)
                requires
                    n == p.x * p.x + p.y * p.y,
                    perp.x == -p.y,
                    -1 <= s <= 1,
                    rad > 0,
            ;
            assert((rad * s * perp.y) * (rad * s * perp.y) <= rad * rad * n) by (nonlinear_arith)
                requires
                    n == p.x * p.x + p.y * p.y,
                    perp.y == p.x,
                    -1 <= s <= 1,
                    rad > 0,
            ;
            lemma_truncation_near(r.x as int, checkpoint.x as int, rad * s * perp.x, n, rad);
            lemma_truncation_near(r.y as int, checkpoint.y as int, rad * s * perp.y, n, rad);
        }
    }
}

} // verus!
