//! Exact 2D integer geometry: positions, vectors, angles and line intersection.
use vstd::arithmetic::div_mod::lemma_div_multiples_vanish;
use vstd::prelude::*;

verus! {

/// Largest magnitude of a world coordinate that the steering computations
/// accept; it keeps every intermediate product within 128 bits.
pub const COORD_LIMIT: i32 = 500_000;

/// Integer world coordinates, as delivered by observations.
#[derive(Clone, Copy, Debug, PartialEq, Eq, Structural)]
pub struct Position {
    pub x: i32,
    pub y: i32,
}

impl Position {
    pub fn new(x: i32, y: i32) -> (r: Position)
        ensures
            r.x == x,
            r.y == y,
    {
        Position { x, y }
    }

    /// Both coordinates lie within the accepted world range.
    pub open spec fn in_world(self) -> bool {
        -COORD_LIMIT <= self.x <= COORD_LIMIT && -COORD_LIMIT <= self.y <= COORD_LIMIT
    }

    pub fn is_in_world(&self) -> (r: bool)
        ensures
            r == self.in_world(),
    {
        -COORD_LIMIT <= self.x && self.x <= COORD_LIMIT && -COORD_LIMIT <= self.y && self.y
            <= COORD_LIMIT
    }
}

/// A 2D vector with integer components.
#[derive(Clone, Copy, Debug, PartialEq, Eq, Structural)]
pub struct Vector {
    pub x: i64,
    pub y: i64,
}

pub open spec fn dot(a: Vector, b: Vector) -> int {
    a.x * b.x + a.y * b.y
}

pub open spec fn det(a: Vector, b: Vector) -> int {
    a.x * b.y - a.y * b.x
}

pub open spec fn norm_sq(a: Vector) -> int {
    a.x * a.x + a.y * a.y
}

pub open spec fn fits_i64(v: int) -> bool {
    i64::MIN <= v <= i64::MAX
}

pub open spec fn fits_i128(v: int) -> bool {
    i128::MIN <= v <= i128::MAX
}

/// The vector `(x, y)` turned counter-clockwise by `k` quarter turns.
pub open spec fn rotated(x: int, y: int, k: int) -> (int, int) {
    let q = k % 4;
    if q == 0 {
        (x, y)
    } else if q == 1 {
        (-y, x)
    } else if q == 2 {
        (-x, -y)
    } else {
        (y, -x)
    }
}

proof fn lemma_product_fits(a: i64, b: i64)
    ensures
        -0x4000_0000_0000_0000_0000_0000_0000_0000 <= a * b <= 0x4000_0000_0000_0000_0000_0000_0000_0000,
{
    assert(-0x8000_0000_0000_0000 <= a <= 0x7fff_ffff_ffff_ffff);
    assert(-0x8000_0000_0000_0000 <= b <= 0x7fff_ffff_ffff_ffff);
    assert(-0x4000_0000_0000_0000_0000_0000_0000_0000 <= a * b
        <= 0x4000_0000_0000_0000_0000_0000_0000_0000) by (nonlinear_arith)
        requires
            -0x8000_0000_0000_0000 <= a <= 0x7fff_ffff_ffff_ffff,
            -0x8000_0000_0000_0000 <= b <= 0x7fff_ffff_ffff_ffff,
    ;
}

impl Vector {
    pub fn new(pos: &Position) -> (r: Vector)
        ensures
            r.x == pos.x,
            r.y == pos.y,
    {
        Vector { x: pos.x as i64, y: pos.y as i64 }
    }

    pub fn zero() -> (r: Vector)
        ensures
            r.x == 0,
            r.y == 0,
    {
        Vector { x: 0, y: 0 }
    }

    pub fn is_zero(&self) -> (r: bool)
        ensures
            r == (self.x == 0 && self.y == 0),
    {
        self.x == 0 && self.y == 0
    }

    pub fn add(&self, other: &Vector) -> (r: Vector)
        requires
            fits_i64(self.x + other.x),
            fits_i64(self.y + other.y),
        ensures
            r.x == self.x + other.x,
            r.y == self.y + other.y,
    {
        Vector { x: self.x + other.x, y: self.y + other.y }
    }

    pub fn substract(&self, other: &Vector) -> (r: Vector)
        requires
            fits_i64(self.x - other.x),
            fits_i64(self.y - other.y),
        ensures
            r.x == self.x - other.x,
            r.y == self.y - other.y,
    {
        Vector { x: self.x - other.x, y: self.y - other.y }
    }

    pub fn multiply(&self, factor: i64) -> (r: Vector)
        requires
            fits_i64(self.x * factor),
            fits_i64(self.y * factor),
        ensures
            r.x == self.x * factor,
            r.y == self.y * factor,
    {
        Vector { x: self.x * factor, y: self.y * factor }
    }

    pub fn dot_product(&self, other: &Vector) -> (r: i128)
        requires
            fits_i128(dot(*self, *other)),
        ensures
            r == dot(*self, *other),
    {
        proof {
            lemma_product_fits(self.x, other.x);
            lemma_product_fits(self.y, other.y);
        }
        (self.x as i128) * (other.x as i128) + (self.y as i128) * (other.y as i128)
    }

    /// The z-component of the cross product `self × other`.
    pub fn determinant(&self, other: &Vector) -> (r: i128)
        requires
            fits_i128(det(*self, *other)),
        ensures
            r == det(*self, *other),
    {
        proof {
            lemma_product_fits(self.x, other.y);
            lemma_product_fits(self.y, other.x);
        }
        (self.x as i128) * (other.y as i128) - (self.y as i128) * (other.x as i128)
    }

    /// The squared Euclidean norm.
    pub fn module_squared(&self) -> (r: i128)
        requires
            fits_i128(norm_sq(*self)),
        ensures
            r == norm_sq(*self),
    {
        self.dot_product(self)
    }

    /// The Euclidean norm rounded down to an integer.
    pub fn module(&self) -> (r: u64)
        requires
            -0x8000_0000 < self.x < 0x8000_0000,
            -0x8000_0000 < self.y < 0x8000_0000,
        ensures
            r * r <= norm_sq(*self) < (r + 1) * (r + 1),
    {
        assert(0 <= self.x * self.x < 0x4000_0000_0000_0000) by (nonlinear_arith)
            requires
                -0x8000_0000 < self.x < 0x8000_0000,
        ;
        assert(0 <= self.y * self.y < 0x4000_0000_0000_0000) by (nonlinear_arith)
            requires
                -0x8000_0000 < self.y < 0x8000_0000,
        ;
        let n = self.module_squared();
        isqrt(n as u64)
    }

    /// The vector turned counter-clockwise by a whole number of quarter turns.
    pub fn rotate(&self, quarter_turns: i64) -> (r: Vector)
        requires
            self.x > i64::MIN,
            self.y > i64::MIN,
        ensures
            (r.x as int, r.y as int) == rotated(self.x as int, self.y as int, quarter_turns as int),
    {
        let k: u64 = if quarter_turns >= 0 {
            (quarter_turns as u64) % 4
        } else {
            3 - ((-(quarter_turns + 1)) as u64) % 4
        };
        assert(k == quarter_turns % 4) by {
            if quarter_turns < 0 {
                let m = -(quarter_turns + 1);
                assert(quarter_turns == -m - 1);
                assert((-m - 1) % 4 == 3 - m % 4) by (nonlinear_arith)
                    requires
                        m >= 0,
                ;
            }
        }
        if k == 0 {
            Vector { x: self.x, y: self.y }
        } else if k == 1 {
            Vector { x: -self.y, y: self.x }
        } else if k == 2 {
            Vector { x: -self.x, y: -self.y }
        } else {
            Vector { x: self.y, y: -self.x }
        }
    }

    /// The signed angle from `self` to `other`.
    pub fn get_angle(&self, other: &Vector) -> (r: Angle)
        requires
            fits_i128(dot(*self, *other)),
            fits_i128(det(*self, *other)),
        ensures
            r.cos_part == dot(*self, *other),
            r.sin_part == det(*self, *other),
    {
        Angle { cos_part: self.dot_product(other), sin_part: self.determinant(other) }
    }
}

/// The angle `atan2(sin_part, cos_part)`, in `(-180°, 180°]`.
///
/// Measured from `a` to `b` it is held as `cos_part = a·b` and
/// `sin_part = a×b`, which fixes it exactly without trigonometry.
#[derive(Clone, Copy, Debug, PartialEq, Eq, Structural)]
pub struct Angle {
    pub cos_part: i128,
    pub sin_part: i128,
}

/// tan 70°, scaled by `TAN_SCALE` and rounded down.
pub const TAN_70: i128 = 2_747_477;

/// tan 15°, scaled by `TAN_SCALE` and rounded down.
pub const TAN_15: i128 = 267_949;

pub const TAN_SCALE: i128 = 1_000_000;

pub open spec fn abs(v: int) -> int {
    if v < 0 {
        -v
    } else {
        v
    }
}

impl Angle {
    /// The angle is exactly zero (a null direction counts as zero, as `atan2(0, 0)` does).
    pub open spec fn is_zero_spec(self) -> bool {
        self.sin_part == 0 && self.cos_part >= 0
    }

    /// The angle is exactly a half turn.
    pub open spec fn is_half_turn_spec(self) -> bool {
        self.sin_part == 0 && self.cos_part < 0
    }

    /// `|angle| < 90°`.
    pub open spec fn below_right_spec(self) -> bool {
        self.cos_part > 0 || (self.cos_part == 0 && self.sin_part == 0)
    }

    /// `|angle| > 70°`.
    pub open spec fn above_70_spec(self) -> bool {
        if self.cos_part > 0 {
            abs(self.sin_part as int) * TAN_SCALE > TAN_70 * self.cos_part
        } else {
            !(self.cos_part == 0 && self.sin_part == 0)
        }
    }

    /// `|angle| < 110°`.
    pub open spec fn below_110_spec(self) -> bool {
        if self.cos_part >= 0 {
            true
        } else {
            abs(self.sin_part as int) * TAN_SCALE > TAN_70 * (-self.cos_part)
        }
    }

    /// `|angle| < 15°`.
    pub open spec fn below_15_spec(self) -> bool {
        if self.cos_part > 0 {
            abs(self.sin_part as int) * TAN_SCALE < TAN_15 * self.cos_part
        } else {
            self.cos_part == 0 && self.sin_part == 0
        }
    }

    pub open spec fn bounded(self) -> bool {
        -0x1_0000_0000_0000_0000_0000 <= self.cos_part <= 0x1_0000_0000_0000_0000_0000
            && -0x1_0000_0000_0000_0000_0000 <= self.sin_part <= 0x1_0000_0000_0000_0000_0000
    }

    pub fn is_zero(&self) -> (r: bool)
        ensures
            r == self.is_zero_spec(),
    {
        self.sin_part == 0 && self.cos_part >= 0
    }

    pub fn is_half_turn(&self) -> (r: bool)
        ensures
            r == self.is_half_turn_spec(),
    {
        self.sin_part == 0 && self.cos_part < 0
    }

    pub fn below_right(&self) -> (r: bool)
        ensures
            r == self.below_right_spec(),
    {
        self.cos_part > 0 || (self.cos_part == 0 && self.sin_part == 0)
    }

    pub fn above_70(&self) -> (r: bool)
        requires
            self.bounded(),
        ensures
            r == self.above_70_spec(),
    {
        if self.cos_part > 0 {
            abs_i128(self.sin_part) * TAN_SCALE > TAN_70 * self.cos_part
        } else {
            !(self.cos_part == 0 && self.sin_part == 0)
        }
    }

    pub fn below_110(&self) -> (r: bool)
        requires
            self.bounded(),
        ensures
            r == self.below_110_spec(),
    {
        if self.cos_part >= 0 {
            true
        } else {
            abs_i128(self.sin_part) * TAN_SCALE > TAN_70 * (-self.cos_part)
        }
    }

    pub fn below_15(&self) -> (r: bool)
        requires
            self.bounded(),
        ensures
            r == self.below_15_spec(),
    {
        if self.cos_part > 0 {
            abs_i128(self.sin_part) * TAN_SCALE < TAN_15 * self.cos_part
        } else {
            self.cos_part == 0 && self.sin_part == 0
        }
    }
}

fn abs_i128(v: i128) -> (r: i128)
    requires
        v > i128::MIN,
    ensures
        r == abs(v as int),
{
    if v < 0 {
        -v
    } else {
        v
    }
}

/// The integer square root: the largest `r` with `r * r <= n`.
pub fn isqrt(n: u64) -> (r: u64)
    ensures
        r * r <= n < (r + 1) * (r + 1),
{
    let mut lo: u64 = 0;
    let mut hi: u64 = 0x1_0000_0000;
    assert(n < hi * hi) by (nonlinear_arith)
        requires
            n <= u64::MAX,
            hi == 0x1_0000_0000,
    ;
    while hi - lo > 1
        invariant
            lo < hi <= 0x1_0000_0000,
            lo * lo <= n,
            n < hi * hi,
        decreases hi - lo,
    {
        let mid = lo + (hi - lo) / 2;
        assert(mid * mid <= 0x1_0000_0000_0000_0000) by (nonlinear_arith)
            requires
                mid <= 0x1_0000_0000,
        ;
        if (mid as u128) * (mid as u128) <= n as u128 {
            lo = mid;
        } else {
            hi = mid;
        }
    }
    assert(hi == lo + 1);
    lo
}

/// `a / b` rounded toward zero, for `b != 0`.
pub open spec fn trunc_div(a: int, b: int) -> int {
    if (a >= 0) == (b > 0) {
        abs(a) / abs(b)
    } else {
        -(abs(a) / abs(b))
    }
}

/// The magnitude of a vector component accepted by `intersect_lines`.
pub open spec fn line_component(v: i64) -> bool {
    -0x4000_0000 <= v <= 0x4000_0000
}

pub open spec fn line_vector(v: Vector) -> bool {
    line_component(v.x) && line_component(v.y)
}

/// The crossing of the lines `a + t·b` and `c + u·d`, each coordinate
/// truncated toward zero. The crossing is at `t = ((c - a)×d) / (b×d)`.
pub open spec fn intersection(a: Vector, b: Vector, c: Vector, d: Vector) -> (int, int) {
    let k = det(b, d);
    let num = (c.x - a.x) * d.y - (c.y - a.y) * d.x;
    (trunc_div(a.x * k + b.x * num, k), trunc_div(a.y * k + b.y * num, k))
}

fn trunc_div_i128(a: i128, b: i128) -> (r: i128)
    requires
        b != 0,
        a > i128::MIN,
        b > i128::MIN,
    ensures
        r == trunc_div(a as int, b as int),
{
    let ua = if a < 0 {
        -a
    } else {
        a
    };
    let ub = if b < 0 {
        -b
    } else {
        b
    };
    let q = ua / ub;
    if (a >= 0) == (b > 0) {
        q
    } else {
        -q
    }
}

/// Intersects the line through `a` along `b` with the line through `c`
/// along `d`. The two directions must not be parallel.
pub fn intersect_lines(a: &Vector, b: &Vector, c: &Vector, d: &Vector) -> (r: Vector)
    requires
        line_vector(*a),
        line_vector(*b),
        line_vector(*c),
        line_vector(*d),
        det(*b, *d) != 0,
        fits_i64(intersection(*a, *b, *c, *d).0),
        fits_i64(intersection(*a, *b, *c, *d).1),
    ensures
        (r.x as int, r.y as int) == intersection(*a, *b, *c, *d),
{
    let ax = a.x as i128;
    let ay = a.y as i128;
    let bx = b.x as i128;
    let by = b.y as i128;
    let cx = c.x as i128;
    let cy = c.y as i128;
    let dx = d.x as i128;
    let dy = d.y as i128;
    assert(-0x1_0000_0000_0000_0000 <= bx * dy <= 0x1_0000_0000_0000_0000) by (nonlinear_arith)
        requires
            -0x4000_0000 <= bx <= 0x4000_0000,
            -0x4000_0000 <= dy <= 0x4000_0000,
    ;
    assert(-0x1_0000_0000_0000_0000 <= by * dx <= 0x1_0000_0000_0000_0000) by (nonlinear_arith)
        requires
            -0x4000_0000 <= by <= 0x4000_0000,
            -0x4000_0000 <= dx <= 0x4000_0000,
    ;
    let k = bx * dy - by * dx;
    let ex = cx - ax;
    let ey = cy - ay;
    assert(-0x2_0000_0000_0000_0000 <= ex * dy <= 0x2_0000_0000_0000_0000) by (nonlinear_arith)
        requires
            -0x8000_0000 <= ex <= 0x8000_0000,
            -0x4000_0000 <= dy <= 0x4000_0000,
    ;
    assert(-0x2_0000_0000_0000_0000 <= ey * dx <= 0x2_0000_0000_0000_0000) by (nonlinear_arith)
        requires
            -0x8000_0000 <= ey <= 0x8000_0000,
            -0x4000_0000 <= dx <= 0x4000_0000,
    ;
    let num = ex * dy - ey * dx;
    assert(-0x8000_0000_0000_0000_0000_0000_0000 <= ax * k <= 0x8000_0000_0000_0000_0000_0000_0000)
        by (nonlinear_arith)
        requires
            -0x4000_0000 <= ax <= 0x4000_0000,
            -0x2_0000_0000_0000_0000 <= k <= 0x2_0000_0000_0000_0000,
    ;
    assert(-0x8000_0000_0000_0000_0000_0000_0000 <= bx * num <= 0x8000_0000_0000_0000_0000_0000_0000)
        by (nonlinear_arith)
        requires
            -0x4000_0000 <= bx <= 0x4000_0000,
            -0x4_0000_0000_0000_0000 <= num <= 0x4_0000_0000_0000_0000,
    ;
    assert(-0x8000_0000_0000_0000_0000_0000_0000 <= ay * k <= 0x8000_0000_0000_0000_0000_0000_0000)
        by (nonlinear_arith)
        requires
            -0x4000_0000 <= ay <= 0x4000_0000,
            -0x2_0000_0000_0000_0000 <= k <= 0x2_0000_0000_0000_0000,
    ;
    assert(-0x8000_0000_0000_0000_0000_0000_0000 <= by * num <= 0x8000_0000_0000_0000_0000_0000_0000)
        by (nonlinear_arith)
        requires
            -0x4000_0000 <= by <= 0x4000_0000,
            -0x4_0000_0000_0000_0000 <= num <= 0x4_0000_0000_0000_0000,
    ;
    let x = trunc_div_i128(ax * k + bx * num, k);
    let y = trunc_div_i128(ay * k + by * num, k);
    Vector { x: x as i64, y: y as i64 }
}

/// Turning by no quarter turns leaves a vector as it is, and turning by `k`
/// and then by `-k` quarter turns gives back the vector.
pub proof fn lemma_rotate_inverse(x: int, y: int, k: int)
    ensures
        rotated(x, y, 0) == (x, y),
        rotated(rotated(x, y, k).0, rotated(x, y, k).1, -k) == (x, y),
{
    assert((-k) % 4 == (4 - k % 4) % 4) by (nonlinear_arith);
}

/// The angle from a non-zero vector to itself, as `get_angle` gives it, is
/// zero, and the angle from it to its opposite is a half turn.
pub proof fn lemma_angle_self_and_opposite(v: Vector, w: Vector, same: Angle, opposite: Angle)
    requires
        !(v.x == 0 && v.y == 0),
        w.x == -v.x,
        w.y == -v.y,
    ensures
        same.cos_part == dot(v, v) && same.sin_part == det(v, v) ==> same.is_zero_spec(),
        opposite.cos_part == dot(v, w) && opposite.sin_part == det(v, w)
            ==> opposite.is_half_turn_spec(),
{
    assert(v.x * v.x + v.y * v.y > 0) by (nonlinear_arith)
        requires
            !(v.x == 0 && v.y == 0),
    ;
    assert(v.x * w.x + v.y * w.y == -(v.x * v.x + v.y * v.y)) by (nonlinear_arith)
        requires
            w.x == -v.x,
            w.y == -v.y,
    ;
    assert(v.x * w.y - v.y * w.x == 0) by (nonlinear_arith)
        requires
            w.x == -v.x,
            w.y == -v.y,
    ;
}

proof fn lemma_trunc_div_exact(m: int, k: int)
    requires
        k != 0,
    ensures
        trunc_div(m * k, k) == m,
{
    assert(abs(m * k) == abs(m) * abs(k)) by (nonlinear_arith);
    lemma_div_multiples_vanish(abs(m), abs(k));
    assert(abs(k) * abs(m) == abs(m) * abs(k)) by (nonlinear_arith);
    if m > 0 {
        assert((m * k >= 0) == (k > 0)) by (nonlinear_arith)
            requires
                m > 0,
                k != 0,
        ;
    } else if m < 0 {
        assert((m * k >= 0) == (k < 0)) by (nonlinear_arith)
            requires
                m < 0,
                k != 0,
        ;
    }
}

/// Two lines built to cross at `p` (`a = p - t·b`, `c = p - u·d`) with
/// non-parallel directions intersect exactly at `p`.
pub proof fn lemma_intersection_of_crossing_lines(
    p: Vector,
    a: Vector,
    b: Vector,
    c: Vector,
    d: Vector,
    t: int,
    u: int,
)
    requires
        det(b, d) != 0,
        a.x == p.x - t * b.x,
        a.y == p.y - t * b.y,
        c.x == p.x - u * d.x,
        c.y == p.y - u * d.y,
    ensures
        intersection(a, b, c, d) == (p.x as int, p.y as int),
{
    let k = det(b, d);
    let num = (c.x - a.x) * d.y - (c.y - a.y) * d.x;
    assert(num == t * k) by (nonlinear_arith)
        requires
            k == b.x * d.y - b.y * d.x,
            num == (c.x - a.x) * d.y - (c.y - a.y) * d.x,
            a.x == p.x - t * b.x,
            a.y == p.y - t * b.y,
            c.x == p.x - u * d.x,
            c.y == p.y - u * d.y,
    ;
    assert(a.x * k + b.x * num == p.x * k) by (nonlinear_arith)
        requires
            num == t * k,
            a.x == p.x - t * b.x,
    ;
    assert(a.y * k + b.y * num == p.y * k) by (nonlinear_arith)
        requires
            num == t * k,
            a.y == p.y - t * b.y,
    ;
    lemma_trunc_div_exact(p.x as int, k);
    lemma_trunc_div_exact(p.y as int, k);
}

} // verus!
