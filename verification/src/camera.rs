//! The camera: a fixed-point position, a heading direction vector and a
//! projection-plane vector perpendicular to it. Rotation applies the 2D
//! rotation matrix for a given cosine/sine pair (scaled by `FP`) to both
//! vectors; the accompanying law shows that in the scaled model such a
//! rotation preserves both perpendicularity and squared magnitudes.

use vstd::prelude::*;
use vstd::arithmetic::div_mod::lemma_fundamental_div_mod;

verus! {

use crate::FP;
use crate::fixed::{Vec2Fx, fdiv, norm_sq};
use crate::grid::MAX_DIM;

/// Half field-of-view tangent of the projection plane, in `FP` units.
pub const PLANE_FOV: i64 = 660_000;

/// Componentwise bound kept by camera direction and plane vectors (three grid
/// units).
pub const VEC_NORM_LIMIT: i64 = 3_000_000;

/// Squared-norm bound kept by camera direction and plane vectors:
/// `VEC_NORM_LIMIT` squared.
pub const NORM_SQ_LIMIT: i64 = 9_000_000_000_000;

pub struct Camera {
    pub pos: Vec2Fx,
    pub dir: Vec2Fx,
    pub plane: Vec2Fx,
}

/// The `x` component of `v` rotated by the angle whose scaled cosine and sine
/// are `c` and `s`.
pub open spec fn spec_rot_x(v: Vec2Fx, c: int, s: int) -> int {
    (c * v.x - s * v.y) / (FP as int)
}

/// The `y` component of `v` rotated by the angle whose scaled cosine and sine
/// are `c` and `s`.
pub open spec fn spec_rot_y(v: Vec2Fx, c: int, s: int) -> int {
    (s * v.x + c * v.y) / (FP as int)
}

/// A cosine/sine pair acceptable to `rotate`: a lattice point slightly
/// inside the scaled unit circle, near enough to it that a rotation neither
/// grows nor visibly shrinks the camera vectors.
pub open spec fn spec_rotation_pair(c: int, s: int) -> bool {
    FP * FP - 16 * FP <= c * c + s * s <= FP * FP - 2 * FP
}

/// The dot product of two fixed-point vectors.
pub open spec fn spec_dot(a: Vec2Fx, b: Vec2Fx) -> int {
    a.x * b.x + a.y * b.y
}

impl Camera {
    /// A valid camera: position within the largest representable map, both
    /// basis vectors of bounded norm.
    pub open spec fn wf(self) -> bool {
        &&& 0 <= self.pos.x <= MAX_DIM * FP
        &&& 0 <= self.pos.y <= MAX_DIM * FP
        &&& norm_sq(self.dir) <= NORM_SQ_LIMIT
        &&& norm_sq(self.plane) <= NORM_SQ_LIMIT
    }

    /// The camera at the level spawn point, facing along the positive x axis
    /// with the standard field of view.
    pub fn new() -> (cam: Camera)
        ensures
            cam.wf(),
            cam.pos == (Vec2Fx { x: 1_500_000, y: 10_500_000 }),
            cam.dir == (Vec2Fx { x: FP, y: 0 }),
            cam.plane == (Vec2Fx { x: 0, y: PLANE_FOV }),
    {
        let cam = Camera {
            pos: Vec2Fx { x: 1_500_000, y: 10_500_000 },
            dir: Vec2Fx { x: FP, y: 0 },
            plane: Vec2Fx { x: 0, y: PLANE_FOV },
        };
        proof {
            assert(MAX_DIM * FP == 64_000_000);
            assert(norm_sq(cam.dir) == 1_000_000_000_000) by (nonlinear_arith)
                requires
                    cam.dir.x == 1_000_000 && cam.dir.y == 0,
            ;
            assert(norm_sq(cam.plane) == 435_600_000_000) by (nonlinear_arith)
                requires
                    cam.plane.x == 0 && cam.plane.y == 660_000,
            ;
        }
        cam
    }

    /// Rotates the direction and plane vectors by the angle whose scaled
    /// cosine and sine are `c` and `s`; the position is untouched.
    pub fn rotate(&mut self, c: i64, s: i64)
        requires
            old(self).wf(),
            spec_rotation_pair(c as int, s as int),
        ensures
            final(self).wf(),
            final(self).pos == old(self).pos,
            final(self).dir.x == spec_rot_x(old(self).dir, c as int, s as int),
            final(self).dir.y == spec_rot_y(old(self).dir, c as int, s as int),
            final(self).plane.x == spec_rot_x(old(self).plane, c as int, s as int),
            final(self).plane.y == spec_rot_y(old(self).plane, c as int, s as int),
            abs_of(norm_sq(final(self).dir) - norm_sq(old(self).dir)) <= 200 * FP,
            abs_of(norm_sq(final(self).plane) - norm_sq(old(self).plane)) <= 200 * FP,
            abs_of(spec_dot(final(self).dir, final(self).plane)) <= abs_of(
                spec_dot(old(self).dir, old(self).plane),
            ) + 26 * FP,
    {
        proof {
            lemma_rotation_pair_bounds(c as int, s as int);
        }
        let dir = rotate_vec(self.dir, c, s);
        let plane = rotate_vec(self.plane, c, s);
        proof {
            lemma_rotated_dot(
                self.dir.x as int,
                self.dir.y as int,
                self.plane.x as int,
                self.plane.y as int,
                c as int,
                s as int,
            );
        }
        self.dir = dir;
        self.plane = plane;
    }
}

/// The rotation matrix identity behind every proof of this module: the
/// rotated images of two vectors have, before the rescaling by `FP`, a dot
/// product equal to the original dot product multiplied by `c * c + s * s`.
pub proof fn lemma_rot_product(c: int, s: int, ax: int, ay: int, bx: int, by_: int)
    ensures
        (c * ax - s * ay) * (c * bx - s * by_) + (s * ax + c * ay) * (s * bx + c * by_) == (c * c
            + s * s) * (ax * bx + ay * by_),
{
    assert((c * ax - s * ay) * (c * bx - s * by_) == (c * ax) * (c * bx) - (c * ax) * (s * by_) - (
    s * ay) * (c * bx) + (s * ay) * (s * by_)) by (nonlinear_arith);
    assert((s * ax + c * ay) * (s * bx + c * by_) == (s * ax) * (s * bx) + (s * ax) * (c * by_) + (
    c * ay) * (s * bx) + (c * ay) * (c * by_)) by (nonlinear_arith);
    assert((c * ax) * (c * bx) == c * c * (ax * bx)) by (nonlinear_arith);
    assert((c * ax) * (s * by_) == c * s * (ax * by_)) by (nonlinear_arith);
    assert((s * ay) * (c * bx) == c * s * (ay * bx)) by (nonlinear_arith);
    assert((s * ay) * (s * by_) == s * s * (ay * by_)) by (nonlinear_arith);
    assert((s * ax) * (s * bx) == s * s * (ax * bx)) by (nonlinear_arith);
    assert((s * ax) * (c * by_) == c * s * (ax * by_)) by (nonlinear_arith);
    assert((c * ay) * (s * bx) == c * s * (ay * bx)) by (nonlinear_arith);
    assert((c * ay) * (c * by_) == c * c * (ay * by_)) by (nonlinear_arith);
    assert(c * c * (ax * bx) + s * s * (ax * bx) == (c * c + s * s) * (ax * bx))
        by (nonlinear_arith);
    assert(c * c * (ay * by_) + s * s * (ay * by_) == (c * c + s * s) * (ay * by_))
        by (nonlinear_arith);
    assert((c * c + s * s) * (ax * bx) + (c * c + s * s) * (ay * by_) == (c * c + s * s) * (ax * bx
        + ay * by_)) by (nonlinear_arith);
}

/// Law, in the exact-arithmetic model: rotating by a lattice point `(c, s)`
/// exactly on the scaled unit circle is a rigid transform. The rotated
/// vectors (before the final rescaling by `FP`) have their dot product and
/// squared norms multiplied by exactly `FP * FP`; in particular a
/// perpendicular direction/plane pair stays perpendicular and both
/// magnitudes are preserved. Executable pairs sit slightly inside the
/// circle, so the executable counterpart is `rotate`'s own tolerance
/// clauses.
pub proof fn lemma_rotation_rigid(d: Vec2Fx, p: Vec2Fx, c: int, s: int)
    requires
        c * c + s * s == FP * FP,
    ensures
        (c * d.x - s * d.y) * (c * p.x - s * p.y) + (s * d.x + c * d.y) * (s * p.x + c * p.y) == FP
            * FP * (d.x * p.x + d.y * p.y),
        (c * d.x - s * d.y) * (c * d.x - s * d.y) + (s * d.x + c * d.y) * (s * d.x + c * d.y) == FP
            * FP * norm_sq(d),
        (c * p.x - s * p.y) * (c * p.x - s * p.y) + (s * p.x + c * p.y) * (s * p.x + c * p.y) == FP
            * FP * norm_sq(p),
        d.x * p.x + d.y * p.y == 0 ==> (c * d.x - s * d.y) * (c * p.x - s * p.y) + (s * d.x + c
            * d.y) * (s * p.x + c * p.y) == 0,
{
    lemma_rot_product(c, s, d.x as int, d.y as int, p.x as int, p.y as int);
    lemma_rot_product(c, s, d.x as int, d.y as int, d.x as int, d.y as int);
    lemma_rot_product(c, s, p.x as int, p.y as int, p.x as int, p.y as int);
    assert((c * c + s * s) * (d.x * p.x + d.y * p.y) == FP * FP * (d.x * p.x + d.y * p.y))
        by (nonlinear_arith)
        requires
            c * c + s * s == FP * FP,
    ;
    assert((c * c + s * s) * (d.x * d.x + d.y * d.y) == FP * FP * (d.x * d.x + d.y * d.y))
        by (nonlinear_arith)
        requires
            c * c + s * s == FP * FP,
    ;
    assert((c * c + s * s) * (p.x * p.x + p.y * p.y) == FP * FP * (p.x * p.x + p.y * p.y))
        by (nonlinear_arith)
        requires
            c * c + s * s == FP * FP,
    ;
}

/// An acceptable cosine/sine pair lies inside the scaled unit box.
proof fn lemma_rotation_pair_bounds(c: int, s: int)
    requires
        spec_rotation_pair(c, s),
    ensures
        -FP <= c <= FP,
        -FP <= s <= FP,
{
    assert(-1_000_000 <= c <= 1_000_000 && -1_000_000 <= s <= 1_000_000) by (nonlinear_arith)
        requires
            0 <= c * c + s * s <= 999_998_000_000,
    ;
}

/// A squared-norm bound yields a componentwise bound.
pub proof fn lemma_norm_box(v: Vec2Fx, m: int)
    requires
        m >= 0,
        norm_sq(v) <= m * m,
    ensures
        -m <= v.x <= m,
        -m <= v.y <= m,
{
    assert(-m <= v.x <= m && -m <= v.y <= m) by (nonlinear_arith)
        requires
            m >= 0,
            v.x * v.x + v.y * v.y <= m * m,
    ;
}

/// The absolute value of an integer.
pub open spec fn abs_of(x: int) -> int {
    if x >= 0 {
        x
    } else {
        -x
    }
}

/// Rotates one vector, rounding each component toward negative infinity, and
/// keeps the squared-norm bound.
fn rotate_vec(v: Vec2Fx, c: i64, s: i64) -> (r: Vec2Fx)
    requires
        spec_rotation_pair(c as int, s as int),
        -FP <= c <= FP,
        -FP <= s <= FP,
        norm_sq(v) <= NORM_SQ_LIMIT,
    ensures
        r.x == spec_rot_x(v, c as int, s as int),
        r.y == spec_rot_y(v, c as int, s as int),
        norm_sq(r) <= NORM_SQ_LIMIT,
        abs_of(norm_sq(r) - norm_sq(v)) <= 200 * FP,
{
    proof {
        assert(NORM_SQ_LIMIT == VEC_NORM_LIMIT * VEC_NORM_LIMIT);
        lemma_norm_box(v, VEC_NORM_LIMIT as int);
        assert(-3_000_000_000_000 <= c * v.x <= 3_000_000_000_000 && -3_000_000_000_000 <= s * v.y
            <= 3_000_000_000_000 && -3_000_000_000_000 <= s * v.x <= 3_000_000_000_000
            && -3_000_000_000_000 <= c * v.y <= 3_000_000_000_000) by (nonlinear_arith)
            requires
                -1_000_000 <= c <= 1_000_000,
                -1_000_000 <= s <= 1_000_000,
                -3_000_000 <= v.x <= 3_000_000,
                -3_000_000 <= v.y <= 3_000_000,
        ;
    }
    let ax: i64 = c * v.x - s * v.y;
    let ay: i64 = s * v.x + c * v.y;
    let rx: i64 = fdiv(ax, FP);
    let ry: i64 = fdiv(ay, FP);
    proof {
        lemma_rotated_norm(v.x as int, v.y as int, c as int, s as int);
    }
    Vec2Fx { x: rx, y: ry }
}

/// One rescaled component squares to the unscaled square give or take the
/// rounding slop.
proof fn lemma_div_sq_bound(a: int, aa: int)
    requires
        aa == abs_of(a),
        aa <= 3_000_000_000_000,
    ensures
        1_000_000_000_000 * ((a / 1_000_000) * (a / 1_000_000)) <= a * a + 2_000_000 * aa
            + 1_000_000_000_000,
        1_000_000_000_000 * ((a / 1_000_000) * (a / 1_000_000)) >= a * a - 2_000_000 * aa,
{
    lemma_fundamental_div_mod(a, 1_000_000);
    let q = a / 1_000_000;
    let r = a % 1_000_000;
    assert(1_000_000 * q == a - r);
    assert((1_000_000 * q) * (1_000_000 * q) == 1_000_000_000_000 * (q * q)) by (nonlinear_arith);
    assert((a - r) * (a - r) == a * a - 2 * (a * r) + r * r) by (nonlinear_arith);
    assert(0 <= r * r <= 1_000_000_000_000) by (nonlinear_arith)
        requires
            0 <= r < 1_000_000,
    ;
    assert(-2_000_000 * aa <= 2 * (a * r) <= 2_000_000 * aa) by (nonlinear_arith)
        requires
            aa >= 0,
            aa == a || aa == -a,
            0 <= r < 1_000_000,
    ;
    assert((1_000_000 * q) * (1_000_000 * q) == (a - r) * (a - r));
}

/// The rescaled rotation of a norm-bounded vector by an acceptable
/// cosine/sine pair keeps the norm bound, and changes the squared norm by at
/// most the pair's norm deficit plus the rounding of the two floor
/// divisions.
proof fn lemma_rotated_norm(dx: int, dy: int, c: int, s: int)
    requires
        999_984_000_000 <= c * c + s * s <= 999_998_000_000,
        dx * dx + dy * dy <= NORM_SQ_LIMIT,
    ensures
        ((c * dx - s * dy) / (FP as int)) * ((c * dx - s * dy) / (FP as int)) + ((s * dx + c * dy)
            / (FP as int)) * ((s * dx + c * dy) / (FP as int)) <= NORM_SQ_LIMIT,
        abs_of(((c * dx - s * dy) / (FP as int)) * ((c * dx - s * dy) / (FP as int)) + ((s * dx + c
            * dy) / (FP as int)) * ((s * dx + c * dy) / (FP as int)) - (dx * dx + dy * dy))
            <= 200_000_000,
{
    let a = c * dx - s * dy;
    let b = s * dx + c * dy;
    let aa = abs_of(a);
    let bb = abs_of(b);
    lemma_rot_product(c, s, dx, dy, dx, dy);
    assert(c * c >= 0 && s * s >= 0 && dx * dx >= 0 && dy * dy >= 0) by (nonlinear_arith);
    assert((c * c + s * s) * (dx * dx + dy * dy) <= 8_999_982_000_000_000_000_000_000)
        by (nonlinear_arith)
        requires
            0 <= c * c + s * s <= 999_998_000_000,
            0 <= dx * dx + dy * dy <= 9_000_000_000_000,
    ;
    assert(a * a + b * b <= 8_999_982_000_000_000_000_000_000);
    assert(aa * aa == a * a && bb * bb == b * b) by (nonlinear_arith)
        requires
            (aa == a || aa == -a) && (bb == b || bb == -b),
    ;
    assert(a * a >= 0 && b * b >= 0) by (nonlinear_arith);
    assert(aa <= 3_000_000_000_000) by (nonlinear_arith)
        requires
            aa >= 0,
            aa * aa <= 9_000_000_000_000_000_000_000_000,
    ;
    assert(bb <= 3_000_000_000_000) by (nonlinear_arith)
        requires
            bb >= 0,
            bb * bb <= 9_000_000_000_000_000_000_000_000,
    ;
    lemma_div_sq_bound(a, aa);
    lemma_div_sq_bound(b, bb);
    let qa = a / 1_000_000;
    let qb = b / 1_000_000;
    // Upper: the pair's norm is below the scaled unit circle, so the new
    // squared norm exceeds the old by at most the division slop.
    assert((c * c + s * s) * (dx * dx + dy * dy) <= 1_000_000_000_000 * (dx * dx + dy * dy))
        by (nonlinear_arith)
        requires
            0 <= c * c + s * s <= 1_000_000_000_000,
            dx * dx + dy * dy >= 0,
    ;
    assert(1_000_000_000_000 * (qa * qa) + 1_000_000_000_000 * (qb * qb) <= 1_000_000_000_000 * (dx
        * dx + dy * dy) + 12_000_002_000_000_000_000);
    assert(qa * qa + qb * qb <= dx * dx + dy * dy + 200_000_000);
    assert(qa * qa + qb * qb <= 9_000_000_000_000);
    // Lower: the pair sits close under the circle, so the squared norm also
    // cannot shrink by more than the deficit plus the slop.
    assert((c * c + s * s) * (dx * dx + dy * dy) >= 999_984_000_000 * (dx * dx + dy * dy))
        by (nonlinear_arith)
        requires
            c * c + s * s >= 999_984_000_000,
            dx * dx + dy * dy >= 0,
    ;
    assert(1_000_000_000_000 * (qa * qa) + 1_000_000_000_000 * (qb * qb) >= 999_984_000_000 * (dx
        * dx + dy * dy) - 12_000_000_000_000_000_000);
    assert(16_000_000 * (dx * dx + dy * dy) <= 144_000_000_000_000_000_000);
    assert(qa * qa + qb * qb >= dx * dx + dy * dy - 200_000_000);
    assert(a / (FP as int) == qa && b / (FP as int) == qb);
}

/// The rescaled rotation moves the dot product of two norm-bounded vectors
/// toward zero, up to the rounding slop of the four floor divisions: a
/// perpendicular pair stays perpendicular within tolerance.
proof fn lemma_rotated_dot(dx: int, dy: int, px: int, py: int, c: int, s: int)
    requires
        0 <= c * c + s * s <= 999_998_000_000,
        dx * dx + dy * dy <= NORM_SQ_LIMIT,
        px * px + py * py <= NORM_SQ_LIMIT,
    ensures
        abs_of(((c * dx - s * dy) / (FP as int)) * ((c * px - s * py) / (FP as int)) + ((s * dx + c
            * dy) / (FP as int)) * ((s * px + c * py) / (FP as int))) <= abs_of(dx * px + dy * py)
            + 26_000_000,
{
    let ad = c * dx - s * dy;
    let bd = s * dx + c * dy;
    let ap = c * px - s * py;
    let bp = s * px + c * py;
    let dt = dx * px + dy * py;
    let adt = abs_of(dt);
    lemma_rot_product(c, s, dx, dy, px, py);
    lemma_rot_product(c, s, dx, dy, dx, dy);
    lemma_rot_product(c, s, px, py, px, py);
    assert(dx * dx >= 0 && dy * dy >= 0 && px * px >= 0 && py * py >= 0) by (nonlinear_arith);
    assert((c * c + s * s) * (dx * dx + dy * dy) <= 9_000_000_000_000_000_000_000_000int)
        by (nonlinear_arith)
        requires
            0 <= c * c + s * s <= 1_000_000_000_000,
            0 <= dx * dx + dy * dy <= 9_000_000_000_000,
    ;
    assert((c * c + s * s) * (px * px + py * py) <= 9_000_000_000_000_000_000_000_000int)
        by (nonlinear_arith)
        requires
            0 <= c * c + s * s <= 1_000_000_000_000,
            0 <= px * px + py * py <= 9_000_000_000_000,
    ;
    let aad = abs_of(ad);
    let abd = abs_of(bd);
    let aap = abs_of(ap);
    let abp = abs_of(bp);
    assert(aad * aad == ad * ad && abd * abd == bd * bd && aap * aap == ap * ap && abp * abp == bp
        * bp) by (nonlinear_arith)
        requires
            (aad == ad || aad == -ad) && (abd == bd || abd == -bd) && (aap == ap || aap == -ap) && (
            abp == bp || abp == -bp),
    ;
    assert(ad * ad >= 0 && bd * bd >= 0 && ap * ap >= 0 && bp * bp >= 0) by (nonlinear_arith);
    assert(aad <= 3_000_000_000_000 && abd <= 3_000_000_000_000) by (nonlinear_arith)
        requires
            aad >= 0,
            abd >= 0,
            aad * aad + abd * abd <= 9_000_000_000_000_000_000_000_000int,
    ;
    assert(aap <= 3_000_000_000_000 && abp <= 3_000_000_000_000) by (nonlinear_arith)
        requires
            aap >= 0,
            abp >= 0,
            aap * aap + abp * abp <= 9_000_000_000_000_000_000_000_000int,
    ;
    lemma_prod_div_slop(ad, ap, aad, aap);
    lemma_prod_div_slop(bd, bp, abd, abp);
    let qad = ad / 1_000_000;
    let qap = ap / 1_000_000;
    let qbd = bd / 1_000_000;
    let qbp = bp / 1_000_000;
    assert(-(1_000_000_000_000 * adt) <= (c * c + s * s) * dt <= 1_000_000_000_000 * adt)
        by (nonlinear_arith)
        requires
            0 <= c * c + s * s <= 1_000_000_000_000,
            adt >= 0,
            adt == dt || adt == -dt,
    ;
    assert(1_000_000_000_000 * (qad * qap) + 1_000_000_000_000 * (qbd * qbp) <= 1_000_000_000_000
        * adt + 14_000_000_000_000_000_000);
    assert(1_000_000_000_000 * (qad * qap) + 1_000_000_000_000 * (qbd * qbp) >= -(1_000_000_000_000
        * adt) - 14_000_000_000_000_000_000);
    assert(-(adt + 26_000_000) <= qad * qap + qbd * qbp <= adt + 26_000_000);
    assert(ad / (FP as int) == qad && ap / (FP as int) == qap && bd / (FP as int) == qbd && bp / (
    FP as int) == qbp);
}

/// The product of two rescaled components differs from the product of the
/// raw components by at most the division slop.
proof fn lemma_prod_div_slop(a: int, b: int, aa: int, ab: int)
    requires
        aa == abs_of(a),
        ab == abs_of(b),
        aa <= 3_000_000_000_000,
        ab <= 3_000_000_000_000,
    ensures
        a * b - 7_000_000_000_000_000_000 <= 1_000_000_000_000 * ((a / 1_000_000) * (b / 1_000_000))
            <= a * b + 7_000_000_000_000_000_000,
{
    lemma_fundamental_div_mod(a, 1_000_000);
    lemma_fundamental_div_mod(b, 1_000_000);
    let qa = a / 1_000_000;
    let qb = b / 1_000_000;
    let ra = a % 1_000_000;
    let rb = b % 1_000_000;
    assert(1_000_000 * qa == a - ra);
    assert(1_000_000 * qb == b - rb);
    assert((1_000_000 * qa) * (1_000_000 * qb) == 1_000_000_000_000 * (qa * qb))
        by (nonlinear_arith);
    assert((a - ra) * (b - rb) == a * b - a * rb - ra * b + ra * rb) by (nonlinear_arith);
    assert(-3_000_000_000_000_000_000int <= a * rb <= 3_000_000_000_000_000_000int)
        by (nonlinear_arith)
        requires
            aa >= 0,
            aa == a || aa == -a,
            aa <= 3_000_000_000_000,
            0 <= rb < 1_000_000,
    ;
    assert(-3_000_000_000_000_000_000int <= ra * b <= 3_000_000_000_000_000_000int)
        by (nonlinear_arith)
        requires
            ab >= 0,
            ab == b || ab == -b,
            ab <= 3_000_000_000_000,
            0 <= ra < 1_000_000,
    ;
    assert(0 <= ra * rb <= 1_000_000_000_000) by (nonlinear_arith)
        requires
            0 <= ra < 1_000_000,
            0 <= rb < 1_000_000,
    ;
    assert((1_000_000 * qa) * (1_000_000 * qb) == (a - ra) * (b - rb));
}

} // verus!
