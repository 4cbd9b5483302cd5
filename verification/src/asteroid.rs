//! Asteroid construction and fragmentation.
//!
//! A destroyed asteroid above the scale threshold splits into exactly three
//! daughters.  The daughters share the parent's mass in thirds and carry a
//! deliberately damped tenth of the parent's kinetic and leftover structural
//! energy, split evenly: one continues straight on the parent's heading, the
//! other two are displaced a quarter turn to either side and splayed 0.2
//! radians off the heading.  Energy is deliberately not conserved exactly;
//! the damping is a stability control, not a physical law.

use vstd::prelude::*;

use crate::body::{
    kinetic_energy, lemma_kinetic_energy_bounds, lemma_len2_bounds, MASS_LIMIT, SCALE_LIMIT,
    STURDINESS_LIMIT, VEL_LIMIT,
};
use crate::chunk::COORD_LIMIT;
use crate::fixed::{
    div_trunc, lemma_div_trunc_bound, lemma_sqrt_floor_lower, mul_milli, rotate_micro,
    rotate_quarter, rotate_quarter_back, scale_by_micro, sqrt_floor, Vec2Fix, MICRO,
};

verus! {

/// An asteroid below this milli-scaled linear scale vanishes without
/// daughters when destroyed.
pub const FRAGMENT_SCALE_THRESHOLD: i64 = 2000;

/// Sturdiness a newly built asteroid starts with (25 world units,
/// milli-scaled), whatever its scale.
pub const INITIAL_STURDINESS: i64 = 25000;

/// Restitution every built collider gets, milli-scaled.
pub const RESTITUTION: i64 = 900;

/// Half the base width of an asteroid of scale 1, milli-scaled: the lateral
/// displacement of the two side daughters per unit of daughter scale.
pub const BASE_WIDTH: i64 = 10000;

/// Micro-scaled cosine of the 0.2 radian splay angle of the side daughters.
pub const COS_SPLAY: i64 = 980067;

/// Micro-scaled sine of the 0.2 radian splay angle of the side daughters.
pub const SIN_SPLAY: i64 = 198669;

/// Everything the external engine needs to create one asteroid body.
#[derive(Clone, Copy, PartialEq, Eq, Structural, Debug)]
pub struct AsteroidInit {
    /// Position, milli-scaled world coordinates.
    pub pos: Vec2Fix,
    /// Linear velocity, milli-scaled units per second.
    pub vel: Vec2Fix,
    /// Angular velocity, milli-scaled radians per second.
    pub angvel: i64,
    /// Linear scale, milli-scaled.
    pub scale: i64,
    /// Starting structural integrity, milli-scaled.
    pub sturdiness: i64,
}

/// The base asteroid polygon with every corner multiplied by the
/// milli-scaled linear scale: the base corners are (0,0), (-1,-3), (-5,-2),
/// (-5,1), (-1,4), (3,4), (3,-1) in world units.
pub open spec fn asteroid_polygon_spec(scale: int) -> Seq<Vec2Fix> {
    seq![
        Vec2Fix { x: 0, y: 0 },
        Vec2Fix { x: (-scale) as i64, y: (-(3 * scale)) as i64 },
        Vec2Fix { x: (-(5 * scale)) as i64, y: (-(2 * scale)) as i64 },
        Vec2Fix { x: (-(5 * scale)) as i64, y: scale as i64 },
        Vec2Fix { x: (-scale) as i64, y: (4 * scale) as i64 },
        Vec2Fix { x: (3 * scale) as i64, y: (4 * scale) as i64 },
        Vec2Fix { x: (3 * scale) as i64, y: (-scale) as i64 },
    ]
}

/// The convex polygon footprint of an asteroid: the base shape with every
/// corner multiplied by the milli-scaled linear scale (so the corners come
/// out milli-scaled).
pub fn asteroid_polygon(scale: i64) -> (points: Vec<Vec2Fix>)
    requires
        0 <= scale <= SCALE_LIMIT,
    ensures
        points@ == asteroid_polygon_spec(scale as int),
        points@.len() == 7,
{
    let mut points: Vec<Vec2Fix> = Vec::new();
    points.push(Vec2Fix { x: 0, y: 0 });
    points.push(Vec2Fix { x: -scale, y: -(3 * scale) });
    points.push(Vec2Fix { x: -(5 * scale), y: -(2 * scale) });
    points.push(Vec2Fix { x: -(5 * scale), y: scale });
    points.push(Vec2Fix { x: -scale, y: 4 * scale });
    points.push(Vec2Fix { x: 3 * scale, y: 4 * scale });
    points.push(Vec2Fix { x: 3 * scale, y: -scale });
    proof {
        assert(points@ =~= asteroid_polygon_spec(scale as int));
    }
    points
}

/// Leftover structural ("potential") energy of a body destroyed at
/// sturdiness `s`: `s^2 / C` at world scale with `C = 1/500`, which is
/// `s*s/2` milli-scaled.  Nonnegative whatever the sign of `s`.
pub open spec fn potential_energy(s: int) -> int {
    s * s / 2
}

/// Energy granted to the daughters: kinetic plus leftover potential energy,
/// damped to a tenth.
pub open spec fn fragment_energy(mass: int, vel: Vec2Fix, sturdiness: int) -> int {
    (kinetic_energy(mass, vel) + potential_energy(sturdiness)) / 10
}

/// Each of the three daughters gets a third of the fragment energy.
pub open spec fn daughter_energy(mass: int, vel: Vec2Fix, sturdiness: int) -> int {
    fragment_energy(mass, vel, sturdiness) / 3
}

/// Each of the three daughters gets a third of the parent's mass.
pub open spec fn daughter_mass(mass: int) -> int {
    mass / 3
}

/// The three daughters' masses sum back to the parent's mass, up to the
/// remainder the integer thirds lose (at most two milli-units).
pub proof fn lemma_daughter_mass_split(mass: int)
    requires
        0 <= mass,
    ensures
        3 * daughter_mass(mass) <= mass < 3 * daughter_mass(mass) + 3,
{
    vstd::arithmetic::div_mod::lemma_fundamental_div_mod(mass, 3int);
    vstd::arithmetic::div_mod::lemma_mod_division_less_than_divisor(mass, 3int);
}

/// Executable daughter mass, for the engine to set on created daughters.
pub fn daughter_mass64(mass: i64) -> (r: i64)
    requires
        0 <= mass,
    ensures
        r == daughter_mass(mass as int),
{
    mass / 3
}

/// Daughter linear scale: a third of the parent's, squared — footprint area
/// and mass scale quadratically with the linear-scale reduction.
pub open spec fn daughter_scale(scale: int) -> int {
    mul_milli(scale / 3, scale / 3)
}

/// Daughter speed `sqrt(2 * E / m)`, milli-scaled.  A daughter mass of zero
/// would leave the speed undefined; the daughters then stand still.
pub open spec fn daughter_speed(mass: int, vel: Vec2Fix, sturdiness: int) -> int {
    if daughter_mass(mass) <= 0 {
        0
    } else {
        sqrt_floor(
            ((2 * daughter_energy(mass, vel, sturdiness) * (MICRO as int)) / daughter_mass(mass))
                as nat,
        ) as int
    }
}

/// The parent's heading as a micro-scaled unit vector.  Normalising the zero
/// vector is undefined; the fallback heading is the positive x axis.
pub open spec fn unit_axis(v: Vec2Fix) -> Vec2Fix {
    if v.x == 0 && v.y == 0 {
        Vec2Fix { x: MICRO, y: 0 }
    } else {
        Vec2Fix {
            x: div_trunc(v.x * (MICRO as int), v.len_milli()) as i64,
            y: div_trunc(v.y * (MICRO as int), v.len_milli()) as i64,
        }
    }
}

/// Vector addition with the in-range cast of the model.
pub open spec fn vadd(a: Vec2Fix, b: Vec2Fix) -> Vec2Fix {
    Vec2Fix { x: (a.x + b.x) as i64, y: (a.y + b.y) as i64 }
}

/// The three daughters of a destroyed asteroid, in order: splayed
/// counterclockwise, straight on, splayed clockwise.
pub open spec fn fragment_daughters(
    pos: Vec2Fix,
    vel: Vec2Fix,
    mass: int,
    scale: int,
    sturdiness: int,
) -> Seq<AsteroidInit> {
    let sp = daughter_speed(mass, vel, sturdiness);
    let ds = daughter_scale(scale);
    let ax = unit_axis(vel);
    let arm = scale_by_micro(ax, mul_milli(BASE_WIDTH as int, ds));
    let side_a = AsteroidInit {
        pos: vadd(pos, rotate_quarter(arm)),
        vel: scale_by_micro(rotate_micro(ax, COS_SPLAY as int, -SIN_SPLAY as int), sp),
        angvel: 0,
        scale: ds as i64,
        sturdiness: INITIAL_STURDINESS,
    };
    let middle = AsteroidInit {
        pos,
        vel: scale_by_micro(ax, sp),
        angvel: 0,
        scale: ds as i64,
        sturdiness: INITIAL_STURDINESS,
    };
    let side_b = AsteroidInit {
        pos: vadd(pos, rotate_quarter_back(arm)),
        vel: scale_by_micro(rotate_micro(ax, COS_SPLAY as int, SIN_SPLAY as int), sp),
        angvel: 0,
        scale: ds as i64,
        sturdiness: INITIAL_STURDINESS,
    };
    seq![side_a, middle, side_b]
}

/// Bounds of the daughter energy chain for in-range parents.
pub proof fn lemma_fragment_bounds(mass: int, vel: Vec2Fix, sturdiness: int)
    requires
        0 <= mass <= MASS_LIMIT,
        -VEL_LIMIT <= vel.x <= VEL_LIMIT,
        -VEL_LIMIT <= vel.y <= VEL_LIMIT,
        -STURDINESS_LIMIT <= sturdiness <= STURDINESS_LIMIT,
    ensures
        0 <= potential_energy(sturdiness) <= 500000000000000000000000000000,
        0 <= fragment_energy(mass, vel, sturdiness) <= 51000000000000000000000000000,
        0 <= daughter_energy(mass, vel, sturdiness) <= 17000000000000000000000000000,
        0 <= daughter_speed(mass, vel, sturdiness) <= 200000000000000000,
{
    lemma_kinetic_energy_bounds(mass, vel);
    assert(0 <= sturdiness * sturdiness <= 1000000000000000000000000000000) by (nonlinear_arith)
        requires
            -STURDINESS_LIMIT <= sturdiness <= STURDINESS_LIMIT,
    ;
    vstd::arithmetic::div_mod::lemma_div_pos_is_pos(sturdiness * sturdiness, 2int);
    vstd::arithmetic::div_mod::lemma_div_is_ordered(
        sturdiness * sturdiness,
        1000000000000000000000000000000,
        2int,
    );
    let sum = kinetic_energy(mass, vel) + potential_energy(sturdiness);
    vstd::arithmetic::div_mod::lemma_div_pos_is_pos(sum, 10int);
    vstd::arithmetic::div_mod::lemma_div_is_ordered(sum, 510000000000000000000000000000, 10int);
    vstd::arithmetic::div_mod::lemma_div_pos_is_pos(fragment_energy(mass, vel, sturdiness), 3int);
    vstd::arithmetic::div_mod::lemma_div_is_ordered(
        fragment_energy(mass, vel, sturdiness),
        51000000000000000000000000000,
        3int,
    );
    let dm = daughter_mass(mass);
    vstd::arithmetic::div_mod::lemma_div_pos_is_pos(mass, 3int);
    if dm > 0 {
        let de = daughter_energy(mass, vel, sturdiness);
        let q = (2 * de * (MICRO as int)) / dm;
        vstd::arithmetic::div_mod::lemma_div_pos_is_pos(2 * de * (MICRO as int), dm);
        vstd::arithmetic::div_mod::lemma_div_is_ordered_by_denominator(
            2 * de * (MICRO as int),
            1,
            dm,
        );
        vstd::arithmetic::div_mod::lemma_div_basics(2 * de * (MICRO as int));
        assert(q <= 34000000000000000000000000000000000);
        crate::fixed::lemma_sqrt_floor_bounds(q as nat);
        let sp = sqrt_floor(q as nat);
        if sp > 200000000000000000 {
            assert(sp * sp > 34000000000000000000000000000000000) by (nonlinear_arith)
                requires
                    sp > 200000000000000000,
            ;
        }
    }
}

/// Daughter scale stays in range, and a parent at or below scale 4 yields
/// daughters below the fragmentation threshold, so they never fragment
/// further.
pub proof fn lemma_daughter_scale_bounds(scale: int)
    requires
        0 <= scale <= SCALE_LIMIT,
    ensures
        0 <= daughter_scale(scale) <= 120000000000000,
        scale <= 4000 ==> daughter_scale(scale) < FRAGMENT_SCALE_THRESHOLD,
{
    let third = scale / 3;
    vstd::arithmetic::div_mod::lemma_div_pos_is_pos(scale, 3int);
    vstd::arithmetic::div_mod::lemma_div_is_ordered(scale, SCALE_LIMIT as int, 3int);
    assert(0 <= third * third <= 120000000000000000) by (nonlinear_arith)
        requires
            0 <= third <= 333333333,
    ;
    vstd::arithmetic::div_mod::lemma_div_pos_is_pos(third * third, 1000int);
    vstd::arithmetic::div_mod::lemma_div_is_ordered(third * third, 120000000000000000, 1000int);
    if scale <= 4000 {
        vstd::arithmetic::div_mod::lemma_div_is_ordered(scale, 4000, 3int);
        assert(third * third <= 1777689) by (nonlinear_arith)
            requires
                0 <= third <= 1333,
        ;
        vstd::arithmetic::div_mod::lemma_div_is_ordered(third * third, 1777689, 1000int);
    }
}

/// The components of the unit axis stay within one micro-scaled unit.
pub proof fn lemma_unit_axis_bounds(v: Vec2Fix)
    requires
        -VEL_LIMIT <= v.x <= VEL_LIMIT,
        -VEL_LIMIT <= v.y <= VEL_LIMIT,
    ensures
        -MICRO <= unit_axis(v).x <= MICRO,
        -MICRO <= unit_axis(v).y <= MICRO,
        !(v.x == 0 && v.y == 0) ==> 1 <= v.len_milli() <= 15000000,
{
    if v.x == 0 && v.y == 0 {
    } else {
        let n2 = (v.x * v.x + v.y * v.y) as nat;
        assert(v.x * v.x >= 0 && v.y * v.y >= 0 && v.x * v.x + v.y * v.y >= 1 && v.x * v.x + v.y
            * v.y <= 200000000000000) by (nonlinear_arith)
            requires
                -VEL_LIMIT <= v.x <= VEL_LIMIT,
                -VEL_LIMIT <= v.y <= VEL_LIMIT,
                !(v.x == 0 && v.y == 0),
        ;
        let l = v.len_milli();
        lemma_sqrt_floor_lower(1, n2);
        crate::fixed::lemma_sqrt_floor_bounds(n2);
        if l > 15000000 {
            assert(sqrt_floor(n2) * sqrt_floor(n2) > 200000000000000) by (nonlinear_arith)
                requires
                    sqrt_floor(n2) > 15000000,
            ;
        }
        lemma_axis_component_bound(v.x as int, n2, l);
        lemma_axis_component_bound(v.y as int, n2, l);
    }
}

/// One component of the normalised axis: `|c * MICRO / l| <= MICRO` because
/// `|c| <= sqrt(c^2 + other^2) = l`.
proof fn lemma_axis_component_bound(c: int, n2: nat, l: int)
    requires
        l == sqrt_floor(n2) as int,
        1 <= l,
        c * c <= n2,
    ensures
        -(MICRO as int) <= div_trunc(c * (MICRO as int), l) <= MICRO as int,
{
    let a = if c >= 0 {
        c
    } else {
        -c
    };
    assert(a * a == c * c) by (nonlinear_arith)
        requires
            a == c || a == -c,
    ;
    lemma_sqrt_floor_lower(a as nat, n2);
    assert(a <= l);
    assert(a * (MICRO as int) <= l * (MICRO as int));
    vstd::arithmetic::div_mod::lemma_div_pos_is_pos(a * (MICRO as int), l);
    vstd::arithmetic::div_mod::lemma_div_is_ordered(a * (MICRO as int), l * (MICRO as int), l);
    vstd::arithmetic::div_mod::lemma_div_by_multiple(MICRO as int, l);
    assert(l * (MICRO as int) == (MICRO as int) * l) by (nonlinear_arith);
    assert((a * (MICRO as int)) / l <= MICRO as int);
    if c >= 0 {
        assert(div_trunc(c * (MICRO as int), l) == (a * (MICRO as int)) / l);
    } else {
        assert(c * (MICRO as int) == -(a * (MICRO as int))) by (nonlinear_arith)
            requires
                a == -c,
        ;
        assert(div_trunc(c * (MICRO as int), l) == -((a * (MICRO as int)) / l));
    }
}

/// The parent's heading as a micro-scaled unit vector, executable.
pub fn unit_axis_of(v: Vec2Fix) -> (a: Vec2Fix)
    requires
        -VEL_LIMIT <= v.x <= VEL_LIMIT,
        -VEL_LIMIT <= v.y <= VEL_LIMIT,
    ensures
        a == unit_axis(v),
        -MICRO <= a.x <= MICRO,
        -MICRO <= a.y <= MICRO,
{
    proof {
        lemma_unit_axis_bounds(v);
    }
    if v.x == 0 && v.y == 0 {
        Vec2Fix { x: MICRO, y: 0 }
    } else {
        proof {
            assert(0 <= v.x * v.x <= 100000000000000 && 0 <= v.y * v.y <= 100000000000000)
                by (nonlinear_arith)
                requires
                    -VEL_LIMIT <= v.x <= VEL_LIMIT,
                    -VEL_LIMIT <= v.y <= VEL_LIMIT,
            ;
        }
        let n2: i128 = (v.x as i128) * (v.x as i128) + (v.y as i128) * (v.y as i128);
        let l = crate::fixed::isqrt(n2 as u128) as i64;
        proof {
            assert(l == v.len_milli());
            lemma_div_trunc_bound(v.x * (MICRO as int), 10000000000000, l as int);
            lemma_div_trunc_bound(v.y * (MICRO as int), 10000000000000, l as int);
            assert(-10000000000000 <= v.x * (MICRO as int) <= 10000000000000
                && -10000000000000 <= v.y * (MICRO as int) <= 10000000000000) by (nonlinear_arith)
                requires
                    -VEL_LIMIT <= v.x <= VEL_LIMIT,
                    -VEL_LIMIT <= v.y <= VEL_LIMIT,
            ;
        }
        Vec2Fix {
            x: crate::fixed::mul_div64(v.x, MICRO, l),
            y: crate::fixed::mul_div64(v.y, MICRO, l),
        }
    }
}

/// The three daughter asteroids of a destroyed parent, built from the
/// parent's position, velocity, mass, scale, and the (possibly negative)
/// sturdiness it was destroyed at.  Always exactly three; each carries a
/// third of the parent's mass and the squared third of its scale, and starts
/// with the same sturdiness as a freshly spawned asteroid, at angular
/// velocity zero.
pub fn generate_daughters(pos: Vec2Fix, vel: Vec2Fix, mass: i64, scale: i64, sturdiness: i64)
    -> (daughters: Vec<AsteroidInit>)
    requires
        -COORD_LIMIT <= pos.x <= COORD_LIMIT,
        -COORD_LIMIT <= pos.y <= COORD_LIMIT,
        -VEL_LIMIT <= vel.x <= VEL_LIMIT,
        -VEL_LIMIT <= vel.y <= VEL_LIMIT,
        0 <= mass <= MASS_LIMIT,
        0 <= scale <= SCALE_LIMIT,
        -STURDINESS_LIMIT <= sturdiness <= STURDINESS_LIMIT,
    ensures
        daughters@ == fragment_daughters(pos, vel, mass as int, scale as int, sturdiness as int),
        daughters@.len() == 3,
        forall|i: int|
            0 <= i < 3 ==> (#[trigger] daughters@[i]).scale == daughter_scale(scale as int)
                && daughters@[i].sturdiness == INITIAL_STURDINESS && daughters@[i].angvel == 0,
        daughters@[1].pos == pos,
{
    proof {
        lemma_fragment_bounds(mass as int, vel, sturdiness as int);
        lemma_daughter_scale_bounds(scale as int);
        lemma_len2_bounds(vel, VEL_LIMIT as int);
        lemma_kinetic_energy_bounds(mass as int, vel);
    }
    let sp = daughter_speed_of(vel, mass, sturdiness);
    let third = scale / 3;
    let ds = crate::fixed::mul_milli64(third, third);
    let ax = unit_axis_of(vel);
    let w = crate::fixed::mul_milli64(BASE_WIDTH, ds);
    proof {
        assert(0 <= BASE_WIDTH * daughter_scale(scale as int) <= 1200000000000000000)
            by (nonlinear_arith)
            requires
                0 <= daughter_scale(scale as int) <= 120000000000000,
        ;
        lemma_div_trunc_bound(BASE_WIDTH * daughter_scale(scale as int), 1200000000000000000,
            1000int);
        assert(0 <= w <= 1200000000000000);
        assert(-1200000000000000000000 <= ax.x * w <= 1200000000000000000000
            && -1200000000000000000000 <= ax.y * w <= 1200000000000000000000) by (nonlinear_arith)
            requires
                -MICRO <= ax.x <= MICRO,
                -MICRO <= ax.y <= MICRO,
                0 <= w <= 1200000000000000,
        ;
        lemma_div_trunc_bound(ax.x * w, 1200000000000000000000, MICRO as int);
        lemma_div_trunc_bound(ax.y * w, 1200000000000000000000, MICRO as int);
    }
    let arm = crate::fixed::scale_by_micro64(ax, w);
    let rot_a = crate::fixed::rotate_micro64(ax, COS_SPLAY, -SIN_SPLAY);
    let rot_b = crate::fixed::rotate_micro64(ax, COS_SPLAY, SIN_SPLAY);
    proof {
        lemma_scaled_velocity_bound(ax, sp);
        lemma_scaled_velocity_bound(rot_a, sp);
        lemma_scaled_velocity_bound(rot_b, sp);
    }
    let vel_a = crate::fixed::scale_by_micro64(rot_a, sp);
    let vel_mid = crate::fixed::scale_by_micro64(ax, sp);
    let vel_b = crate::fixed::scale_by_micro64(rot_b, sp);
    let pos_a = pos.add(Vec2Fix { x: -arm.y, y: arm.x });
    let pos_b = pos.add(Vec2Fix { x: arm.y, y: -arm.x });
    let mut daughters: Vec<AsteroidInit> = Vec::new();
    daughters.push(
        AsteroidInit {
            pos: pos_a,
            vel: vel_a,
            angvel: 0,
            scale: ds,
            sturdiness: INITIAL_STURDINESS,
        },
    );
    daughters.push(
        AsteroidInit { pos, vel: vel_mid, angvel: 0, scale: ds, sturdiness: INITIAL_STURDINESS },
    );
    daughters.push(
        AsteroidInit {
            pos: pos_b,
            vel: vel_b,
            angvel: 0,
            scale: ds,
            sturdiness: INITIAL_STURDINESS,
        },
    );
    proof {
        assert(daughters@ =~= fragment_daughters(
            pos,
            vel,
            mass as int,
            scale as int,
            sturdiness as int,
        ));
    }
    daughters
}

/// A micro-scaled direction within `[-4 * MICRO, 4 * MICRO]` scaled by a
/// bounded speed keeps every component within `i64`.
proof fn lemma_scaled_velocity_bound(dir: Vec2Fix, sp: i64)
    requires
        -4000000 <= dir.x <= 4000000,
        -4000000 <= dir.y <= 4000000,
        0 <= sp <= 200000000000000000,
    ensures
        -800000000000000000 <= div_trunc(dir.x * sp, MICRO as int) <= 800000000000000000,
        -800000000000000000 <= div_trunc(dir.y * sp, MICRO as int) <= 800000000000000000,
{
    assert(-800000000000000000000000 <= dir.x * sp <= 800000000000000000000000
        && -800000000000000000000000 <= dir.y * sp <= 800000000000000000000000)
        by (nonlinear_arith)
        requires
            -4000000 <= dir.x <= 4000000,
            -4000000 <= dir.y <= 4000000,
            0 <= sp <= 200000000000000000,
    ;
    lemma_div_trunc_bound(dir.x * sp, 800000000000000000000000, MICRO as int);
    lemma_div_trunc_bound(dir.y * sp, 800000000000000000000000, MICRO as int);
}

/// Executable daughter speed.
fn daughter_speed_of(vel: Vec2Fix, mass: i64, sturdiness: i64) -> (sp: i64)
    requires
        -VEL_LIMIT <= vel.x <= VEL_LIMIT,
        -VEL_LIMIT <= vel.y <= VEL_LIMIT,
        0 <= mass <= MASS_LIMIT,
        -STURDINESS_LIMIT <= sturdiness <= STURDINESS_LIMIT,
    ensures
        sp == daughter_speed(mass as int, vel, sturdiness as int),
        0 <= sp <= 200000000000000000,
{
    proof {
        lemma_fragment_bounds(mass as int, vel, sturdiness as int);
        lemma_len2_bounds(vel, VEL_LIMIT as int);
        lemma_kinetic_energy_bounds(mass as int, vel);
    }
    let len2 = vel.len2_milli64();
    let ke = crate::fixed::mul_milli64(mass, len2) / 2;
    proof {
        vstd::arithmetic::div_mod::lemma_div_pos_is_pos(mul_milli(mass as int, len2 as int), 2int);
        assert(0 <= sturdiness * sturdiness) by (nonlinear_arith);
        assert(sturdiness * sturdiness <= 1000000000000000000000000000000) by (nonlinear_arith)
            requires
                -STURDINESS_LIMIT <= sturdiness <= STURDINESS_LIMIT,
        ;
    }
    let pe: i128 = (sturdiness as i128) * (sturdiness as i128) / 2;
    let total: i128 = ((ke as i128) + pe) / 10;
    let de: i128 = total / 3;
    let dm = mass / 3;
    proof {
        vstd::arithmetic::div_mod::lemma_div_pos_is_pos((sturdiness as int) * (sturdiness as int),
            2int);
        vstd::arithmetic::div_mod::lemma_div_pos_is_pos(ke + pe as int, 10int);
        vstd::arithmetic::div_mod::lemma_div_pos_is_pos(total as int, 3int);
        vstd::arithmetic::div_mod::lemma_div_pos_is_pos(mass as int, 3int);
    }
    if dm <= 0 {
        0
    } else {
        let q: i128 = (2 * de * 1000000) / (dm as i128);
        proof {
            vstd::arithmetic::div_mod::lemma_div_pos_is_pos(2 * (de as int) * 1000000,
                dm as int);
        }
        let r = crate::fixed::isqrt(q as u128);
        proof {
            assert(r == sqrt_floor(q as nat));
            if r > 200000000000000000 {
                vstd::arithmetic::div_mod::lemma_div_is_ordered_by_denominator(
                    2 * (de as int) * 1000000,
                    1,
                    dm as int,
                );
                vstd::arithmetic::div_mod::lemma_div_basics(2 * (de as int) * 1000000);
                assert(r * r > 34000000000000000000000000000000000) by (nonlinear_arith)
                    requires
                        r > 200000000000000000,
                ;
                crate::fixed::lemma_sqrt_floor_bounds(q as nat);
            }
        }
        r as i64
    }
}

} // verus!
