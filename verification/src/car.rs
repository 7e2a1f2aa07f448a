//! Box-shaped cars: movement, the closed-form jump, and collision queries.

use crate::camera::{
    line_opt, lines_view, push_line, wf_camera, Camera, CameraV, RenderedLine, RenderedLineV,
    CAM_POS_LIMIT,
};
use crate::color::Color;
use crate::game::Turn;
use crate::geom::{
    add3, div_floor_i64, iabs, in_range, lemma_mul_bound, v3, Vec3, Vec3i, MILLI,
};
use crate::world::Bullet;
use vstd::arithmetic::div_mod::{
    lemma_mod_bound,
    lemma_div_is_ordered, lemma_div_multiples_vanish, lemma_fundamental_div_mod,
};
use vstd::arithmetic::mul::{lemma_mul_is_distributive_add, lemma_mul_nonnegative};
use vstd::prelude::*;

verus! {

/// Largest size component of a car or tunnel, in thousandths of a unit.
pub const SIZE_LIMIT: i64 = 1_000_000;

/// Largest speed, in thousandths of a unit per second.
pub const SPEED_LIMIT: i64 = 1_000_000;

/// Bounds of the jump acceleration, in thousandths of a unit per second
/// squared.
pub const ACC_MIN: i64 = 1_000;

pub const ACC_LIMIT: i64 = 1_000_000_000;

/// Largest elapsed jump time, in milliseconds.
pub const T_LIMIT: i64 = 4_000_000;

/// Largest simulation step, in milliseconds.
pub const DT_LIMIT: i64 = 1_000;

/// Largest position component the simulation accepts, in thousandths
/// of a unit.
pub const POS_LIMIT: i64 = 1_000_000_000_000;

/// Mathematical counterpart of `Car`.
pub ghost struct CarV {
    pub size: Vec3i,
    pub position: Vec3i,
    pub speed: int,
    pub turn_speed: int,
    pub color: Color,
    pub jump_v: int,
    pub jump_a: int,
    pub jumping: bool,
    pub current_t: int,
    pub jump_turn_decrease: int,
}

/// A car is a box: `size` are its extents, `position` is the middle of its
/// front lower edge. While jumping, `current_t` is the time since takeoff.
#[derive(Clone, Copy, PartialEq, Eq, Structural, Debug)]
pub struct Car {
    pub size: Vec3,
    pub position: Vec3,
    pub speed: i64,
    pub turn_speed: i64,
    pub color: Color,
    pub jump_v: i64,
    pub jump_a: i64,
    pub jumping: bool,
    pub current_t: i64,
    pub jump_turn_decrease: i64,
}

impl View for Car {
    type V = CarV;

    open spec fn view(&self) -> CarV {
        CarV {
            size: self.size@,
            position: self.position@,
            speed: self.speed as int,
            turn_speed: self.turn_speed as int,
            color: self.color,
            jump_v: self.jump_v as int,
            jump_a: self.jump_a as int,
            jumping: self.jumping,
            current_t: self.current_t as int,
            jump_turn_decrease: self.jump_turn_decrease as int,
        }
    }
}

/// Validity of a car: positive box extents, bounded speeds and jump
/// parameters, a grounded-or-airborne vertical position, and, while
/// jumping, an elapsed time that has not left the jump parabola far
/// behind its root.
pub open spec fn wf_car(c: CarV) -> bool {
    &&& 0 < c.size.x <= SIZE_LIMIT
    &&& 0 < c.size.y <= SIZE_LIMIT
    &&& 0 < c.size.z <= SIZE_LIMIT
    &&& 0 <= c.speed <= SPEED_LIMIT
    &&& 0 <= c.turn_speed <= SPEED_LIMIT
    &&& 1 <= c.jump_turn_decrease <= MILLI
    &&& 0 <= c.jump_v <= SPEED_LIMIT
    &&& ACC_MIN <= c.jump_a <= ACC_LIMIT
    &&& 0 <= c.current_t <= T_LIMIT
    &&& c.position.y >= 0
    &&& (c.jumping ==> c.jump_a * c.current_t <= 2000 * c.jump_v + 2_000_000)
}

/// Height of the jump parabola `t * (v - a*t/2)` after `t` milliseconds,
/// in thousandths of a unit, for a velocity in thousandths of a unit per
/// second and an acceleration per second squared.
pub open spec fn jump_y(v: int, a: int, t: int) -> int {
    (v * t) / 1000 - (a * t * t) / 2_000_000
}

/// One step of the jump integration: advance the clock, move to the
/// parabola height, and land (exactly at height zero) once the parabola
/// dips below the ground.
pub open spec fn jump_step(c: CarV, dt: int) -> CarV {
    let t = c.current_t + dt;
    let y = jump_y(c.jump_v, c.jump_a, t);
    if y < 0 {
        CarV {
            position: v3(c.position.x, 0, c.position.z),
            jumping: false,
            current_t: t,
            ..c
        }
    } else {
        CarV { position: v3(c.position.x, y, c.position.z), current_t: t, ..c }
    }
}

pub open spec fn car_update_jump(c: CarV, dt: int) -> CarV {
    if c.jumping {
        jump_step(c, dt)
    } else {
        c
    }
}

/// Starting a jump: only a grounded, non-jumping car takes off.
pub open spec fn car_jump_spec(c: CarV) -> CarV {
    if !c.jumping && c.position.y == 0 {
        CarV { jumping: true, current_t: 0, ..c }
    } else {
        c
    }
}

/// One step of turning left: the position moves by `dt` at the effective
/// turn speed.
pub open spec fn car_turn_left_spec(c: CarV, dt: int) -> CarV {
    CarV {
        position: v3(
            c.position.x - (dt * eff_turn_speed(c)) / 1000,
            c.position.y,
            c.position.z,
        ),
        ..c
    }
}

pub open spec fn car_turn_right_spec(c: CarV, dt: int) -> CarV {
    CarV {
        position: v3(
            c.position.x + (dt * eff_turn_speed(c)) / 1000,
            c.position.y,
            c.position.z,
        ),
        ..c
    }
}

/// Turn speed is dampened while airborne.
pub open spec fn eff_turn_speed(c: CarV) -> int {
    if c.jumping {
        c.turn_speed / c.jump_turn_decrease
    } else {
        c.turn_speed
    }
}

/// Forward motion: drive down the tunnel (decreasing z), then advance
/// the jump.
pub open spec fn car_forward(c: CarV, dt: int, outside_speed: int) -> CarV {
    car_update_jump(
        CarV {
            position: v3(
                c.position.x,
                c.position.y,
                c.position.z - (dt * (c.speed + outside_speed)) / 1000,
            ),
            ..c
        },
        dt,
    )
}

/// Axis-aligned box overlap: x-ranges are centered on the position,
/// y- and z-ranges extend from it.
pub open spec fn crashed_spec(a: CarV, b: CarV) -> bool {
    &&& iabs(a.position.x - b.position.x) < (a.size.x + b.size.x) / 2
    &&& (if a.position.z < b.position.z {
        b.position.z - a.position.z < a.size.z
    } else {
        a.position.z - b.position.z < b.size.z
    })
    &&& (if a.position.y < b.position.y {
        b.position.y - a.position.y < a.size.y
    } else {
        a.position.y - b.position.y < b.size.y
    })
}

/// Whether a single point lies inside the car's box.
pub open spec fn hit_point(c: CarV, p: Vec3i) -> bool {
    &&& iabs(p.x - c.position.x) < c.size.x / 2
    &&& p.y >= c.position.y
    &&& p.y - c.position.y < c.size.y
    &&& p.z >= c.position.z
    &&& p.z - c.position.z < c.size.z
}

/// Whether either end of a bullet's segment lies inside the car's box.
pub open spec fn hit_spec(c: CarV, b: crate::world::BulletV) -> bool {
    hit_point(c, b.origin) || hit_point(c, add3(b.origin, b.displacement))
}

impl Car {
    pub fn pos(&self) -> (r: Vec3)
        ensures
            r@ == self@.position,
    {
        self.position
    }

    pub fn rear_z(&self) -> (r: i64)
        requires
            wf_car(self@),
            in_range(self@.position, 4 * POS_LIMIT as int),
        ensures
            r == self@.position.z + self@.size.z,
    {
        self.position.z + self.size.z
    }

    pub fn turn_speed(&self) -> (r: i64)
        requires
            wf_car(self@),
        ensures
            r == eff_turn_speed(self@),
    {
        if self.jumping {
            div_floor_i64(self.turn_speed, self.jump_turn_decrease)
        } else {
            self.turn_speed
        }
    }

    pub fn turn_left(&mut self, dt: i64)
        requires
            wf_car(old(self)@),
            0 <= dt <= DT_LIMIT,
            in_range(old(self)@.position, 4 * POS_LIMIT as int),
        ensures
            final(self)@ == car_turn_left_spec(old(self)@, dt as int),
            wf_car(final(self)@),
    {
        let ts = self.turn_speed();
        proof {
            lemma_mul_bound(dt as int, ts as int, DT_LIMIT as int, SPEED_LIMIT as int);
            lemma_div_is_ordered(0, dt as int * ts as int, 1000);
            lemma_div_is_ordered(dt as int * ts as int, DT_LIMIT as int * SPEED_LIMIT as int, 1000);
        }
        self.position.x = self.position.x - div_floor_i64(dt * ts, 1000);
    }

    pub fn turn_right(&mut self, dt: i64)
        requires
            wf_car(old(self)@),
            0 <= dt <= DT_LIMIT,
            in_range(old(self)@.position, 4 * POS_LIMIT as int),
        ensures
            final(self)@ == car_turn_right_spec(old(self)@, dt as int),
            wf_car(final(self)@),
    {
        let ts = self.turn_speed();
        proof {
            lemma_mul_bound(dt as int, ts as int, DT_LIMIT as int, SPEED_LIMIT as int);
            lemma_div_is_ordered(0, dt as int * ts as int, 1000);
            lemma_div_is_ordered(dt as int * ts as int, DT_LIMIT as int * SPEED_LIMIT as int, 1000);
        }
        self.position.x = self.position.x + div_floor_i64(dt * ts, 1000);
    }

    /// Apply a turn command for one step.
    pub fn turn(&mut self, turn: &Turn, dt: i64)
        requires
            wf_car(old(self)@),
            0 <= dt <= DT_LIMIT,
            in_range(old(self)@.position, 4 * POS_LIMIT as int),
        ensures
            final(self)@ == (match turn {
                Turn::Left => car_turn_left_spec(old(self)@, dt as int),
                Turn::Right => car_turn_right_spec(old(self)@, dt as int),
                Turn::Straight => old(self)@,
            }),
            wf_car(final(self)@),
    {
        match turn {
            Turn::Left => self.turn_left(dt),
            Turn::Right => self.turn_right(dt),
            Turn::Straight => (),
        }
    }

    /// Start a jump, if grounded and not already jumping.
    pub fn jump(&mut self)
        requires
            wf_car(old(self)@),
        ensures
            final(self)@ == car_jump_spec(old(self)@),
            wf_car(final(self)@),
    {
        if self.jumping || self.position.y > 0 {
        } else {
            self.jumping = true;
            self.current_t = 0;
        }
    }

    /// The same action under its older name.
    pub fn start_jump(&mut self)
        requires
            wf_car(old(self)@),
        ensures
            final(self)@ == car_jump_spec(old(self)@),
            wf_car(final(self)@),
    {
        self.jump()
    }

    /// Advance the jump parabola by `dt` milliseconds.
    pub fn update_jump(&mut self, dt: i64)
        requires
            wf_car(old(self)@),
            0 <= dt <= DT_LIMIT,
        ensures
            final(self)@ == car_update_jump(old(self)@, dt as int),
            wf_car(final(self)@),
    {
        if self.jumping {
            self.current_t = self.current_t + dt;
            let t = self.current_t;
            proof {
                let a = old(self)@.jump_a;
                let t0 = old(self)@.current_t;
                let ti = t as int;
                lemma_mul_bound(a, dt as int, ACC_LIMIT as int, DT_LIMIT as int);
                lemma_mul_is_distributive_add(a, t0, dt as int);
                lemma_mul_nonnegative(a, t0);
                assert(ti == t0 + dt as int);
                assert(a * ti == a * t0 + a * (dt as int));
                assert(0 <= a * t0 <= 2_002_000_000);
                assert(1000 * t0 <= a * t0) by (nonlinear_arith)
                    requires
                        1000 <= a,
                        0 <= t0,
                ;
                assert(t0 <= 2_002_000);
                assert(ti <= 2_003_000);
                assert(iabs(a * ti) <= 1_002_002_000_000);
                lemma_mul_bound(a * ti, ti, 1_002_002_000_000, 2_003_000);
                lemma_mul_bound(old(self)@.jump_v, ti, SPEED_LIMIT as int, 2_003_000);
            }
            let rise = div_floor_i64(self.jump_v * t, MILLI);
            let fall = div_floor_i64(self.jump_a * t * t, 2_000_000);
            proof {
                lemma_div_is_ordered(0, self@.jump_a * t * t, 2_000_000);
                lemma_div_is_ordered(0, self@.jump_v * t, 1000);
                lemma_div_is_ordered(self@.jump_v * t, 2_003_000_000_000, 1000);
            }
            let y = rise - fall;
            if y < 0 {
                self.position.y = 0;
                self.jumping = false;
            } else {
                self.position.y = y;
                proof {
                    lemma_jump_invariant_restores(self@.jump_v, self@.jump_a, t as int);
                }
            }
        }
    }

    /// Drive forward by `dt` at the car's own speed plus `outside_speed`,
    /// then advance the jump.
    pub fn forward(&mut self, dt: i64, outside_speed: i64)
        requires
            wf_car(old(self)@),
            0 <= dt <= DT_LIMIT,
            0 <= outside_speed <= 2 * SPEED_LIMIT,
            in_range(old(self)@.position, 4 * POS_LIMIT as int),
        ensures
            final(self)@ == car_forward(old(self)@, dt as int, outside_speed as int),
            wf_car(final(self)@),
    {
        proof {
            lemma_mul_bound(
                dt as int,
                self@.speed + outside_speed,
                DT_LIMIT as int,
                3 * SPEED_LIMIT as int,
            );
            lemma_div_is_ordered(0, dt as int * (self@.speed + outside_speed), 1000);
            lemma_div_is_ordered(
                dt as int * (self@.speed + outside_speed),
                DT_LIMIT as int * (3 * SPEED_LIMIT as int),
                1000,
            );
        }
        self.position.z = self.position.z - div_floor_i64(dt * (self.speed + outside_speed), 1000);
        self.update_jump(dt);
    }

    /// Draw the twelve edges of the car's wireframe box, keeping the
    /// at-least-partly-visible ones.
    pub fn render(&self, camera: &Camera) -> (r: Vec<RenderedLine>)
        requires
            wf_car(self@),
            wf_camera(camera@),
            in_range(self@.position, RENDER_LIMIT as int),
        ensures
            lines_view(r@) == car_render_spec(camera@, self@),
    {
        let xl = self.position.x - div_floor_i64(self.size.x, 2);
        let xr = self.position.x + div_floor_i64(self.size.x, 2);
        let yb = self.position.y;
        let yt = self.position.y + self.size.y;
        let zf = self.position.z;
        let zr = self.position.z + self.size.z;
        let f0 = Vec3::new(xl, yt, zf);
        let f1 = Vec3::new(xr, yt, zf);
        let f2 = Vec3::new(xr, yb, zf);
        let f3 = Vec3::new(xl, yb, zf);
        let r0 = Vec3::new(xl, yt, zr);
        let r1 = Vec3::new(xr, yt, zr);
        let r2 = Vec3::new(xr, yb, zr);
        let r3 = Vec3::new(xl, yb, zr);
        let mut out: Vec<RenderedLine> = Vec::new();
        push_line(&mut out, camera, f0, f1, self.color);
        push_line(&mut out, camera, r0, r1, self.color);
        push_line(&mut out, camera, f0, r0, self.color);
        push_line(&mut out, camera, f1, f2, self.color);
        push_line(&mut out, camera, r1, r2, self.color);
        push_line(&mut out, camera, f1, r1, self.color);
        push_line(&mut out, camera, f2, f3, self.color);
        push_line(&mut out, camera, r2, r3, self.color);
        push_line(&mut out, camera, f2, r2, self.color);
        push_line(&mut out, camera, f3, f0, self.color);
        push_line(&mut out, camera, r3, r0, self.color);
        push_line(&mut out, camera, f3, r3, self.color);
        proof {
            assert(lines_view(out@) =~= car_render_spec(camera@, self@));
        }
        out
    }

    /// Axis-aligned box overlap with another car.
    pub fn crashed(&self, other: &Car) -> (r: bool)
        requires
            wf_car(self@),
            wf_car(other@),
            in_range(self@.position, 4 * POS_LIMIT as int),
            in_range(other@.position, 4 * POS_LIMIT as int),
        ensures
            r == crashed_spec(self@, other@),
    {
        let dx = self.position.x - other.position.x;
        let adx = if dx < 0 {
            -dx
        } else {
            dx
        };
        let half = div_floor_i64(self.size.x + other.size.x, 2);
        (adx < half) && (if self.position.z < other.position.z {
            other.position.z - self.position.z < self.size.z
        } else {
            self.position.z - other.position.z < other.size.z
        }) && (if self.position.y < other.position.y {
            other.position.y - self.position.y < self.size.y
        } else {
            self.position.y - other.position.y < other.size.y
        })
    }

    /// The same test under its older name.
    pub fn crash(&self, other: &Car) -> (r: bool)
        requires
            wf_car(self@),
            wf_car(other@),
            in_range(self@.position, 4 * POS_LIMIT as int),
            in_range(other@.position, 4 * POS_LIMIT as int),
        ensures
            r == crashed_spec(self@, other@),
    {
        self.crashed(other)
    }

    /// Whether either end of the bullet's segment lies inside this car.
    pub fn hit(&self, bullet: &Bullet) -> (r: bool)
        requires
            wf_car(self@),
            in_range(self@.position, 4 * POS_LIMIT as int),
            in_range(bullet@.origin, 4 * POS_LIMIT as int),
            in_range(bullet@.displacement, 4 * POS_LIMIT as int),
        ensures
            r == hit_spec(self@, bullet@),
    {
        let tail = bullet.origin.add(bullet.displacement);
        self.hit_at(&bullet.origin) || self.hit_at(&tail)
    }

    fn hit_at(&self, p: &Vec3) -> (r: bool)
        requires
            wf_car(self@),
            in_range(self@.position, 4 * POS_LIMIT as int),
            in_range(p@, 8 * POS_LIMIT as int),
        ensures
            r == hit_point(self@, p@),
    {
        let dx = p.x - self.position.x;
        let adx = if dx < 0 {
            -dx
        } else {
            dx
        };
        let half = div_floor_i64(self.size.x, 2);
        adx < half && p.y >= self.position.y && p.y - self.position.y < self.size.y && p.z
            >= self.position.z && p.z - self.position.z < self.size.z
    }
}

/// Largest position component at which a car can still be drawn.
pub const RENDER_LIMIT: i64 = 8_000_000;

/// The twelve rendered edges of the car's box, in drawing order: for each
/// of the four corners, the front edge to the next corner, the matching
/// rear edge, and the connecting edge.
pub open spec fn car_render_spec(cam: CameraV, c: CarV) -> Seq<RenderedLineV> {
    let xl = c.position.x - c.size.x / 2;
    let xr = c.position.x + c.size.x / 2;
    let yb = c.position.y;
    let yt = c.position.y + c.size.y;
    let zf = c.position.z;
    let zr = c.position.z + c.size.z;
    let f0 = v3(xl, yt, zf);
    let f1 = v3(xr, yt, zf);
    let f2 = v3(xr, yb, zf);
    let f3 = v3(xl, yb, zf);
    let r0 = v3(xl, yt, zr);
    let r1 = v3(xr, yt, zr);
    let r2 = v3(xr, yb, zr);
    let r3 = v3(xl, yb, zr);
    line_opt(cam, f0, f1, c.color) + line_opt(cam, r0, r1, c.color) + line_opt(cam, f0, r0, c.color)
        + line_opt(cam, f1, f2, c.color) + line_opt(cam, r1, r2, c.color) + line_opt(
        cam,
        f1,
        r1,
        c.color,
    ) + line_opt(cam, f2, f3, c.color) + line_opt(cam, r2, r3, c.color) + line_opt(
        cam,
        f2,
        r2,
        c.color,
    ) + line_opt(cam, f3, f0, c.color) + line_opt(cam, r3, r0, c.color) + line_opt(
        cam,
        f3,
        r3,
        c.color,
    )
}

/// While the parabola stays above ground, the jump-time bound of `wf_car`
/// re-establishes itself.
proof fn lemma_jump_invariant_restores(v: int, a: int, t: int)
    requires
        0 <= v,
        1 <= a,
        0 <= t,
        jump_y(v, a, t) >= 0,
    ensures
        a * t <= 2000 * v + 2_000_000,
{
    if t == 0 {
        assert(a * t == 0) by (nonlinear_arith)
            requires
                t == 0,
        ;
    } else {
        let p = a * t * t;
        let g = (v * t) / 1000;
        let f = p / 2_000_000;
        lemma_fundamental_div_mod(p, 2_000_000);
        lemma_mod_bound(p, 2_000_000);
        lemma_fundamental_div_mod(v * t, 1000);
        lemma_mod_bound(v * t, 1000);
        assert(p <= 2000 * (v * t) + 2_000_000 - 1) by (nonlinear_arith)
            requires
                p == 2_000_000 * f + p % 2_000_000,
                0 <= p % 2_000_000 < 2_000_000,
                v * t == 1000 * g + (v * t) % 1000,
                0 <= (v * t) % 1000,
                f <= g,
        ;
        assert(a * t <= 2000 * v + 2_000_000) by (nonlinear_arith)
            requires
                a * t * t <= 2000 * (v * t) + 2_000_000 - 1,
                1 <= t,
                0 <= v,
        ;
    }
}

/// Once the elapsed time passes the root of the jump parabola, the
/// parabola is strictly below ground, so the integration step lands the
/// car at height exactly zero and clears the jump flag.
pub proof fn lemma_jump_lands(c: CarV, dt: int)
    requires
        wf_car(c),
        c.jumping,
        0 <= dt,
        1000 <= c.current_t + dt,
        c.jump_a * (c.current_t + dt) >= 2000 * c.jump_v + 4000,
    ensures
        !jump_step(c, dt).jumping,
        jump_step(c, dt).position.y == 0,
{
    let t = c.current_t + dt;
    let v = c.jump_v;
    let a = c.jump_a;
    let g = (v * t) / 1000;
    lemma_fundamental_div_mod(v * t, 1000);
    lemma_mod_bound(v * t, 1000);
    assert(a * t * t >= 2_000_000 * (g + 2)) by (nonlinear_arith)
        requires
            a * t >= 2000 * v + 4000,
            1000 <= t,
            0 <= v,
            v * t == 1000 * g + (v * t) % 1000,
            0 <= (v * t) % 1000,
    ;
    lemma_div_is_ordered(2_000_000 * (g + 2), a * t * t, 2_000_000);
    lemma_div_multiples_vanish(g + 2, 2_000_000);
    assert((a * t * t) / 2_000_000 >= g + 2);
}

/// Box overlap is symmetric.
pub proof fn lemma_crashed_symmetric(a: CarV, b: CarV)
    requires
        wf_car(a),
        wf_car(b),
    ensures
        crashed_spec(a, b) == crashed_spec(b, a),
{
}

/// Two boxes whose x-ranges do not overlap never crash, whatever their
/// other coordinates and sizes.
pub proof fn lemma_disjoint_x_no_crash(a: CarV, b: CarV)
    requires
        wf_car(a),
        wf_car(b),
        2 * iabs(a.position.x - b.position.x) >= a.size.x + b.size.x,
    ensures
        !crashed_spec(a, b),
{
    let s = a.size.x + b.size.x;
    let d = iabs(a.position.x - b.position.x);
    lemma_div_is_ordered(s, 2 * d, 2);
    lemma_div_multiples_vanish(d, 2);
    assert(s / 2 <= d);
}

} // verus!
