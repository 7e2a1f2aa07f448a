//! The tunnel: its wireframe walls, the animated road dividers, and the
//! decoration hoops that fly past.

use crate::camera::{
    line_opt, lines_view, push_line, wf_camera, Camera, CameraV, RenderedLine, RenderedLineV,
    CAM_POS_LIMIT,
};
use crate::car::{DT_LIMIT, SIZE_LIMIT, SPEED_LIMIT};
use crate::color::Color;
use crate::game::GameConfig;
use crate::geom::{div_floor_i64, lemma_mul_bound, v3, Point2, Point2i, Vec3, Vec3i};
use vstd::arithmetic::div_mod::lemma_div_is_ordered;
use vstd::prelude::*;

verus! {

/// Lowest animation state the renderer accepts, in thousandths of a unit.
pub const STATE_RENDER_MIN: i64 = -7_000_000;

/// Mathematical counterpart of `Tunel`.
pub ghost struct TunelV {
    pub size: Vec3i,
    pub color: Color,
    pub divider: Point2i,
    pub divider_state: int,
    pub decor_distance: int,
    pub decor_state: int,
}

/// The tunnel: `size` is its width, height and depth; the divider and
/// decoration states scroll toward the player as the world moves.
#[derive(Clone, Copy, PartialEq, Eq, Structural, Debug)]
pub struct Tunel {
    pub size: Vec3,
    pub color: Color,
    /// Width and length of one road divider.
    pub divider: Point2,
    pub divider_state: i64,
    pub decor_distance: i64,
    pub decor_state: i64,
}

impl View for Tunel {
    type V = TunelV;

    open spec fn view(&self) -> TunelV {
        TunelV {
            size: self.size@,
            color: self.color,
            divider: self.divider@,
            divider_state: self.divider_state as int,
            decor_distance: self.decor_distance as int,
            decor_state: self.decor_state as int,
        }
    }
}

pub open spec fn wf_tunel(t: TunelV) -> bool {
    &&& 0 < t.size.x <= SIZE_LIMIT
    &&& 0 < t.size.y <= SIZE_LIMIT
    &&& 0 < t.size.z <= SIZE_LIMIT
    &&& 0 < t.divider.x <= SIZE_LIMIT
    &&& 0 < t.divider.y <= SIZE_LIMIT
    &&& 0 < t.decor_distance <= SIZE_LIMIT
    &&& t.divider_state <= 2 * t.divider.y
    &&& t.decor_state <= t.decor_distance
}

/// One scroll step: both states move toward the player by the distance
/// the world travelled, and wrap once they pass it.
pub open spec fn tunel_update(t: TunelV, dt: int, speed: int) -> TunelV {
    let delta = (dt * speed) / 1000;
    let ds = t.divider_state - delta;
    let es = t.decor_state - delta;
    TunelV {
        divider_state: if ds < 0 {
            ds + 2 * t.divider.y
        } else {
            ds
        },
        decor_state: if es < 0 {
            es + t.decor_distance
        } else {
            es
        },
        ..t
    }
}

/// The four long edges of the tunnel.
pub open spec fn frame_lines(cam: CameraV, t: TunelV) -> Seq<RenderedLineV> {
    let sx = t.size.x;
    let sy = t.size.y;
    let sz = t.size.z;
    line_opt(cam, v3(0, 0, 0), v3(0, 0, sz), t.color) + line_opt(
        cam,
        v3(sx, 0, 0),
        v3(sx, 0, sz),
        t.color,
    ) + line_opt(cam, v3(0, sy, 0), v3(0, sy, sz), t.color) + line_opt(
        cam,
        v3(sx, sy, 0),
        v3(sx, sy, sz),
        t.color,
    )
}

/// The rendered outline of the divider whose near edge is at depth `z`.
pub open spec fn divider_step(cam: CameraV, t: TunelV, z: int) -> Seq<RenderedLineV> {
    let xl = t.size.x / 2 - t.divider.x / 2;
    let xr = t.size.x / 2 + t.divider.x / 2;
    let p0 = v3(xl, 0, z);
    let p1 = v3(xr, 0, z);
    let p2v = v3(xr, 0, z - t.divider.y);
    let p3 = v3(xl, 0, z - t.divider.y);
    line_opt(cam, p0, p1, t.color) + line_opt(cam, p1, p2v, t.color) + line_opt(
        cam,
        p2v,
        p3,
        t.color,
    ) + line_opt(cam, p3, p0, t.color)
}

/// All dividers from depth `z` to the end of the tunnel, plus the one
/// just past it.
pub open spec fn divider_lines(cam: CameraV, t: TunelV, z: int) -> Seq<RenderedLineV>
    decreases t.size.z + 2 * t.divider.y - z,
    when 0 < t.divider.y
{
    if z > t.size.z {
        divider_step(cam, t, z)
    } else {
        divider_step(cam, t, z) + divider_lines(cam, t, z + 2 * t.divider.y)
    }
}

/// The rendered decoration hoop at depth `z` (three of its four sides).
pub open spec fn decor_step(cam: CameraV, t: TunelV, z: int) -> Seq<RenderedLineV> {
    let d0 = v3(0, 0, z);
    let d1 = v3(0, t.size.y, z);
    let d2 = v3(t.size.x, t.size.y, z);
    let d3 = v3(t.size.x, 0, z);
    line_opt(cam, d0, d1, t.color) + line_opt(cam, d1, d2, t.color) + line_opt(
        cam,
        d2,
        d3,
        t.color,
    )
}

/// All decoration hoops from depth `z` to the end of the tunnel.
pub open spec fn decor_lines(cam: CameraV, t: TunelV, z: int) -> Seq<RenderedLineV>
    decreases t.size.z + t.decor_distance - z,
    when 0 < t.decor_distance
{
    if z > t.size.z {
        seq![]
    } else {
        decor_step(cam, t, z) + decor_lines(cam, t, z + t.decor_distance)
    }
}

/// Everything the tunnel draws: walls, dividers, decorations, in that
/// order.
pub open spec fn tunel_render_spec(cam: CameraV, t: TunelV) -> Seq<RenderedLineV> {
    frame_lines(cam, t) + divider_lines(cam, t, t.divider_state) + decor_lines(
        cam,
        t,
        t.decor_state,
    )
}

impl Tunel {
    /// A tunnel of the configured size, blue, with the dividers and
    /// decorations starting one interval in.
    pub fn new(config: &GameConfig) -> (r: Tunel)
        ensures
            r@ == (TunelV {
                size: config.tunel_size@,
                color: Color { r: 0, g: 0, b: 1000, a: 1000 },
                divider: config.divider_size@,
                divider_state: config.divider_size@.y,
                decor_distance: config.decor_distance as int,
                decor_state: config.decor_distance as int,
            }),
    {
        Tunel {
            size: config.tunel_size,
            color: Color::blue(),
            divider: config.divider_size,
            divider_state: config.divider_size.y,
            decor_distance: config.decor_distance,
            decor_state: config.decor_distance,
        }
    }

    /// Scroll the divider and decoration states by one step.
    pub fn update(&mut self, dt: i64, speed: i64)
        requires
            wf_tunel(old(self)@),
            0 <= dt <= DT_LIMIT,
            0 <= speed <= 2 * SPEED_LIMIT,
            -2 * crate::car::POS_LIMIT <= old(self)@.divider_state,
            -2 * crate::car::POS_LIMIT <= old(self)@.decor_state,
        ensures
            final(self)@ == tunel_update(old(self)@, dt as int, speed as int),
            wf_tunel(final(self)@),
    {
        proof {
            lemma_mul_bound(dt as int, speed as int, DT_LIMIT as int, 2 * SPEED_LIMIT as int);
            lemma_div_is_ordered(0, dt as int * speed as int, 1000);
            lemma_div_is_ordered(dt as int * speed as int, 2_000_000_000, 1000);
        }
        let delta = div_floor_i64(dt * speed, 1000);
        self.divider_state = self.divider_state - delta;
        if self.divider_state < 0 {
            self.divider_state = self.divider_state + 2 * self.divider.y;
        }
        self.decor_state = self.decor_state - delta;
        if self.decor_state < 0 {
            self.decor_state = self.decor_state + self.decor_distance;
        }
    }

    /// Draw the tunnel: walls, dividers, decorations.
    pub fn render(&self, camera: &Camera) -> (r: Vec<RenderedLine>)
        requires
            wf_tunel(self@),
            wf_camera(camera@),
            STATE_RENDER_MIN <= self@.divider_state,
            STATE_RENDER_MIN <= self@.decor_state,
        ensures
            lines_view(r@) == tunel_render_spec(camera@, self@),
    {
        let mut out: Vec<RenderedLine> = Vec::new();
        let sx = self.size.x;
        let sy = self.size.y;
        let sz = self.size.z;
        push_line(&mut out, camera, Vec3::new(0, 0, 0), Vec3::new(0, 0, sz), self.color);
        push_line(&mut out, camera, Vec3::new(sx, 0, 0), Vec3::new(sx, 0, sz), self.color);
        push_line(&mut out, camera, Vec3::new(0, sy, 0), Vec3::new(0, sy, sz), self.color);
        push_line(&mut out, camera, Vec3::new(sx, sy, 0), Vec3::new(sx, sy, sz), self.color);
        proof {
            assert(lines_view(out@) =~= frame_lines(camera@, self@));
        }
        self.divider_render(camera, &mut out);
        self.decor_render(camera, &mut out);
        proof {
            assert(lines_view(out@) =~= tunel_render_spec(camera@, self@));
        }
        out
    }

    /// Draw every divider from the current scroll state down the tunnel.
    fn divider_render(&self, camera: &Camera, out: &mut Vec<RenderedLine>)
        requires
            wf_tunel(self@),
            wf_camera(camera@),
            STATE_RENDER_MIN <= self@.divider_state <= 2 * self@.divider.y,
        ensures
            lines_view(final(out)@) == lines_view(old(out)@) + divider_lines(
                camera@,
                self@,
                self@.divider_state,
            ),
    {
        let xl = div_floor_i64(self.size.x, 2) - div_floor_i64(self.divider.x, 2);
        let xr = div_floor_i64(self.size.x, 2) + div_floor_i64(self.divider.x, 2);
        let mut z = self.divider_state;
        while z <= self.size.z
            invariant
                wf_tunel(self@),
                wf_camera(camera@),
                STATE_RENDER_MIN <= z <= self@.size.z + 2 * self@.divider.y,
                xl == self@.size.x / 2 - self@.divider.x / 2,
                xr == self@.size.x / 2 + self@.divider.x / 2,
                lines_view(out@) + divider_lines(camera@, self@, z as int) == lines_view(
                    old(out)@,
                ) + divider_lines(camera@, self@, self@.divider_state),
            decreases self@.size.z + 2 * self@.divider.y - z,
        {
            let ghost before = lines_view(out@);
            push_line(out, camera, Vec3::new(xl, 0, z), Vec3::new(xr, 0, z), self.color);
            push_line(
                out,
                camera,
                Vec3::new(xr, 0, z),
                Vec3::new(xr, 0, z - self.divider.y),
                self.color,
            );
            push_line(
                out,
                camera,
                Vec3::new(xr, 0, z - self.divider.y),
                Vec3::new(xl, 0, z - self.divider.y),
                self.color,
            );
            push_line(
                out,
                camera,
                Vec3::new(xl, 0, z - self.divider.y),
                Vec3::new(xl, 0, z),
                self.color,
            );
            proof {
                assert(lines_view(out@) =~= before + divider_step(camera@, self@, z as int));
                assert(divider_lines(camera@, self@, z as int) == divider_step(
                    camera@,
                    self@,
                    z as int,
                ) + divider_lines(camera@, self@, z as int + 2 * self@.divider.y));
                assert(lines_view(out@) + divider_lines(
                    camera@,
                    self@,
                    z as int + 2 * self@.divider.y,
                ) =~= before + divider_lines(camera@, self@, z as int));
            }
            z = z + 2 * self.divider.y;
        }
        push_line(out, camera, Vec3::new(xl, 0, z), Vec3::new(xr, 0, z), self.color);
        push_line(
            out,
            camera,
            Vec3::new(xr, 0, z),
            Vec3::new(xr, 0, z - self.divider.y),
            self.color,
        );
        push_line(
            out,
            camera,
            Vec3::new(xr, 0, z - self.divider.y),
            Vec3::new(xl, 0, z - self.divider.y),
            self.color,
        );
        push_line(
            out,
            camera,
            Vec3::new(xl, 0, z - self.divider.y),
            Vec3::new(xl, 0, z),
            self.color,
        );
        proof {
            assert(divider_lines(camera@, self@, z as int) =~= divider_step(
                camera@,
                self@,
                z as int,
            ));
            assert(lines_view(out@) =~= lines_view(old(out)@) + divider_lines(
                camera@,
                self@,
                self@.divider_state,
            ));
        }
    }

    /// Draw every decoration hoop from the current scroll state down the
    /// tunnel.
    fn decor_render(&self, camera: &Camera, out: &mut Vec<RenderedLine>)
        requires
            wf_tunel(self@),
            wf_camera(camera@),
            STATE_RENDER_MIN <= self@.decor_state <= self@.decor_distance,
        ensures
            lines_view(final(out)@) == lines_view(old(out)@) + decor_lines(
                camera@,
                self@,
                self@.decor_state,
            ),
    {
        let sx = self.size.x;
        let sy = self.size.y;
        let mut z = self.decor_state;
        while z <= self.size.z
            invariant
                wf_tunel(self@),
                wf_camera(camera@),
                STATE_RENDER_MIN <= z <= self@.size.z + self@.decor_distance,
                sx == self@.size.x,
                sy == self@.size.y,
                lines_view(out@) + decor_lines(camera@, self@, z as int) == lines_view(
                    old(out)@,
                ) + decor_lines(camera@, self@, self@.decor_state),
            decreases self@.size.z + self@.decor_distance - z,
        {
            let ghost before = lines_view(out@);
            push_line(out, camera, Vec3::new(0, 0, z), Vec3::new(0, sy, z), self.color);
            push_line(out, camera, Vec3::new(0, sy, z), Vec3::new(sx, sy, z), self.color);
            push_line(out, camera, Vec3::new(sx, sy, z), Vec3::new(sx, 0, z), self.color);
            proof {
                assert(lines_view(out@) =~= before + decor_step(camera@, self@, z as int));
                assert(decor_lines(camera@, self@, z as int) == decor_step(
                    camera@,
                    self@,
                    z as int,
                ) + decor_lines(camera@, self@, z as int + self@.decor_distance));
                assert(lines_view(out@) + decor_lines(
                    camera@,
                    self@,
                    z as int + self@.decor_distance,
                ) =~= before + decor_lines(camera@, self@, z as int));
            }
            z = z + self.decor_distance;
        }
        proof {
            assert(decor_lines(camera@, self@, z as int) =~= Seq::<RenderedLineV>::empty());
            assert(lines_view(out@) =~= lines_view(old(out)@) + decor_lines(
                camera@,
                self@,
                self@.decor_state,
            ));
        }
    }
}

} // verus!
