//! A pinhole camera: points and line segments in the world are projected
//! through a plane at offset `c` from the eye onto the viewport.
//!
//! A point is visible when it lies on the far side of that plane. A segment
//! with exactly one visible endpoint is clipped: the invisible endpoint is
//! replaced by the segment's intersection with the plane.
//!
//! That a projected point lies on the plane is a consistency condition of
//! the projection; a violation would mean a defect in the math, so it is
//! not checked at run time but proved: it is a precondition of
//! `transform`, discharged at every call (`lemma_dot_floor_divs` bounds
//! the floor-division rounding error by the `l1` norm of `c`).

use crate::geom::{
    add3, div_floor_i128, div_floor_i64, dot3, iabs, in_range, isqrt, l1, lemma_div_abs_bound,
    lemma_dot_range, lemma_mag2_range, lemma_mul_bound, lemma_scaled_div_bound,
    lemma_sqrt_positive, mag2, p2, sqrt_floor, sub3, v3, Point2, Point2i, Vec3, Vec3i, MILLI,
};
use crate::color::Color;
use crate::Pixel;
use vstd::arithmetic::div_mod::{
    lemma_div_is_ordered, lemma_div_multiples_vanish, lemma_fundamental_div_mod, lemma_mod_bound,
};
use vstd::arithmetic::mul::{lemma_mul_inequality, lemma_mul_is_distributive_add};
use vstd::prelude::*;

verus! {

/// Largest component of the camera's direction and screen-axis vectors.
pub const CAM_VEC_LIMIT: i64 = 100_000;

/// Largest component of the eye and of any point handed to the camera.
pub const CAM_POS_LIMIT: i64 = 10_000_000;

/// Largest component of a plane-local vector handed to `transform`.
pub const TRANSFORM_LIMIT: i64 = 50_000_000;

/// Largest zoom factor (pixels per world unit) and screen dimension.
pub const ZOOM_LIMIT: i64 = 100_000;

/// Mathematical counterpart of `Camera`.
pub ghost struct CameraV {
    pub eye: Vec3i,
    pub c: Vec3i,
    pub axis_x: Vec3i,
    pub axis_y: Vec3i,
    pub zoom_factor: int,
    pub screen_w: int,
    pub screen_h: int,
}

/// Renders points and lines of the 3D world onto the screen.
#[derive(Clone, Copy, PartialEq, Eq, Structural, Debug)]
pub struct Camera {
    /// Location of the camera.
    pub eye: Vec3,
    /// Offset from the eye to the projection plane, and its normal.
    pub c: Vec3,
    pub axis_x: Vec3,
    pub axis_y: Vec3,
    pub zoom_factor: i64,
    pub screen_size: Pixel,
}

impl View for Camera {
    type V = CameraV;

    open spec fn view(&self) -> CameraV {
        CameraV {
            eye: self.eye@,
            c: self.c@,
            axis_x: self.axis_x@,
            axis_y: self.axis_y@,
            zoom_factor: self.zoom_factor as int,
            screen_w: self.screen_size.w as int,
            screen_h: self.screen_size.h as int,
        }
    }
}

pub open spec fn wf_camera(cam: CameraV) -> bool {
    &&& in_range(cam.c, CAM_VEC_LIMIT as int)
    &&& in_range(cam.axis_x, CAM_VEC_LIMIT as int)
    &&& in_range(cam.axis_y, CAM_VEC_LIMIT as int)
    &&& in_range(cam.eye, CAM_POS_LIMIT as int)
    &&& 1 <= mag2(cam.c)
    &&& 1 <= mag2(cam.axis_x)
    &&& 1 <= mag2(cam.axis_y)
    &&& 0 <= cam.zoom_factor <= ZOOM_LIMIT
    &&& 0 <= cam.screen_w <= ZOOM_LIMIT
    &&& 0 <= cam.screen_h <= ZOOM_LIMIT
}

/// The point the projection plane passes through.
pub open spec fn centre(cam: CameraV) -> Vec3i {
    add3(cam.eye, cam.c)
}

/// Signed side of `p` with respect to the projection plane; the eye's own
/// side is `-mag2(c)`.
pub open spec fn side(cam: CameraV, p: Vec3i) -> int {
    dot3(cam.c, sub3(p, centre(cam)))
}

/// A point is visible when it does not lie strictly behind the plane
/// (relative to the eye).
pub open spec fn visible(cam: CameraV, p: Vec3i) -> bool {
    side(cam, p) >= 0
}

/// The projection of a visible point, relative to `centre`: `p - eye`
/// scaled onto the plane (component-wise, with floor division) and then
/// taken relative to the plane's centre point.
pub open spec fn plane_local(cam: CameraV, p: Vec3i) -> Vec3i {
    let d = sub3(p, cam.eye);
    let m = mag2(cam.c);
    let q = dot3(cam.c, d);
    v3((d.x * m) / q - cam.c.x, (d.y * m) / q - cam.c.y, (d.z * m) / q - cam.c.z)
}

/// Where the segment from visible `a` to invisible `b` meets the plane,
/// relative to `centre`: `a + t*(b - a) - centre` with the parameter
/// `t = side(a) / (side(a) - side(b))` applied component-wise.
pub open spec fn clip_local(cam: CameraV, a: Vec3i, b: Vec3i) -> Vec3i {
    let v = sub3(b, a);
    let sa = side(cam, a);
    let den = side(cam, a) - side(cam, b);
    let al = sub3(a, centre(cam));
    v3(al.x + (v.x * sa) / den, al.y + (v.y * sa) / den, al.z + (v.z * sa) / den)
}

/// A plane-local vector mapped to the viewport: project onto the two
/// screen axes, scale to pixels, and centre (with the y axis flipped,
/// since screen rows grow downward).
pub open spec fn to_screen(cam: CameraV, x: Vec3i) -> Point2i {
    let ax = dot3(x, cam.axis_x) / (sqrt_floor(mag2(cam.axis_x) as nat) as int);
    let ay = dot3(x, cam.axis_y) / (sqrt_floor(mag2(cam.axis_y) as nat) as int);
    let w = (ax * cam.zoom_factor) / 1000 + cam.screen_w / 2;
    let h = cam.screen_h - ((ay * cam.zoom_factor) / 1000 + cam.screen_h / 2);
    p2(w, h)
}

/// What `render` returns for a single point.
pub open spec fn render_spec(cam: CameraV, p: Vec3i) -> Option<Point2i> {
    if visible(cam, p) {
        Some(to_screen(cam, plane_local(cam, p)))
    } else {
        None
    }
}

/// What `render_line` returns: both projections, none, or the visible
/// endpoint's projection together with the projected clip point.
pub open spec fn render_line_spec(cam: CameraV, a: Vec3i, b: Vec3i) -> Option<(Point2i, Point2i)> {
    if visible(cam, a) && visible(cam, b) {
        Some((to_screen(cam, plane_local(cam, a)), to_screen(cam, plane_local(cam, b))))
    } else if !visible(cam, a) && !visible(cam, b) {
        None
    } else if visible(cam, a) {
        Some((to_screen(cam, plane_local(cam, a)), to_screen(cam, clip_local(cam, a, b))))
    } else {
        Some((to_screen(cam, plane_local(cam, b)), to_screen(cam, clip_local(cam, b, a))))
    }
}

/// Rotation of `v` around the x axis by the angle whose sine and cosine,
/// scaled by a thousand, are `s` and `co`.
pub open spec fn rot_x(v: Vec3i, s: int, co: int) -> Vec3i {
    v3(v.x, (v.y * co - v.z * s) / 1000, (v.y * s + v.z * co) / 1000)
}

/// Rotation of `v` around the y axis.
pub open spec fn rot_y(v: Vec3i, s: int, co: int) -> Vec3i {
    v3((v.x * co + v.z * s) / 1000, v.y, (v.z * co - v.x * s) / 1000)
}

/// The camera rotated around `pivot`: first around the x axis, then
/// around the y axis.
pub open spec fn rotated(
    cam: CameraV,
    ys: int,
    yc: int,
    xs: int,
    xc: int,
    pivot: Vec3i,
) -> CameraV {
    let c = rot_y(rot_x(cam.c, xs, xc), ys, yc);
    let axis_x = rot_y(rot_x(cam.axis_x, xs, xc), ys, yc);
    let axis_y = rot_y(rot_x(cam.axis_y, xs, xc), ys, yc);
    let off = rot_y(rot_x(sub3(cam.eye, pivot), xs, xc), ys, yc);
    CameraV { eye: add3(pivot, off), c, axis_x, axis_y, ..cam }
}

/// Mathematical counterpart of `RenderedLine`.
pub ghost struct RenderedLineV {
    pub a: Point2i,
    pub b: Point2i,
    pub color: Color,
}

/// A projected segment ready to be stroked on the screen.
#[derive(Clone, Copy, PartialEq, Eq, Structural, Debug)]
pub struct RenderedLine {
    pub a: Point2,
    pub b: Point2,
    pub color: Color,
}

impl View for RenderedLine {
    type V = RenderedLineV;

    open spec fn view(&self) -> RenderedLineV {
        RenderedLineV { a: self.a@, b: self.b@, color: self.color }
    }
}

/// The views of a list of rendered segments.
pub open spec fn lines_view(s: Seq<RenderedLine>) -> Seq<RenderedLineV> {
    s.map_values(|l: RenderedLine| l@)
}

/// The rendered segment of one edge: a singleton when the segment is at
/// least partly visible, empty otherwise.
pub open spec fn line_opt(cam: CameraV, a: Vec3i, b: Vec3i, color: Color) -> Seq<RenderedLineV> {
    match render_line_spec(cam, a, b) {
        Some(pq) => seq![RenderedLineV { a: pq.0, b: pq.1, color }],
        None => seq![],
    }
}

/// Project one edge and append its rendered segment, if any.
pub fn push_line(out: &mut Vec<RenderedLine>, cam: &Camera, a: Vec3, b: Vec3, color: Color)
    requires
        wf_camera(cam@),
        in_range(a@, CAM_POS_LIMIT as int),
        in_range(b@, CAM_POS_LIMIT as int),
    ensures
        lines_view(final(out)@) == lines_view(old(out)@) + line_opt(cam@, a@, b@, color),
{
    match cam.render_line(&a, &b) {
        Some(pq) => {
            out.push(RenderedLine { a: pq.0, b: pq.1, color });
            proof {
                assert(lines_view(out@) =~= lines_view(old(out)@) + line_opt(
                    cam@,
                    a@,
                    b@,
                    color,
                ));
            }
        },
        None => {
            proof {
                assert(lines_view(out@) =~= lines_view(old(out)@) + line_opt(
                    cam@,
                    a@,
                    b@,
                    color,
                ));
            }
        },
    }
}

impl Camera {
    /// A fresh camera at `location`, looking down the tunnel: the plane
    /// offset is half a unit forward, the screen axes are unit x and y,
    /// and one world unit spans `size.w` pixels.
    pub fn new(size: Pixel, location: Vec3) -> (r: Camera)
        requires
            in_range(location@, CAM_POS_LIMIT as int),
            size.w <= ZOOM_LIMIT as u32,
            size.h <= ZOOM_LIMIT as u32,
        ensures
            r@ == (CameraV {
                eye: location@,
                c: v3(0, 0, 500),
                axis_x: v3(1000, 0, 0),
                axis_y: v3(0, 1000, 0),
                zoom_factor: size.w as int,
                screen_w: size.w as int,
                screen_h: size.h as int,
            }),
            wf_camera(r@),
    {
        let zoom = size.w as i64;
        Camera {
            eye: location,
            c: Vec3::new(0, 0, 500),
            axis_x: Vec3::new(1000, 0, 0),
            axis_y: Vec3::new(0, 1000, 0),
            zoom_factor: zoom,
            screen_size: size,
        }
    }

    /// Project a single point; `None` when it is not visible.
    pub fn render(&self, x: &Vec3) -> (r: Option<Point2>)
        requires
            wf_camera(self@),
            in_range(x@, CAM_POS_LIMIT as int),
        ensures
            r is Some <==> visible(self@, x@),
            r matches Some(p) ==> p@ == to_screen(self@, plane_local(self@, x@)),
    {
        let centre_p = self.eye.add(self.c);
        let side_x = self.c.dot(x.sub(centre_p));
        if side_x < 0 {
            None
        } else {
            Some(self.project_visible(x))
        }
    }

    /// The plane-local vector of a visible point, handed to `transform`.
    fn project_visible(&self, x: &Vec3) -> (r: Point2)
        requires
            wf_camera(self@),
            in_range(x@, CAM_POS_LIMIT as int),
            visible(self@, x@),
        ensures
            r@ == to_screen(self@, plane_local(self@, x@)),
    {
        let d = x.sub(self.eye);
        let m = self.c.mag2();
        let q = self.c.dot(d);
        proof {
            lemma_side_vs_q(self@, x@);
            lemma_mag2_range(self@.c, 100_000);
            let mi = mag2(self@.c);
            lemma_mul_bound(d@.x, mi, 20_000_000, 30_000_000_000);
            lemma_mul_bound(d@.y, mi, 20_000_000, 30_000_000_000);
            lemma_mul_bound(d@.z, mi, 20_000_000, 30_000_000_000);
            lemma_mul_bound(d@.x, mi, iabs(d@.x), mi);
            lemma_mul_bound(d@.y, mi, iabs(d@.y), mi);
            lemma_mul_bound(d@.z, mi, iabs(d@.z), mi);
            lemma_scaled_div_bound(d@.x * mi, q as int, mi, iabs(d@.x));
            lemma_scaled_div_bound(d@.y * mi, q as int, mi, iabs(d@.y));
            lemma_scaled_div_bound(d@.z * mi, q as int, mi, iabs(d@.z));
            lemma_plane_local_on_plane(self@, x@);
        }
        let px = div_floor_i64(d.x * m, q) - self.c.x;
        let py = div_floor_i64(d.y * m, q) - self.c.y;
        let pz = div_floor_i64(d.z * m, q) - self.c.z;
        let pl = Vec3::new(px, py, pz);
        self.transform(&pl)
    }

    /// Project a line segment, clipping it against the plane when exactly
    /// one endpoint is visible; `None` when neither is.
    pub fn render_line(&self, x: &Vec3, y: &Vec3) -> (r: Option<(Point2, Point2)>)
        requires
            wf_camera(self@),
            in_range(x@, CAM_POS_LIMIT as int),
            in_range(y@, CAM_POS_LIMIT as int),
        ensures
            r is Some <==> render_line_spec(self@, x@, y@) is Some,
            r matches Some(p) ==> render_line_spec(self@, x@, y@) matches Some(q) && p.0@ == q.0
                && p.1@ == q.1,
    {
        let x1 = self.render(x);
        let y1 = self.render(y);
        match (x1, y1) {
            (Some(px), Some(py)) => Some((px, py)),
            (None, None) => None,
            (Some(px), None) => Some((px, self.clip(x, y))),
            (None, Some(py)) => Some((py, self.clip(y, x))),
        }
    }

    /// The projected intersection of the plane with the segment from
    /// visible `a` to invisible `b`.
    fn clip(&self, a: &Vec3, b: &Vec3) -> (r: Point2)
        requires
            wf_camera(self@),
            in_range(a@, CAM_POS_LIMIT as int),
            in_range(b@, CAM_POS_LIMIT as int),
            visible(self@, a@),
            !visible(self@, b@),
        ensures
            r@ == to_screen(self@, clip_local(self@, a@, b@)),
    {
        let centre_p = self.eye.add(self.c);
        let sa = self.c.dot(a.sub(centre_p));
        let sb = self.c.dot(b.sub(centre_p));
        proof {
            lemma_dot_range(self@.c, sub3(a@, centre(self@)), 100_000, 20_100_000);
            lemma_dot_range(self@.c, sub3(b@, centre(self@)), 100_000, 20_100_000);
        }
        let den = sa - sb;
        let v = b.sub(*a);
        let al = a.sub(centre_p);
        proof {
            lemma_mul_bound(v@.x, sa as int, iabs(v@.x), den as int);
            lemma_mul_bound(v@.y, sa as int, iabs(v@.y), den as int);
            lemma_mul_bound(v@.z, sa as int, iabs(v@.z), den as int);
            lemma_mul_bound(v@.x, sa as int, 20_000_000, 7_000_000_000_000);
            lemma_mul_bound(v@.y, sa as int, 20_000_000, 7_000_000_000_000);
            lemma_mul_bound(v@.z, sa as int, 20_000_000, 7_000_000_000_000);
            lemma_scaled_div_bound(v@.x * sa, den as int, den as int, iabs(v@.x));
            lemma_scaled_div_bound(v@.y * sa, den as int, den as int, iabs(v@.y));
            lemma_scaled_div_bound(v@.z * sa, den as int, den as int, iabs(v@.z));
        }
        let cx = div_floor_i128(v.x as i128 * sa as i128, den as i128) as i64;
        let cy = div_floor_i128(v.y as i128 * sa as i128, den as i128) as i64;
        let cz = div_floor_i128(v.z as i128 * sa as i128, den as i128) as i64;
        let clip_v = Vec3::new(al.x + cx, al.y + cy, al.z + cz);
        proof {
            lemma_clip_on_plane(self@, a@, b@);
        }
        self.transform(&clip_v)
    }

    /// Map a plane-local vector to the viewport. The precondition that
    /// the vector lies on the plane (up to floor-division rounding) is
    /// the projection's consistency condition, proved rather than
    /// checked at run time.
    fn transform(&self, x: &Vec3) -> (r: Point2)
        requires
            wf_camera(self@),
            in_range(x@, TRANSFORM_LIMIT as int),
            iabs(dot3(self@.c, x@)) <= l1(self@.c),
        ensures
            r@ == to_screen(self@, x@),
    {
        proof {
            lemma_mag2_range(self@.axis_x, 100_000);
            lemma_mag2_range(self@.axis_y, 100_000);
        }
        let mx = self.axis_x.mag2();
        let my = self.axis_y.mag2();
        let lx = isqrt(mx as u64) as i64;
        let ly = isqrt(my as u64) as i64;
        proof {
            lemma_sqrt_positive(mx as int, lx as int);
            lemma_sqrt_positive(my as int, ly as int);
            lemma_dot_range(x@, self@.axis_x, 50_000_000, 100_000);
            lemma_dot_range(x@, self@.axis_y, 50_000_000, 100_000);
        }
        let dx = x.dot(self.axis_x);
        let dy = x.dot(self.axis_y);
        let ax = div_floor_i64(dx, lx);
        let ay = div_floor_i64(dy, ly);
        proof {
            lemma_div_abs_bound(dx as int, lx as int);
            lemma_div_abs_bound(dy as int, ly as int);
            lemma_mul_bound(ax as int, self@.zoom_factor, 15_000_000_000_000, 100_000);
            lemma_mul_bound(ay as int, self@.zoom_factor, 15_000_000_000_000, 100_000);
        }
        let w = div_floor_i64(ax * self.zoom_factor, MILLI) + (self.screen_size.w / 2) as i64;
        let h = (self.screen_size.h as i64) - (div_floor_i64(ay * self.zoom_factor, MILLI) + (
        self.screen_size.h / 2) as i64);
        Point2 { x: w, y: h }
    }

    /// Double the plane offset, halving the field of view. Repeated
    /// doubling cannot stay within any finite range, so this is the one
    /// deliberate guard on the scaling: when a doubled component would
    /// leave the camera's working range the camera is left unchanged,
    /// and the contract says exactly when.
    pub fn zoom_in(&mut self)
        requires
            wf_camera(old(self)@),
        ensures
            final(self)@ == (if in_range(
                v3(2 * old(self)@.c.x, 2 * old(self)@.c.y, 2 * old(self)@.c.z),
                CAM_VEC_LIMIT as int,
            ) {
                CameraV {
                    c: v3(2 * old(self)@.c.x, 2 * old(self)@.c.y, 2 * old(self)@.c.z),
                    ..old(self)@
                }
            } else {
                old(self)@
            }),
            wf_camera(final(self)@),
    {
        let h = CAM_VEC_LIMIT / 2;
        if -h <= self.c.x && self.c.x <= h && -h <= self.c.y && self.c.y <= h && -h <= self.c.z
            && self.c.z <= h {
            let doubled = Vec3::new(2 * self.c.x, 2 * self.c.y, 2 * self.c.z);
            proof {
                lemma_mag2_doubled(self@.c);
            }
            self.c = doubled;
        }
    }

    /// Rotate the camera (and the eye, around `pivot`) by the angles whose
    /// scaled sines and cosines are given: first around the x axis, then
    /// around the y axis. A no-op when the rotated camera would leave its
    /// working range (floor rounding can degenerate extreme inputs).
    pub fn rotate(&mut self, ys: i64, yc: i64, xs: i64, xc: i64, pivot: Vec3)
        requires
            wf_camera(old(self)@),
            iabs(ys as int) <= 1000,
            iabs(yc as int) <= 1000,
            iabs(xs as int) <= 1000,
            iabs(xc as int) <= 1000,
            in_range(pivot@, CAM_POS_LIMIT as int),
        ensures
            final(self)@ == (if wf_camera(
                rotated(old(self)@, ys as int, yc as int, xs as int, xc as int, pivot@),
            ) {
                rotated(old(self)@, ys as int, yc as int, xs as int, xc as int, pivot@)
            } else {
                old(self)@
            }),
            wf_camera(final(self)@),
    {
        let c2 = rotate_vec(self.c, ys, yc, xs, xc, CAM_VEC_LIMIT);
        let ax2 = rotate_vec(self.axis_x, ys, yc, xs, xc, CAM_VEC_LIMIT);
        let ay2 = rotate_vec(self.axis_y, ys, yc, xs, xc, CAM_VEC_LIMIT);
        let off = rotate_vec(self.eye.sub(pivot), ys, yc, xs, xc, 2 * CAM_POS_LIMIT);
        let eye2 = pivot.add(off);
        let ok = in_vec_range(c2, CAM_VEC_LIMIT) && in_vec_range(ax2, CAM_VEC_LIMIT)
            && in_vec_range(ay2, CAM_VEC_LIMIT) && in_vec_range(eye2, CAM_POS_LIMIT) && c2.mag2()
            >= 1 && ax2.mag2() >= 1 && ay2.mag2() >= 1;
        if ok {
            self.c = c2;
            self.axis_x = ax2;
            self.axis_y = ay2;
            self.eye = eye2;
        }
    }
}

/// Apply the two scaled rotations to one vector.
fn rotate_vec(v: Vec3, ys: i64, yc: i64, xs: i64, xc: i64, lim: i64) -> (r: Vec3)
    requires
        iabs(ys as int) <= 1000,
        iabs(yc as int) <= 1000,
        iabs(xs as int) <= 1000,
        iabs(xc as int) <= 1000,
        0 < lim <= 2 * CAM_POS_LIMIT,
        in_range(v@, lim as int),
    ensures
        r@ == rot_y(rot_x(v@, xs as int, xc as int), ys as int, yc as int),
        in_range(r@, 4 * lim as int),
{
    let rx = rot_x_vec(v, xs, xc, lim);
    rot_y_vec(rx, ys, yc, 2 * lim)
}

fn rot_x_vec(v: Vec3, s: i64, co: i64, lim: i64) -> (r: Vec3)
    requires
        iabs(s as int) <= 1000,
        iabs(co as int) <= 1000,
        0 < lim <= 2 * CAM_POS_LIMIT,
        in_range(v@, lim as int),
    ensures
        r@ == rot_x(v@, s as int, co as int),
        in_range(r@, 2 * lim as int),
{
    proof {
        lemma_mul_bound(v@.y, co as int, lim as int, 1000);
        lemma_mul_bound(v@.z, s as int, lim as int, 1000);
        lemma_mul_bound(v@.y, s as int, lim as int, 1000);
        lemma_mul_bound(v@.z, co as int, lim as int, 1000);
        lemma_div_abs_bound(v@.y * co - v@.z * s, 1000);
        lemma_div_abs_bound(v@.y * s + v@.z * co, 1000);
    }
    let ny = div_floor_i64(v.y * co - v.z * s, 1000);
    let nz = div_floor_i64(v.y * s + v.z * co, 1000);
    proof {
        lemma_div_scaled_back(v@.y * co - v@.z * s, 2 * lim as int);
        lemma_div_scaled_back(v@.y * s + v@.z * co, 2 * lim as int);
    }
    Vec3::new(v.x, ny, nz)
}

fn rot_y_vec(v: Vec3, s: i64, co: i64, lim: i64) -> (r: Vec3)
    requires
        iabs(s as int) <= 1000,
        iabs(co as int) <= 1000,
        0 < lim <= 4 * CAM_POS_LIMIT,
        in_range(v@, lim as int),
    ensures
        r@ == rot_y(v@, s as int, co as int),
        in_range(r@, 2 * lim as int),
{
    proof {
        lemma_mul_bound(v@.x, co as int, lim as int, 1000);
        lemma_mul_bound(v@.z, s as int, lim as int, 1000);
        lemma_mul_bound(v@.x, s as int, lim as int, 1000);
        lemma_mul_bound(v@.z, co as int, lim as int, 1000);
        lemma_div_abs_bound(v@.x * co + v@.z * s, 1000);
        lemma_div_abs_bound(-(v@.x * s) + v@.z * co, 1000);
    }
    let nx = div_floor_i64(v.x * co + v.z * s, 1000);
    let nz = div_floor_i64(v.z * co - v.x * s, 1000);
    proof {
        lemma_div_scaled_back(v@.x * co + v@.z * s, 2 * lim as int);
        lemma_div_scaled_back(v@.z * co - v@.x * s, 2 * lim as int);
    }
    Vec3::new(nx, v.y, nz)
}

/// Component-wise range check.
pub(crate) fn in_vec_range(v: Vec3, lim: i64) -> (r: bool)
    requires
        0 < lim,
    ensures
        r == in_range(v@, lim as int),
{
    -lim <= v.x && v.x <= lim && -lim <= v.y && v.y <= lim && -lim <= v.z && v.z <= lim
}




/// Dividing by a thousand keeps a value within `lim` when the dividend
/// is within `2000 * lim`.
proof fn lemma_div_scaled_back(n: int, lim: int)
    requires
        0 <= lim,
        iabs(n) <= 2000 * lim,
    ensures
        iabs(n / 1000) <= 2 * lim,
{
    lemma_scaled_div_bound(n, 1000, 1000, 2 * lim);
}

/// For a visible point, the denominator `dot3(c, p - eye)` is at least
/// `mag2(c)`.
proof fn lemma_side_vs_q(cam: CameraV, p: Vec3i)
    requires
        visible(cam, p),
    ensures
        dot3(cam.c, sub3(p, cam.eye)) == side(cam, p) + mag2(cam.c),
{
    let d = sub3(p, cam.eye);
    let e = sub3(p, centre(cam));
    assert(dot3(cam.c, d) == dot3(cam.c, e) + mag2(cam.c)) by (nonlinear_arith)
        requires
            d.x == e.x + cam.c.x && d.y == e.y + cam.c.y && d.z == e.z + cam.c.z,
            dot3(cam.c, d) == cam.c.x * d.x + cam.c.y * d.y + cam.c.z * d.z,
            dot3(cam.c, e) == cam.c.x * e.x + cam.c.y * e.y + cam.c.z * e.z,
            mag2(cam.c) == cam.c.x * cam.c.x + cam.c.y * cam.c.y + cam.c.z * cam.c.z,
    ;
}

/// The dot of `c` with a vector of floor-divided components stays within
/// `l1(c)` of the exact value `M`, when the undivided dot equals `M * q`.
proof fn lemma_dot_floor_divs(c: Vec3i, n: Vec3i, q: int, m_val: int)
    requires
        1 <= q,
        dot3(c, n) == m_val * q,
    ensures
        iabs(c.x * (n.x / q) + c.y * (n.y / q) + c.z * (n.z / q) - m_val) <= l1(c),
{
    let kx = n.x / q;
    let ky = n.y / q;
    let kz = n.z / q;
    let rx = n.x % q;
    let ry = n.y % q;
    let rz = n.z % q;
    lemma_fundamental_div_mod(n.x, q);
    lemma_fundamental_div_mod(n.y, q);
    lemma_fundamental_div_mod(n.z, q);
    lemma_mod_bound(n.x, q);
    lemma_mod_bound(n.y, q);
    lemma_mod_bound(n.z, q);
    assert(c.x * n.x == q * (c.x * kx) + c.x * rx) by (nonlinear_arith)
        requires
            n.x == q * kx + rx,
    ;
    assert(c.y * n.y == q * (c.y * ky) + c.y * ry) by (nonlinear_arith)
        requires
            n.y == q * ky + ry,
    ;
    assert(c.z * n.z == q * (c.z * kz) + c.z * rz) by (nonlinear_arith)
        requires
            n.z == q * kz + rz,
    ;
    let s = c.x * kx + c.y * ky + c.z * kz;
    let rsum = c.x * rx + c.y * ry + c.z * rz;
    assert(m_val * q == q * s + rsum) by (nonlinear_arith)
        requires
            c.x * n.x + c.y * n.y + c.z * n.z == m_val * q,
            c.x * n.x == q * (c.x * kx) + c.x * rx,
            c.y * n.y == q * (c.y * ky) + c.y * ry,
            c.z * n.z == q * (c.z * kz) + c.z * rz,
            s == c.x * kx + c.y * ky + c.z * kz,
            rsum == c.x * rx + c.y * ry + c.z * rz,
    ;
    lemma_mul_bound(c.x, rx, iabs(c.x), q - 1);
    lemma_mul_bound(c.y, ry, iabs(c.y), q - 1);
    lemma_mul_bound(c.z, rz, iabs(c.z), q - 1);
    let lc = l1(c);
    assert(-(lc * (q - 1)) <= rsum <= lc * (q - 1)) by (nonlinear_arith)
        requires
            rsum == c.x * rx + c.y * ry + c.z * rz,
            -(iabs(c.x) * (q - 1)) <= c.x * rx <= iabs(c.x) * (q - 1),
            -(iabs(c.y) * (q - 1)) <= c.y * ry <= iabs(c.y) * (q - 1),
            -(iabs(c.z) * (q - 1)) <= c.z * rz <= iabs(c.z) * (q - 1),
            lc == iabs(c.x) + iabs(c.y) + iabs(c.z),
    ;
    assert(-lc <= s - m_val <= lc) by (nonlinear_arith)
        requires
            m_val * q == q * s + rsum,
            -(lc * (q - 1)) <= rsum <= lc * (q - 1),
            1 <= q,
            0 <= lc,
    ;
}

/// The projection of a visible point lies on the plane, up to the
/// rounding tolerance `l1(c)`.
pub proof fn lemma_plane_local_on_plane(cam: CameraV, p: Vec3i)
    requires
        wf_camera(cam),
        visible(cam, p),
    ensures
        iabs(dot3(cam.c, plane_local(cam, p))) <= l1(cam.c),
{
    let d = sub3(p, cam.eye);
    let m = mag2(cam.c);
    let q = dot3(cam.c, d);
    lemma_side_vs_q(cam, p);
    let n = v3(d.x * m, d.y * m, d.z * m);
    let cdx = cam.c.x * d.x;
    let cdy = cam.c.y * d.y;
    let cdz = cam.c.z * d.z;
    assert(cam.c.x * n.x == m * cdx) by (nonlinear_arith)
        requires
            n.x == d.x * m,
            cdx == cam.c.x * d.x,
    ;
    assert(cam.c.y * n.y == m * cdy) by (nonlinear_arith)
        requires
            n.y == d.y * m,
            cdy == cam.c.y * d.y,
    ;
    assert(cam.c.z * n.z == m * cdz) by (nonlinear_arith)
        requires
            n.z == d.z * m,
            cdz == cam.c.z * d.z,
    ;
    lemma_mul_is_distributive_add(m, cdx + cdy, cdz);
    lemma_mul_is_distributive_add(m, cdx, cdy);
    assert(dot3(cam.c, n) == m * q);
    lemma_dot_floor_divs(cam.c, n, q, m);
    let pl = plane_local(cam, p);
    assert(dot3(cam.c, pl) == cam.c.x * (n.x / q) + cam.c.y * (n.y / q) + cam.c.z * (n.z / q)
        - m) by (nonlinear_arith)
        requires
            pl.x == n.x / q - cam.c.x && pl.y == n.y / q - cam.c.y && pl.z == n.z / q - cam.c.z,
            dot3(cam.c, pl) == cam.c.x * pl.x + cam.c.y * pl.y + cam.c.z * pl.z,
            m == cam.c.x * cam.c.x + cam.c.y * cam.c.y + cam.c.z * cam.c.z,
    ;
}

/// The clip point of a segment with exactly one visible endpoint lies on
/// the clipping plane, up to the rounding tolerance `l1(c)`.
pub proof fn lemma_clip_on_plane(cam: CameraV, a: Vec3i, b: Vec3i)
    requires
        wf_camera(cam),
        visible(cam, a),
        !visible(cam, b),
    ensures
        iabs(dot3(cam.c, clip_local(cam, a, b))) <= l1(cam.c),
{
    let v = sub3(b, a);
    let sa = side(cam, a);
    let sb = side(cam, b);
    let den = sa - sb;
    let n = v3(v.x * sa, v.y * sa, v.z * sa);
    assert(dot3(cam.c, v) == sb - sa) by (nonlinear_arith)
        requires
            v.x == (b.x - centre(cam).x) - (a.x - centre(cam).x) && v.y == (b.y - centre(cam).y) - (
            a.y - centre(cam).y) && v.z == (b.z - centre(cam).z) - (a.z - centre(cam).z),
            dot3(cam.c, v) == cam.c.x * v.x + cam.c.y * v.y + cam.c.z * v.z,
            sa == cam.c.x * (a.x - centre(cam).x) + cam.c.y * (a.y - centre(cam).y) + cam.c.z * (
            a.z - centre(cam).z),
            sb == cam.c.x * (b.x - centre(cam).x) + cam.c.y * (b.y - centre(cam).y) + cam.c.z * (
            b.z - centre(cam).z),
    ;
    let cvx = cam.c.x * v.x;
    let cvy = cam.c.y * v.y;
    let cvz = cam.c.z * v.z;
    assert(cam.c.x * n.x == sa * cvx) by (nonlinear_arith)
        requires
            n.x == v.x * sa,
            cvx == cam.c.x * v.x,
    ;
    assert(cam.c.y * n.y == sa * cvy) by (nonlinear_arith)
        requires
            n.y == v.y * sa,
            cvy == cam.c.y * v.y,
    ;
    assert(cam.c.z * n.z == sa * cvz) by (nonlinear_arith)
        requires
            n.z == v.z * sa,
            cvz == cam.c.z * v.z,
    ;
    lemma_mul_is_distributive_add(sa, cvx + cvy, cvz);
    lemma_mul_is_distributive_add(sa, cvx, cvy);
    assert(dot3(cam.c, n) == sa * (sb - sa));
    assert(sa * (sb - sa) == (-sa) * den) by (nonlinear_arith)
        requires
            den == sa - sb,
    ;
    lemma_dot_floor_divs(cam.c, n, den, -sa);
    let cl = clip_local(cam, a, b);
    assert(dot3(cam.c, cl) == sa + (cam.c.x * (n.x / den) + cam.c.y * (n.y / den) + cam.c.z * (
    n.z / den))) by (nonlinear_arith)
        requires
            cl.x == (a.x - centre(cam).x) + n.x / den && cl.y == (a.y - centre(cam).y) + n.y / den
                && cl.z == (a.z - centre(cam).z) + n.z / den,
            dot3(cam.c, cl) == cam.c.x * cl.x + cam.c.y * cl.y + cam.c.z * cl.z,
            sa == cam.c.x * (a.x - centre(cam).x) + cam.c.y * (a.y - centre(cam).y) + cam.c.z * (
            a.z - centre(cam).z),
    ;
}

/// Doubling a vector's components quadruples its squared magnitude.
proof fn lemma_mag2_doubled(c: Vec3i)
    ensures
        mag2(v3(2 * c.x, 2 * c.y, 2 * c.z)) == 4 * mag2(c),
{
    assert(mag2(v3(2 * c.x, 2 * c.y, 2 * c.z)) == 4 * mag2(c)) by (nonlinear_arith)
        requires
            mag2(v3(2 * c.x, 2 * c.y, 2 * c.z)) == (2 * c.x) * (2 * c.x) + (2 * c.y) * (2 * c.y) + (
            2 * c.z) * (2 * c.z),
            mag2(c) == c.x * c.x + c.y * c.y + c.z * c.z,
    ;
}

/// The eye's own side of the plane is `-mag2(c)`, so the product test
/// `side(p) * side(eye) > 0` is exactly "strictly behind the plane".
pub proof fn lemma_visibility_product(cam: CameraV, p: Vec3i)
    requires
        wf_camera(cam),
    ensures
        side(cam, cam.eye) == -mag2(cam.c),
        (side(cam, p) * side(cam, cam.eye) > 0) <==> !visible(cam, p),
{
    let e = sub3(cam.eye, centre(cam));
    assert(dot3(cam.c, e) == -mag2(cam.c)) by (nonlinear_arith)
        requires
            e.x == -cam.c.x && e.y == -cam.c.y && e.z == -cam.c.z,
            dot3(cam.c, e) == cam.c.x * e.x + cam.c.y * e.y + cam.c.z * e.z,
            mag2(cam.c) == cam.c.x * cam.c.x + cam.c.y * cam.c.y + cam.c.z * cam.c.z,
    ;
    let s = side(cam, p);
    let m = mag2(cam.c);
    assert((s * (-m) > 0) <==> s < 0) by (nonlinear_arith)
        requires
            m >= 1,
    ;
}

} // verus!
