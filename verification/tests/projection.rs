use boxcrash::camera::Camera;
use boxcrash::geom::{Point2, Vec3};
use boxcrash::Pixel;

fn camera_at_origin() -> Camera {
    Camera::new(Pixel::new(800, 600), Vec3::new(0, 0, 0))
}

// A point strictly behind the clipping plane (relative to the eye) is
// not visible.
#[test]
fn point_behind_plane_is_invisible() {
    let cam = camera_at_origin();
    assert!(cam.render(&Vec3::new(0, 0, -10_000)).is_none());
    assert!(cam.render(&Vec3::new(5_000, 2_000, 0)).is_none());
    assert!(cam.render(&Vec3::new(0, 0, 400)).is_none());
}

#[test]
fn point_ahead_projects_to_known_pixel() {
    let cam = camera_at_origin();
    // d = (1000, 1000, 10000); |c|^2 = 250000; c.d = 5_000_000.
    // Plane-local: (50, 50, 0); screen: (50/1000)*800 + 400 = 440,
    // 600 - (40 + 300) = 260.
    let p = cam.render(&Vec3::new(1_000, 1_000, 10_000));
    assert_eq!(p, Some(Point2 { x: 440, y: 260 }));
    // A point on the camera axis lands dead centre.
    let c = cam.render(&Vec3::new(0, 0, 10_000));
    assert_eq!(c, Some(Point2 { x: 400, y: 300 }));
}

#[test]
fn segment_with_both_ends_visible_projects_both() {
    let cam = camera_at_origin();
    let r = cam.render_line(&Vec3::new(0, 0, 10_000), &Vec3::new(1_000, 1_000, 10_000));
    let (a, b) = r.expect("both endpoints are ahead of the plane");
    assert_eq!(a, Point2 { x: 400, y: 300 });
    assert_eq!(b, Point2 { x: 440, y: 260 });
}

#[test]
fn segment_fully_behind_is_dropped() {
    let cam = camera_at_origin();
    assert!(cam.render_line(&Vec3::new(0, 0, -10_000), &Vec3::new(100, 100, 0)).is_none());
}

// A segment with one visible endpoint keeps that endpoint's projection
// and replaces the other with the plane intersection: here the segment
// runs along the camera axis, so the clipped point is the plane's centre.
#[test]
fn segment_is_clipped_against_the_plane() {
    let cam = camera_at_origin();
    let r = cam.render_line(&Vec3::new(0, 0, 10_000), &Vec3::new(0, 0, -10_000));
    let (vis, clip) = r.expect("one endpoint is ahead of the plane");
    assert_eq!(vis, Point2 { x: 400, y: 300 });
    assert_eq!(clip, Point2 { x: 400, y: 300 });
    // The same segment handed over in the other order keeps the visible
    // endpoint first.
    let r2 = cam.render_line(&Vec3::new(0, 0, -10_000), &Vec3::new(0, 0, 10_000));
    let (vis2, clip2) = r2.expect("one endpoint is ahead of the plane");
    assert_eq!(vis2, Point2 { x: 400, y: 300 });
    assert_eq!(clip2, Point2 { x: 400, y: 300 });
}

#[test]
fn clipped_point_depends_on_the_invisible_end() {
    let cam = camera_at_origin();
    // Visible end on the axis; invisible end far to the left and behind.
    let r = cam.render_line(&Vec3::new(0, 0, 10_500), &Vec3::new(-20_000, 0, -9_500));
    let (vis, clip) = r.expect("one endpoint is ahead of the plane");
    assert_eq!(vis, Point2 { x: 400, y: 300 });
    // t = side(a)/(side(a)-side(b)) = 1/2: the clip point sits at
    // (-10_000, 0, 500), ten units left on the plane.
    assert_eq!(clip, Point2 { x: 400 - 8_000, y: 300 });
}

#[test]
fn zoom_in_doubles_the_plane_offset() {
    let mut cam = camera_at_origin();
    cam.zoom_in();
    assert_eq!(cam.c, Vec3::new(0, 0, 1_000));
    // The field of view narrows: the same point moves further from the
    // viewport's centre.
    let p = cam.render(&Vec3::new(1_000, 0, 10_000)).unwrap();
    assert_eq!(p, Point2 { x: 480, y: 300 });
}

#[test]
fn identity_rotation_keeps_the_camera() {
    let mut cam = camera_at_origin();
    // sin = 0, cos = 1 (scaled by 1000) around both axes.
    cam.rotate(0, 1_000, 0, 1_000, Vec3::new(0, 0, 0));
    assert_eq!(cam.c, Vec3::new(0, 0, 500));
    assert_eq!(cam.eye, Vec3::new(0, 0, 0));
}

#[test]
fn quarter_turn_swings_the_axis() {
    let mut cam = camera_at_origin();
    // sin = 1000, cos = 0 around the y axis only.
    cam.rotate(1_000, 0, 0, 1_000, Vec3::new(0, 0, 0));
    assert_eq!(cam.c, Vec3::new(500, 0, 0));
    assert_eq!(cam.axis_x, Vec3::new(0, 0, -1_000));
    assert_eq!(cam.axis_y, Vec3::new(0, 1_000, 0));
}

#[test]
fn rotation_moves_the_eye_around_the_pivot() {
    let mut cam = Camera::new(Pixel::new(800, 600), Vec3::new(0, 0, -1_000));
    cam.rotate(1_000, 0, 0, 1_000, Vec3::new(0, 0, 0));
    // The eye offset (0, 0, -1000) swings to (-1000, 0, 0).
    assert_eq!(cam.eye, Vec3::new(-1_000, 0, 0));
}
