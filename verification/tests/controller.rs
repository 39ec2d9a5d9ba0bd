use silken_stroke::{AnimationController, Point, SegmentStyle};

fn pt(x: i32, y: i32) -> Point {
    Point { x, y }
}

fn controller_with(points: &[Point]) -> AnimationController {
    let mut c = AnimationController::new();
    for p in points {
        c.add_control_point(*p);
    }
    c
}

#[test]
fn new_controller_is_idle_and_empty() {
    let c = AnimationController::new();
    assert!(!c.running);
    assert!(!c.terminated);
    assert_eq!(c.step, 0);
    assert_eq!(c.timer_ms, 0);
    assert!(c.control.is_empty());
    assert!(c.smoothed.is_empty());
}

#[test]
fn add_while_idle_appends() {
    let c = controller_with(&[pt(1, 2), pt(3, 4)]);
    assert_eq!(c.control, vec![pt(1, 2), pt(3, 4)]);
}

#[test]
fn add_while_running_is_rejected() {
    let mut c = controller_with(&[pt(0, 0), pt(10, 0)]);
    c.start_animation();
    assert!(c.running);
    c.add_control_point(pt(99, 99));
    assert_eq!(c.control, vec![pt(0, 0), pt(10, 0)]);
}

#[test]
fn start_needs_two_points() {
    let mut c = AnimationController::new();
    c.start_animation();
    assert!(!c.running);
    c.add_control_point(pt(5, 5));
    c.start_animation();
    assert!(!c.running);
    c.add_control_point(pt(6, 6));
    c.start_animation();
    assert!(c.running);
    assert_eq!(c.step, 0);
    assert_eq!(c.timer_ms, 0);
    assert_eq!(c.smoothed, c.control);
}

#[test]
fn tick_while_idle_is_ignored() {
    let mut c = controller_with(&[pt(0, 0), pt(10, 0)]);
    c.tick(10_000);
    assert_eq!(c.timer_ms, 0);
    assert_eq!(c.step, 0);
    assert!(c.smoothed.is_empty());
}

#[test]
fn timer_accumulates_to_a_step() {
    let mut c = controller_with(&[pt(0, 0), pt(40, 0)]);
    c.start_animation();
    c.tick(200);
    assert_eq!((c.step, c.timer_ms), (0, 200));
    c.tick(200);
    assert_eq!((c.step, c.timer_ms), (0, 400));
    c.tick(200);
    assert_eq!((c.step, c.timer_ms), (1, 0));
    assert_eq!(c.smoothed.len(), 4);
}

#[test]
fn animation_cycle_loops_after_max_steps() {
    // Control points (0,0),(10,0),(10,10): seven 0.5 s ticks apply seven
    // passes, each taking m points to 2*(m-1)+2, so the smoothed polyline
    // grows 3 -> 6 -> 12 -> 24 -> 48 -> 96 -> 192 -> 384; the eighth tick
    // loops back to the three control points.
    let control = [pt(0, 0), pt(10, 0), pt(10, 10)];
    let mut c = controller_with(&control);
    c.start_animation();
    assert_eq!(c.smoothed.len(), 3);
    let mut expected_len = 3;
    for step in 1..=7u32 {
        c.tick(500);
        expected_len = 2 * (expected_len - 1) + 2;
        assert_eq!(c.step, step);
        assert_eq!(c.smoothed.len(), expected_len);
    }
    assert_eq!(c.step, 7);
    assert_eq!(c.smoothed.len(), 384);
    c.tick(500);
    assert_eq!(c.step, 0);
    assert_eq!(c.smoothed, control.to_vec());
    // The cycle then repeats.
    c.tick(500);
    assert_eq!(c.step, 1);
    assert_eq!(c.smoothed.len(), 6);
}

#[test]
fn smoothed_endpoints_follow_control() {
    let control = [pt(0, 0), pt(400, 0), pt(400, 400), pt(-80, 240)];
    let mut c = controller_with(&control);
    c.start_animation();
    for _ in 0..7 {
        c.tick(500);
        assert_eq!(c.smoothed[0], control[0]);
        assert_eq!(c.smoothed[c.smoothed.len() - 1], control[3]);
    }
}

#[test]
fn stop_ends_the_session() {
    let mut c = controller_with(&[pt(0, 0), pt(10, 0)]);
    c.start_animation();
    c.stop_animation();
    assert!(!c.running);
    assert!(c.terminated);
    let before = c.smoothed.clone();
    c.tick(1_000);
    assert_eq!(c.smoothed, before);
    c.add_control_point(pt(1, 1));
    assert_eq!(c.control, vec![pt(0, 0), pt(10, 0)]);
    c.start_animation();
    assert!(!c.running);
}

#[test]
fn restart_while_running_resets_the_cycle() {
    let mut c = controller_with(&[pt(0, 0), pt(10, 0), pt(20, 20)]);
    c.start_animation();
    c.tick(500);
    c.tick(500);
    assert_eq!(c.step, 2);
    c.start_animation();
    assert!(c.running);
    assert_eq!(c.step, 0);
    assert_eq!(c.smoothed, c.control);
}

#[test]
fn display_idle_single_point_is_a_dot() {
    let c = controller_with(&[pt(7, 8)]);
    let d = c.current_display_geometry();
    assert_eq!(d.markers, vec![pt(7, 8)]);
    assert!(d.segments.is_empty());
    assert_eq!(d.style, SegmentStyle::Control);
}

#[test]
fn display_idle_two_points_is_one_segment() {
    let c = controller_with(&[pt(0, 0), pt(10, 0)]);
    let d = c.current_display_geometry();
    assert_eq!(d.segments, vec![(pt(0, 0), pt(10, 0))]);
    assert_eq!(d.style, SegmentStyle::Control);
}

#[test]
fn display_idle_many_points_has_no_segments() {
    let c = controller_with(&[pt(0, 0), pt(10, 0), pt(10, 10)]);
    let d = c.current_display_geometry();
    assert_eq!(d.markers.len(), 3);
    assert!(d.segments.is_empty());
}

#[test]
fn display_while_animating_joins_the_smoothed_polyline() {
    let mut c = controller_with(&[pt(0, 0), pt(40, 0), pt(40, 40)]);
    c.start_animation();
    c.tick(500);
    let d = c.current_display_geometry();
    assert_eq!(d.style, SegmentStyle::Animated);
    assert_eq!(d.markers, c.control);
    assert_eq!(d.segments.len(), c.smoothed.len() - 1);
    for (i, seg) in d.segments.iter().enumerate() {
        assert_eq!(*seg, (c.smoothed[i], c.smoothed[i + 1]));
    }
}
