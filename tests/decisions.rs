use cosmos::geometry::Geometry;
use cosmos::quadrature::{judge, IntervalStack, Verdict};
use cosmos::sign_tracker::{Observation, SignTracker};
use cosmos::trajectory::stitch;
use cosmos::AdaptiveSimpsonError;

fn seen(radicand_negative: bool, below_floor: bool) -> Observation {
    Observation { radicand_negative, below_floor }
}

#[test]
fn error_message_text() {
    let msg = AdaptiveSimpsonError.message();
    assert_eq!(
        msg,
        "No subinterval of length > min_h was found for which the estimated error was less that the pro-rated tolerance"
    );
}

#[test]
fn judge_tests_width_before_tolerance() {
    assert_eq!(judge(false, true), Verdict::Fail);
    assert_eq!(judge(false, false), Verdict::Fail);
    assert_eq!(judge(true, true), Verdict::Accept);
    assert_eq!(judge(true, false), Verdict::Bisect);
}

#[test]
fn stack_single_piece_completes_at_once() {
    let mut s = IntervalStack::new(7u32);
    assert_eq!(s.len(), 1);
    assert_eq!(*s.active(), 7);
    assert_eq!(s.accept(), None);
    assert_eq!(s.len(), 1);
    assert_eq!(*s.active(), 7);
}

#[test]
fn stack_bisect_then_accept_in_order() {
    let mut s = IntervalStack::new("whole");
    s.bisect("left");
    assert_eq!(s.len(), 2);
    assert_eq!(*s.active(), "left");
    s.bisect("left-left");
    assert_eq!(s.len(), 3);
    assert_eq!(s.accept(), Some("left-left"));
    assert_eq!(*s.active(), "left");
    assert_eq!(s.accept(), Some("left"));
    assert_eq!(*s.active(), "whole");
    assert_eq!(s.accept(), None);
}

#[test]
fn stack_replace_active_hands_back_old_payload() {
    let mut s = IntervalStack::new(1i64);
    s.bisect(2);
    assert_eq!(s.replace_active(3), 2);
    assert_eq!(*s.active(), 3);
    assert_eq!(s.len(), 2);
    assert_eq!(s.accept(), Some(3));
    assert_eq!(*s.active(), 1);
}

#[test]
fn tracker_flips_at_turning_point() {
    let mut t = SignTracker::new(1, false);
    assert_eq!(t.observe(seen(false, false)), 1);
    assert!(!t.flipped_last_step());
    assert_eq!(t.observe(seen(true, false)), -1);
    assert!(t.flipped_last_step());
    assert_eq!(t.sign(), -1);
}

#[test]
fn tracker_flips_once_per_crossing() {
    let mut t = SignTracker::new(1, false);
    assert_eq!(t.observe(seen(true, false)), -1);
    assert_eq!(t.observe(seen(true, false)), -1);
    assert_eq!(t.observe(seen(true, false)), -1);
    assert_eq!(t.observe(seen(false, false)), -1);
    assert_eq!(t.observe(seen(true, false)), 1);
}

#[test]
fn tracker_starting_flipped_does_not_flip() {
    let mut t = SignTracker::new(1, true);
    assert_eq!(t.observe(seen(true, false)), 1);
    assert!(t.flipped_last_step());
}

#[test]
fn tracker_floor_pins_sign_to_zero_for_good() {
    let mut t = SignTracker::new(-1, false);
    assert_eq!(t.observe(seen(false, true)), 0);
    assert_eq!(t.observe(seen(false, false)), 0);
    assert_eq!(t.observe(seen(true, false)), 0);
    assert_eq!(t.observe(seen(false, false)), 0);
    assert_eq!(t.observe(seen(true, false)), 0);
    assert_eq!(t.sign(), 0);
}

#[test]
fn tracker_floor_wins_over_turning_point() {
    let mut t = SignTracker::new(1, false);
    assert_eq!(t.observe(seen(true, true)), 0);
    assert!(t.flipped_last_step());
}

#[test]
fn geometry_from_density_sign() {
    assert_eq!(Geometry::from_curvature_density_sign(-1), Geometry::Closed);
    assert_eq!(Geometry::from_curvature_density_sign(0), Geometry::Flat);
    assert_eq!(Geometry::from_curvature_density_sign(1), Geometry::Open);
    assert_eq!(Geometry::Closed.kappa(), 1);
    assert_eq!(Geometry::Flat.kappa(), 0);
    assert_eq!(Geometry::Open.kappa(), -1);
}

#[test]
fn stitch_reverses_backward_and_drops_shared_point() {
    let backward = vec![0, -1, -2, -3];
    let forward = vec![0, 1, 2];
    assert_eq!(stitch(&backward, &forward), vec![-3, -2, -1, 0, 1, 2]);
}

#[test]
fn stitch_with_single_forward_point() {
    let backward = vec![5.0, 4.0];
    let forward = vec![5.0];
    assert_eq!(stitch(&backward, &forward), vec![4.0, 5.0]);
    let empty: Vec<f64> = Vec::new();
    assert_eq!(stitch(&empty, &forward), Vec::<f64>::new());
}
