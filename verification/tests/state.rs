use jc_grid_manager::actions::{Action, Half};
use jc_grid_manager::geometry::{fraction_to_rect, Fraction, Rect, Tunables};
use jc_grid_manager::state::{approx_eq, SnapState};

const WORK: Rect = Rect { x: 0, y: 0, w: 1000, h: 800 };

fn left() -> [Fraction; 3] {
    Half::Left.cycle()
}

#[test]
fn fresh_grab_captures_baseline_at_step_zero() {
    let mut s = SnapState::new();
    let start = Rect::new(123, 45, 640, 480);
    let target = s.next_target(Action::LeftHalf, &left(), start, WORK);
    assert_eq!(target, fraction_to_rect(WORK, left()[0]));
    assert_eq!(s.baseline(), Some(start));
}

#[test]
fn repeat_same_action_cycles_and_keeps_baseline() {
    let mut s = SnapState::new();
    let start = Rect::new(10, 10, 300, 300);
    let t0 = s.next_target(Action::LeftHalf, &left(), start, WORK);
    s.record_result(t0);
    let t1 = s.next_target(Action::LeftHalf, &left(), t0, WORK);
    assert_eq!(t1, fraction_to_rect(WORK, left()[1]));
    s.record_result(t1);
    let t2 = s.next_target(Action::LeftHalf, &left(), t1, WORK);
    assert_eq!(t2, fraction_to_rect(WORK, left()[2]));
    s.record_result(t2);
    let t3 = s.next_target(Action::LeftHalf, &left(), t2, WORK);
    assert_eq!(t3, fraction_to_rect(WORK, left()[0]));
    assert_eq!(s.baseline(), Some(start));
}

#[test]
fn small_drift_within_tolerance_still_continues() {
    let mut s = SnapState::new();
    let t0 = s.next_target(Action::LeftHalf, &left(), Rect::new(0, 0, 300, 300), WORK);
    s.record_result(t0);
    let slightly_off = Rect::new(t0.x + 3, t0.y - 2, t0.w + 1, t0.h - 1);
    let t1 = s.next_target(Action::LeftHalf, &left(), slightly_off, WORK);
    assert_eq!(t1, fraction_to_rect(WORK, left()[1]));
}

#[test]
fn drift_just_past_tolerance_resets() {
    let mut s = SnapState::new();
    let t0 = s.next_target(Action::LeftHalf, &left(), Rect::new(0, 0, 300, 300), WORK);
    s.record_result(t0);
    let at_edge = Rect::new(t0.x + 5, t0.y, t0.w, t0.h);
    assert!(approx_eq(at_edge, t0));
    let past = Rect::new(t0.x + 6, t0.y, t0.w, t0.h);
    assert!(!approx_eq(past, t0));
    let t1 = s.next_target(Action::LeftHalf, &left(), past, WORK);
    assert_eq!(t1, fraction_to_rect(WORK, left()[0]));
    assert_eq!(s.baseline(), Some(past));
}

#[test]
fn user_moved_window_resets_to_fresh() {
    let mut s = SnapState::new();
    let t0 = s.next_target(Action::LeftHalf, &left(), Rect::new(0, 0, 300, 300), WORK);
    s.record_result(t0);
    let dragged = Rect::new(500, 400, 300, 300);
    let t1 = s.next_target(Action::LeftHalf, &left(), dragged, WORK);
    assert_eq!(t1, fraction_to_rect(WORK, left()[0]));
    assert_eq!(s.baseline(), Some(dragged));
}

#[test]
fn different_action_resets_to_fresh() {
    let mut s = SnapState::new();
    let t0 = s.next_target(Action::LeftHalf, &left(), Rect::new(0, 0, 300, 300), WORK);
    s.record_result(t0);
    let right = Half::Right.cycle();
    let t1 = s.next_target(Action::RightHalf, &right, t0, WORK);
    assert_eq!(t1, fraction_to_rect(WORK, right[0]));
}

#[test]
fn different_display_resets_to_fresh() {
    let mut s = SnapState::new();
    let t0 = s.next_target(Action::LeftHalf, &left(), Rect::new(0, 0, 300, 300), WORK);
    s.record_result(t0);
    let other = Rect::new(-1440, 0, 1440, 900);
    let t1 = s.next_target(Action::LeftHalf, &left(), t0, other);
    assert_eq!(t1, fraction_to_rect(other, left()[0]));
}

#[test]
fn restore_reads_baseline_then_clears() {
    let mut s = SnapState::new();
    let pre_snap = Rect::new(5, 5, 100, 100);
    s.next_target(Action::LeftHalf, &left(), pre_snap, WORK);
    assert_eq!(s.baseline(), Some(pre_snap));
    s.clear();
    assert_eq!(s.baseline(), None);
}

#[test]
fn dispatch_cycles_halves_through_the_geometry_table() {
    let mut s = SnapState::new();
    let t = Tunables::default_values();
    let start = Rect::new(10, 10, 300, 300);
    let t0 = s.next_target_for(Action::LeftHalf, start, WORK, &[WORK], t).unwrap();
    assert_eq!(t0, Rect::new(0, 0, 500, 800));
    s.record_result(t0);
    let t1 = s.next_target_for(Action::LeftHalf, t0, WORK, &[WORK], t).unwrap();
    assert_eq!(t1, Rect::new(0, 0, 666, 800));
    s.record_result(t1);
    let t2 = s.next_target_for(Action::LeftHalf, t1, WORK, &[WORK], t).unwrap();
    assert_eq!(t2, Rect::new(0, 0, 333, 800));
    s.record_result(t2);
    let t3 = s.next_target_for(Action::LeftHalf, t2, WORK, &[WORK], t).unwrap();
    assert_eq!(t3, Rect::new(0, 0, 500, 800));
    assert_eq!(s.baseline(), Some(start));
}

#[test]
fn dispatch_remembers_baseline_for_direct_placements() {
    let mut s = SnapState::new();
    let t = Tunables::default_values();
    let start = Rect::new(40, 30, 300, 200);
    let m = s.next_target_for(Action::Maximize, start, WORK, &[WORK], t).unwrap();
    assert_eq!(m, WORK);
    s.record_result(m);
    // Restore places nothing and leaves the run alone: the baseline is still the pre-snap frame.
    assert_eq!(s.next_target_for(Action::Restore, m, WORK, &[WORK], t), None);
    assert_eq!(s.baseline(), Some(start));
    // A second Maximize on the unmoved window continues the run and keeps the baseline.
    let again = s.next_target_for(Action::Maximize, m, WORK, &[WORK], t).unwrap();
    assert_eq!(again, WORK);
    assert_eq!(s.baseline(), Some(start));
}

#[test]
fn record_result_tracks_where_the_window_landed() {
    let mut s = SnapState::new();
    let t0 = s.next_target(Action::LeftHalf, &left(), Rect::new(0, 0, 300, 300), WORK);
    // The window clamped to its minimum width, well away from the target.
    let landed = Rect::new(t0.x, t0.y, t0.w + 40, t0.h);
    s.record_result(landed);
    let t1 = s.next_target(Action::LeftHalf, &left(), landed, WORK);
    assert_eq!(t1, fraction_to_rect(WORK, left()[1]));
}
