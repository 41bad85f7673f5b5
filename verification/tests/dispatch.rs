use jc_grid_manager::actions::Action;
use jc_grid_manager::geometry::{geometry_in_range, Rect, Tunables};
use jc_grid_manager::platform::{platform, Platform};
use jc_grid_manager::state::SnapState;

const WORK: Rect = Rect { x: 0, y: 0, w: 1000, h: 800 };

/// One press as the application runs it: plan the frame, "move" the window there (clamping its
/// width to `min_w`), record where it landed.
fn press(s: &mut SnapState, action: Action, frame: &mut Rect, min_w: i64) -> Option<Rect> {
    let t = Tunables::default_values();
    let target = s.next_target_for(action, *frame, WORK, &[WORK], t)?;
    let w = if target.w < min_w { min_w } else { target.w };
    *frame = Rect::new(target.x, target.y, w, target.h);
    s.record_result(*frame);
    Some(target)
}

#[test]
fn presses_cycle_and_restore_returns_to_the_start() {
    let start = Rect::new(10, 10, 300, 300);
    let mut frame = start;
    let mut s = SnapState::new();
    assert_eq!(press(&mut s, Action::LeftHalf, &mut frame, 0), Some(Rect::new(0, 0, 500, 800)));
    assert_eq!(press(&mut s, Action::LeftHalf, &mut frame, 0), Some(Rect::new(0, 0, 666, 800)));
    assert_eq!(press(&mut s, Action::LeftHalf, &mut frame, 0), Some(Rect::new(0, 0, 333, 800)));
    // Restore hands the baseline to the shim, then forgets the run.
    assert_eq!(s.baseline(), Some(start));
    s.clear();
    assert_eq!(s.baseline(), None);
}

#[test]
fn a_window_that_clamps_still_cycles() {
    let mut frame = Rect::new(10, 10, 600, 300);
    let mut s = SnapState::new();
    assert_eq!(press(&mut s, Action::LeftHalf, &mut frame, 550), Some(Rect::new(0, 0, 500, 800)));
    assert_eq!(frame, Rect::new(0, 0, 550, 800));
    // The re-read frame is what the next press compares against, so the run continues.
    assert_eq!(press(&mut s, Action::LeftHalf, &mut frame, 550), Some(Rect::new(0, 0, 666, 800)));
}

#[test]
fn restore_places_nothing_and_leaves_the_run() {
    let mut frame = Rect::new(10, 10, 300, 300);
    let mut s = SnapState::new();
    assert_eq!(press(&mut s, Action::Restore, &mut frame, 0), None);
    assert_eq!(s.baseline(), None);
}

#[test]
fn out_of_range_geometry_is_caught_before_planning() {
    let t = Tunables::default_values();
    assert!(!geometry_in_range(Rect::new(0, 0, i64::MAX, 10), WORK, &[WORK], t));
    let bad = Tunables { almost_maximize_factor: 2_000_000, resize_step: 50000, min_size: 200000 };
    assert!(!geometry_in_range(Rect::new(0, 0, 10, 10), WORK, &[WORK], bad));
}

#[test]
fn stub_platform_reports_its_error() {
    let p = platform();
    assert_eq!(p.focused_window(), Err("window control is only implemented on macOS so far".to_string()));
}
