use jc_grid_manager::actions::Action;
use jc_grid_manager::geometry::{
    display_for, display_move, fraction_to_rect, geometry_in_range, target_for, target_for_with, Fraction,
    Rect, Tunables,
};

fn r(x: i64, y: i64, w: i64, h: i64) -> Rect {
    Rect::new(x, y, w, h)
}

// (x, y, w, h) in quarters of the work area.
fn quarters(x: i64, y: i64, w: i64, h: i64) -> Fraction {
    Fraction::new(x, y, w, h, 4)
}

#[test]
fn left_half_at_origin() {
    let work = r(0, 0, 1000, 800);
    assert_eq!(fraction_to_rect(work, Fraction::new(0, 0, 1, 2, 2)), r(0, 0, 500, 800));
}

#[test]
fn bottom_half_at_origin() {
    let work = r(0, 0, 1000, 800);
    assert_eq!(fraction_to_rect(work, Fraction::new(0, 1, 2, 1, 2)), r(0, 400, 1000, 400));
}

#[test]
fn right_half_on_display_at_negative_origin() {
    // A secondary display left of / above the primary sits at a negative origin; the offset
    // must carry through the math.
    let work = r(-1440, -100, 1440, 900);
    assert_eq!(fraction_to_rect(work, Fraction::new(1, 0, 1, 2, 2)), r(-720, -100, 720, 900));
}

#[test]
fn quarter_carries_offset() {
    let work = r(200, 300, 1600, 1000);
    assert_eq!(fraction_to_rect(work, quarters(2, 2, 2, 2)), r(1000, 800, 800, 500));
}

#[test]
fn thirds_round_edges_down_and_still_tile() {
    // 1000 is not divisible by 3: edges land at 333 and 666, and the cells abut.
    let work = r(0, 0, 1000, 600);
    let a = fraction_to_rect(work, Fraction::new(0, 0, 1, 3, 3));
    let b = fraction_to_rect(work, Fraction::new(1, 0, 1, 3, 3));
    let c = fraction_to_rect(work, Fraction::new(2, 0, 1, 3, 3));
    assert_eq!(a, r(0, 0, 333, 600));
    assert_eq!(b, r(333, 0, 333, 600));
    assert_eq!(c, r(666, 0, 334, 600));
    assert_eq!(a.x + a.w, b.x);
    assert_eq!(b.x + b.w, c.x);
    assert_eq!(c.x + c.w, work.x + work.w);
}

const PRIMARY: Rect = Rect { x: 0, y: 0, w: 1000, h: 800 };
const RIGHT: Rect = Rect { x: 1000, y: 0, w: 1000, h: 800 };

#[test]
fn display_for_window_fully_on_one() {
    let win = r(100, 100, 200, 200);
    assert_eq!(display_for(win, &[PRIMARY, RIGHT]), PRIMARY);
}

#[test]
fn display_for_straddle_majority_wins() {
    // 800..1400: 200 px in PRIMARY, 400 px in RIGHT.
    let win = r(800, 100, 600, 200);
    assert_eq!(display_for(win, &[PRIMARY, RIGHT]), RIGHT);
}

#[test]
fn display_for_equal_overlap_breaks_to_center() {
    // 900..1100: 100 px each side; the center x = 1000 is inside RIGHT (half-open edges).
    let win = r(900, 100, 200, 200);
    assert_eq!(display_for(win, &[PRIMARY, RIGHT]), RIGHT);
}

#[test]
fn display_for_offscreen_falls_back_to_first() {
    let win = r(-500, 100, 200, 200);
    assert_eq!(display_for(win, &[PRIMARY, RIGHT]), PRIMARY);
}

#[test]
fn display_for_selects_negative_origin_secondary() {
    let secondary = r(-1440, 0, 1440, 900);
    let primary = r(0, 0, 1920, 1080);
    let win = r(-1000, 100, 300, 300);
    assert_eq!(display_for(win, &[primary, secondary]), secondary);
}

#[test]
fn display_for_without_displays_keeps_window() {
    let win = r(5, 6, 7, 8);
    assert_eq!(display_for(win, &[]), win);
}

#[test]
fn target_for_center_half() {
    let work = r(0, 0, 1000, 800);
    assert_eq!(target_for(Action::CenterHalf, 0, Rect::zero(), work, &[]), Some(r(250, 0, 500, 800)));
}

#[test]
fn target_for_left_half_cycles_with_step() {
    let work = r(0, 0, 1200, 800);
    let at = |step| target_for(Action::LeftHalf, step, Rect::zero(), work, &[]);
    assert_eq!(at(0), Some(r(0, 0, 600, 800)));
    assert_eq!(at(1), Some(r(0, 0, 800, 800)));
    assert_eq!(at(2), Some(r(0, 0, 400, 800)));
}

#[test]
fn target_for_almost_maximize_is_centered() {
    let work = r(0, 0, 1000, 800);
    let got = target_for(Action::AlmostMaximize, 0, Rect::zero(), work, &[]).unwrap();
    assert!((got.x as f64 - 50.0).abs() < 1e-6, "x={}", got.x);
    assert!((got.y as f64 - 40.0).abs() < 1e-6, "y={}", got.y);
    assert!((got.w as f64 - 900.0).abs() < 1e-6, "w={}", got.w);
    assert!((got.h as f64 - 720.0).abs() < 1e-6, "h={}", got.h);
}

#[test]
fn target_for_thirds_tile_full_width() {
    let work = r(0, 0, 900, 600);
    let f = |a| target_for(a, 0, Rect::zero(), work, &[]).unwrap();
    assert_eq!(f(Action::FirstThird), r(0, 0, 300, 600));
    assert_eq!(f(Action::CenterThird), r(300, 0, 300, 600));
    assert_eq!(f(Action::LastThird), r(600, 0, 300, 600));
}

#[test]
fn target_for_two_thirds() {
    let work = r(0, 0, 900, 600);
    let f = |a| target_for(a, 0, Rect::zero(), work, &[]).unwrap();
    assert_eq!(f(Action::FirstTwoThirds), r(0, 0, 600, 600));
    assert_eq!(f(Action::LastTwoThirds), r(300, 0, 600, 600));
}

#[test]
fn target_for_corners_tile_work_area() {
    let work = r(0, 0, 1000, 800);
    let f = |a| target_for(a, 0, Rect::zero(), work, &[]).unwrap();
    assert_eq!(f(Action::TopLeft), r(0, 0, 500, 400));
    assert_eq!(f(Action::TopRight), r(500, 0, 500, 400));
    assert_eq!(f(Action::BottomLeft), r(0, 400, 500, 400));
    assert_eq!(f(Action::BottomRight), r(500, 400, 500, 400));
}

#[test]
fn target_for_maximize_fills_work_area() {
    let work = r(100, 50, 1000, 800);
    assert_eq!(target_for(Action::Maximize, 0, Rect::zero(), work, &[]), Some(work));
}

#[test]
fn target_for_maximize_height_keeps_width_and_x() {
    let work = r(0, 0, 1000, 800);
    let win = r(120, 300, 350, 200);
    assert_eq!(target_for(Action::MaximizeHeight, 0, win, work, &[]), Some(r(120, 0, 350, 800)));
}

#[test]
fn target_for_center_keeps_size_and_centers() {
    let work = r(0, 0, 1000, 800);
    let win = r(0, 0, 400, 200);
    assert_eq!(target_for(Action::Center, 0, win, work, &[]), Some(r(300, 300, 400, 200)));
}

#[test]
fn target_for_center_clamps_oversized_window() {
    let work = r(10, 20, 500, 400);
    let win = r(0, 0, 800, 300);
    assert_eq!(target_for(Action::Center, 0, win, work, &[]), Some(r(10, 70, 800, 300)));
}

#[test]
fn target_for_larger_grows_around_center() {
    let work = r(0, 0, 1000, 800);
    let win = r(300, 250, 400, 300);
    let got = target_for(Action::Larger, 0, win, work, &[]).unwrap();
    assert!((got.w as f64 - 450.0).abs() < 1e-6, "w={}", got.w);
    assert!((got.h as f64 - 340.0).abs() < 1e-6, "h={}", got.h);
    assert!((got.x as f64 - 275.0).abs() < 1e-6, "x={}", got.x);
    assert!((got.y as f64 - 230.0).abs() < 1e-6, "y={}", got.y);
}

#[test]
fn target_for_larger_caps_at_work_area() {
    let work = r(0, 0, 1000, 800);
    let win = r(10, 10, 990, 790);
    let got = target_for(Action::Larger, 0, win, work, &[]).unwrap();
    assert!((got.w as f64 - 1000.0).abs() < 1e-6);
    assert!((got.h as f64 - 800.0).abs() < 1e-6);
    assert!(got.x as f64 >= -1e-6 && (got.x + got.w) as f64 <= 1000.0 + 1e-6);
}

#[test]
fn target_for_smaller_floors_at_minimum() {
    let work = r(0, 0, 1000, 800);
    let win = r(400, 300, 210, 170);
    let got = target_for(Action::Smaller, 0, win, work, &[]).unwrap();
    assert!((got.w as f64 - 200.0).abs() < 1e-6, "w={}", got.w);
    assert!((got.h as f64 - 160.0).abs() < 1e-6, "h={}", got.h);
}

#[test]
fn repeated_larger_converges_to_cap_without_runaway() {
    let work = r(0, 0, 1000, 800);
    let mut win = r(400, 300, 200, 200);
    for _ in 0..40 {
        win = target_for(Action::Larger, 0, win, work, &[]).unwrap();
    }
    assert!((win.w as f64 - 1000.0).abs() < 1e-6);
    assert!((win.h as f64 - 800.0).abs() < 1e-6);
    assert!(win.x as f64 >= -1e-6 && (win.x + win.w) as f64 <= 1000.0 + 1e-6);
}

#[test]
fn target_for_move_to_edge_keeps_size() {
    let work = r(0, 0, 1000, 800);
    let win = r(300, 200, 250, 150);
    let f = |a| target_for(a, 0, win, work, &[]).unwrap();
    assert_eq!(f(Action::MoveLeft), r(0, 200, 250, 150));
    assert_eq!(f(Action::MoveRight), r(750, 200, 250, 150));
    assert_eq!(f(Action::MoveUp), r(300, 0, 250, 150));
    assert_eq!(f(Action::MoveDown), r(300, 650, 250, 150));
}

#[test]
fn target_for_fourths_tile_width() {
    let work = r(0, 0, 800, 600);
    let f = |a| target_for(a, 0, Rect::zero(), work, &[]).unwrap();
    assert_eq!(f(Action::FirstFourth), r(0, 0, 200, 600));
    assert_eq!(f(Action::SecondFourth), r(200, 0, 200, 600));
    assert_eq!(f(Action::ThirdFourth), r(400, 0, 200, 600));
    assert_eq!(f(Action::LastFourth), r(600, 0, 200, 600));
}

#[test]
fn target_for_sixths_tile_three_by_two() {
    let work = r(0, 0, 900, 600);
    let f = |a| target_for(a, 0, Rect::zero(), work, &[]).unwrap();
    assert_eq!(f(Action::SixthTopLeft), r(0, 0, 300, 300));
    assert_eq!(f(Action::SixthTopCenter), r(300, 0, 300, 300));
    assert_eq!(f(Action::SixthTopRight), r(600, 0, 300, 300));
    assert_eq!(f(Action::SixthBottomLeft), r(0, 300, 300, 300));
    assert_eq!(f(Action::SixthBottomCenter), r(300, 300, 300, 300));
    assert_eq!(f(Action::SixthBottomRight), r(600, 300, 300, 300));
}

#[test]
fn restore_places_nothing() {
    let work = r(0, 0, 1000, 800);
    assert_eq!(target_for(Action::Restore, 0, Rect::zero(), work, &[]), None);
}

#[test]
fn tunables_change_almost_maximize_and_step() {
    let work = r(0, 0, 1000, 800);
    let t = Tunables { almost_maximize_factor: 800000, resize_step: 100000, min_size: 200000 };
    let got = target_for_with(Action::AlmostMaximize, 0, Rect::zero(), work, &[], t).unwrap();
    assert_eq!(got, r(100, 80, 800, 640));
    let grown = target_for_with(Action::Larger, 0, r(300, 250, 400, 300), work, &[], t).unwrap();
    assert_eq!((grown.w, grown.h), (500, 380));
}

#[test]
fn next_display_keeps_relative_position_and_wraps() {
    let win = r(100, 200, 500, 400); // left half-ish of PRIMARY
    let displays = [PRIMARY, RIGHT];
    let next = display_move(win, PRIMARY, &displays, true).unwrap();
    assert_eq!(next, r(1100, 200, 500, 400));
    // From the rightmost display, Next wraps around to the leftmost.
    let wrapped = display_move(next, RIGHT, &displays, true).unwrap();
    assert_eq!(wrapped, win);
    // Previous from the leftmost wraps to the rightmost.
    assert_eq!(display_move(win, PRIMARY, &displays, false), Some(next));
}

#[test]
fn next_then_previous_returns_to_the_start_display() {
    let small = r(2000, 0, 500, 400);
    let displays = [RIGHT, small, PRIMARY];
    let win = r(0, 0, 1000, 800);
    let there = display_move(win, PRIMARY, &displays, true).unwrap();
    assert_eq!(there, RIGHT);
    let back = display_move(there, RIGHT, &displays, false).unwrap();
    assert_eq!(back, win);
}

#[test]
fn display_move_scales_into_a_smaller_display() {
    let small = r(1000, 0, 500, 400);
    let win = r(0, 0, 500, 400); // top-left quarter of PRIMARY
    assert_eq!(display_move(win, PRIMARY, &[PRIMARY, small], true), Some(r(1000, 0, 250, 200)));
}

#[test]
fn display_move_needs_two_displays() {
    let win = r(0, 0, 100, 100);
    assert_eq!(display_move(win, PRIMARY, &[PRIMARY], true), None);
    assert_eq!(target_for(Action::NextDisplay, 0, win, PRIMARY, &[PRIMARY]), None);
}

#[test]
fn geometry_in_range_checks_limits() {
    let t = Tunables::default_values();
    assert!(geometry_in_range(r(0, 0, 10, 10), PRIMARY, &[PRIMARY, RIGHT], t));
    assert!(!geometry_in_range(r(0, 0, i64::MAX, 10), PRIMARY, &[PRIMARY], t));
    assert!(!geometry_in_range(r(0, 0, 10, 10), PRIMARY, &[r(0, i64::MIN, 1, 1)], t));
    let bad = Tunables { almost_maximize_factor: 1_000_001, resize_step: 50000, min_size: 200000 };
    assert!(!geometry_in_range(r(0, 0, 10, 10), PRIMARY, &[PRIMARY], bad));
}

#[test]
fn smaller_minimum_rounds_up() {
    // 20% of 1001 is 200.2: the window may not drop to 200.
    let work = r(0, 0, 1001, 801);
    let got = target_for(Action::Smaller, 0, r(400, 300, 210, 170), work, &[]).unwrap();
    assert_eq!((got.w, got.h), (201, 161));
    assert!(got.w * 1_000_000 >= 1001 * 200_000);
}
