use jc_grid_manager::actions::{Action, Half, ACTION_COUNT};
use jc_grid_manager::geometry::Fraction;

fn parts(f: Fraction) -> (f64, f64, f64, f64) {
    let d = f.den as f64;
    (f.x as f64 / d, f.y as f64 / d, f.w as f64 / d, f.h as f64 / d)
}

#[test]
fn half_cycle_starts_at_one_half() {
    assert_eq!(parts(Half::Left.cycle()[0]), (0.0, 0.0, 0.5, 1.0));
    assert_eq!(parts(Half::Right.cycle()[0]), (0.5, 0.0, 0.5, 1.0));
    assert_eq!(parts(Half::Top.cycle()[0]), (0.0, 0.0, 1.0, 0.5));
    assert_eq!(parts(Half::Bottom.cycle()[0]), (0.0, 0.5, 1.0, 0.5));
}

#[test]
fn half_cycle_advances_half_two_thirds_one_third() {
    // Left: left-anchored widths 1/2 -> 2/3 -> 1/3.
    let left = Half::Left.cycle();
    assert_eq!(parts(left[0]).2, 0.5);
    assert!((parts(left[1]).2 - 2.0 / 3.0).abs() < 1e-9);
    assert!((parts(left[2]).2 - 1.0 / 3.0).abs() < 1e-9);
    // Right's 1/3 step is right-anchored at x = 2/3; Bottom's 1/3 step is at y = 2/3.
    assert!((parts(Half::Right.cycle()[2]).0 - 2.0 / 3.0).abs() < 1e-9);
    assert!((parts(Half::Bottom.cycle()[2]).1 - 2.0 / 3.0).abs() < 1e-9);
}

#[test]
fn half_cycle_fractions_are_exact() {
    // Exact sixths: 1/2 = 3/6, 2/3 = 4/6, 1/3 = 2/6.
    let left = Half::Left.cycle();
    assert_eq!((left[0].w, left[0].den), (3, 6));
    assert_eq!((left[1].w, left[1].den), (4, 6));
    assert_eq!((left[2].w, left[2].den), (2, 6));
    let right = Half::Right.cycle();
    assert_eq!((right[1].x, right[1].w), (2, 4));
}

#[test]
fn every_action_has_unique_nonempty_id_and_label() {
    let mut ids = std::collections::HashSet::new();
    for action in Action::ALL {
        let id = action.id();
        assert!(!id.is_empty(), "{action:?} has an empty id");
        assert!(!action.label().is_empty(), "{action:?} has an empty label");
        assert!(ids.insert(id), "duplicate id {id:?}");
    }
    assert_eq!(ids.len(), Action::ALL.len());
    assert_eq!(ACTION_COUNT, Action::ALL.len());
}

#[test]
fn id_round_trips_through_from_id() {
    for action in Action::ALL {
        assert_eq!(Action::from_id(action.id()), Some(action));
    }
    assert_eq!(Action::from_id("not-a-real-action"), None);
}

#[test]
fn from_id_rejects_near_misses() {
    assert_eq!(Action::from_id(""), None);
    assert_eq!(Action::from_id("left-half "), None);
    assert_eq!(Action::from_id("Left Half"), None);
}

#[test]
fn only_directional_halves_map_to_a_half() {
    assert_eq!(Action::LeftHalf.as_half(), Some(Half::Left));
    assert_eq!(Action::RightHalf.as_half(), Some(Half::Right));
    assert_eq!(Action::TopHalf.as_half(), Some(Half::Top));
    assert_eq!(Action::BottomHalf.as_half(), Some(Half::Bottom));
    assert_eq!(Action::CenterHalf.as_half(), None);
    assert_eq!(Action::Maximize.as_half(), None);
}

#[test]
fn only_halves_cycle() {
    assert_eq!(Action::LeftHalf.cycle_len(), 3);
    assert_eq!(Action::BottomHalf.cycle_len(), 3);
    assert_eq!(Action::CenterHalf.cycle_len(), 1);
    assert_eq!(Action::Larger.cycle_len(), 1);
}

#[test]
fn labels_read_as_menu_text() {
    assert_eq!(Action::LeftHalf.label(), "Left Half");
    assert_eq!(Action::NextDisplay.label(), "Next Display");
}
