use global_hotkey::hotkey::{Code, HotKey, Modifiers};
use jc_grid_manager::actions::Action;
use jc_grid_manager::shortcuts::{default_bind, Bind, MOD_SHIFT, MOD_SUPER};

fn default_registry() -> Vec<(HotKey, Action)> {
    Action::ALL
        .into_iter()
        .filter_map(|action| default_bind(action).map(|bind| (bind.to_shortcut().unwrap(), action)))
        .collect()
}

fn shortcut_of(action: Action) -> HotKey {
    default_bind(action).expect("action should have a default bind").to_shortcut().unwrap()
}

#[test]
fn base_modifier_is_control_alt() {
    assert_eq!(shortcut_of(Action::LeftHalf), HotKey::new(Some(Modifiers::CONTROL | Modifiers::ALT), Code::ArrowLeft));
}

#[test]
fn maximize_is_control_alt_enter() {
    assert_eq!(shortcut_of(Action::Maximize), HotKey::new(Some(Modifiers::CONTROL | Modifiers::ALT), Code::Enter));
}

#[test]
fn maximize_height_adds_shift() {
    assert_eq!(
        shortcut_of(Action::MaximizeHeight),
        HotKey::new(Some(Modifiers::CONTROL | Modifiers::ALT | Modifiers::SHIFT), Code::ArrowUp)
    );
}

#[test]
fn display_move_adds_super() {
    assert_eq!(
        shortcut_of(Action::NextDisplay),
        HotKey::new(Some(Modifiers::CONTROL | Modifiers::ALT | Modifiers::SUPER), Code::ArrowRight)
    );
}

#[test]
fn menu_only_actions_have_no_default() {
    assert_eq!(default_bind(Action::CenterHalf), None);
    assert_eq!(default_bind(Action::AlmostMaximize), None);
    assert_eq!(default_bind(Action::FirstFourth), None);
    assert_eq!(default_bind(Action::SixthTopLeft), None);
}

#[test]
fn bind_serializes_to_stable_hand_editable_json() {
    // The serialized shape: (base_modifier, shift, super, code).
    let bind = default_bind(Action::NextDisplay).unwrap();
    let (base_modifier, shift, super_key, code) = bind.to_repr();
    assert_eq!(base_modifier, true);
    assert_eq!(super_key, true);
    assert_eq!(shift, false);
    assert_eq!(code, "ArrowRight");
}

#[test]
fn bind_round_trips_through_json() {
    for action in Action::ALL {
        if let Some(bind) = default_bind(action) {
            let (base_modifier, shift, super_key, code) = bind.to_repr();
            let back = Bind::from_repr(base_modifier, shift, super_key, &code).unwrap();
            assert_eq!(bind, back, "round-trip mismatch for {action:?}");
        }
    }
}

#[test]
fn bind_deserialize_rejects_unknown_code() {
    let err = Bind::from_repr(true, false, false, "NopeKey");
    assert!(err.is_err(), "unknown code should fail to parse");
    assert_eq!(err.unwrap_err(), "unrecognized key code \"NopeKey\"");
}

#[test]
fn registry_covers_bound_actions_with_no_chord_collisions() {
    let registry = default_registry();
    let bound = Action::ALL.into_iter().filter(|a| default_bind(*a).is_some()).count();
    assert_eq!(registry.len(), bound);
    for i in 0..registry.len() {
        for j in (i + 1)..registry.len() {
            assert_ne!(registry[i].0, registry[j].0, "chord collision: {:?} vs {:?}", registry[i].1, registry[j].1);
        }
    }
}

#[test]
fn unknown_key_name_makes_no_bind() {
    assert_eq!(Bind::new(true, 0, "NopeKey"), Err("unrecognized key code \"NopeKey\"".to_string()));
}

#[test]
fn super_and_meta_are_the_same_chord() {
    let with_super = Bind::new(true, MOD_SUPER, "KeyA").unwrap();
    let with_meta = Bind::new(true, 0x40, "KeyA").unwrap();
    assert!(with_super.same_shortcut(&with_meta));
    assert_eq!(with_super.to_shortcut(), with_meta.to_shortcut());
    let with_shift = Bind::new(true, MOD_SHIFT, "KeyA").unwrap();
    assert!(!with_super.same_shortcut(&with_shift));
}

#[test]
fn from_repr_sets_the_modifier_bits() {
    let b = Bind::from_repr(false, true, true, "KeyQ").unwrap();
    assert_eq!(b, Bind::new(false, MOD_SHIFT | MOD_SUPER, "KeyQ").unwrap());
    assert_eq!((b.base_modifier(), b.extra(), b.code()), (false, MOD_SHIFT | MOD_SUPER, "KeyQ"));
    assert_eq!(b.to_shortcut(), Some(HotKey::new(Some(Modifiers::SHIFT | Modifiers::SUPER), Code::KeyQ)));
}

#[test]
fn from_repr_stores_the_standard_key_name() {
    let b = Bind::from_repr(true, false, false, "OSLeft").unwrap();
    assert_eq!(b.code(), "MetaLeft");
    let v = Bind::from_repr(true, false, false, "VolumeUp").unwrap();
    assert_eq!(v.code(), "AudioVolumeUp");
    let same = Bind::from_repr(true, false, false, "MetaLeft").unwrap();
    assert!(b.same_shortcut(&same));
}

#[test]
fn hint_renders_in_macos_order() {
    assert_eq!(default_bind(Action::LeftHalf).unwrap().hint(), "\u{2303}\u{2325}\u{2190}");
    assert_eq!(default_bind(Action::MaximizeHeight).unwrap().hint(), "\u{2303}\u{2325}\u{21e7}\u{2191}");
    assert_eq!(default_bind(Action::NextDisplay).unwrap().hint(), "\u{2303}\u{2325}\u{2318}\u{2192}");
    assert_eq!(default_bind(Action::Maximize).unwrap().hint(), "\u{2303}\u{2325}\u{21a9}");
    assert_eq!(default_bind(Action::Restore).unwrap().hint(), "\u{2303}\u{2325}\u{232b}");
    assert_eq!(default_bind(Action::TopLeft).unwrap().hint(), "\u{2303}\u{2325}U");
    assert_eq!(default_bind(Action::Smaller).unwrap().hint(), "\u{2303}\u{2325}-");
    assert_eq!(default_bind(Action::Larger).unwrap().hint(), "\u{2303}\u{2325}=");
    let plain = Bind::from_repr(false, false, false, "F5").unwrap();
    assert_eq!(plain.hint(), "F5");
}
