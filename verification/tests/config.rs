use jc_grid_manager::actions::Action;
use jc_grid_manager::config::{
    apply_binding, conflicting_action, get_accessibility_state, get_bindings, get_config, reset_all_bindings,
    reset_binding, resolve_action, set_binding, set_tunable, toggle_ignore_current_app, toggle_membership,
    windows_notices, BindingError, Config, ConfigState, IgnoreStatus, RebindPlan, ResetPlan, CONFIG_VERSION,
};
use jc_grid_manager::geometry::{geometry_in_range, Rect, Tunables};
use jc_grid_manager::platform::WindowIdentity;
use jc_grid_manager::shortcuts::{default_bind, Bind};

fn bind(code: &str) -> Bind {
    Bind::new(true, 0, code).unwrap()
}

fn err_of<T: std::fmt::Debug>(r: Result<T, BindingError>) -> (String, String) {
    let e = r.unwrap_err();
    (e.code, e.message)
}

#[test]
fn effective_bind_falls_back_to_default() {
    let config = Config::default();
    assert_eq!(config.effective_bind(Action::LeftHalf), default_bind(Action::LeftHalf));
    assert_eq!(config.effective_bind(Action::CenterHalf), None);
}

#[test]
fn override_wins_over_default_including_menu_only() {
    let mut config = Config::default();
    config.bindings.insert(Action::LeftHalf.id().to_string(), bind("KeyH"));
    assert_eq!(config.effective_bind(Action::LeftHalf), Some(bind("KeyH")));
    assert!(!config.is_default(Action::LeftHalf));
    config.bindings.insert(Action::CenterHalf.id().to_string(), bind("KeyM"));
    assert_eq!(config.effective_bind(Action::CenterHalf), Some(bind("KeyM")));
}

#[test]
fn conflicting_action_detects_duplicates_but_ignores_self() {
    let config = Config::default();
    let left_bind = default_bind(Action::LeftHalf).unwrap();
    assert_eq!(conflicting_action(&config, Action::RightHalf, &left_bind), Some(Action::LeftHalf));
    assert_eq!(conflicting_action(&config, Action::LeftHalf, &left_bind), None);
    assert_eq!(conflicting_action(&config, Action::CenterHalf, &bind("KeyZ")), None);
}

#[test]
fn registry_reflects_overrides() {
    let mut config = Config::default();
    let base = config.registry().len();
    config.bindings.insert(Action::CenterHalf.id().to_string(), bind("KeyM"));
    assert_eq!(config.registry().len(), base + 1);
    assert!(config
        .registry()
        .iter()
        .any(|(sc, a)| *a == Action::CenterHalf && *sc == bind("KeyM").to_shortcut().unwrap()));
}

#[test]
fn toggle_membership_adds_then_removes() {
    let mut list: Vec<String> = Vec::new();
    assert!(toggle_membership(&mut list, "com.apple.Safari"));
    assert_eq!(list, vec!["com.apple.Safari".to_string()]);
    assert!(!toggle_membership(&mut list, "com.apple.Safari"));
    assert!(list.is_empty());
    toggle_membership(&mut list, "com.a.B");
    toggle_membership(&mut list, "com.c.D");
    assert_eq!(list.len(), 2);
    assert!(!toggle_membership(&mut list, "com.a.B"));
    assert_eq!(list, vec!["com.c.D".to_string()]);
}

#[test]
fn toggle_twice_restores_the_list() {
    let mut list = vec!["a".to_string(), "b".to_string()];
    assert!(toggle_membership(&mut list, "c"));
    assert!(!toggle_membership(&mut list, "c"));
    assert_eq!(list, vec!["a".to_string(), "b".to_string()]);
    // A present key comes back at the end: same members, new order.
    assert!(!toggle_membership(&mut list, "a"));
    assert!(toggle_membership(&mut list, "a"));
    assert_eq!(list, vec!["b".to_string(), "a".to_string()]);
}

#[test]
fn toggle_removes_only_the_first_occurrence() {
    let mut list = vec!["x".to_string(), "y".to_string(), "x".to_string()];
    assert!(!toggle_membership(&mut list, "x"));
    assert_eq!(list, vec!["y".to_string(), "x".to_string()]);
}

#[test]
fn default_config_is_factory() {
    let config = Config::default();
    assert_eq!(config.version, CONFIG_VERSION);
    assert_eq!(config.bindings.len(), 0);
    assert_eq!(config.tunables, Tunables { almost_maximize_factor: 900000, resize_step: 50000, min_size: 200000 });
    assert!(config.ignore_apps.is_empty());
    assert!(!config.autostart);
    assert!(!config.accessibility_prompted);
    for action in Action::ALL {
        assert!(config.is_default(action));
    }
}

#[test]
fn resolve_action_reports_unknown_ids() {
    assert_eq!(resolve_action("left-half").unwrap(), Action::LeftHalf);
    assert_eq!(err_of(resolve_action("bogus")), ("unknown-action".to_string(), "no action \"bogus\"".to_string()));
}

#[test]
fn get_bindings_lists_every_action_in_menu_order() {
    let mut config = Config::default();
    config.bindings.insert(Action::RightHalf.id().to_string(), bind("KeyL"));
    let rows = get_bindings(&config);
    assert_eq!(rows.len(), Action::ALL.len());
    assert_eq!(rows[0].action, "left-half");
    assert_eq!(rows[0].label, "Left Half");
    assert_eq!(rows[0].bind, default_bind(Action::LeftHalf));
    assert!(rows[0].is_default);
    assert_eq!(rows[1].bind, Some(bind("KeyL")));
    assert!(!rows[1].is_default);
    assert_eq!(rows[4].bind, None);
    assert!(rows[4].is_default);
}

#[test]
fn an_override_equal_to_the_default_is_default() {
    let mut config = Config::default();
    config.bindings.insert(Action::LeftHalf.id().to_string(), default_bind(Action::LeftHalf).unwrap());
    assert!(config.is_default(Action::LeftHalf));
}

#[test]
fn set_binding_validates_and_plans() {
    let config = Config::default();
    assert_eq!(
        err_of(set_binding(&config, "nope", &bind("KeyH"))),
        ("unknown-action".to_string(), "no action \"nope\"".to_string())
    );
    assert_eq!(Bind::new(true, 0, "NopeKey").unwrap_err(), "unrecognized key code \"NopeKey\"");
    assert_eq!(
        err_of(set_binding(&config, "right-half", &default_bind(Action::LeftHalf).unwrap())),
        ("duplicate".to_string(), "that shortcut is already bound to Left Half".to_string())
    );
    match set_binding(&config, "left-half", &default_bind(Action::LeftHalf).unwrap()).unwrap() {
        RebindPlan::Unchanged => {}
        other => panic!("expected Unchanged, got {other:?}"),
    }
    match set_binding(&config, "left-half", &bind("KeyH")).unwrap() {
        RebindPlan::Register { action, shortcut, previous } => {
            assert_eq!(action, Action::LeftHalf);
            assert_eq!(Some(shortcut), bind("KeyH").to_shortcut());
            assert_eq!(previous, default_bind(Action::LeftHalf).unwrap().to_shortcut());
        }
        other => panic!("expected Register, got {other:?}"),
    }
    match set_binding(&config, "center-half", &bind("KeyM")).unwrap() {
        RebindPlan::Register { previous, .. } => assert_eq!(previous, None),
        other => panic!("expected Register, got {other:?}"),
    }
}

#[test]
fn apply_binding_then_reset_round_trips() {
    let mut state = ConfigState::new(Config::default());
    let before = state.registry.len();
    apply_binding(&mut state, Action::LeftHalf, bind("KeyH"));
    assert_eq!(state.config.effective_bind(Action::LeftHalf), Some(bind("KeyH")));
    assert_eq!(state.config.effective_bind(Action::RightHalf), default_bind(Action::RightHalf));
    assert_eq!(state.registry.len(), before);
    assert!(state.registry.iter().any(|(sc, a)| *a == Action::LeftHalf && Some(*sc) == bind("KeyH").to_shortcut()));

    match reset_binding(&mut state, "left-half").unwrap() {
        ResetPlan::Reset { action, release, claim } => {
            assert_eq!(action, Action::LeftHalf);
            assert_eq!(release, bind("KeyH").to_shortcut());
            assert_eq!(claim, default_bind(Action::LeftHalf).unwrap().to_shortcut());
        }
        other => panic!("expected Reset, got {other:?}"),
    }
    assert_eq!(state.config.effective_bind(Action::LeftHalf), default_bind(Action::LeftHalf));
    match reset_binding(&mut state, "left-half").unwrap() {
        ResetPlan::AlreadyDefault => {}
        other => panic!("expected AlreadyDefault, got {other:?}"),
    }
    assert_eq!(
        err_of(reset_binding(&mut state, "nope")),
        ("unknown-action".to_string(), "no action \"nope\"".to_string())
    );
}

#[test]
fn reset_of_an_override_equal_to_the_default_touches_no_shortcut() {
    let mut state = ConfigState::new(Config::default());
    apply_binding(&mut state, Action::LeftHalf, default_bind(Action::LeftHalf).unwrap());
    match reset_binding(&mut state, "left-half").unwrap() {
        ResetPlan::Reset { release, claim, .. } => {
            assert_eq!(release, None);
            assert_eq!(claim, None);
        }
        other => panic!("expected Reset, got {other:?}"),
    }
}

#[test]
fn reset_of_a_menu_only_binding_claims_nothing() {
    let mut state = ConfigState::new(Config::default());
    apply_binding(&mut state, Action::CenterHalf, bind("KeyM"));
    match reset_binding(&mut state, "center-half").unwrap() {
        ResetPlan::Reset { release, claim, .. } => {
            assert_eq!(release, bind("KeyM").to_shortcut());
            assert_eq!(claim, None);
        }
        other => panic!("expected Reset, got {other:?}"),
    }
    assert_eq!(state.config.effective_bind(Action::CenterHalf), None);
}

#[test]
fn reset_all_returns_every_action_to_default() {
    let mut state = ConfigState::new(Config::default());
    let factory = state.registry.len();
    apply_binding(&mut state, Action::LeftHalf, bind("KeyH"));
    apply_binding(&mut state, Action::CenterHalf, bind("KeyM"));
    assert_eq!(state.registry.len(), factory + 1);
    reset_all_bindings(&mut state);
    assert_eq!(state.config.bindings.len(), 0);
    assert_eq!(state.registry.len(), factory);
    for action in Action::ALL {
        assert!(state.config.is_default(action));
    }
}

#[test]
fn get_config_copies_the_live_config() {
    let mut state = ConfigState::new(Config::default());
    apply_binding(&mut state, Action::LeftHalf, bind("KeyH"));
    state.config.autostart = true;
    let copy = get_config(&state);
    assert_eq!(copy.effective_bind(Action::LeftHalf), Some(bind("KeyH")));
    assert!(copy.autostart);
}

#[test]
fn set_tunable_accepts_in_range_values() {
    let mut config = Config::default();
    assert!(set_tunable(&mut config, "almost_maximize_factor", 850000).is_ok());
    assert_eq!(config.tunables.almost_maximize_factor, 850000);
    assert!(set_tunable(&mut config, "min_size", 1000000).is_ok());
    assert_eq!(config.tunables.min_size, 1000000);
    assert!(set_tunable(&mut config, "resize_step", 500000).is_ok());
    assert_eq!(config.tunables.resize_step, 500000);
}

#[test]
fn set_tunable_rejects_out_of_range_and_unknown_keys() {
    let mut config = Config::default();
    assert_eq!(
        err_of(set_tunable(&mut config, "almost_maximize_factor", 0)),
        ("invalid-value".to_string(), "almost_maximize_factor must be in (0, 1]".to_string())
    );
    assert_eq!(
        err_of(set_tunable(&mut config, "min_size", 1000001)),
        ("invalid-value".to_string(), "min_size must be in (0, 1]".to_string())
    );
    assert_eq!(
        err_of(set_tunable(&mut config, "resize_step", 500001)),
        ("invalid-value".to_string(), "resize_step must be in (0, 0.5]".to_string())
    );
    assert_eq!(
        err_of(set_tunable(&mut config, "zoom", 1)),
        ("unknown-tunable".to_string(), "no tunable \"zoom\"".to_string())
    );
    assert_eq!(config.tunables, Tunables::default_values());
}

#[test]
fn identity_key_and_label_fall_back() {
    let full = WindowIdentity { bundle_id: Some("com.microsoft.VSCode".to_string()), name: Some("Code".to_string()) };
    assert_eq!(full.key(), Some("com.microsoft.VSCode".to_string()));
    assert_eq!(full.display_label(), "Code");
    let named = WindowIdentity { bundle_id: None, name: Some("Terminal".to_string()) };
    assert_eq!(named.key(), Some("Terminal".to_string()));
    let id_only = WindowIdentity { bundle_id: Some("C:\\x\\app.exe".to_string()), name: None };
    assert_eq!(id_only.display_label(), "C:\\x\\app.exe");
    let anon = WindowIdentity::default();
    assert_eq!(anon.key(), None);
    assert_eq!(anon.display_label(), "Current App");
    assert!(!anon.is_ignored(&["Current App".to_string()]));
}

#[test]
fn ignore_status_reflects_the_list() {
    let id = WindowIdentity { bundle_id: Some("com.apple.Safari".to_string()), name: Some("Safari".to_string()) };
    let status = IgnoreStatus::of(&id, &["com.apple.Safari".to_string()]);
    assert_eq!(status.id, Some("com.apple.Safari".to_string()));
    assert_eq!(status.name, "Safari");
    assert!(status.ignored);
    assert!(!IgnoreStatus::of(&id, &["Safari".to_string()]).ignored);
}

#[test]
fn toggle_ignore_adds_then_removes_the_app() {
    let mut config = Config::default();
    let id = WindowIdentity { bundle_id: Some("com.apple.Safari".to_string()), name: Some("Safari".to_string()) };
    let on = toggle_ignore_current_app(&mut config, &id).unwrap();
    assert!(on.ignored);
    assert_eq!(config.ignore_apps, vec!["com.apple.Safari".to_string()]);
    let off = toggle_ignore_current_app(&mut config, &id).unwrap();
    assert!(!off.ignored);
    assert!(config.ignore_apps.is_empty());
}

#[test]
fn toggle_ignore_refuses_an_anonymous_app() {
    let mut config = Config::default();
    assert_eq!(
        err_of(toggle_ignore_current_app(&mut config, &WindowIdentity::default())),
        ("identity".to_string(), "the frontmost app reports no bundle id or name to ignore".to_string())
    );
    assert!(config.ignore_apps.is_empty());
}

#[test]
fn accessibility_state_distinguishes_never_asked_from_denied() {
    let mut config = Config::default();
    assert_eq!(get_accessibility_state(true, &config), "trusted");
    assert_eq!(get_accessibility_state(false, &config), "never_asked");
    config.accessibility_prompted = true;
    assert_eq!(get_accessibility_state(false, &config), "denied");
    assert_eq!(get_accessibility_state(true, &config), "trusted");
}

#[test]
fn windows_notices_cover_the_known_conflicts() {
    let notices = windows_notices();
    assert_eq!(notices.len(), 3);
    assert_eq!(notices[0].title, "Ctrl+Alt+Arrow may rotate your screen");
    assert!(notices[0].body.contains("Options \u{2192} Hotkeys"));
    assert_eq!(notices[1].title, "Ctrl+Alt can behave as AltGr");
    assert_eq!(notices[2].title, "Display shortcuts sit next to Windows snapping");
    assert!(notices[2].body.starts_with("Next / Previous Display use Ctrl+Alt+Win+\u{2190}/\u{2192}"));
}

#[test]
fn binding_error_carries_code_and_message() {
    let e = BindingError::new("io", "disk full".to_string());
    assert_eq!(e.code, "io");
    assert_eq!(e.message, "disk full");
}

#[test]
fn accepted_rebinds_never_duplicate_a_chord() {
    let mut state = ConfigState::new(Config::default());
    let candidates = ["KeyH", "KeyU", "ArrowLeft", "KeyM", "KeyH"];
    let targets = ["center-half", "first-fourth", "move-left", "left-half", "right-half"];
    for (code, target) in candidates.iter().zip(targets.iter()) {
        if let Ok(RebindPlan::Register { action, .. }) = set_binding(&state.config, target, &bind(code)) {
            apply_binding(&mut state, action, bind(code));
        }
    }
    let reg = &state.registry;
    for i in 0..reg.len() {
        for j in (i + 1)..reg.len() {
            assert_ne!(reg[i].0, reg[j].0);
        }
    }
}

#[test]
fn accepted_tunables_stay_usable_by_the_geometry() {
    let mut config = Config::default();
    set_tunable(&mut config, "resize_step", 1).unwrap();
    set_tunable(&mut config, "min_size", 1000000).unwrap();
    let work = Rect::new(0, 0, 1000, 800);
    assert!(geometry_in_range(work, work, &[work], config.tunables));
}

#[test]
fn error_messages_quote_names_as_debug_does() {
    assert_eq!(err_of(resolve_action("a\"b")).1, "no action \"a\\\"b\"");
    let mut config = Config::default();
    assert_eq!(err_of(set_tunable(&mut config, "x\\y", 1)).1, "no tunable \"x\\\\y\"");
    assert_eq!(Bind::new(true, 0, "No\"pe").unwrap_err(), "unrecognized key code \"No\\\"pe\"");
}

#[test]
fn registry_lists_every_bound_action() {
    let config = Config::default();
    let bound = Action::ALL.into_iter().filter(|a| config.effective_bind(*a).is_some()).count();
    assert_eq!(config.registry().len(), bound);
}

#[test]
fn autostart_and_prompt_flags_are_recorded() {
    let mut config = Config::default();
    config.set_autostart(true);
    assert!(config.autostart);
    config.mark_accessibility_prompted();
    assert!(config.accessibility_prompted);
    let id = WindowIdentity { bundle_id: Some("com.a.B".to_string()), name: None };
    assert!(!config.ignores(&id));
    config.ignore_apps.push("com.a.B".to_string());
    assert!(config.ignores(&id));
}

#[test]
fn menu_text_shows_the_effective_shortcut() {
    let mut config = Config::default();
    assert_eq!(jc_grid_manager::config::menu_text(&config, Action::LeftHalf), "Left Half   \u{2303}\u{2325}\u{2190}");
    assert_eq!(jc_grid_manager::config::menu_text(&config, Action::CenterHalf), "Center Half");
    config.bindings.insert(Action::CenterHalf.id().to_string(), bind("KeyM"));
    assert_eq!(jc_grid_manager::config::menu_text(&config, Action::CenterHalf), "Center Half   \u{2303}\u{2325}M");
}

#[test]
fn action_for_finds_the_bound_action() {
    let state = ConfigState::new(Config::default());
    let pressed = default_bind(Action::Maximize).unwrap().to_shortcut().unwrap();
    assert_eq!(state.action_for(&pressed), Some(Action::Maximize));
    let unbound = bind("KeyZ").to_shortcut().unwrap();
    assert_eq!(state.action_for(&unbound), None);
}
