//! Per-machine configuration and the rules of live shortcut rebinding.
//!
//! User overrides layer on top of the default binds: the effective bind for an action is
//! its override if present, else the default. A rebind is rejected when its chord is already
//! the effective bind of a different action. The decisions of each settings command live
//! here; performing them (registering shortcuts with the OS, writing the file, emitting
//! events) is the caller's part.
//!
//! Error codes: `unknown-action`, `unknown-tunable`, `invalid-value`, `duplicate`,
//! `os-refused`, `autostart`, `identity`, `io`.

use vstd::prelude::*;
use vstd::string::StringExecFns;
use global_hotkey::hotkey::HotKey;
use crate::actions::{action_with_id, Action, ACTION_COUNT};
use crate::geometry::{Tunables, PPM};
use crate::overrides::Overrides;
use crate::platform::{opt_str, str_views, WindowIdentity};
use crate::text::{debug_quote, debug_quoted};
use crate::shortcuts::{
    bind_hotkey, default_bind, hotkey_named, is_standard_key_name, same_chord, spec_hint, shortcut_mods, spec_default_bind, Bind, BindView,
};

verus! {

/// Schema version, persisted for future migrations.
pub const CONFIG_VERSION: u32 = 1;

/// The view of an optional bind.
pub open spec fn opt_view(o: Option<Bind>) -> Option<BindView> {
    match o {
        Some(b) => Some(b@),
        None => None,
    }
}

/// The persisted, per-machine configuration.
#[derive(Debug)]
pub struct Config {
    /// Schema version (for forward-compatible migrations).
    pub version: u32,
    /// Shortcut overrides keyed by action id. An entry replaces the default; a missing
    /// entry means "use the default".
    pub bindings: Overrides,
    /// User-tunable sizing factors (Almost Maximize / Smaller / Larger).
    pub tunables: Tunables,
    /// App bundle ids / names to leave alone.
    pub ignore_apps: Vec<String>,
    /// Launch at login.
    pub autostart: bool,
    /// Whether the macOS Accessibility prompt has been shown at least once.
    pub accessibility_prompted: bool,
}

/// The effective bind of `action` under overrides `bindings`: the override if present,
/// else the default.
pub open spec fn spec_effective(bindings: Overrides, action: Action) -> Option<BindView> {
    match bindings.spec_get(action.spec_id()) {
        Some(b) => Some(b),
        None => spec_default_bind(action),
    }
}

/// The effective shortcut registry over the first `n` actions in menu order: every bound
/// action whose key the plugin recognizes, paired with its shortcut.
pub open spec fn registry_prefix(bindings: Overrides, n: int) -> Seq<(HotKey, Action)>
    decreases n,
{
    if n <= 0 {
        Seq::empty()
    } else {
        let prev = registry_prefix(bindings, n - 1);
        let a = Action::at(n - 1);
        match spec_effective(bindings, a) {
            Some(b) => match hotkey_named(shortcut_mods(b), b.code) {
                Some(h) => prev.push((h, a)),
                None => prev,
            },
            None => prev,
        }
    }
}

/// The number of actions among the first `n` in menu order that have an effective bind.
pub open spec fn bound_count(bindings: Overrides, n: int) -> int
    decreases n,
{
    if n <= 0 {
        0
    } else {
        bound_count(bindings, n - 1) + if spec_effective(bindings, Action::at(n - 1)) is Some {
            1int
        } else {
            0int
        }
    }
}

/// Every two different actions with an effective bind make different chords.
pub open spec fn chords_distinct(bindings: Overrides) -> bool {
    forall|a: Action, b: Action|
        a != b && (#[trigger] spec_effective(bindings, a)) is Some && (#[trigger] spec_effective(bindings, b)) is Some
            ==> !same_chord(spec_effective(bindings, a)->0, spec_effective(bindings, b)->0)
}

/// `other` is a different action whose effective bind resolves to the same shortcut as `bind`.
pub open spec fn conflicts_with(bindings: Overrides, action: Action, bind: BindView, other: Action) -> bool {
    &&& other != action
    &&& bind_hotkey(bind) is Some
    &&& effective_hotkey(bindings, other) == bind_hotkey(bind)
}

/// `other` is the first action in menu order that conflicts with binding `bind` to `action`.
pub open spec fn is_first_conflict(bindings: Overrides, action: Action, bind: BindView, other: Action) -> bool {
    &&& conflicts_with(bindings, action, bind, other)
    &&& forall|j: int| 0 <= j < other.index() ==> !conflicts_with(bindings, action, bind, #[trigger] Action::at(j))
}

/// At most one action is the first conflict.
pub proof fn lemma_first_conflict_unique(bindings: Overrides, action: Action, bind: BindView, a: Action, b: Action)
    requires
        is_first_conflict(bindings, action, bind, a),
        is_first_conflict(bindings, action, bind, b),
    ensures
        a == b,
{
    crate::actions::lemma_all_in_order();
    assert(Action::at(a.index()) == a);
    assert(Action::at(b.index()) == b);
    if a.index() < b.index() {
        assert(!conflicts_with(bindings, action, bind, Action::at(a.index())));
    } else if b.index() < a.index() {
        assert(!conflicts_with(bindings, action, bind, Action::at(b.index())));
    }
}

impl Config {
    /// The factory configuration: no overrides, default tunables, nothing ignored.
    pub fn new_default() -> (r: Config)
        ensures
            r.version == CONFIG_VERSION,
            forall|k: Seq<char>| #[trigger] r.bindings.spec_get(k) is None,
            r.tunables == Tunables::spec_default(),
            r.ignore_apps@.len() == 0,
            !r.autostart,
            !r.accessibility_prompted,
    {
        Config {
            version: CONFIG_VERSION,
            bindings: Overrides::new(),
            tunables: Tunables::default_values(),
            ignore_apps: Vec::new(),
            autostart: false,
            accessibility_prompted: false,
        }
    }

    /// An identical copy.
    pub fn duplicate(&self) -> (r: Config)
        ensures
            r.version == self.version,
            forall|k: Seq<char>| #[trigger] r.bindings.spec_get(k) == self.bindings.spec_get(k),
            r.tunables == self.tunables,
            r.ignore_apps@ == self.ignore_apps@,
            r.autostart == self.autostart,
            r.accessibility_prompted == self.accessibility_prompted,
    {
        Config {
            version: self.version,
            bindings: self.bindings.duplicate(),
            tunables: self.tunables,
            ignore_apps: self.ignore_apps.clone(),
            autostart: self.autostart,
            accessibility_prompted: self.accessibility_prompted,
        }
    }

    /// The effective bind for `action`: the user override if present, else the default.
    /// `None` means the action is unbound (a menu-only action with no override).
    pub fn effective_bind(&self, action: Action) -> (r: Option<Bind>)
        ensures
            opt_view(r) == spec_effective(self.bindings, action),
    {
        match self.bindings.get(action.id()) {
            Some(b) => Some(b),
            None => default_bind(action),
        }
    }

    /// Whether `action` is at its factory default (no override, or one equal to it).
    pub fn is_default(&self, action: Action) -> (r: bool)
        ensures
            r == (spec_effective(self.bindings, action) == spec_default_bind(action)),
    {
        let e = self.effective_bind(action);
        let d = default_bind(action);
        match (e, d) {
            (Some(a), Some(b)) => a.same_as(&b),
            (None, None) => true,
            _ => false,
        }
    }

    /// The effective `shortcut → action` registry: every bound action, override-or-default,
    /// in menu order.
    pub fn registry(&self) -> (r: Vec<(HotKey, Action)>)
        ensures
            r@ == registry_prefix(self.bindings, ACTION_COUNT as int),
            r@.len() == bound_count(self.bindings, ACTION_COUNT as int),
            chords_distinct(self.bindings) ==> forall|p: int, q: int|
                0 <= p < q < r@.len() ==> (#[trigger] r@[p]).0 != (#[trigger] r@[q]).0,
            forall|k: int| 0 <= k < r@.len() ==> effective_hotkey(self.bindings, (#[trigger] r@[k]).1) == Some(r@[k].0),
            forall|a: Action| (#[trigger] spec_effective(self.bindings, a)) is Some ==> exists|k: int|
                0 <= k < r@.len() && (#[trigger] r@[k]).1 == a,
    {
        proof {
            crate::actions::lemma_all_in_order();
        }
        let mut out: Vec<(HotKey, Action)> = Vec::new();
        let ghost mut binds: Seq<BindView> = Seq::empty();
        let mut i: usize = 0;
        while i < ACTION_COUNT
            invariant
                i <= ACTION_COUNT,
                out@ == registry_prefix(self.bindings, i as int),
                out@.len() == bound_count(self.bindings, i as int),
                forall|j: int| 0 <= j < ACTION_COUNT ==> #[trigger] Action::ALL@[j] == Action::at(j),
                binds.len() == out@.len(),
                forall|k: int| 0 <= k < out@.len() ==> {
                    &&& spec_effective(self.bindings, (#[trigger] out@[k]).1) == Some(binds[k])
                    &&& is_standard_key_name(binds[k].code)
                    &&& hotkey_named(shortcut_mods(binds[k]), binds[k].code) == Some(out@[k].0)
                    &&& out@[k].1.index() < i
                },
                chords_distinct(self.bindings) ==> forall|p: int, q: int|
                    0 <= p < q < out@.len() ==> (#[trigger] out@[p]).0 != (#[trigger] out@[q]).0,
                forall|j: int| 0 <= j < i && (#[trigger] spec_effective(self.bindings, Action::at(j))) is Some ==> exists|k: int|
                    0 <= k < out@.len() && (#[trigger] out@[k]).1 == Action::at(j),
            decreases ACTION_COUNT - i,
        {
            let a = Action::ALL[i];
            let ghost old_out = out@;
            proof {
                assert(a == Action::at(i as int));
                assert(Action::at(i as int).index() == i);
            }
            match self.effective_bind(a) {
                Some(b) => {
                    proof {
                        use_type_invariant(&b);
                    }
                    match b.to_shortcut() {
                        Some(h) => {
                            proof {
                                assert forall|k: int| 0 <= k < out@.len() && chords_distinct(self.bindings) implies #[trigger] out@[k].0 != h by {
                                    let bk = binds[k];
                                    assert(hotkey_named(shortcut_mods(bk), bk.code) == Some(out@[k].0));
                                    assert(out@[k].1 != a);
                                    assert(!same_chord(spec_effective(self.bindings, a)->0, spec_effective(self.bindings, out@[k].1)->0));
                                }
                            }
                            out.push((h, a));
                            proof {
                                binds = binds.push(b@);
                            }
                        },
                        None => {},
                    }
                },
                None => {},
            }
            proof {
                assert forall|j: int| 0 <= j < i + 1 && (#[trigger] spec_effective(self.bindings, Action::at(j))) is Some implies exists|k: int|
                    0 <= k < out@.len() && (#[trigger] out@[k]).1 == Action::at(j) by {
                    if j == i {
                        assert(out@[out@.len() - 1].1 == Action::at(j));
                    } else {
                        let k = choose|k: int| 0 <= k < old_out.len() && (#[trigger] old_out[k]).1 == Action::at(j);
                        assert(out@[k] == old_out[k]);
                    }
                }
            }
            i = i + 1;
        }
        proof {
            assert forall|a: Action| (#[trigger] spec_effective(self.bindings, a)) is Some implies exists|k: int|
                0 <= k < out@.len() && (#[trigger] out@[k]).1 == a by {
                assert(Action::at(a.index()) == a);
                assert(spec_effective(self.bindings, Action::at(a.index())) is Some);
            }
        }
        out
    }

    /// Mirror the launch-at-login state the system accepted.
    pub fn set_autostart(&mut self, enabled: bool)
        ensures
            *final(self) == (Config { autostart: enabled, ..*old(self) }),
    {
        self.autostart = enabled;
    }

    /// Record that the system Accessibility prompt has been shown.
    pub fn mark_accessibility_prompted(&mut self)
        ensures
            *final(self) == (Config { accessibility_prompted: true, ..*old(self) }),
    {
        self.accessibility_prompted = true;
    }

    /// Whether actions skip the windows of the app `identity`: it is on the ignore list.
    pub fn ignores(&self, identity: &WindowIdentity) -> (r: bool)
        ensures
            r == identity.spec_is_ignored(str_views(self.ignore_apps@)),
    {
        identity.is_ignored(self.ignore_apps.as_slice())
    }

    /// Remove every override, returning all actions to their defaults.
    pub fn clear_overrides(&mut self)
        ensures
            forall|k: Seq<char>| #[trigger] final(self).bindings.spec_get(k) is None,
            final(self).tunables == old(self).tunables,
            final(self).ignore_apps == old(self).ignore_apps,
            final(self).autostart == old(self).autostart,
            final(self).accessibility_prompted == old(self).accessibility_prompted,
            final(self).version == old(self).version,
    {
        self.bindings.clear();
    }
}

impl Default for Config {
    fn default() -> (r: Config)
        ensures
            r.version == CONFIG_VERSION,
            forall|k: Seq<char>| #[trigger] r.bindings.spec_get(k) is None,
            r.tunables == Tunables::spec_default(),
            r.ignore_apps@.len() == 0,
            !r.autostart,
            !r.accessibility_prompted,
    {
        Config::new_default()
    }
}

/// If `bind`'s shortcut is already the effective shortcut of a **different** action, return
/// the first such action in menu order — the duplicate the validator rejects. Same-action
/// rebinds don't conflict, and a bind whose key is not recognized resolves to no shortcut.
pub fn conflicting_action(config: &Config, action: Action, bind: &Bind) -> (r: Option<Action>)
    ensures
        match r {
            Some(o) => is_first_conflict(config.bindings, action, bind@, o),
            None => forall|o: Action| !conflicts_with(config.bindings, action, bind@, o),
        },
{
    proof {
        crate::actions::lemma_all_in_order();
    }
    let target = bind.to_shortcut();
    let mut i: usize = 0;
    while i < ACTION_COUNT
        invariant
            i <= ACTION_COUNT,
            bind_hotkey(bind@) is Some,
            forall|j: int| 0 <= j < ACTION_COUNT ==> #[trigger] Action::ALL@[j] == Action::at(j),
            forall|j: int| 0 <= j < i ==> !conflicts_with(config.bindings, action, bind@, #[trigger] Action::at(j)),
        decreases ACTION_COUNT - i,
    {
        let other = Action::ALL[i];
        if other != action {
            match config.effective_bind(other) {
                Some(b) => {
                    if b.same_shortcut(bind) {
                        proof {
                            crate::actions::lemma_all_in_order();
                            assert(Action::at(other.index()) == other);
                            assert(other.index() == i);
                        }
                        return Some(other);
                    }
                },
                None => {},
            }
        }
        i = i + 1;
    }
    proof {
        assert forall|o: Action| !conflicts_with(config.bindings, action, bind@, o) by {
            assert(Action::at(o.index()) == o);
        }
    }
    None
}

/// The tray text of `action`: its label, then its effective shortcut as a hint when it has
/// one, e.g. `Left Half   ⌃⌥←`.
pub fn menu_text(config: &Config, action: Action) -> (r: String)
    ensures
        r@ == match spec_effective(config.bindings, action) {
            Some(b) => action.spec_label() + "   "@ + spec_hint(b),
            None => action.spec_label(),
        },
{
    match config.effective_bind(action) {
        Some(b) => {
            let hint = b.hint();
            String::from_str(action.label()).concat("   ").concat(hint.as_str())
        },
        None => String::from_str(action.label()),
    }
}

/// Live config + its cached effective registry.
pub struct ConfigState {
    pub config: Config,
    pub registry: Vec<(HotKey, Action)>,
}

impl ConfigState {
    /// The action bound to the pressed shortcut `pressed`: the first registry entry with that
    /// shortcut, or `None` when no action has it.
    pub fn action_for(&self, pressed: &HotKey) -> (r: Option<Action>)
        ensures
            match r {
                Some(a) => exists|k: int|
                    0 <= k < self.registry@.len() && #[trigger] self.registry@[k] == (*pressed, a) && forall|j: int|
                        0 <= j < k ==> (#[trigger] self.registry@[j]).0 != *pressed,
                None => forall|k: int| 0 <= k < self.registry@.len() ==> (#[trigger] self.registry@[k]).0 != *pressed,
            },
    {
        let mut i: usize = 0;
        while i < self.registry.len()
            invariant
                i <= self.registry@.len(),
                forall|j: int| 0 <= j < i ==> (#[trigger] self.registry@[j]).0 != *pressed,
            decreases self.registry@.len() - i,
        {
            let (hotkey, action) = self.registry[i];
            if crate::shortcuts::same_hotkey(&hotkey, pressed) {
                assert(self.registry@[i as int] == (*pressed, action));
                return Some(action);
            }
            i = i + 1;
        }
        None
    }

    /// Hold `config` with its effective registry.
    pub fn new(config: Config) -> (r: ConfigState)
        ensures
            r.registry@ == registry_prefix(config.bindings, ACTION_COUNT as int),
            r.config == config,
    {
        let registry = config.registry();
        ConfigState { config, registry }
    }
}


/// A structured command error surfaced to the settings UI as `{ code, message }`.
#[derive(Debug)]
pub struct BindingError {
    pub code: String,
    pub message: String,
}

impl BindingError {
    /// An error with the given code and message.
    pub fn new(code: &str, message: String) -> (r: BindingError)
        ensures
            r.code@ == code@,
            r.message@ == message@,
    {
        BindingError { code: String::from_str(code), message }
    }
}

/// Resolve a stable action id, or fail with `unknown-action`.
pub fn resolve_action(id: &str) -> (r: Result<Action, BindingError>)
    ensures
        match action_with_id(id@) {
            Some(a) => r == Ok::<Action, BindingError>(a),
            None => r matches Err(e) && e.code@ == "unknown-action"@ && e.message@ == "no action "@
                + debug_quoted(id@),
        },
{
    match Action::from_id(id) {
        Some(a) => Ok(a),
        None => {
            let msg = String::from_str("no action ").concat(debug_quote(id).as_str());
            Err(BindingError::new("unknown-action", msg))
        },
    }
}

/// One row of the shortcut table for the settings UI.
#[derive(Debug)]
pub struct BindingInfo {
    /// Stable action id.
    pub action: String,
    /// Human-readable label.
    pub label: String,
    /// The effective bind, or `None` if the action is unbound.
    pub bind: Option<Bind>,
    /// Whether the effective bind is the factory default.
    pub is_default: bool,
}

/// The current configuration, copied.
pub fn get_config(state: &ConfigState) -> (r: Config)
    ensures
        r.version == state.config.version,
        forall|k: Seq<char>| #[trigger] r.bindings.spec_get(k) == state.config.bindings.spec_get(k),
        r.tunables == state.config.tunables,
        r.ignore_apps@ == state.config.ignore_apps@,
        r.autostart == state.config.autostart,
        r.accessibility_prompted == state.config.accessibility_prompted,
{
    state.config.duplicate()
}

/// Every action, in menu order, with its label, effective bind and whether that bind is the
/// factory default.
pub fn get_bindings(config: &Config) -> (r: Vec<BindingInfo>)
    ensures
        r@.len() == ACTION_COUNT,
        forall|i: int| 0 <= i < ACTION_COUNT ==> {
            let info = #[trigger] r@[i];
            let a = Action::at(i);
            &&& info.action@ == a.spec_id()
            &&& info.label@ == a.spec_label()
            &&& opt_view(info.bind) == spec_effective(config.bindings, a)
            &&& info.is_default == (spec_effective(config.bindings, a) == spec_default_bind(a))
        },
{
    proof {
        crate::actions::lemma_all_in_order();
    }
    let mut out: Vec<BindingInfo> = Vec::new();
    let mut i: usize = 0;
    while i < ACTION_COUNT
        invariant
            i <= ACTION_COUNT,
            out@.len() == i,
            forall|j: int| 0 <= j < ACTION_COUNT ==> #[trigger] Action::ALL@[j] == Action::at(j),
            forall|j: int| 0 <= j < i ==> {
                let info = #[trigger] out@[j];
                let a = Action::at(j);
                &&& info.action@ == a.spec_id()
                &&& info.label@ == a.spec_label()
                &&& opt_view(info.bind) == spec_effective(config.bindings, a)
                &&& info.is_default == (spec_effective(config.bindings, a) == spec_default_bind(a))
            },
        decreases ACTION_COUNT - i,
    {
        let a = Action::ALL[i];
        let info = BindingInfo {
            action: String::from_str(a.id()),
            label: String::from_str(a.label()),
            bind: config.effective_bind(a),
            is_default: config.is_default(a),
        };
        out.push(info);
        i = i + 1;
    }
    out
}

/// The shortcut the effective bind of `action` resolves to, if any.
pub open spec fn effective_hotkey(bindings: Overrides, action: Action) -> Option<HotKey> {
    match spec_effective(bindings, action) {
        Some(b) => bind_hotkey(b),
        None => None,
    }
}

/// What a validated rebind asks of the system.
#[derive(Debug)]
pub enum RebindPlan {
    /// The action already resolves to this chord: nothing to do.
    Unchanged,
    /// Register `shortcut` with the system; once it is accepted, free `previous` and store
    /// the override with [`apply_binding`]. A refusal leaves everything as it was.
    Register { action: Action, shortcut: HotKey, previous: Option<HotKey> },
}

/// Validate rebinding the action with id `action` to `bind`: the action must exist, and the
/// chord must not already be the effective bind of a different action. Rebinding an action to the chord it already has changes nothing.
pub fn set_binding(config: &Config, action: &str, bind: &Bind) -> (r: Result<RebindPlan, BindingError>)
    ensures
        match action_with_id(action@) {
            None => r matches Err(e) && e.code@ == "unknown-action"@ && e.message@ == "no action "@
                + debug_quoted(action@),
            Some(a) => if exists|o: Action| conflicts_with(config.bindings, a, bind@, o) {
                r matches Err(e) && e.code@ == "duplicate"@ && exists|o: Action|
                    is_first_conflict(config.bindings, a, bind@, o) && e.message@
                        == "that shortcut is already bound to "@ + o.spec_label()
            } else if spec_effective(config.bindings, a) matches Some(old) && bind_hotkey(old) == bind_hotkey(bind@) {
                r matches Ok(RebindPlan::Unchanged)
            } else {
                r matches Ok(RebindPlan::Register { action: pa, shortcut, previous }) && pa == a
                    && Some(shortcut) == bind_hotkey(bind@) && previous == effective_hotkey(config.bindings, a)
            },
        },
{
    let a = match resolve_action(action) {
        Ok(a) => a,
        Err(e) => {
            return Err(e);
        },
    };
    let shortcut = bind.to_shortcut().unwrap();
    match conflicting_action(config, a, bind) {
        Some(other) => {
            let msg = String::from_str("that shortcut is already bound to ").concat(other.label());
            return Err(BindingError::new("duplicate", msg));
        },
        None => {},
    }
    let old = config.effective_bind(a);
    match old {
        Some(ob) => {
            if ob.same_shortcut(bind) {
                return Ok(RebindPlan::Unchanged);
            }
            let previous = ob.to_shortcut();
            Ok(RebindPlan::Register { action: a, shortcut, previous })
        },
        None => Ok(RebindPlan::Register { action: a, shortcut, previous: None }),
    }
}

/// Store the override `action → bind` (after the system accepted its chord) and refresh the
/// cached registry.
pub fn apply_binding(state: &mut ConfigState, action: Action, bind: Bind)
    ensures
        forall|k: Seq<char>| #[trigger] final(state).config.bindings.spec_get(k) == (if k == action.spec_id() {
            Some(bind@)
        } else {
            old(state).config.bindings.spec_get(k)
        }),
        final(state).registry@ == registry_prefix(final(state).config.bindings, ACTION_COUNT as int),
        final(state).config.tunables == old(state).config.tunables,
        final(state).config.ignore_apps@ == old(state).config.ignore_apps@,
        final(state).config.autostart == old(state).config.autostart,
        final(state).config.accessibility_prompted == old(state).config.accessibility_prompted,
        final(state).config.version == old(state).config.version,
{
    state.config.bindings.insert(String::from_str(action.id()), bind);
    state.registry = state.config.registry();
}

/// What dropping an override asks of the system.
#[derive(Debug)]
pub enum ResetPlan {
    /// The action had no override: nothing changed.
    AlreadyDefault,
    /// The override was dropped. When the chord changed, free `release` and claim `claim`
    /// (the default's shortcut; a failure to claim it is only worth a warning).
    Reset { action: Action, release: Option<HotKey>, claim: Option<HotKey> },
}

/// The dropped override `old` resolves to a different shortcut than the default of `action`.
pub open spec fn reset_changes_chord(old: BindView, action: Action) -> bool {
    !(spec_default_bind(action) matches Some(d) && bind_hotkey(old) == bind_hotkey(d))
}

/// Drop the override of the action with id `action` so it returns to its default, and
/// refresh the cached registry.
pub fn reset_binding(state: &mut ConfigState, action: &str) -> (r: Result<ResetPlan, BindingError>)
    ensures
        match action_with_id(action@) {
            None => {
                &&& r matches Err(e) && e.code@ == "unknown-action"@ && e.message@ == "no action "@
                    + debug_quoted(action@)
                &&& *final(state) == *old(state)
            },
            Some(a) => match old(state).config.bindings.spec_get(a.spec_id()) {
                None => r matches Ok(ResetPlan::AlreadyDefault) && *final(state) == *old(state),
                Some(ob) => {
                    &&& forall|k: Seq<char>| #[trigger] final(state).config.bindings.spec_get(k) == (if k
                        == a.spec_id() {
                        None
                    } else {
                        old(state).config.bindings.spec_get(k)
                    })
                    &&& final(state).registry@ == registry_prefix(final(state).config.bindings, ACTION_COUNT as int)
                    &&& final(state).config.tunables == old(state).config.tunables
                    &&& final(state).config.ignore_apps@ == old(state).config.ignore_apps@
                    &&& final(state).config.autostart == old(state).config.autostart
                    &&& final(state).config.accessibility_prompted == old(state).config.accessibility_prompted
                    &&& final(state).config.version == old(state).config.version
                    &&& r matches Ok(ResetPlan::Reset { action: ra, release, claim }) && ra == a && if reset_changes_chord(ob, a) {
                        release == bind_hotkey(ob) && claim == match spec_default_bind(a) {
                            Some(d) => bind_hotkey(d),
                            None => None,
                        }
                    } else {
                        release is None && claim is None
                    }
                },
            },
        },
{
    let a = match resolve_action(action) {
        Ok(a) => a,
        Err(e) => {
            return Err(e);
        },
    };
    let old_bind = match state.config.bindings.remove(a.id()) {
        Some(b) => b,
        None => {
            return Ok(ResetPlan::AlreadyDefault);
        },
    };
    let default = default_bind(a);
    let changed = match &default {
        Some(d) => !old_bind.same_shortcut(d),
        None => true,
    };
    let plan = if changed {
        let claim = match &default {
            Some(d) => d.to_shortcut(),
            None => None,
        };
        ResetPlan::Reset { action: a, release: old_bind.to_shortcut(), claim }
    } else {
        ResetPlan::Reset { action: a, release: None, claim: None }
    };
    state.registry = state.config.registry();
    Ok(plan)
}

/// Clear every override, returning all shortcuts to their defaults, and refresh the cached
/// registry (which then lists what to register with the system).
pub fn reset_all_bindings(state: &mut ConfigState)
    ensures
        forall|k: Seq<char>| #[trigger] final(state).config.bindings.spec_get(k) is None,
        final(state).registry@ == registry_prefix(final(state).config.bindings, ACTION_COUNT as int),
        final(state).config.tunables == old(state).config.tunables,
        final(state).config.ignore_apps@ == old(state).config.ignore_apps@,
        final(state).config.autostart == old(state).config.autostart,
        final(state).config.accessibility_prompted == old(state).config.accessibility_prompted,
        final(state).config.version == old(state).config.version,
{
    state.config.bindings.clear();
    state.registry = state.config.registry();
}

/// A refused command: `(code, message)`.
pub type Refusal = (Seq<char>, Seq<char>);

/// The tunables after setting `key` to `value` (parts per million), or why not. The fill
/// fraction and the floor take a value in `(0, 1]`; the per-press step one in `(0, 0.5]`.
pub open spec fn spec_set_tunable(t: Tunables, key: Seq<char>, value: i64) -> Result<Tunables, Refusal> {
    if key == "almost_maximize_factor"@ {
        if 0 < value <= PPM {
            Ok(Tunables { almost_maximize_factor: value, ..t })
        } else {
            Err(("invalid-value"@, key + " must be in (0, 1]"@))
        }
    } else if key == "min_size"@ {
        if 0 < value <= PPM {
            Ok(Tunables { min_size: value, ..t })
        } else {
            Err(("invalid-value"@, key + " must be in (0, 1]"@))
        }
    } else if key == "resize_step"@ {
        if 0 < value <= PPM / 2 {
            Ok(Tunables { resize_step: value, ..t })
        } else {
            Err(("invalid-value"@, key + " must be in (0, 0.5]"@))
        }
    } else {
        Err(("unknown-tunable"@, "no tunable "@ + debug_quoted(key)))
    }
}

/// An accepted tunable change keeps every factor a fraction of the work area.
pub proof fn lemma_set_tunable_keeps_valid(t: Tunables, key: Seq<char>, value: i64)
    requires
        t.valid(),
    ensures
        spec_set_tunable(t, key, value) matches Ok(n) ==> n.valid(),
{
}

/// Reject a tunable value outside `(0, max]`; `max_text` spells `max` as a fraction.
fn range(value: i64, max: i64, max_text: &str, key: &str) -> (r: Result<(), BindingError>)
    ensures
        (0 < value <= max) <==> r is Ok,
        r matches Err(e) ==> e.code@ == "invalid-value"@ && e.message@ == key@ + " must be in (0, "@
            + max_text@ + "]"@,
{
    if 0 < value && value <= max {
        Ok(())
    } else {
        let msg = String::from_str(key).concat(" must be in (0, ").concat(max_text).concat("]");
        Err(BindingError::new("invalid-value", msg))
    }
}

/// Update one sizing tunable (`almost_maximize_factor`, `resize_step` or `min_size`) to
/// `value` parts per million of the work area. Out-of-range values and unknown keys are
/// rejected and leave the configuration unchanged.
pub fn set_tunable(config: &mut Config, key: &str, value: i64) -> (r: Result<(), BindingError>)
    ensures
        match spec_set_tunable(old(config).tunables, key@, value) {
            Ok(t) => r is Ok && final(config).tunables == t,
            Err((code, message)) => r matches Err(e) && e.code@ == code && e.message@ == message
                && final(config).tunables == old(config).tunables,
        },
        final(config).bindings == old(config).bindings,
        final(config).ignore_apps == old(config).ignore_apps,
        final(config).autostart == old(config).autostart,
        final(config).accessibility_prompted == old(config).accessibility_prompted,
        final(config).version == old(config).version,
{
    proof {
        reveal_strlit("1");
        reveal_strlit("0.5");
        reveal_strlit(" must be in (0, ");
        reveal_strlit("]");
        reveal_strlit(" must be in (0, 1]");
        reveal_strlit(" must be in (0, 0.5]");
        assert(" must be in (0, "@ + "1"@ + "]"@ =~= " must be in (0, 1]"@);
        assert(" must be in (0, "@ + "0.5"@ + "]"@ =~= " must be in (0, 0.5]"@);
    }
    if crate::text::str_equal(key, "almost_maximize_factor") {
        match range(value, PPM, "1", key) {
            Ok(()) => {},
            Err(e) => {
                proof {
                    assert(e.message@ =~= key@ + " must be in (0, 1]"@);
                }
                return Err(e);
            },
        }
        config.tunables.almost_maximize_factor = value;
        Ok(())
    } else if crate::text::str_equal(key, "min_size") {
        match range(value, PPM, "1", key) {
            Ok(()) => {},
            Err(e) => {
                proof {
                    assert(e.message@ =~= key@ + " must be in (0, 1]"@);
                }
                return Err(e);
            },
        }
        config.tunables.min_size = value;
        Ok(())
    } else if crate::text::str_equal(key, "resize_step") {
        match range(value, PPM / 2, "0.5", key) {
            Ok(()) => {},
            Err(e) => {
                proof {
                    assert(e.message@ =~= key@ + " must be in (0, 0.5]"@);
                }
                return Err(e);
            },
        }
        config.tunables.resize_step = value;
        Ok(())
    } else {
        let msg = String::from_str("no tunable ").concat(debug_quote(key).as_str());
        Err(BindingError::new("unknown-tunable", msg))
    }
}

/// `i` is the first position of `key` in `list`.
pub open spec fn first_index(list: Seq<Seq<char>>, key: Seq<char>, i: int) -> bool {
    &&& 0 <= i < list.len()
    &&& list[i] == key
    &&& forall|j: int| 0 <= j < i ==> list[j] != key
}

/// The list after toggling `key`, and whether `key` is now a member: a present key loses its
/// first occurrence, an absent one is appended.
pub open spec fn spec_toggle(list: Seq<Seq<char>>, key: Seq<char>) -> (Seq<Seq<char>>, bool) {
    if list.contains(key) {
        (list.remove(choose|i: int| first_index(list, key, i)), false)
    } else {
        (list.push(key), true)
    }
}

/// Add `key` to `list` if absent, remove it if present. Returns the resulting membership.
pub fn toggle_membership(list: &mut Vec<String>, key: &str) -> (r: bool)
    ensures
        (str_views(final(list)@), r) == spec_toggle(str_views(old(list)@), key@),
{
    let ghost views = str_views(list@);
    let mut i: usize = 0;
    while i < list.len()
        invariant
            i <= list@.len(),
            list@ == old(list)@,
            views == str_views(old(list)@),
            views.len() == list@.len(),
            forall|j: int| 0 <= j < i ==> views[j] != key@,
        decreases list@.len() - i,
    {
        if crate::text::str_equal(list[i].as_str(), key) {
            proof {
                assert(views[i as int] == list@[i as int]@);
                assert(first_index(views, key@, i as int));
                assert(views.contains(key@));
                let c = choose|c: int| first_index(views, key@, c);
                assert(first_index(views, key@, c));
                if c < i {
                    assert(views[c] != key@);
                } else if c > i {
                    assert(views[i as int] != key@);
                }
            }
            list.remove(i);
            proof {
                assert(str_views(list@) =~= views.remove(i as int));
            }
            return false;
        }
        proof {
            assert(views[i as int] == list@[i as int]@);
        }
        i = i + 1;
    }
    proof {
        assert(!views.contains(key@));
    }
    list.push(String::from_str(key));
    proof {
        assert(str_views(list@) =~= views.push(key@));
    }
    true
}

/// Toggling flips the key's membership and leaves every other key's membership alone; a list
/// without repeats stays without repeats.
pub proof fn lemma_toggle_flips_membership(list: Seq<Seq<char>>, key: Seq<char>)
    requires
        list.no_duplicates(),
    ensures
        spec_toggle(list, key).1 == !list.contains(key),
        spec_toggle(list, key).0.contains(key) == spec_toggle(list, key).1,
        forall|k: Seq<char>| k != key ==> (#[trigger] spec_toggle(list, key).0.contains(k) == list.contains(k)),
        spec_toggle(list, key).0.no_duplicates(),
{
    if list.contains(key) {
        let w = choose|w: int| 0 <= w < list.len() && list[w] == key;
        assert(first_index(list, key, w));
        let i = choose|i: int| first_index(list, key, i);
        assert(first_index(list, key, i));
        let out = list.remove(i);
        assert forall|k: Seq<char>| k != key implies #[trigger] out.contains(k) == list.contains(k) by {
            if list.contains(k) {
                let m = choose|m: int| 0 <= m < list.len() && list[m] == k;
                assert(m != i);
                if m < i {
                    assert(out[m] == k);
                } else {
                    assert(out[m - 1] == k);
                }
            }
            if out.contains(k) {
                let m = choose|m: int| 0 <= m < out.len() && out[m] == k;
                if m < i {
                    assert(list[m] == k);
                } else {
                    assert(list[m + 1] == k);
                }
            }
        }
        if out.contains(key) {
            let m = choose|m: int| 0 <= m < out.len() && out[m] == key;
            if m < i {
                assert(list[m] == key);
            } else {
                assert(list[m + 1] == key);
            }
        }
        assert forall|a: int, b: int| 0 <= a < out.len() && 0 <= b < out.len() && a != b implies out[a] != out[b] by {
            let aa = if a < i { a } else { a + 1 };
            let bb = if b < i { b } else { b + 1 };
            assert(out[a] == list[aa]);
            assert(out[b] == list[bb]);
        }
    } else {
        let out = list.push(key);
        assert(out[list.len() as int] == key);
        assert forall|k: Seq<char>| k != key implies #[trigger] out.contains(k) == list.contains(k) by {
            if list.contains(k) {
                let m = choose|m: int| 0 <= m < list.len() && list[m] == k;
                assert(out[m] == k);
            }
            if out.contains(k) {
                let m = choose|m: int| 0 <= m < out.len() && out[m] == k;
                assert(list[m] == k);
            }
        }
        assert forall|a: int, b: int| 0 <= a < out.len() && 0 <= b < out.len() && a != b implies out[a] != out[b] by {
            if a < list.len() && b < list.len() {
                assert(out[a] == list[a]);
                assert(out[b] == list[b]);
            } else if a < list.len() {
                assert(out[a] == list[a]);
            } else if b < list.len() {
                assert(out[b] == list[b]);
            }
        }
    }
}

/// Toggling a key twice restores the list's members; from an absent key, the list itself.
pub proof fn lemma_toggle_twice(list: Seq<Seq<char>>, key: Seq<char>)
    requires
        list.no_duplicates(),
    ensures
        spec_toggle(spec_toggle(list, key).0, key).0.to_set() == list.to_set(),
        !list.contains(key) ==> spec_toggle(spec_toggle(list, key).0, key).0 == list,
{
    lemma_toggle_flips_membership(list, key);
    let once = spec_toggle(list, key).0;
    lemma_toggle_flips_membership(once, key);
    let twice = spec_toggle(once, key).0;
    assert(twice.to_set() =~= list.to_set()) by {
        assert forall|k: Seq<char>| #[trigger] twice.to_set().contains(k) == list.to_set().contains(k) by {
            if k != key {
                assert(spec_toggle(once, key).0.contains(k) == once.contains(k));
                assert(spec_toggle(list, key).0.contains(k) == list.contains(k));
            }
        }
    }
    if !list.contains(key) {
        assert(once == list.push(key));
        assert(once.contains(key));
        let i = choose|i: int| first_index(once, key, i);
        assert(first_index(once, key, list.len() as int));
        if i < list.len() {
            assert(once[i] == list[i]);
        } else if i > list.len() {
        }
        assert(i == list.len());
        assert(twice =~= list);
    }
}

/// The frontmost app's identity and ignore state, for the tray's "Ignore [App]" item.
#[derive(Debug)]
pub struct IgnoreStatus {
    /// Stable ignore-list key, or `None` if the app is anonymous.
    pub id: Option<String>,
    /// Display name for the "Ignore [App]" label.
    pub name: String,
    /// Whether the app is currently ignored (the menu item's checked state).
    pub ignored: bool,
}

impl IgnoreStatus {
    /// The status of the app `identity` against the ignore list `ignore_apps`.
    pub fn of(identity: &WindowIdentity, ignore_apps: &[String]) -> (r: IgnoreStatus)
        ensures
            opt_str(r.id) == identity.spec_key(),
            r.name@ == identity.spec_display_label(),
            r.ignored == identity.spec_is_ignored(str_views(ignore_apps@)),
    {
        IgnoreStatus { id: identity.key(), name: identity.display_label(), ignored: identity.is_ignored(ignore_apps) }
    }
}

/// Toggle the app `identity` in the ignore list: add it if absent, remove it if present.
/// Returns the new status. An anonymous app (no id and no name) is refused.
pub fn toggle_ignore_current_app(config: &mut Config, identity: &WindowIdentity) -> (r: Result<IgnoreStatus, BindingError>)
    ensures
        match identity.spec_key() {
            None => {
                &&& r matches Err(e) && e.code@ == "identity"@ && e.message@
                    == "the frontmost app reports no bundle id or name to ignore"@
                &&& final(config).ignore_apps@ == old(config).ignore_apps@
            },
            Some(k) => {
                let list = spec_toggle(str_views(old(config).ignore_apps@), k).0;
                &&& str_views(final(config).ignore_apps@) == list
                &&& r matches Ok(st) && opt_str(st.id) == Some(k) && st.name@ == identity.spec_display_label()
                    && st.ignored == list.contains(k)
            },
        },
        final(config).bindings == old(config).bindings,
        final(config).tunables == old(config).tunables,
        final(config).autostart == old(config).autostart,
        final(config).accessibility_prompted == old(config).accessibility_prompted,
        final(config).version == old(config).version,
{
    let key = match identity.key() {
        Some(k) => k,
        None => {
            return Err(
                BindingError::new(
                    "identity",
                    String::from_str("the frontmost app reports no bundle id or name to ignore"),
                ),
            );
        },
    };
    toggle_membership(&mut config.ignore_apps, key.as_str());
    Ok(IgnoreStatus::of(identity, config.ignore_apps.as_slice()))
}

/// The macOS Accessibility permission state for onboarding: `"trusted"` when granted;
/// otherwise `"denied"` once the system prompt has been shown (denied, or a stale grant after
/// a reinstall), else `"never_asked"`. Where there is no such permission, `trusted` is true.
pub fn get_accessibility_state(trusted: bool, config: &Config) -> (r: String)
    ensures
        r@ == (if trusted {
            "trusted"@
        } else if config.accessibility_prompted {
            "denied"@
        } else {
            "never_asked"@
        }),
{
    if trusted {
        String::from_str("trusted")
    } else if config.accessibility_prompted {
        String::from_str("denied")
    } else {
        String::from_str("never_asked")
    }
}

/// A platform-specific heads-up for the shortcuts editor.
#[derive(Debug)]
pub struct PlatformNotice {
    pub title: String,
    pub body: String,
}

/// The known Windows Ctrl+Alt shortcut conflicts and how to get around them.
pub fn windows_notices() -> (r: Vec<PlatformNotice>)
    ensures
        r@.len() == 3,
        r@[0].title@ == "Ctrl+Alt+Arrow may rotate your screen"@,
        r@[0].body@ == "On many Intel-graphics PCs, Ctrl+Alt+Arrow rotates the display and will shadow the Half shortcuts. Turn those hotkeys off in Intel Graphics Command Center (Options \u{2192} Hotkeys), or rebind the halves below."@,
        r@[1].title@ == "Ctrl+Alt can behave as AltGr"@,
        r@[1].body@ == "On non-US keyboards, Ctrl+Alt+<letter> can type a character (AltGr). If a shortcut inserts text instead of snapping, rebind it below to a combo that also uses Shift or the Windows key."@,
        r@[2].title@ == "Display shortcuts sit next to Windows snapping"@,
        r@[2].body@ == "Next / Previous Display use Ctrl+Alt+Win+\u{2190}/\u{2192}, adjacent to Windows' own Win+\u{2190}/\u{2192} snapping. They shouldn't collide, but if your setup reacts oddly, rebind them below."@,
{
    let mut out: Vec<PlatformNotice> = Vec::new();
    out.push(
        PlatformNotice {
            title: String::from_str("Ctrl+Alt+Arrow may rotate your screen"),
            body: String::from_str(
                "On many Intel-graphics PCs, Ctrl+Alt+Arrow rotates the display and will shadow the Half shortcuts. Turn those hotkeys off in Intel Graphics Command Center (Options \u{2192} Hotkeys), or rebind the halves below.",
            ),
        },
    );
    out.push(
        PlatformNotice {
            title: String::from_str("Ctrl+Alt can behave as AltGr"),
            body: String::from_str(
                "On non-US keyboards, Ctrl+Alt+<letter> can type a character (AltGr). If a shortcut inserts text instead of snapping, rebind it below to a combo that also uses Shift or the Windows key.",
            ),
        },
    );
    out.push(
        PlatformNotice {
            title: String::from_str("Display shortcuts sit next to Windows snapping"),
            body: String::from_str(
                "Next / Previous Display use Ctrl+Alt+Win+\u{2190}/\u{2192}, adjacent to Windows' own Win+\u{2190}/\u{2192} snapping. They shouldn't collide, but if your setup reacts oddly, rebind them below.",
            ),
        },
    );
    out
}

/// Every two different actions resolve to different shortcuts.
pub open spec fn shortcuts_distinct(bindings: Overrides) -> bool {
    forall|a: Action, b: Action|
        a != b && (#[trigger] effective_hotkey(bindings, a)) is Some ==> effective_hotkey(bindings, a)
            != #[trigger] effective_hotkey(bindings, b)
}

/// An override wins over the default: once `bind` is stored for `action`, the effective bind
/// of `action` is `bind`, and every other action keeps its effective bind.
pub proof fn lemma_override_wins(before: Overrides, after: Overrides, action: Action, bind: BindView)
    requires
        forall|k: Seq<char>| #[trigger] after.spec_get(k) == (if k == action.spec_id() {
            Some(bind)
        } else {
            before.spec_get(k)
        }),
    ensures
        spec_effective(after, action) == Some(bind),
        forall|o: Action| o != action ==> #[trigger] spec_effective(after, o) == spec_effective(before, o),
{
    assert(after.spec_get(action.spec_id()) == Some(bind));
    assert forall|o: Action| o != action implies #[trigger] spec_effective(after, o) == spec_effective(before, o) by {
        crate::actions::lemma_ids_distinct(o, action);
        assert(after.spec_get(o.spec_id()) == before.spec_get(o.spec_id()));
    }
}

/// Dropping an action's override returns it to its default, and every other action keeps
/// its effective bind.
pub proof fn lemma_reset_restores_default(before: Overrides, after: Overrides, action: Action)
    requires
        forall|k: Seq<char>| #[trigger] after.spec_get(k) == (if k == action.spec_id() {
            None
        } else {
            before.spec_get(k)
        }),
    ensures
        spec_effective(after, action) == spec_default_bind(action),
        forall|o: Action| o != action ==> #[trigger] spec_effective(after, o) == spec_effective(before, o),
{
    assert(after.spec_get(action.spec_id()) is None);
    assert forall|o: Action| o != action implies #[trigger] spec_effective(after, o) == spec_effective(before, o) by {
        crate::actions::lemma_ids_distinct(o, action);
        assert(after.spec_get(o.spec_id()) == before.spec_get(o.spec_id()));
    }
}

/// With no overrides, every action is at its default.
pub proof fn lemma_no_overrides_is_default(bindings: Overrides)
    requires
        forall|k: Seq<char>| #[trigger] bindings.spec_get(k) is None,
    ensures
        forall|a: Action| #[trigger] spec_effective(bindings, a) == spec_default_bind(a),
{
    assert forall|a: Action| #[trigger] spec_effective(bindings, a) == spec_default_bind(a) by {
        assert(bindings.spec_get(a.spec_id()) is None);
    }
}

/// A rebind that validation accepts (its shortcut is no other action's effective shortcut)
/// keeps every effective shortcut distinct once stored.
pub proof fn lemma_accepted_rebind_keeps_shortcuts_distinct(
    before: Overrides,
    after: Overrides,
    action: Action,
    bind: BindView,
)
    requires
        shortcuts_distinct(before),
        forall|o: Action| !conflicts_with(before, action, bind, o),
        forall|k: Seq<char>| #[trigger] after.spec_get(k) == (if k == action.spec_id() {
            Some(bind)
        } else {
            before.spec_get(k)
        }),
    ensures
        shortcuts_distinct(after),
{
    lemma_override_wins(before, after, action, bind);
    assert forall|a: Action, b: Action|
        a != b && (#[trigger] effective_hotkey(after, a)) is Some implies effective_hotkey(after, a)
            != #[trigger] effective_hotkey(after, b) by {
        if a == action {
            assert(!conflicts_with(before, action, bind, b));
            assert(effective_hotkey(after, b) == effective_hotkey(before, b));
        } else if b == action {
            assert(!conflicts_with(before, action, bind, a));
            assert(effective_hotkey(after, a) == effective_hotkey(before, a));
        } else {
            assert(effective_hotkey(after, a) == effective_hotkey(before, a));
            assert(effective_hotkey(after, b) == effective_hotkey(before, b));
        }
    }
}

/// With no overrides (a fresh configuration, or after resetting every binding), no two
/// actions make the same chord; by the registry's contract, their shortcuts then differ too.
pub proof fn lemma_factory_chords_distinct(bindings: Overrides)
    requires
        forall|k: Seq<char>| #[trigger] bindings.spec_get(k) is None,
    ensures
        chords_distinct(bindings),
{
    lemma_no_overrides_is_default(bindings);
    assert forall|a: Action, b: Action|
        a != b && (#[trigger] spec_effective(bindings, a)) is Some && (#[trigger] spec_effective(bindings, b)) is Some
            implies !same_chord(spec_effective(bindings, a)->0, spec_effective(bindings, b)->0) by {
        crate::shortcuts::lemma_default_chords_distinct(a, b);
    }
}

} // verus!
