//! Global-shortcut bindings: the default key scheme and how a bind is identified as a chord.
//!
//! [`Bind`] is a platform-neutral description of a chord — the base modifier
//! (Control+Option on macOS / Ctrl+Alt on Windows), extra modifier bits, and a key named by
//! its W3C UI Events key-code name (`"ArrowLeft"`, `"KeyU"`, …). [`default_bind`] holds the
//! default scheme.

use vstd::prelude::*;
use vstd::string::StringExecFns;
use global_hotkey::hotkey::{Code, HotKey, Modifiers};
use crate::actions::Action;
use crate::text::{debug_quote, debug_quoted};

verus! {

/// Modifier bit: Alt / Option.
pub const MOD_ALT: u32 = 0x1;
/// Modifier bit: Control.
pub const MOD_CONTROL: u32 = 0x8;
/// Modifier bit: Meta (⌘ / ⊞ Win).
pub const MOD_META: u32 = 0x40;
/// Modifier bit: Shift.
pub const MOD_SHIFT: u32 = 0x200;
/// Modifier bit: Super, the legacy name of Meta.
pub const MOD_SUPER: u32 = 0x2000;

#[verifier::external_type_specification]
#[verifier::external_body]
pub struct ExHotKey(HotKey);

/// Whether `name` is a W3C key-code name that the shortcut plugin recognizes.
pub uninterp spec fn is_key_code_name(name: Seq<char>) -> bool;

/// The plugin shortcut for modifier bits `mods` and the key named `code`, when the name is
/// recognized.
pub uninterp spec fn hotkey_named(mods: u32, code: Seq<char>) -> Option<HotKey>;

/// The name that `Code`'s `Display` writes for the key that the key-code name `name` parses
/// to: `name` itself, or the standard spelling of an alias (`"OSLeft"` is `"MetaLeft"`).
pub uninterp spec fn canonical_key_name(name: Seq<char>) -> Seq<char>;

/// The key names of the default binds.
pub open spec fn is_default_key_name(name: Seq<char>) -> bool {
    ||| name == "ArrowLeft"@
    ||| name == "ArrowRight"@
    ||| name == "ArrowUp"@
    ||| name == "ArrowDown"@
    ||| name == "KeyU"@
    ||| name == "KeyI"@
    ||| name == "KeyJ"@
    ||| name == "KeyK"@
    ||| name == "KeyD"@
    ||| name == "KeyF"@
    ||| name == "KeyG"@
    ||| name == "KeyE"@
    ||| name == "KeyT"@
    ||| name == "Enter"@
    ||| name == "Minus"@
    ||| name == "Equal"@
    ||| name == "KeyC"@
    ||| name == "Backspace"@
}

/// `Code::from_str` followed by `Code`'s `Display` (keyboard-types, re-exported by
/// global-hotkey). Claimed: the result is present exactly when the name is one of the table's
/// key-code names (the name `is_key_code_name`), and then it is the name `canonical_key_name`
/// of the argument; that standard name is itself in the table and is its own standard name
/// (the table maps every `Display` spelling back to its key); and each default key name is a
/// standard name, so it comes back unchanged.
#[verifier::external_body]
fn canonical_key_code(name: &str) -> (r: Option<String>)
    ensures
        r is Some <==> is_key_code_name(name@),
        r matches Some(c) ==> c@ == canonical_key_name(name@) && is_key_code_name(c@) && canonical_key_name(c@) == c@,
        r is None ==> !is_default_key_name(name@),
        r matches Some(c) ==> (is_default_key_name(name@) ==> c@ == name@),
{
    name.parse::<Code>().ok().map(|code| code.to_string())
}

/// `HotKey::new` (global-hotkey) on the key parsed from `code` by `Code::from_str` and the
/// modifiers `Modifiers::from_bits_retain(mods)`. Claimed: the result is the name
/// `hotkey_named` of the arguments, and it is present exactly when the name parses. `HotKey::new`
/// folds Super into Meta and keeps every other bit, and the derived equality compares the
/// modifiers, the key and an id computed from both; so the result equals another shortcut of
/// the name exactly when the folded modifier bits agree and the two key names parse to the same
/// key, that is, have the same standard name.
#[verifier::external_body]
fn hotkey_from(mods: u32, code: &str) -> (r: Option<HotKey>)
    ensures
        r == hotkey_named(mods, code@),
        r is Some <==> is_key_code_name(code@),
        r matches Some(h) ==> forall|m2: u32, c2: Seq<char>|
            #[trigger] hotkey_named(m2, c2) matches Some(h2) ==> (h == h2 <==> (folded_mods(mods) == folded_mods(m2)
                && canonical_key_name(code@) == canonical_key_name(c2))),
{
    match code.parse::<Code>() {
        Ok(key) => Some(HotKey::new(Some(Modifiers::from_bits_retain(mods)), key)),
        Err(_) => None,
    }
}

/// The mathematical content of a [`Bind`].
pub struct BindView {
    pub base_modifier: bool,
    pub extra: u32,
    pub code: Seq<char>,
}

/// A platform-neutral key binding. `base_modifier` is the app's base chord (Control+Option
/// / Ctrl+Alt); `extra` adds modifier bits (Shift and/or Super, ⌘ on macOS, ⊞ Win on
/// Windows); `code` names the key, always by the standard name of a key the plugin
/// recognizes.
#[derive(Debug, PartialEq, Eq)]
pub struct Bind {
    base_modifier: bool,
    extra: u32,
    code: String,
}

impl View for Bind {
    type V = BindView;

    closed spec fn view(&self) -> BindView {
        BindView { base_modifier: self.base_modifier, extra: self.extra, code: self.code@ }
    }
}

/// `code` is the standard name of a key the plugin recognizes.
pub open spec fn is_standard_key_name(code: Seq<char>) -> bool {
    is_key_code_name(code) && canonical_key_name(code) == code
}

/// The modifier bits of a bind's shortcut: the extra bits plus Control and Alt when the
/// base modifier is set.
pub open spec fn shortcut_mods(b: BindView) -> u32 {
    if b.base_modifier {
        b.extra | (MOD_CONTROL | MOD_ALT)
    } else {
        b.extra
    }
}

/// Modifier bits as a shortcut holds them: the legacy Super bit folded into Meta.
pub open spec fn folded_mods(mods: u32) -> u32 {
    if mods & MOD_SUPER != 0 {
        (mods & !MOD_SUPER) | MOD_META
    } else {
        mods
    }
}

/// Two binds make the same chord: the same modifiers once Super is read as Meta, and the same
/// key name.
pub open spec fn same_chord(a: BindView, b: BindView) -> bool {
    folded_mods(shortcut_mods(a)) == folded_mods(shortcut_mods(b)) && a.code == b.code
}

/// The shortcut a bind resolves to, when its key is one the plugin recognizes.
pub open spec fn bind_hotkey(b: BindView) -> Option<HotKey> {
    hotkey_named(shortcut_mods(b), b.code)
}

/// `<HotKey as PartialEq>::eq` (global-hotkey derives it over the modifiers, the key and the
/// id computed from them). Claimed: the result is whether the two shortcuts are the same value.
#[verifier::external_body]
pub(crate) fn same_hotkey(a: &HotKey, b: &HotKey) -> (r: bool)
    ensures
        r == (*a == *b),
{
    a == b
}

/// The serialized shape of a bind: `(base_modifier, shift, super, code)`.
pub open spec fn repr_of(b: BindView) -> (bool, bool, bool, Seq<char>) {
    (b.base_modifier, b.extra & MOD_SHIFT != 0, b.extra & MOD_SUPER != 0, b.code)
}

/// The bind read back from a serialized shape whose key is recognized: the flags become
/// modifier bits and the key takes its standard name.
pub open spec fn from_repr_view(base_modifier: bool, shift: bool, super_key: bool, code: Seq<char>) -> BindView {
    BindView {
        base_modifier,
        extra: (if shift { MOD_SHIFT } else { 0 }) | (if super_key { MOD_SUPER } else { 0 }),
        code: canonical_key_name(code),
    }
}

/// A bind whose key is a standard name and whose extra modifiers are only Shift and Super
/// reads back as itself after being written out.
pub proof fn lemma_repr_round_trip(b: BindView)
    requires
        canonical_key_name(b.code) == b.code,
        b.extra & !(MOD_SHIFT | MOD_SUPER) == 0,
    ensures
        from_repr_view(repr_of(b).0, repr_of(b).1, repr_of(b).2, repr_of(b).3) == b,
{
    let e = b.extra;
    assert(((if e & 0x200u32 != 0 { 0x200u32 } else { 0u32 }) | (if e & 0x2000u32 != 0 { 0x2000u32 } else { 0u32 })) == e)
        by (bit_vector)
        requires
            e & !(0x200u32 | 0x2000u32) == 0,
    ;
}

/// The symbol a hint shows for the key named `code`: arrows, ↩ for Enter, ⌫ for Backspace,
/// the letter of a letter key, `-` and `=`, and otherwise the key's name.
pub open spec fn spec_key_symbol(code: Seq<char>) -> Seq<char> {
    if code == "ArrowLeft"@ {
        "\u{2190}"@
    } else if code == "ArrowRight"@ {
        "\u{2192}"@
    } else if code == "ArrowUp"@ {
        "\u{2191}"@
    } else if code == "ArrowDown"@ {
        "\u{2193}"@
    } else if code == "Enter"@ {
        "\u{21a9}"@
    } else if code == "Backspace"@ {
        "\u{232b}"@
    } else if code.len() == 4 && code[0] == 'K' && code[1] == 'e' && code[2] == 'y' && 'A' <= code[3] <= 'Z' {
        seq![code[3]]
    } else if code == "Minus"@ {
        "-"@
    } else if code == "Equal"@ {
        "="@
    } else {
        code
    }
}

/// The compact hint for a bind, macOS style: ⌃ for Control, ⌥ for Option, ⇧ for Shift, ⌘ for
/// Command (Super or Meta), in that order, then the key's symbol.
pub open spec fn spec_hint(b: BindView) -> Seq<char> {
    (if b.base_modifier || b.extra & MOD_CONTROL != 0 { "\u{2303}"@ } else { ""@ })
        + (if b.base_modifier || b.extra & MOD_ALT != 0 { "\u{2325}"@ } else { ""@ })
        + (if b.extra & MOD_SHIFT != 0 { "\u{21e7}"@ } else { ""@ })
        + (if b.extra & (MOD_SUPER | MOD_META) != 0 { "\u{2318}"@ } else { ""@ })
        + spec_key_symbol(b.code)
}

/// The one-letter text of a capital letter.
fn letter_text(c: char) -> (r: String)
    requires
        'A' <= c <= 'Z',
    ensures
        r@ == seq![c],
{
    if c == 'A' {
        proof {
            reveal_strlit("A");
        }
        assert("A"@ =~= seq!['A']);
        String::from_str("A")
    } else if c == 'B' {
        proof {
            reveal_strlit("B");
        }
        assert("B"@ =~= seq!['B']);
        String::from_str("B")
    } else if c == 'C' {
        proof {
            reveal_strlit("C");
        }
        assert("C"@ =~= seq!['C']);
        String::from_str("C")
    } else if c == 'D' {
        proof {
            reveal_strlit("D");
        }
        assert("D"@ =~= seq!['D']);
        String::from_str("D")
    } else if c == 'E' {
        proof {
            reveal_strlit("E");
        }
        assert("E"@ =~= seq!['E']);
        String::from_str("E")
    } else if c == 'F' {
        proof {
            reveal_strlit("F");
        }
        assert("F"@ =~= seq!['F']);
        String::from_str("F")
    } else if c == 'G' {
        proof {
            reveal_strlit("G");
        }
        assert("G"@ =~= seq!['G']);
        String::from_str("G")
    } else if c == 'H' {
        proof {
            reveal_strlit("H");
        }
        assert("H"@ =~= seq!['H']);
        String::from_str("H")
    } else if c == 'I' {
        proof {
            reveal_strlit("I");
        }
        assert("I"@ =~= seq!['I']);
        String::from_str("I")
    } else if c == 'J' {
        proof {
            reveal_strlit("J");
        }
        assert("J"@ =~= seq!['J']);
        String::from_str("J")
    } else if c == 'K' {
        proof {
            reveal_strlit("K");
        }
        assert("K"@ =~= seq!['K']);
        String::from_str("K")
    } else if c == 'L' {
        proof {
            reveal_strlit("L");
        }
        assert("L"@ =~= seq!['L']);
        String::from_str("L")
    } else if c == 'M' {
        proof {
            reveal_strlit("M");
        }
        assert("M"@ =~= seq!['M']);
        String::from_str("M")
    } else if c == 'N' {
        proof {
            reveal_strlit("N");
        }
        assert("N"@ =~= seq!['N']);
        String::from_str("N")
    } else if c == 'O' {
        proof {
            reveal_strlit("O");
        }
        assert("O"@ =~= seq!['O']);
        String::from_str("O")
    } else if c == 'P' {
        proof {
            reveal_strlit("P");
        }
        assert("P"@ =~= seq!['P']);
        String::from_str("P")
    } else if c == 'Q' {
        proof {
            reveal_strlit("Q");
        }
        assert("Q"@ =~= seq!['Q']);
        String::from_str("Q")
    } else if c == 'R' {
        proof {
            reveal_strlit("R");
        }
        assert("R"@ =~= seq!['R']);
        String::from_str("R")
    } else if c == 'S' {
        proof {
            reveal_strlit("S");
        }
        assert("S"@ =~= seq!['S']);
        String::from_str("S")
    } else if c == 'T' {
        proof {
            reveal_strlit("T");
        }
        assert("T"@ =~= seq!['T']);
        String::from_str("T")
    } else if c == 'U' {
        proof {
            reveal_strlit("U");
        }
        assert("U"@ =~= seq!['U']);
        String::from_str("U")
    } else if c == 'V' {
        proof {
            reveal_strlit("V");
        }
        assert("V"@ =~= seq!['V']);
        String::from_str("V")
    } else if c == 'W' {
        proof {
            reveal_strlit("W");
        }
        assert("W"@ =~= seq!['W']);
        String::from_str("W")
    } else if c == 'X' {
        proof {
            reveal_strlit("X");
        }
        assert("X"@ =~= seq!['X']);
        String::from_str("X")
    } else if c == 'Y' {
        proof {
            reveal_strlit("Y");
        }
        assert("Y"@ =~= seq!['Y']);
        String::from_str("Y")
    } else if c == 'Z' {
        proof {
            reveal_strlit("Z");
        }
        assert("Z"@ =~= seq!['Z']);
        String::from_str("Z")
    } else {
        proof {
            reveal_strlit("Z");
        }
        assert("Z"@ =~= seq!['Z']);
        String::from_str("Z")
    }
}

/// The symbol a hint shows for the key named `code`.
fn key_symbol(code: &str) -> (r: String)
    ensures
        r@ == spec_key_symbol(code@),
{
    if crate::text::str_equal(code, "ArrowLeft") {
        return String::from_str("\u{2190}");
    }
    if crate::text::str_equal(code, "ArrowRight") {
        return String::from_str("\u{2192}");
    }
    if crate::text::str_equal(code, "ArrowUp") {
        return String::from_str("\u{2191}");
    }
    if crate::text::str_equal(code, "ArrowDown") {
        return String::from_str("\u{2193}");
    }
    if crate::text::str_equal(code, "Enter") {
        return String::from_str("\u{21a9}");
    }
    if crate::text::str_equal(code, "Backspace") {
        return String::from_str("\u{232b}");
    }
    if code.unicode_len() == 4 && code.get_char(0) == 'K' && code.get_char(1) == 'e' && code.get_char(2) == 'y' {
        let c = code.get_char(3);
        if 'A' <= c && c <= 'Z' {
            return letter_text(c);
        }
    }
    if crate::text::str_equal(code, "Minus") {
        return String::from_str("-");
    }
    if crate::text::str_equal(code, "Equal") {
        return String::from_str("=");
    }
    String::from_str(code)
}

impl Bind {
    /// Every bind names its key by a recognized standard name.
    #[verifier::type_invariant]
    pub open spec fn well_formed(self) -> bool {
        is_standard_key_name(self@.code)
    }

    /// A bind with the base modifier flag, the extra modifier bits and the key named `code`,
    /// rejecting a key-code name the plugin does not recognize. The key is stored under its
    /// standard name, so an alias reads back as the name the key is written with.
    pub fn new(base_modifier: bool, extra: u32, code: &str) -> (r: Result<Bind, String>)
        ensures
            is_key_code_name(code@) <==> r is Ok,
            r matches Ok(b) ==> b@ == (BindView { base_modifier, extra, code: canonical_key_name(code@) }),
            r matches Err(e) ==> e@ == "unrecognized key code "@ + debug_quoted(code@),
    {
        match canonical_key_code(code) {
            Some(name) => Ok(Bind { base_modifier, extra, code: name }),
            None => {
                let msg = String::from_str("unrecognized key code ").concat(debug_quote(code).as_str());
                Err(msg)
            },
        }
    }

    /// Whether the base modifier (Control+Option / Ctrl+Alt) is part of the chord.
    pub fn base_modifier(&self) -> (r: bool)
        ensures
            r == self@.base_modifier,
    {
        self.base_modifier
    }

    /// The extra modifier bits.
    pub fn extra(&self) -> (r: u32)
        ensures
            r == self@.extra,
    {
        self.extra
    }

    /// The standard name of the key.
    pub fn code(&self) -> (r: &str)
        ensures
            r@ == self@.code,
            is_standard_key_name(r@),
    {
        proof {
            use_type_invariant(self);
        }
        self.code.as_str()
    }

    /// An identical copy.
    pub fn duplicate(&self) -> (r: Bind)
        ensures
            r@ == self@,
    {
        proof {
            use_type_invariant(self);
        }
        Bind { base_modifier: self.base_modifier, extra: self.extra, code: self.code.clone() }
    }

    /// Whether this bind and `other` are identical.
    pub fn same_as(&self, other: &Bind) -> (r: bool)
        ensures
            r == (self@ == other@),
    {
        let r = self.base_modifier == other.base_modifier && self.extra == other.extra && self.code == other.code;
        proof {
            if self.base_modifier == other.base_modifier && self.extra == other.extra && self.code@ == other.code@ {
                assert(self@ == other@);
            }
        }
        r
    }

    /// The base modifier + the key named `code`.
    fn base(code: &str) -> (r: Bind)
        requires
            is_default_key_name(code@),
        ensures
            r@ == (BindView { base_modifier: true, extra: 0, code: code@ }),
    {
        Bind::base_with(0, code)
    }

    /// The base modifier + `extra` modifier bits + the key named `code`.
    fn base_with(extra: u32, code: &str) -> (r: Bind)
        requires
            is_default_key_name(code@),
        ensures
            r@ == (BindView { base_modifier: true, extra, code: code@ }),
    {
        let name = canonical_key_code(code).unwrap();
        Bind { base_modifier: true, extra, code: name }
    }

    /// The modifier bits of this bind's shortcut.
    pub fn shortcut_modifiers(&self) -> (r: u32)
        ensures
            r == shortcut_mods(self@),
    {
        if self.base_modifier {
            self.extra | (MOD_CONTROL | MOD_ALT)
        } else {
            self.extra
        }
    }

    /// Whether this bind and `other` resolve to the same shortcut.
    pub fn same_shortcut(&self, other: &Bind) -> (r: bool)
        ensures
            r == (bind_hotkey(self@) == bind_hotkey(other@)),
    {
        match (self.to_shortcut(), other.to_shortcut()) {
            (Some(a), Some(b)) => same_hotkey(&a, &b),
            (None, None) => true,
            _ => false,
        }
    }

    /// Resolve to a concrete plugin shortcut. The base modifier is Control+Alt on every
    /// platform (Option ≡ Alt); ⌘/Win is Super. Every bind's key is recognized, so there is
    /// always a shortcut.
    pub fn to_shortcut(&self) -> (r: Option<HotKey>)
        ensures
            r == hotkey_named(shortcut_mods(self@), self@.code),
            r is Some,
            r matches Some(h) ==> forall|m2: u32, c2: Seq<char>|
                #[trigger] hotkey_named(m2, c2) matches Some(h2) ==> (h == h2 <==> (folded_mods(
                    shortcut_mods(self@),
                ) == folded_mods(m2) && self@.code == canonical_key_name(c2))),
    {
        proof {
            use_type_invariant(self);
        }
        let mods = self.shortcut_modifiers();
        hotkey_from(mods, self.code.as_str())
    }

    /// The compact hint shown after a menu label, e.g. `⌃⌥←`.
    pub fn hint(&self) -> (r: String)
        ensures
            r@ == spec_hint(self@),
    {
        let control = if self.base_modifier || self.extra & MOD_CONTROL != 0 { "\u{2303}" } else { "" };
        let option = if self.base_modifier || self.extra & MOD_ALT != 0 { "\u{2325}" } else { "" };
        let shift = if self.extra & MOD_SHIFT != 0 { "\u{21e7}" } else { "" };
        let command = if self.extra & (MOD_SUPER | MOD_META) != 0 { "\u{2318}" } else { "" };
        let key = key_symbol(self.code.as_str());
        let r = String::from_str(control).concat(option).concat(shift).concat(command).concat(key.as_str());
        proof {
            assert(r@ =~= spec_hint(self@));
        }
        r
    }

    /// The serialized shape: `(base_modifier, shift, super, code)`.
    pub fn to_repr(&self) -> (r: (bool, bool, bool, String))
        ensures
            (r.0, r.1, r.2, r.3@) == repr_of(self@),
    {
        (self.base_modifier, self.extra & MOD_SHIFT != 0, self.extra & MOD_SUPER != 0, self.code.clone())
    }

    /// Build a bind from its serialized shape, rejecting a key-code name the plugin does not
    /// recognize. The key is stored under its standard name, so an alias reads back as the
    /// name the key is written with.
    pub fn from_repr(base_modifier: bool, shift: bool, super_key: bool, code: &str) -> (r: Result<Bind, String>)
        ensures
            is_key_code_name(code@) <==> r is Ok,
            r matches Ok(b) ==> b@ == from_repr_view(base_modifier, shift, super_key, code@),
            r matches Err(e) ==> e@ == "unrecognized key code "@ + debug_quoted(code@),
    {
        let extra = (if shift { MOD_SHIFT } else { 0 }) | (if super_key { MOD_SUPER } else { 0 });
        Bind::new(base_modifier, extra, code)
    }
}

/// The default binding of `action`: `(extra modifier bits, key-code name)` under the base
/// modifier, or `None` for menu-only actions.
pub open spec fn spec_default_key(action: Action) -> Option<(u32, Seq<char>)> {
    match action {
        Action::LeftHalf => Some((0u32, "ArrowLeft"@)),
        Action::RightHalf => Some((0u32, "ArrowRight"@)),
        Action::TopHalf => Some((0u32, "ArrowUp"@)),
        Action::BottomHalf => Some((0u32, "ArrowDown"@)),
        Action::TopLeft => Some((0u32, "KeyU"@)),
        Action::TopRight => Some((0u32, "KeyI"@)),
        Action::BottomLeft => Some((0u32, "KeyJ"@)),
        Action::BottomRight => Some((0u32, "KeyK"@)),
        Action::FirstThird => Some((0u32, "KeyD"@)),
        Action::CenterThird => Some((0u32, "KeyF"@)),
        Action::LastThird => Some((0u32, "KeyG"@)),
        Action::FirstTwoThirds => Some((0u32, "KeyE"@)),
        Action::LastTwoThirds => Some((0u32, "KeyT"@)),
        Action::Maximize => Some((0u32, "Enter"@)),
        Action::MaximizeHeight => Some((MOD_SHIFT, "ArrowUp"@)),
        Action::Smaller => Some((0u32, "Minus"@)),
        Action::Larger => Some((0u32, "Equal"@)),
        Action::Center => Some((0u32, "KeyC"@)),
        Action::Restore => Some((0u32, "Backspace"@)),
        Action::NextDisplay => Some((MOD_SUPER, "ArrowRight"@)),
        Action::PreviousDisplay => Some((MOD_SUPER, "ArrowLeft"@)),
        _ => None,
    }
}

/// The default bind of `action` as a view, or `None` for menu-only actions.
pub open spec fn spec_default_bind(action: Action) -> Option<BindView> {
    match spec_default_key(action) {
        Some((extra, code)) => Some(BindView { base_modifier: true, extra, code }),
        None => None,
    }
}

/// The default binding for `action`, or `None` for menu-only actions.
pub fn default_bind(action: Action) -> (r: Option<Bind>)
    ensures
        match r {
            Some(b) => spec_default_bind(action) == Some(b@),
            None => spec_default_bind(action) is None,
        },
{
    match action {
        Action::LeftHalf => Some(Bind::base("ArrowLeft")),
        Action::RightHalf => Some(Bind::base("ArrowRight")),
        Action::TopHalf => Some(Bind::base("ArrowUp")),
        Action::BottomHalf => Some(Bind::base("ArrowDown")),
        Action::TopLeft => Some(Bind::base("KeyU")),
        Action::TopRight => Some(Bind::base("KeyI")),
        Action::BottomLeft => Some(Bind::base("KeyJ")),
        Action::BottomRight => Some(Bind::base("KeyK")),
        Action::FirstThird => Some(Bind::base("KeyD")),
        Action::CenterThird => Some(Bind::base("KeyF")),
        Action::LastThird => Some(Bind::base("KeyG")),
        Action::FirstTwoThirds => Some(Bind::base("KeyE")),
        Action::LastTwoThirds => Some(Bind::base("KeyT")),
        Action::Maximize => Some(Bind::base("Enter")),
        Action::MaximizeHeight => Some(Bind::base_with(MOD_SHIFT, "ArrowUp")),
        Action::Smaller => Some(Bind::base("Minus")),
        Action::Larger => Some(Bind::base("Equal")),
        Action::Center => Some(Bind::base("KeyC")),
        Action::Restore => Some(Bind::base("Backspace")),
        Action::NextDisplay => Some(Bind::base_with(MOD_SUPER, "ArrowRight")),
        Action::PreviousDisplay => Some(Bind::base_with(MOD_SUPER, "ArrowLeft")),
        _ => None,
    }
}

/// The default key names are pairwise different.
proof fn lemma_default_key_names()
    ensures
        "ArrowLeft"@ != "ArrowRight"@,
        "ArrowLeft"@ != "ArrowUp"@,
        "ArrowLeft"@ != "ArrowDown"@,
        "ArrowLeft"@ != "KeyU"@,
        "ArrowLeft"@ != "KeyI"@,
        "ArrowLeft"@ != "KeyJ"@,
        "ArrowLeft"@ != "KeyK"@,
        "ArrowLeft"@ != "KeyD"@,
        "ArrowLeft"@ != "KeyF"@,
        "ArrowLeft"@ != "KeyG"@,
        "ArrowLeft"@ != "KeyE"@,
        "ArrowLeft"@ != "KeyT"@,
        "ArrowLeft"@ != "Enter"@,
        "ArrowLeft"@ != "Minus"@,
        "ArrowLeft"@ != "Equal"@,
        "ArrowLeft"@ != "KeyC"@,
        "ArrowLeft"@ != "Backspace"@,
        "ArrowRight"@ != "ArrowUp"@,
        "ArrowRight"@ != "ArrowDown"@,
        "ArrowRight"@ != "KeyU"@,
        "ArrowRight"@ != "KeyI"@,
        "ArrowRight"@ != "KeyJ"@,
        "ArrowRight"@ != "KeyK"@,
        "ArrowRight"@ != "KeyD"@,
        "ArrowRight"@ != "KeyF"@,
        "ArrowRight"@ != "KeyG"@,
        "ArrowRight"@ != "KeyE"@,
        "ArrowRight"@ != "KeyT"@,
        "ArrowRight"@ != "Enter"@,
        "ArrowRight"@ != "Minus"@,
        "ArrowRight"@ != "Equal"@,
        "ArrowRight"@ != "KeyC"@,
        "ArrowRight"@ != "Backspace"@,
        "ArrowUp"@ != "ArrowDown"@,
        "ArrowUp"@ != "KeyU"@,
        "ArrowUp"@ != "KeyI"@,
        "ArrowUp"@ != "KeyJ"@,
        "ArrowUp"@ != "KeyK"@,
        "ArrowUp"@ != "KeyD"@,
        "ArrowUp"@ != "KeyF"@,
        "ArrowUp"@ != "KeyG"@,
        "ArrowUp"@ != "KeyE"@,
        "ArrowUp"@ != "KeyT"@,
        "ArrowUp"@ != "Enter"@,
        "ArrowUp"@ != "Minus"@,
        "ArrowUp"@ != "Equal"@,
        "ArrowUp"@ != "KeyC"@,
        "ArrowUp"@ != "Backspace"@,
        "ArrowDown"@ != "KeyU"@,
        "ArrowDown"@ != "KeyI"@,
        "ArrowDown"@ != "KeyJ"@,
        "ArrowDown"@ != "KeyK"@,
        "ArrowDown"@ != "KeyD"@,
        "ArrowDown"@ != "KeyF"@,
        "ArrowDown"@ != "KeyG"@,
        "ArrowDown"@ != "KeyE"@,
        "ArrowDown"@ != "KeyT"@,
        "ArrowDown"@ != "Enter"@,
        "ArrowDown"@ != "Minus"@,
        "ArrowDown"@ != "Equal"@,
        "ArrowDown"@ != "KeyC"@,
        "ArrowDown"@ != "Backspace"@,
        "KeyU"@ != "KeyI"@,
        "KeyU"@ != "KeyJ"@,
        "KeyU"@ != "KeyK"@,
        "KeyU"@ != "KeyD"@,
        "KeyU"@ != "KeyF"@,
        "KeyU"@ != "KeyG"@,
        "KeyU"@ != "KeyE"@,
        "KeyU"@ != "KeyT"@,
        "KeyU"@ != "Enter"@,
        "KeyU"@ != "Minus"@,
        "KeyU"@ != "Equal"@,
        "KeyU"@ != "KeyC"@,
        "KeyU"@ != "Backspace"@,
        "KeyI"@ != "KeyJ"@,
        "KeyI"@ != "KeyK"@,
        "KeyI"@ != "KeyD"@,
        "KeyI"@ != "KeyF"@,
        "KeyI"@ != "KeyG"@,
        "KeyI"@ != "KeyE"@,
        "KeyI"@ != "KeyT"@,
        "KeyI"@ != "Enter"@,
        "KeyI"@ != "Minus"@,
        "KeyI"@ != "Equal"@,
        "KeyI"@ != "KeyC"@,
        "KeyI"@ != "Backspace"@,
        "KeyJ"@ != "KeyK"@,
        "KeyJ"@ != "KeyD"@,
        "KeyJ"@ != "KeyF"@,
        "KeyJ"@ != "KeyG"@,
        "KeyJ"@ != "KeyE"@,
        "KeyJ"@ != "KeyT"@,
        "KeyJ"@ != "Enter"@,
        "KeyJ"@ != "Minus"@,
        "KeyJ"@ != "Equal"@,
        "KeyJ"@ != "KeyC"@,
        "KeyJ"@ != "Backspace"@,
        "KeyK"@ != "KeyD"@,
        "KeyK"@ != "KeyF"@,
        "KeyK"@ != "KeyG"@,
        "KeyK"@ != "KeyE"@,
        "KeyK"@ != "KeyT"@,
        "KeyK"@ != "Enter"@,
        "KeyK"@ != "Minus"@,
        "KeyK"@ != "Equal"@,
        "KeyK"@ != "KeyC"@,
        "KeyK"@ != "Backspace"@,
        "KeyD"@ != "KeyF"@,
        "KeyD"@ != "KeyG"@,
        "KeyD"@ != "KeyE"@,
        "KeyD"@ != "KeyT"@,
        "KeyD"@ != "Enter"@,
        "KeyD"@ != "Minus"@,
        "KeyD"@ != "Equal"@,
        "KeyD"@ != "KeyC"@,
        "KeyD"@ != "Backspace"@,
        "KeyF"@ != "KeyG"@,
        "KeyF"@ != "KeyE"@,
        "KeyF"@ != "KeyT"@,
        "KeyF"@ != "Enter"@,
        "KeyF"@ != "Minus"@,
        "KeyF"@ != "Equal"@,
        "KeyF"@ != "KeyC"@,
        "KeyF"@ != "Backspace"@,
        "KeyG"@ != "KeyE"@,
        "KeyG"@ != "KeyT"@,
        "KeyG"@ != "Enter"@,
        "KeyG"@ != "Minus"@,
        "KeyG"@ != "Equal"@,
        "KeyG"@ != "KeyC"@,
        "KeyG"@ != "Backspace"@,
        "KeyE"@ != "KeyT"@,
        "KeyE"@ != "Enter"@,
        "KeyE"@ != "Minus"@,
        "KeyE"@ != "Equal"@,
        "KeyE"@ != "KeyC"@,
        "KeyE"@ != "Backspace"@,
        "KeyT"@ != "Enter"@,
        "KeyT"@ != "Minus"@,
        "KeyT"@ != "Equal"@,
        "KeyT"@ != "KeyC"@,
        "KeyT"@ != "Backspace"@,
        "Enter"@ != "Minus"@,
        "Enter"@ != "Equal"@,
        "Enter"@ != "KeyC"@,
        "Enter"@ != "Backspace"@,
        "Minus"@ != "Equal"@,
        "Minus"@ != "KeyC"@,
        "Minus"@ != "Backspace"@,
        "Equal"@ != "KeyC"@,
        "Equal"@ != "Backspace"@,
        "KeyC"@ != "Backspace"@,
{
    reveal_strlit("ArrowLeft");
    reveal_strlit("ArrowRight");
    reveal_strlit("ArrowUp");
    reveal_strlit("ArrowDown");
    reveal_strlit("KeyU");
    reveal_strlit("KeyI");
    reveal_strlit("KeyJ");
    reveal_strlit("KeyK");
    reveal_strlit("KeyD");
    reveal_strlit("KeyF");
    reveal_strlit("KeyG");
    reveal_strlit("KeyE");
    reveal_strlit("KeyT");
    reveal_strlit("Enter");
    reveal_strlit("Minus");
    reveal_strlit("Equal");
    reveal_strlit("KeyC");
    reveal_strlit("Backspace");
    assert("ArrowLeft"@.len() == 9 && "ArrowLeft"@[0] == 'A' && "ArrowLeft"@[3] == 'o' && "ArrowLeft"@[5] == 'L');
    assert("ArrowRight"@.len() == 10 && "ArrowRight"@[0] == 'A' && "ArrowRight"@[3] == 'o' && "ArrowRight"@[5] == 'R');
    assert("ArrowUp"@.len() == 7 && "ArrowUp"@[0] == 'A' && "ArrowUp"@[3] == 'o' && "ArrowUp"@[5] == 'U');
    assert("ArrowDown"@.len() == 9 && "ArrowDown"@[0] == 'A' && "ArrowDown"@[3] == 'o' && "ArrowDown"@[5] == 'D');
    assert("KeyU"@.len() == 4 && "KeyU"@[0] == 'K' && "KeyU"@[3] == 'U');
    assert("KeyI"@.len() == 4 && "KeyI"@[0] == 'K' && "KeyI"@[3] == 'I');
    assert("KeyJ"@.len() == 4 && "KeyJ"@[0] == 'K' && "KeyJ"@[3] == 'J');
    assert("KeyK"@.len() == 4 && "KeyK"@[0] == 'K' && "KeyK"@[3] == 'K');
    assert("KeyD"@.len() == 4 && "KeyD"@[0] == 'K' && "KeyD"@[3] == 'D');
    assert("KeyF"@.len() == 4 && "KeyF"@[0] == 'K' && "KeyF"@[3] == 'F');
    assert("KeyG"@.len() == 4 && "KeyG"@[0] == 'K' && "KeyG"@[3] == 'G');
    assert("KeyE"@.len() == 4 && "KeyE"@[0] == 'K' && "KeyE"@[3] == 'E');
    assert("KeyT"@.len() == 4 && "KeyT"@[0] == 'K' && "KeyT"@[3] == 'T');
    assert("Enter"@.len() == 5 && "Enter"@[0] == 'E' && "Enter"@[3] == 'e');
    assert("Minus"@.len() == 5 && "Minus"@[0] == 'M' && "Minus"@[3] == 'u');
    assert("Equal"@.len() == 5 && "Equal"@[0] == 'E' && "Equal"@[3] == 'a');
    assert("KeyC"@.len() == 4 && "KeyC"@[0] == 'K' && "KeyC"@[3] == 'C');
    assert("Backspace"@.len() == 9 && "Backspace"@[0] == 'B' && "Backspace"@[3] == 'k' && "Backspace"@[5] == 'p');
}

/// The factory binds make pairwise different chords: two different actions with a default
/// bind differ in their folded modifiers or their key.
pub proof fn lemma_default_chords_distinct(a: Action, b: Action)
    requires
        a != b,
        spec_default_bind(a) is Some,
        spec_default_bind(b) is Some,
    ensures
        !same_chord(spec_default_bind(a)->0, spec_default_bind(b)->0),
{
    lemma_default_key_names();
    assert(0u32 | (MOD_CONTROL | MOD_ALT) == 9u32) by (bit_vector);
    assert(MOD_SHIFT | (MOD_CONTROL | MOD_ALT) == 0x209u32) by (bit_vector);
    assert(MOD_SUPER | (MOD_CONTROL | MOD_ALT) == 0x2009u32) by (bit_vector);
    assert(9u32 & MOD_SUPER == 0u32) by (bit_vector);
    assert(0x209u32 & MOD_SUPER == 0u32) by (bit_vector);
    assert(0x2009u32 & MOD_SUPER != 0u32) by (bit_vector);
    assert((0x2009u32 & !MOD_SUPER) | MOD_META == 0x49u32) by (bit_vector);
}

} // verus!
