//! Actions — the named window commands, with their stable ids, menu labels, and the
//! mapping of the four directional halves to a [`Half`].

use vstd::prelude::*;
use crate::text::str_equal;
use crate::geometry::Fraction;

verus! {

/// Which half of the work area to snap the focused window to.
#[derive(Debug, Clone, Copy, PartialEq, Eq, Structural)]
pub enum Half {
    Left,
    Right,
    Top,
    Bottom,
}

/// Every window command. Cycling sizes are a state-machine concern, not separate actions.
#[derive(Debug, Clone, Copy, PartialEq, Eq, Hash, Structural)]
pub enum Action {
    LeftHalf,
    RightHalf,
    TopHalf,
    BottomHalf,
    CenterHalf,
    TopLeft,
    TopRight,
    BottomLeft,
    BottomRight,
    FirstThird,
    CenterThird,
    LastThird,
    FirstTwoThirds,
    LastTwoThirds,
    Maximize,
    AlmostMaximize,
    MaximizeHeight,
    Smaller,
    Larger,
    Center,
    Restore,
    NextDisplay,
    PreviousDisplay,
    MoveLeft,
    MoveRight,
    MoveUp,
    MoveDown,
    FirstFourth,
    SecondFourth,
    ThirdFourth,
    LastFourth,
    SixthTopLeft,
    SixthTopCenter,
    SixthTopRight,
    SixthBottomLeft,
    SixthBottomCenter,
    SixthBottomRight,
}


impl Half {
    /// The size cycle for repeating this directional half: ½ → ⅔ → ⅓ — widths for
    /// Left/Right, heights for Top/Bottom. Step 0 (½) is the first press.
    pub open spec fn spec_cycle(self) -> Seq<Fraction> {
        match self {
            Half::Left => seq![
                Fraction { x: 0, y: 0, w: 3, h: 6, den: 6 },
                Fraction { x: 0, y: 0, w: 4, h: 6, den: 6 },
                Fraction { x: 0, y: 0, w: 2, h: 6, den: 6 },
            ],
            Half::Right => seq![
                Fraction { x: 3, y: 0, w: 3, h: 6, den: 6 },
                Fraction { x: 2, y: 0, w: 4, h: 6, den: 6 },
                Fraction { x: 4, y: 0, w: 2, h: 6, den: 6 },
            ],
            Half::Top => seq![
                Fraction { x: 0, y: 0, w: 6, h: 3, den: 6 },
                Fraction { x: 0, y: 0, w: 6, h: 4, den: 6 },
                Fraction { x: 0, y: 0, w: 6, h: 2, den: 6 },
            ],
            Half::Bottom => seq![
                Fraction { x: 0, y: 3, w: 6, h: 3, den: 6 },
                Fraction { x: 0, y: 2, w: 6, h: 4, den: 6 },
                Fraction { x: 0, y: 4, w: 6, h: 2, den: 6 },
            ],
        }
    }

    /// Each step of a half's cycle is anchored at its own edge of the work area and spans
    /// the other axis fully, and the steps are ½, ⅔, ⅓ of the work area in that order: Left
    /// keeps `x = 0`, Right keeps its right edge at the far side, Top keeps `y = 0`, Bottom keeps
    /// its bottom edge at the far side.
    pub proof fn lemma_cycle_anchored(self, i: int)
        requires
            0 <= i < 3,
        ensures
            self.spec_cycle().len() == 3,
            ({
                let f = self.spec_cycle()[i];
                let size = match self {
                    Half::Left | Half::Right => f.w,
                    Half::Top | Half::Bottom => f.h,
                };
                &&& f.den > 0
                &&& (i == 0 ==> 2 * size == f.den)
                &&& (i == 1 ==> 3 * size == 2 * f.den)
                &&& (i == 2 ==> 3 * size == f.den)
                &&& match self {
                    Half::Left => f.x == 0 && f.y == 0 && f.h == f.den,
                    Half::Right => f.x + f.w == f.den && f.y == 0 && f.h == f.den,
                    Half::Top => f.y == 0 && f.x == 0 && f.w == f.den,
                    Half::Bottom => f.y + f.h == f.den && f.x == 0 && f.w == f.den,
                }
            }),
    {
    }

    /// The size cycle for repeating this directional half (see [`Half::spec_cycle`]).
    pub fn cycle(self) -> (r: [Fraction; 3])
        ensures
            r@ == self.spec_cycle(),
    {
        let r = match self {
            Half::Left => [
                Fraction { x: 0, y: 0, w: 3, h: 6, den: 6 },
                Fraction { x: 0, y: 0, w: 4, h: 6, den: 6 },
                Fraction { x: 0, y: 0, w: 2, h: 6, den: 6 },
            ],
            Half::Right => [
                Fraction { x: 3, y: 0, w: 3, h: 6, den: 6 },
                Fraction { x: 2, y: 0, w: 4, h: 6, den: 6 },
                Fraction { x: 4, y: 0, w: 2, h: 6, den: 6 },
            ],
            Half::Top => [
                Fraction { x: 0, y: 0, w: 6, h: 3, den: 6 },
                Fraction { x: 0, y: 0, w: 6, h: 4, den: 6 },
                Fraction { x: 0, y: 0, w: 6, h: 2, den: 6 },
            ],
            Half::Bottom => [
                Fraction { x: 0, y: 3, w: 6, h: 3, den: 6 },
                Fraction { x: 0, y: 2, w: 6, h: 4, den: 6 },
                Fraction { x: 0, y: 4, w: 6, h: 2, den: 6 },
            ],
        };
        assert(r@ =~= self.spec_cycle());
        r
    }

    /// Every step of the cycle is a valid fraction.
    pub proof fn lemma_cycle_valid(self)
        ensures
            self.spec_cycle().len() == 3,
            forall|i: int| 0 <= i < 3 ==> (#[trigger] self.spec_cycle()[i]).valid(),
    {
    }
}

/// Number of actions.
pub const ACTION_COUNT: usize = 37;

impl Action {
    /// Every action, in menu order.
    pub const ALL: [Action; 37] = [
        Action::LeftHalf,
        Action::RightHalf,
        Action::TopHalf,
        Action::BottomHalf,
        Action::CenterHalf,
        Action::TopLeft,
        Action::TopRight,
        Action::BottomLeft,
        Action::BottomRight,
        Action::FirstThird,
        Action::CenterThird,
        Action::LastThird,
        Action::FirstTwoThirds,
        Action::LastTwoThirds,
        Action::Maximize,
        Action::AlmostMaximize,
        Action::MaximizeHeight,
        Action::Smaller,
        Action::Larger,
        Action::Center,
        Action::Restore,
        Action::NextDisplay,
        Action::PreviousDisplay,
        Action::MoveLeft,
        Action::MoveRight,
        Action::MoveUp,
        Action::MoveDown,
        Action::FirstFourth,
        Action::SecondFourth,
        Action::ThirdFourth,
        Action::LastFourth,
        Action::SixthTopLeft,
        Action::SixthTopCenter,
        Action::SixthTopRight,
        Action::SixthBottomLeft,
        Action::SixthBottomCenter,
        Action::SixthBottomRight,
    ];

    /// Position of this action in menu order (its index in [`Action::ALL`]).
    pub open spec fn index(self) -> int {
        match self {
            Action::LeftHalf => 0,
            Action::RightHalf => 1,
            Action::TopHalf => 2,
            Action::BottomHalf => 3,
            Action::CenterHalf => 4,
            Action::TopLeft => 5,
            Action::TopRight => 6,
            Action::BottomLeft => 7,
            Action::BottomRight => 8,
            Action::FirstThird => 9,
            Action::CenterThird => 10,
            Action::LastThird => 11,
            Action::FirstTwoThirds => 12,
            Action::LastTwoThirds => 13,
            Action::Maximize => 14,
            Action::AlmostMaximize => 15,
            Action::MaximizeHeight => 16,
            Action::Smaller => 17,
            Action::Larger => 18,
            Action::Center => 19,
            Action::Restore => 20,
            Action::NextDisplay => 21,
            Action::PreviousDisplay => 22,
            Action::MoveLeft => 23,
            Action::MoveRight => 24,
            Action::MoveUp => 25,
            Action::MoveDown => 26,
            Action::FirstFourth => 27,
            Action::SecondFourth => 28,
            Action::ThirdFourth => 29,
            Action::LastFourth => 30,
            Action::SixthTopLeft => 31,
            Action::SixthTopCenter => 32,
            Action::SixthTopRight => 33,
            Action::SixthBottomLeft => 34,
            Action::SixthBottomCenter => 35,
            Action::SixthBottomRight => 36,
        }
    }

    /// The action at position `i` of menu order.
    pub open spec fn at(i: int) -> Action {
        if i <= 0 { Action::LeftHalf }
        else if i == 1 { Action::RightHalf }
        else if i == 2 { Action::TopHalf }
        else if i == 3 { Action::BottomHalf }
        else if i == 4 { Action::CenterHalf }
        else if i == 5 { Action::TopLeft }
        else if i == 6 { Action::TopRight }
        else if i == 7 { Action::BottomLeft }
        else if i == 8 { Action::BottomRight }
        else if i == 9 { Action::FirstThird }
        else if i == 10 { Action::CenterThird }
        else if i == 11 { Action::LastThird }
        else if i == 12 { Action::FirstTwoThirds }
        else if i == 13 { Action::LastTwoThirds }
        else if i == 14 { Action::Maximize }
        else if i == 15 { Action::AlmostMaximize }
        else if i == 16 { Action::MaximizeHeight }
        else if i == 17 { Action::Smaller }
        else if i == 18 { Action::Larger }
        else if i == 19 { Action::Center }
        else if i == 20 { Action::Restore }
        else if i == 21 { Action::NextDisplay }
        else if i == 22 { Action::PreviousDisplay }
        else if i == 23 { Action::MoveLeft }
        else if i == 24 { Action::MoveRight }
        else if i == 25 { Action::MoveUp }
        else if i == 26 { Action::MoveDown }
        else if i == 27 { Action::FirstFourth }
        else if i == 28 { Action::SecondFourth }
        else if i == 29 { Action::ThirdFourth }
        else if i == 30 { Action::LastFourth }
        else if i == 31 { Action::SixthTopLeft }
        else if i == 32 { Action::SixthTopCenter }
        else if i == 33 { Action::SixthTopRight }
        else if i == 34 { Action::SixthBottomLeft }
        else if i == 35 { Action::SixthBottomCenter }
        else { Action::SixthBottomRight }
    }

    /// The stable id of this action, as a character sequence.
    pub open spec fn spec_id(self) -> Seq<char> {
        match self {
            Action::LeftHalf => "left-half"@,
            Action::RightHalf => "right-half"@,
            Action::TopHalf => "top-half"@,
            Action::BottomHalf => "bottom-half"@,
            Action::CenterHalf => "center-half"@,
            Action::TopLeft => "top-left"@,
            Action::TopRight => "top-right"@,
            Action::BottomLeft => "bottom-left"@,
            Action::BottomRight => "bottom-right"@,
            Action::FirstThird => "first-third"@,
            Action::CenterThird => "center-third"@,
            Action::LastThird => "last-third"@,
            Action::FirstTwoThirds => "first-two-thirds"@,
            Action::LastTwoThirds => "last-two-thirds"@,
            Action::Maximize => "maximize"@,
            Action::AlmostMaximize => "almost-maximize"@,
            Action::MaximizeHeight => "maximize-height"@,
            Action::Smaller => "smaller"@,
            Action::Larger => "larger"@,
            Action::Center => "center"@,
            Action::Restore => "restore"@,
            Action::NextDisplay => "next-display"@,
            Action::PreviousDisplay => "previous-display"@,
            Action::MoveLeft => "move-left"@,
            Action::MoveRight => "move-right"@,
            Action::MoveUp => "move-up"@,
            Action::MoveDown => "move-down"@,
            Action::FirstFourth => "first-fourth"@,
            Action::SecondFourth => "second-fourth"@,
            Action::ThirdFourth => "third-fourth"@,
            Action::LastFourth => "last-fourth"@,
            Action::SixthTopLeft => "sixth-top-left"@,
            Action::SixthTopCenter => "sixth-top-center"@,
            Action::SixthTopRight => "sixth-top-right"@,
            Action::SixthBottomLeft => "sixth-bottom-left"@,
            Action::SixthBottomCenter => "sixth-bottom-center"@,
            Action::SixthBottomRight => "sixth-bottom-right"@,
        }
    }

    /// Stable, kebab-case identifier used as a config key.
    pub fn id(self) -> (r: &'static str)
        ensures
            r@ == self.spec_id(),
    {
        match self {
            Action::LeftHalf => "left-half",
            Action::RightHalf => "right-half",
            Action::TopHalf => "top-half",
            Action::BottomHalf => "bottom-half",
            Action::CenterHalf => "center-half",
            Action::TopLeft => "top-left",
            Action::TopRight => "top-right",
            Action::BottomLeft => "bottom-left",
            Action::BottomRight => "bottom-right",
            Action::FirstThird => "first-third",
            Action::CenterThird => "center-third",
            Action::LastThird => "last-third",
            Action::FirstTwoThirds => "first-two-thirds",
            Action::LastTwoThirds => "last-two-thirds",
            Action::Maximize => "maximize",
            Action::AlmostMaximize => "almost-maximize",
            Action::MaximizeHeight => "maximize-height",
            Action::Smaller => "smaller",
            Action::Larger => "larger",
            Action::Center => "center",
            Action::Restore => "restore",
            Action::NextDisplay => "next-display",
            Action::PreviousDisplay => "previous-display",
            Action::MoveLeft => "move-left",
            Action::MoveRight => "move-right",
            Action::MoveUp => "move-up",
            Action::MoveDown => "move-down",
            Action::FirstFourth => "first-fourth",
            Action::SecondFourth => "second-fourth",
            Action::ThirdFourth => "third-fourth",
            Action::LastFourth => "last-fourth",
            Action::SixthTopLeft => "sixth-top-left",
            Action::SixthTopCenter => "sixth-top-center",
            Action::SixthTopRight => "sixth-top-right",
            Action::SixthBottomLeft => "sixth-bottom-left",
            Action::SixthBottomCenter => "sixth-bottom-center",
            Action::SixthBottomRight => "sixth-bottom-right",
        }
    }
}



/// The action whose stable id is `s`, if any (menu order decides between equal ids).
pub open spec fn action_with_id(s: Seq<char>) -> Option<Action> {
    if s == "left-half"@ { Some(Action::LeftHalf) }
    else if s == "right-half"@ { Some(Action::RightHalf) }
    else if s == "top-half"@ { Some(Action::TopHalf) }
    else if s == "bottom-half"@ { Some(Action::BottomHalf) }
    else if s == "center-half"@ { Some(Action::CenterHalf) }
    else if s == "top-left"@ { Some(Action::TopLeft) }
    else if s == "top-right"@ { Some(Action::TopRight) }
    else if s == "bottom-left"@ { Some(Action::BottomLeft) }
    else if s == "bottom-right"@ { Some(Action::BottomRight) }
    else if s == "first-third"@ { Some(Action::FirstThird) }
    else if s == "center-third"@ { Some(Action::CenterThird) }
    else if s == "last-third"@ { Some(Action::LastThird) }
    else if s == "first-two-thirds"@ { Some(Action::FirstTwoThirds) }
    else if s == "last-two-thirds"@ { Some(Action::LastTwoThirds) }
    else if s == "maximize"@ { Some(Action::Maximize) }
    else if s == "almost-maximize"@ { Some(Action::AlmostMaximize) }
    else if s == "maximize-height"@ { Some(Action::MaximizeHeight) }
    else if s == "smaller"@ { Some(Action::Smaller) }
    else if s == "larger"@ { Some(Action::Larger) }
    else if s == "center"@ { Some(Action::Center) }
    else if s == "restore"@ { Some(Action::Restore) }
    else if s == "next-display"@ { Some(Action::NextDisplay) }
    else if s == "previous-display"@ { Some(Action::PreviousDisplay) }
    else if s == "move-left"@ { Some(Action::MoveLeft) }
    else if s == "move-right"@ { Some(Action::MoveRight) }
    else if s == "move-up"@ { Some(Action::MoveUp) }
    else if s == "move-down"@ { Some(Action::MoveDown) }
    else if s == "first-fourth"@ { Some(Action::FirstFourth) }
    else if s == "second-fourth"@ { Some(Action::SecondFourth) }
    else if s == "third-fourth"@ { Some(Action::ThirdFourth) }
    else if s == "last-fourth"@ { Some(Action::LastFourth) }
    else if s == "sixth-top-left"@ { Some(Action::SixthTopLeft) }
    else if s == "sixth-top-center"@ { Some(Action::SixthTopCenter) }
    else if s == "sixth-top-right"@ { Some(Action::SixthTopRight) }
    else if s == "sixth-bottom-left"@ { Some(Action::SixthBottomLeft) }
    else if s == "sixth-bottom-center"@ { Some(Action::SixthBottomCenter) }
    else if s == "sixth-bottom-right"@ { Some(Action::SixthBottomRight) }
    else { None }
}


/// The lengths of the action ids.
proof fn lemma_id_lengths()
    ensures
        "left-half"@.len() == 9,
        "right-half"@.len() == 10,
        "top-half"@.len() == 8,
        "bottom-half"@.len() == 11,
        "center-half"@.len() == 11,
        "top-left"@.len() == 8,
        "top-right"@.len() == 9,
        "bottom-left"@.len() == 11,
        "bottom-right"@.len() == 12,
        "first-third"@.len() == 11,
        "center-third"@.len() == 12,
        "last-third"@.len() == 10,
        "first-two-thirds"@.len() == 16,
        "last-two-thirds"@.len() == 15,
        "maximize"@.len() == 8,
        "almost-maximize"@.len() == 15,
        "maximize-height"@.len() == 15,
        "smaller"@.len() == 7,
        "larger"@.len() == 6,
        "center"@.len() == 6,
        "restore"@.len() == 7,
        "next-display"@.len() == 12,
        "previous-display"@.len() == 16,
        "move-left"@.len() == 9,
        "move-right"@.len() == 10,
        "move-up"@.len() == 7,
        "move-down"@.len() == 9,
        "first-fourth"@.len() == 12,
        "second-fourth"@.len() == 13,
        "third-fourth"@.len() == 12,
        "last-fourth"@.len() == 11,
        "sixth-top-left"@.len() == 14,
        "sixth-top-center"@.len() == 16,
        "sixth-top-right"@.len() == 15,
        "sixth-bottom-left"@.len() == 17,
        "sixth-bottom-center"@.len() == 19,
        "sixth-bottom-right"@.len() == 18,
{
    broadcast use vstd::string::group_string_axioms;
    reveal_strlit("left-half");
    reveal_strlit("right-half");
    reveal_strlit("top-half");
    reveal_strlit("bottom-half");
    reveal_strlit("center-half");
    reveal_strlit("top-left");
    reveal_strlit("top-right");
    reveal_strlit("bottom-left");
    reveal_strlit("bottom-right");
    reveal_strlit("first-third");
    reveal_strlit("center-third");
    reveal_strlit("last-third");
    reveal_strlit("first-two-thirds");
    reveal_strlit("last-two-thirds");
    reveal_strlit("maximize");
    reveal_strlit("almost-maximize");
    reveal_strlit("maximize-height");
    reveal_strlit("smaller");
    reveal_strlit("larger");
    reveal_strlit("center");
    reveal_strlit("restore");
    reveal_strlit("next-display");
    reveal_strlit("previous-display");
    reveal_strlit("move-left");
    reveal_strlit("move-right");
    reveal_strlit("move-up");
    reveal_strlit("move-down");
    reveal_strlit("first-fourth");
    reveal_strlit("second-fourth");
    reveal_strlit("third-fourth");
    reveal_strlit("last-fourth");
    reveal_strlit("sixth-top-left");
    reveal_strlit("sixth-top-center");
    reveal_strlit("sixth-top-right");
    reveal_strlit("sixth-bottom-left");
    reveal_strlit("sixth-bottom-center");
    reveal_strlit("sixth-bottom-right");
}

proof fn lemma_id_decodes_0()
    ensures
        action_with_id("left-half"@) == Some(Action::LeftHalf),
{
    lemma_id_lengths();
}

proof fn lemma_id_decodes_1()
    ensures
        action_with_id("right-half"@) == Some(Action::RightHalf),
{
    lemma_id_lengths();
}

proof fn lemma_id_decodes_2()
    ensures
        action_with_id("top-half"@) == Some(Action::TopHalf),
{
    lemma_id_lengths();
}

proof fn lemma_id_decodes_3()
    ensures
        action_with_id("bottom-half"@) == Some(Action::BottomHalf),
{
    lemma_id_lengths();
}

proof fn lemma_id_decodes_4()
    ensures
        action_with_id("center-half"@) == Some(Action::CenterHalf),
{
    broadcast use vstd::string::group_string_axioms;
    lemma_id_lengths();
    reveal_strlit("center-half");
    reveal_strlit("bottom-half");
    assert("center-half"@[0] != "bottom-half"@[0]);
}

proof fn lemma_id_decodes_5()
    ensures
        action_with_id("top-left"@) == Some(Action::TopLeft),
{
    broadcast use vstd::string::group_string_axioms;
    lemma_id_lengths();
    reveal_strlit("top-left");
    reveal_strlit("top-half");
    assert("top-left"@[4] != "top-half"@[4]);
}

proof fn lemma_id_decodes_6()
    ensures
        action_with_id("top-right"@) == Some(Action::TopRight),
{
    broadcast use vstd::string::group_string_axioms;
    lemma_id_lengths();
    reveal_strlit("top-right");
    reveal_strlit("left-half");
    assert("top-right"@[0] != "left-half"@[0]);
}

proof fn lemma_id_decodes_7()
    ensures
        action_with_id("bottom-left"@) == Some(Action::BottomLeft),
{
    broadcast use vstd::string::group_string_axioms;
    lemma_id_lengths();
    reveal_strlit("bottom-left");
    reveal_strlit("bottom-half");
    assert("bottom-left"@[7] != "bottom-half"@[7]);
    reveal_strlit("center-half");
    assert("bottom-left"@[0] != "center-half"@[0]);
}

proof fn lemma_id_decodes_8()
    ensures
        action_with_id("bottom-right"@) == Some(Action::BottomRight),
{
    lemma_id_lengths();
}

proof fn lemma_id_decodes_9()
    ensures
        action_with_id("first-third"@) == Some(Action::FirstThird),
{
    broadcast use vstd::string::group_string_axioms;
    lemma_id_lengths();
    reveal_strlit("first-third");
    reveal_strlit("bottom-half");
    assert("first-third"@[0] != "bottom-half"@[0]);
    reveal_strlit("center-half");
    assert("first-third"@[0] != "center-half"@[0]);
    reveal_strlit("bottom-left");
    assert("first-third"@[0] != "bottom-left"@[0]);
}

proof fn lemma_id_decodes_10()
    ensures
        action_with_id("center-third"@) == Some(Action::CenterThird),
{
    broadcast use vstd::string::group_string_axioms;
    lemma_id_lengths();
    reveal_strlit("center-third");
    reveal_strlit("bottom-right");
    assert("center-third"@[0] != "bottom-right"@[0]);
}

proof fn lemma_id_decodes_11()
    ensures
        action_with_id("last-third"@) == Some(Action::LastThird),
{
    broadcast use vstd::string::group_string_axioms;
    lemma_id_lengths();
    reveal_strlit("last-third");
    reveal_strlit("right-half");
    assert("last-third"@[0] != "right-half"@[0]);
}

proof fn lemma_id_decodes_12()
    ensures
        action_with_id("first-two-thirds"@) == Some(Action::FirstTwoThirds),
{
    lemma_id_lengths();
}

proof fn lemma_id_decodes_13()
    ensures
        action_with_id("last-two-thirds"@) == Some(Action::LastTwoThirds),
{
    lemma_id_lengths();
}

proof fn lemma_id_decodes_14()
    ensures
        action_with_id("maximize"@) == Some(Action::Maximize),
{
    broadcast use vstd::string::group_string_axioms;
    lemma_id_lengths();
    reveal_strlit("maximize");
    reveal_strlit("top-half");
    assert("maximize"@[0] != "top-half"@[0]);
    reveal_strlit("top-left");
    assert("maximize"@[0] != "top-left"@[0]);
}

proof fn lemma_id_decodes_15()
    ensures
        action_with_id("almost-maximize"@) == Some(Action::AlmostMaximize),
{
    broadcast use vstd::string::group_string_axioms;
    lemma_id_lengths();
    reveal_strlit("almost-maximize");
    reveal_strlit("last-two-thirds");
    assert("almost-maximize"@[0] != "last-two-thirds"@[0]);
}

proof fn lemma_id_decodes_16()
    ensures
        action_with_id("maximize-height"@) == Some(Action::MaximizeHeight),
{
    broadcast use vstd::string::group_string_axioms;
    lemma_id_lengths();
    reveal_strlit("maximize-height");
    reveal_strlit("last-two-thirds");
    assert("maximize-height"@[0] != "last-two-thirds"@[0]);
    reveal_strlit("almost-maximize");
    assert("maximize-height"@[0] != "almost-maximize"@[0]);
}

proof fn lemma_id_decodes_17()
    ensures
        action_with_id("smaller"@) == Some(Action::Smaller),
{
    lemma_id_lengths();
}

proof fn lemma_id_decodes_18()
    ensures
        action_with_id("larger"@) == Some(Action::Larger),
{
    lemma_id_lengths();
}

proof fn lemma_id_decodes_19()
    ensures
        action_with_id("center"@) == Some(Action::Center),
{
    broadcast use vstd::string::group_string_axioms;
    lemma_id_lengths();
    reveal_strlit("center");
    reveal_strlit("larger");
    assert("center"@[0] != "larger"@[0]);
}

proof fn lemma_id_decodes_20()
    ensures
        action_with_id("restore"@) == Some(Action::Restore),
{
    broadcast use vstd::string::group_string_axioms;
    lemma_id_lengths();
    reveal_strlit("restore");
    reveal_strlit("smaller");
    assert("restore"@[0] != "smaller"@[0]);
}

proof fn lemma_id_decodes_21()
    ensures
        action_with_id("next-display"@) == Some(Action::NextDisplay),
{
    broadcast use vstd::string::group_string_axioms;
    lemma_id_lengths();
    reveal_strlit("next-display");
    reveal_strlit("bottom-right");
    assert("next-display"@[0] != "bottom-right"@[0]);
    reveal_strlit("center-third");
    assert("next-display"@[0] != "center-third"@[0]);
}

proof fn lemma_id_decodes_22()
    ensures
        action_with_id("previous-display"@) == Some(Action::PreviousDisplay),
{
    broadcast use vstd::string::group_string_axioms;
    lemma_id_lengths();
    reveal_strlit("previous-display");
    reveal_strlit("first-two-thirds");
    assert("previous-display"@[0] != "first-two-thirds"@[0]);
}

proof fn lemma_id_decodes_23()
    ensures
        action_with_id("move-left"@) == Some(Action::MoveLeft),
{
    broadcast use vstd::string::group_string_axioms;
    lemma_id_lengths();
    reveal_strlit("move-left");
    reveal_strlit("left-half");
    assert("move-left"@[0] != "left-half"@[0]);
    reveal_strlit("top-right");
    assert("move-left"@[0] != "top-right"@[0]);
}

proof fn lemma_id_decodes_24()
    ensures
        action_with_id("move-right"@) == Some(Action::MoveRight),
{
    broadcast use vstd::string::group_string_axioms;
    lemma_id_lengths();
    reveal_strlit("move-right");
    reveal_strlit("right-half");
    assert("move-right"@[0] != "right-half"@[0]);
    reveal_strlit("last-third");
    assert("move-right"@[0] != "last-third"@[0]);
}

proof fn lemma_id_decodes_25()
    ensures
        action_with_id("move-up"@) == Some(Action::MoveUp),
{
    broadcast use vstd::string::group_string_axioms;
    lemma_id_lengths();
    reveal_strlit("move-up");
    reveal_strlit("smaller");
    assert("move-up"@[0] != "smaller"@[0]);
    reveal_strlit("restore");
    assert("move-up"@[0] != "restore"@[0]);
}

proof fn lemma_id_decodes_26()
    ensures
        action_with_id("move-down"@) == Some(Action::MoveDown),
{
    broadcast use vstd::string::group_string_axioms;
    lemma_id_lengths();
    reveal_strlit("move-down");
    reveal_strlit("left-half");
    assert("move-down"@[0] != "left-half"@[0]);
    reveal_strlit("top-right");
    assert("move-down"@[0] != "top-right"@[0]);
    reveal_strlit("move-left");
    assert("move-down"@[5] != "move-left"@[5]);
}

proof fn lemma_id_decodes_27()
    ensures
        action_with_id("first-fourth"@) == Some(Action::FirstFourth),
{
    broadcast use vstd::string::group_string_axioms;
    lemma_id_lengths();
    reveal_strlit("first-fourth");
    reveal_strlit("bottom-right");
    assert("first-fourth"@[0] != "bottom-right"@[0]);
    reveal_strlit("center-third");
    assert("first-fourth"@[0] != "center-third"@[0]);
    reveal_strlit("next-display");
    assert("first-fourth"@[0] != "next-display"@[0]);
}

proof fn lemma_id_decodes_28()
    ensures
        action_with_id("second-fourth"@) == Some(Action::SecondFourth),
{
    lemma_id_lengths();
}

proof fn lemma_id_decodes_29()
    ensures
        action_with_id("third-fourth"@) == Some(Action::ThirdFourth),
{
    broadcast use vstd::string::group_string_axioms;
    lemma_id_lengths();
    reveal_strlit("third-fourth");
    reveal_strlit("bottom-right");
    assert("third-fourth"@[0] != "bottom-right"@[0]);
    reveal_strlit("center-third");
    assert("third-fourth"@[0] != "center-third"@[0]);
    reveal_strlit("next-display");
    assert("third-fourth"@[0] != "next-display"@[0]);
    reveal_strlit("first-fourth");
    assert("third-fourth"@[0] != "first-fourth"@[0]);
}

proof fn lemma_id_decodes_30()
    ensures
        action_with_id("last-fourth"@) == Some(Action::LastFourth),
{
    broadcast use vstd::string::group_string_axioms;
    lemma_id_lengths();
    reveal_strlit("last-fourth");
    reveal_strlit("bottom-half");
    assert("last-fourth"@[0] != "bottom-half"@[0]);
    reveal_strlit("center-half");
    assert("last-fourth"@[0] != "center-half"@[0]);
    reveal_strlit("bottom-left");
    assert("last-fourth"@[0] != "bottom-left"@[0]);
    reveal_strlit("first-third");
    assert("last-fourth"@[0] != "first-third"@[0]);
}

proof fn lemma_id_decodes_31()
    ensures
        action_with_id("sixth-top-left"@) == Some(Action::SixthTopLeft),
{
    lemma_id_lengths();
}

proof fn lemma_id_decodes_32()
    ensures
        action_with_id("sixth-top-center"@) == Some(Action::SixthTopCenter),
{
    broadcast use vstd::string::group_string_axioms;
    lemma_id_lengths();
    reveal_strlit("sixth-top-center");
    reveal_strlit("first-two-thirds");
    assert("sixth-top-center"@[0] != "first-two-thirds"@[0]);
    reveal_strlit("previous-display");
    assert("sixth-top-center"@[0] != "previous-display"@[0]);
}

proof fn lemma_id_decodes_33()
    ensures
        action_with_id("sixth-top-right"@) == Some(Action::SixthTopRight),
{
    broadcast use vstd::string::group_string_axioms;
    lemma_id_lengths();
    reveal_strlit("sixth-top-right");
    reveal_strlit("last-two-thirds");
    assert("sixth-top-right"@[0] != "last-two-thirds"@[0]);
    reveal_strlit("almost-maximize");
    assert("sixth-top-right"@[0] != "almost-maximize"@[0]);
    reveal_strlit("maximize-height");
    assert("sixth-top-right"@[0] != "maximize-height"@[0]);
}

proof fn lemma_id_decodes_34()
    ensures
        action_with_id("sixth-bottom-left"@) == Some(Action::SixthBottomLeft),
{
    lemma_id_lengths();
}

proof fn lemma_id_decodes_35()
    ensures
        action_with_id("sixth-bottom-center"@) == Some(Action::SixthBottomCenter),
{
    lemma_id_lengths();
}

proof fn lemma_id_decodes_36()
    ensures
        action_with_id("sixth-bottom-right"@) == Some(Action::SixthBottomRight),
{
    lemma_id_lengths();
}

/// Looking an action up by its own id gives it back.
pub proof fn lemma_id_decodes(a: Action)
    ensures
        action_with_id(a.spec_id()) == Some(a),
{
    match a {
        Action::LeftHalf => lemma_id_decodes_0(),
        Action::RightHalf => lemma_id_decodes_1(),
        Action::TopHalf => lemma_id_decodes_2(),
        Action::BottomHalf => lemma_id_decodes_3(),
        Action::CenterHalf => lemma_id_decodes_4(),
        Action::TopLeft => lemma_id_decodes_5(),
        Action::TopRight => lemma_id_decodes_6(),
        Action::BottomLeft => lemma_id_decodes_7(),
        Action::BottomRight => lemma_id_decodes_8(),
        Action::FirstThird => lemma_id_decodes_9(),
        Action::CenterThird => lemma_id_decodes_10(),
        Action::LastThird => lemma_id_decodes_11(),
        Action::FirstTwoThirds => lemma_id_decodes_12(),
        Action::LastTwoThirds => lemma_id_decodes_13(),
        Action::Maximize => lemma_id_decodes_14(),
        Action::AlmostMaximize => lemma_id_decodes_15(),
        Action::MaximizeHeight => lemma_id_decodes_16(),
        Action::Smaller => lemma_id_decodes_17(),
        Action::Larger => lemma_id_decodes_18(),
        Action::Center => lemma_id_decodes_19(),
        Action::Restore => lemma_id_decodes_20(),
        Action::NextDisplay => lemma_id_decodes_21(),
        Action::PreviousDisplay => lemma_id_decodes_22(),
        Action::MoveLeft => lemma_id_decodes_23(),
        Action::MoveRight => lemma_id_decodes_24(),
        Action::MoveUp => lemma_id_decodes_25(),
        Action::MoveDown => lemma_id_decodes_26(),
        Action::FirstFourth => lemma_id_decodes_27(),
        Action::SecondFourth => lemma_id_decodes_28(),
        Action::ThirdFourth => lemma_id_decodes_29(),
        Action::LastFourth => lemma_id_decodes_30(),
        Action::SixthTopLeft => lemma_id_decodes_31(),
        Action::SixthTopCenter => lemma_id_decodes_32(),
        Action::SixthTopRight => lemma_id_decodes_33(),
        Action::SixthBottomLeft => lemma_id_decodes_34(),
        Action::SixthBottomCenter => lemma_id_decodes_35(),
        Action::SixthBottomRight => lemma_id_decodes_36(),
    }
}

/// Distinct actions have distinct ids.
pub proof fn lemma_ids_distinct(a: Action, b: Action)
    requires
        a != b,
    ensures
        a.spec_id() != b.spec_id(),
{
    lemma_id_decodes(a);
    lemma_id_decodes(b);
}

impl Action {
    /// The menu label of this action, as a character sequence.
    pub open spec fn spec_label(self) -> Seq<char> {
        match self {
            Action::LeftHalf => "Left Half"@,
            Action::RightHalf => "Right Half"@,
            Action::TopHalf => "Top Half"@,
            Action::BottomHalf => "Bottom Half"@,
            Action::CenterHalf => "Center Half"@,
            Action::TopLeft => "Top Left"@,
            Action::TopRight => "Top Right"@,
            Action::BottomLeft => "Bottom Left"@,
            Action::BottomRight => "Bottom Right"@,
            Action::FirstThird => "First Third"@,
            Action::CenterThird => "Center Third"@,
            Action::LastThird => "Last Third"@,
            Action::FirstTwoThirds => "First Two Thirds"@,
            Action::LastTwoThirds => "Last Two Thirds"@,
            Action::Maximize => "Maximize"@,
            Action::AlmostMaximize => "Almost Maximize"@,
            Action::MaximizeHeight => "Maximize Height"@,
            Action::Smaller => "Smaller"@,
            Action::Larger => "Larger"@,
            Action::Center => "Center"@,
            Action::Restore => "Restore"@,
            Action::NextDisplay => "Next Display"@,
            Action::PreviousDisplay => "Previous Display"@,
            Action::MoveLeft => "Move Left"@,
            Action::MoveRight => "Move Right"@,
            Action::MoveUp => "Move Up"@,
            Action::MoveDown => "Move Down"@,
            Action::FirstFourth => "First Fourth"@,
            Action::SecondFourth => "Second Fourth"@,
            Action::ThirdFourth => "Third Fourth"@,
            Action::LastFourth => "Last Fourth"@,
            Action::SixthTopLeft => "Top-Left Sixth"@,
            Action::SixthTopCenter => "Top-Center Sixth"@,
            Action::SixthTopRight => "Top-Right Sixth"@,
            Action::SixthBottomLeft => "Bottom-Left Sixth"@,
            Action::SixthBottomCenter => "Bottom-Center Sixth"@,
            Action::SixthBottomRight => "Bottom-Right Sixth"@,
        }
    }

    /// Human-readable label for menus.
    pub fn label(self) -> (r: &'static str)
        ensures
            r@ == self.spec_label(),
    {
        match self {
            Action::LeftHalf => "Left Half",
            Action::RightHalf => "Right Half",
            Action::TopHalf => "Top Half",
            Action::BottomHalf => "Bottom Half",
            Action::CenterHalf => "Center Half",
            Action::TopLeft => "Top Left",
            Action::TopRight => "Top Right",
            Action::BottomLeft => "Bottom Left",
            Action::BottomRight => "Bottom Right",
            Action::FirstThird => "First Third",
            Action::CenterThird => "Center Third",
            Action::LastThird => "Last Third",
            Action::FirstTwoThirds => "First Two Thirds",
            Action::LastTwoThirds => "Last Two Thirds",
            Action::Maximize => "Maximize",
            Action::AlmostMaximize => "Almost Maximize",
            Action::MaximizeHeight => "Maximize Height",
            Action::Smaller => "Smaller",
            Action::Larger => "Larger",
            Action::Center => "Center",
            Action::Restore => "Restore",
            Action::NextDisplay => "Next Display",
            Action::PreviousDisplay => "Previous Display",
            Action::MoveLeft => "Move Left",
            Action::MoveRight => "Move Right",
            Action::MoveUp => "Move Up",
            Action::MoveDown => "Move Down",
            Action::FirstFourth => "First Fourth",
            Action::SecondFourth => "Second Fourth",
            Action::ThirdFourth => "Third Fourth",
            Action::LastFourth => "Last Fourth",
            Action::SixthTopLeft => "Top-Left Sixth",
            Action::SixthTopCenter => "Top-Center Sixth",
            Action::SixthTopRight => "Top-Right Sixth",
            Action::SixthBottomLeft => "Bottom-Left Sixth",
            Action::SixthBottomCenter => "Bottom-Center Sixth",
            Action::SixthBottomRight => "Bottom-Right Sixth",
        }
    }

    /// The [`Half`] of a directional half action.
    pub open spec fn spec_as_half(self) -> Option<Half> {
        match self {
            Action::LeftHalf => Some(Half::Left),
            Action::RightHalf => Some(Half::Right),
            Action::TopHalf => Some(Half::Top),
            Action::BottomHalf => Some(Half::Bottom),
            _ => None,
        }
    }

    /// The four directional halves map to a [`Half`]; every other action returns `None`.
    pub fn as_half(self) -> (r: Option<Half>)
        ensures
            r == self.spec_as_half(),
    {
        match self {
            Action::LeftHalf => Some(Half::Left),
            Action::RightHalf => Some(Half::Right),
            Action::TopHalf => Some(Half::Top),
            Action::BottomHalf => Some(Half::Bottom),
            _ => None,
        }
    }

    /// Number of size-cycle steps of this action.
    pub open spec fn spec_cycle_len(self) -> nat {
        if self.spec_as_half().is_some() { 3 } else { 1 }
    }

    /// Number of size-cycle steps: the four directional halves cycle through three sizes;
    /// every other action is a single, direct placement.
    pub fn cycle_len(self) -> (r: usize)
        ensures
            r == self.spec_cycle_len(),
    {
        if self.as_half().is_some() {
            3
        } else {
            1
        }
    }

    /// Look an action up by its stable id.
    pub fn from_id(id: &str) -> (r: Option<Action>)
        ensures
            r == action_with_id(id@),
            r matches Some(a) ==> a.spec_id() == id@,
            r is None <==> (forall|a: Action| a.spec_id() != id@),
    {
        proof {
            lemma_all_in_order();
        }
        let mut i: usize = 0;
        while i < ACTION_COUNT
            invariant
                i <= ACTION_COUNT,
                forall|j: int| 0 <= j < i ==> (#[trigger] Action::at(j)).spec_id() != id@,
            decreases ACTION_COUNT - i,
        {
            let a = Action::ALL[i];
            if str_equal(a.id(), id) {
                proof {
                    lemma_id_decodes(a);
                }
                return Some(a);
            }
            i = i + 1;
        }
        proof {
            assert forall|a: Action| a.spec_id() != id@ by {
                assert(Action::at(a.index()) == a);
            }
            if action_with_id(id@) is Some {
                let b = action_with_id(id@)->0;
                lemma_id_decoded_matches(id@);
                assert(b.spec_id() == id@);
            }
        }
        None
    }
}

/// Menu order lists every action once, at its index.
pub proof fn lemma_all_in_order()
    ensures
        forall|i: int| 0 <= i < ACTION_COUNT ==> #[trigger] Action::ALL@[i] == Action::at(i),
        forall|a: Action| 0 <= #[trigger] a.index() < ACTION_COUNT && Action::at(a.index()) == a,
{
    assert(Action::ALL@ =~= seq![
        Action::LeftHalf,
        Action::RightHalf,
        Action::TopHalf,
        Action::BottomHalf,
        Action::CenterHalf,
        Action::TopLeft,
        Action::TopRight,
        Action::BottomLeft,
        Action::BottomRight,
        Action::FirstThird,
        Action::CenterThird,
        Action::LastThird,
        Action::FirstTwoThirds,
        Action::LastTwoThirds,
        Action::Maximize,
        Action::AlmostMaximize,
        Action::MaximizeHeight,
        Action::Smaller,
        Action::Larger,
        Action::Center,
        Action::Restore,
        Action::NextDisplay,
        Action::PreviousDisplay,
        Action::MoveLeft,
        Action::MoveRight,
        Action::MoveUp,
        Action::MoveDown,
        Action::FirstFourth,
        Action::SecondFourth,
        Action::ThirdFourth,
        Action::LastFourth,
        Action::SixthTopLeft,
        Action::SixthTopCenter,
        Action::SixthTopRight,
        Action::SixthBottomLeft,
        Action::SixthBottomCenter,
        Action::SixthBottomRight
    ]);
}

/// A decoded id is the id of the action it decodes to.
pub proof fn lemma_id_decoded_matches(s: Seq<char>)
    ensures
        action_with_id(s) matches Some(a) ==> a.spec_id() == s,
{
}

/// Every action has a non-empty id and a non-empty label.
pub proof fn lemma_id_and_label_nonempty(a: Action)
    ensures
        a.spec_id().len() > 0,
        a.spec_label().len() > 0,
{
    broadcast use vstd::string::group_string_axioms;
    lemma_id_lengths();
    reveal_strlit("Left Half");
    reveal_strlit("Right Half");
    reveal_strlit("Top Half");
    reveal_strlit("Bottom Half");
    reveal_strlit("Center Half");
    reveal_strlit("Top Left");
    reveal_strlit("Top Right");
    reveal_strlit("Bottom Left");
    reveal_strlit("Bottom Right");
    reveal_strlit("First Third");
    reveal_strlit("Center Third");
    reveal_strlit("Last Third");
    reveal_strlit("First Two Thirds");
    reveal_strlit("Last Two Thirds");
    reveal_strlit("Maximize");
    reveal_strlit("Almost Maximize");
    reveal_strlit("Maximize Height");
    reveal_strlit("Smaller");
    reveal_strlit("Larger");
    reveal_strlit("Center");
    reveal_strlit("Restore");
    reveal_strlit("Next Display");
    reveal_strlit("Previous Display");
    reveal_strlit("Move Left");
    reveal_strlit("Move Right");
    reveal_strlit("Move Up");
    reveal_strlit("Move Down");
    reveal_strlit("First Fourth");
    reveal_strlit("Second Fourth");
    reveal_strlit("Third Fourth");
    reveal_strlit("Last Fourth");
    reveal_strlit("Top-Left Sixth");
    reveal_strlit("Top-Center Sixth");
    reveal_strlit("Top-Right Sixth");
    reveal_strlit("Bottom-Left Sixth");
    reveal_strlit("Bottom-Center Sixth");
    reveal_strlit("Bottom-Right Sixth");
    assert("Left Half"@.len() > 0);
    assert("Right Half"@.len() > 0);
    assert("Top Half"@.len() > 0);
    assert("Bottom Half"@.len() > 0);
    assert("Center Half"@.len() > 0);
    assert("Top Left"@.len() > 0);
    assert("Top Right"@.len() > 0);
    assert("Bottom Left"@.len() > 0);
    assert("Bottom Right"@.len() > 0);
    assert("First Third"@.len() > 0);
    assert("Center Third"@.len() > 0);
    assert("Last Third"@.len() > 0);
    assert("First Two Thirds"@.len() > 0);
    assert("Last Two Thirds"@.len() > 0);
    assert("Maximize"@.len() > 0);
    assert("Almost Maximize"@.len() > 0);
    assert("Maximize Height"@.len() > 0);
    assert("Smaller"@.len() > 0);
    assert("Larger"@.len() > 0);
    assert("Center"@.len() > 0);
    assert("Restore"@.len() > 0);
    assert("Next Display"@.len() > 0);
    assert("Previous Display"@.len() > 0);
    assert("Move Left"@.len() > 0);
    assert("Move Right"@.len() > 0);
    assert("Move Up"@.len() > 0);
    assert("Move Down"@.len() > 0);
    assert("First Fourth"@.len() > 0);
    assert("Second Fourth"@.len() > 0);
    assert("Third Fourth"@.len() > 0);
    assert("Last Fourth"@.len() > 0);
    assert("Top-Left Sixth"@.len() > 0);
    assert("Top-Center Sixth"@.len() > 0);
    assert("Top-Right Sixth"@.len() > 0);
    assert("Bottom-Left Sixth"@.len() > 0);
    assert("Bottom-Center Sixth"@.len() > 0);
    assert("Bottom-Right Sixth"@.len() > 0);
}

} // verus!
