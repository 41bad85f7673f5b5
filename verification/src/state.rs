//! The snap state machine — pure logic, no window I/O.
//!
//! Repeating a directional shortcut cycles through sizes (½ → ⅔ → ⅓). The state remembers the
//! frame it last set (to tell "still where we put it") and a restore baseline (the frame
//! before the run began). Invalidation is automatic: if the window's current frame no longer
//! matches what was set, the next press is a fresh grab.

use vstd::prelude::*;
use crate::actions::Action;
use crate::geometry::{
    fraction_to_rect, spec_fraction_to_rect, spec_target_for, target_for_with, Fraction, Rect, Tunables,
};

verus! {

/// Slack (device units) for "the window is still where we put it".
pub const MATCH_TOLERANCE: i64 = 5;

/// `|a - b| <= MATCH_TOLERANCE`.
pub open spec fn close(a: int, b: int) -> bool {
    -MATCH_TOLERANCE <= a - b <= MATCH_TOLERANCE
}

/// Whether two rectangles match within [`MATCH_TOLERANCE`] on every component.
pub open spec fn spec_approx_eq(a: Rect, b: Rect) -> bool {
    &&& close(a.x as int, b.x as int)
    &&& close(a.y as int, b.y as int)
    &&& close(a.w as int, b.w as int)
    &&& close(a.h as int, b.h as int)
}

fn close_exec(a: i64, b: i64) -> (r: bool)
    ensures
        r == close(a as int, b as int),
{
    let d: i128 = (a as i128) - (b as i128);
    -5 <= d && d <= 5
}

/// Whether two rectangles match within [`MATCH_TOLERANCE`] on every component.
pub fn approx_eq(a: Rect, b: Rect) -> (r: bool)
    ensures
        r == spec_approx_eq(a, b),
{
    close_exec(a.x, b.x) && close_exec(a.y, b.y) && close_exec(a.w, b.w) && close_exec(a.h, b.h)
}

/// One remembered snap run.
#[derive(Debug, Clone, Copy, PartialEq, Eq, Structural)]
pub struct SnapRecord {
    pub action: Action,
    /// Index into the action's cycle table.
    pub step: usize,
    /// The frame we actually set, re-read after `set_frame`.
    pub last_set: Rect,
    /// The frame before this run's first snap — what Restore returns to.
    pub baseline: Rect,
    /// Work area of the display this run is on; identifies the display.
    pub work_area: Rect,
}

/// Remembers the current snap run so repeats cycle and Restore can undo.
#[derive(Debug)]
pub struct SnapState {
    record: Option<SnapRecord>,
}

impl View for SnapState {
    type V = Option<SnapRecord>;

    closed spec fn view(&self) -> Option<SnapRecord> {
        self.record
    }
}

/// The press continues the remembered run: same action, same display, and the window is
/// still (within tolerance) where it was last put.
pub open spec fn continues(rec: Option<SnapRecord>, action: Action, current: Rect, work: Rect) -> bool {
    &&& rec is Some
    &&& rec->0.action == action
    &&& spec_approx_eq(rec->0.work_area, work)
    &&& spec_approx_eq(rec->0.last_set, current)
}

/// The cycle step a press lands on: the next step of a continued run, else step 0.
pub open spec fn next_step(rec: Option<SnapRecord>, action: Action, current: Rect, work: Rect, len: int) -> int {
    if continues(rec, action, current, work) {
        (rec->0.step + 1) % len
    } else {
        0
    }
}

/// The restore baseline after a press: kept on a continued run, else the pre-snap frame.
pub open spec fn next_baseline(rec: Option<SnapRecord>, action: Action, current: Rect, work: Rect) -> Rect {
    if continues(rec, action, current, work) {
        rec->0.baseline
    } else {
        current
    }
}

/// The record after a press of `action` on a window at `current` on work area `work`.
pub open spec fn press(
    rec: Option<SnapRecord>,
    action: Action,
    cycle: Seq<Fraction>,
    current: Rect,
    work: Rect,
) -> SnapRecord {
    let step = next_step(rec, action, current, work, cycle.len() as int);
    SnapRecord {
        action,
        step: step as usize,
        last_set: spec_fraction_to_rect(work, cycle[step]),
        baseline: next_baseline(rec, action, current, work),
        work_area: work,
    }
}

/// The record after a press of `action` (with `len` cycle steps) that placed the window at
/// `target`.
pub open spec fn press_to(
    rec: Option<SnapRecord>,
    action: Action,
    current: Rect,
    work: Rect,
    len: int,
    target: Rect,
) -> SnapRecord {
    SnapRecord {
        action,
        step: next_step(rec, action, current, work, len) as usize,
        last_set: target,
        baseline: next_baseline(rec, action, current, work),
        work_area: work,
    }
}

impl SnapState {
    /// The cycle step and restore baseline of a press of `action` (whose cycle has `len`
    /// steps) on a window at `current_frame` on work area `work_area`.
    fn continuation(&self, action: Action, current_frame: Rect, work_area: Rect, len: usize) -> (r: (usize, Rect))
        requires
            len > 0,
        ensures
            r.0 == next_step(self@, action, current_frame, work_area, len as int),
            r.1 == next_baseline(self@, action, current_frame, work_area),
            r.0 < len,
    {
        match self.record {
            Some(r) => {
                if r.action == action && approx_eq(r.work_area, work_area) && approx_eq(r.last_set, current_frame) {
                    let s = r.step % len;
                    proof {
                        vstd::arithmetic::div_mod::lemma_add_mod_noop_right(1, r.step as int, len as int);
                    }
                    ((s + 1) % len, r.baseline)
                } else {
                    (0, current_frame)
                }
            },
            None => (0, current_frame),
        }
    }

    /// No remembered run.
    pub fn new() -> (r: SnapState)
        ensures
            r@ is None,
    {
        SnapState { record: None }
    }

    /// Target frame for `action` (whose size `cycle` has at least one entry) applied to a
    /// window currently at `current_frame`, on the display with work area `work_area`.
    ///
    /// Continues the cycle only if the last run was the same action, on the same display,
    /// with the window still where we last put it; otherwise it's a fresh grab (step 0, new
    /// restore baseline). Call [`record_result`](Self::record_result) after `set_frame`.
    pub fn next_target(
        &mut self,
        action: Action,
        cycle: &[Fraction],
        current_frame: Rect,
        work_area: Rect,
    ) -> (r: Rect)
        requires
            cycle@.len() > 0,
            forall|i: int| 0 <= i < cycle@.len() ==> (#[trigger] cycle@[i]).valid(),
            work_area.bounded(),
        ensures
            final(self)@ == Some(press(old(self)@, action, cycle@, current_frame, work_area)),
            r == final(self)@->0.last_set,
            r == spec_fraction_to_rect(
                work_area,
                cycle@[next_step(old(self)@, action, current_frame, work_area, cycle@.len() as int)],
            ),
    {
        let len = cycle.len();
        let (step, baseline) = self.continuation(action, current_frame, work_area, len);
        let target = fraction_to_rect(work_area, cycle[step]);
        self.record = Some(
            SnapRecord { action, step, last_set: target, baseline, work_area },
        );
        target
    }

    /// Target frame for any `action` on a window at `current_frame`, on the display with work
    /// area `work_area`, with every display's work area in `displays` and sizing `tunables`.
    ///
    /// The cycle step follows the same rule as [`next_target`](Self::next_target): a repeat
    /// of the same action on the same display with the window still where it was put takes
    /// the next step (actions without a size cycle stay on their single step and keep their
    /// restore baseline); anything else is a fresh grab. `None` means the action places
    /// nothing, and then the state is left alone. Call
    /// [`record_result`](Self::record_result) after `set_frame`.
    pub fn next_target_for(
        &mut self,
        action: Action,
        current_frame: Rect,
        work_area: Rect,
        displays: &[Rect],
        tunables: Tunables,
    ) -> (r: Option<Rect>)
        requires
            current_frame.bounded(),
            work_area.bounded(),
            forall|i: int| 0 <= i < displays@.len() ==> (#[trigger] displays@[i]).bounded(),
            tunables.valid(),
        ensures
            r == spec_target_for(
                action,
                next_step(old(self)@, action, current_frame, work_area, action.spec_cycle_len() as int),
                current_frame,
                work_area,
                displays@,
                tunables,
            ),
            r matches Some(t) ==> final(self)@ == Some(
                press_to(old(self)@, action, current_frame, work_area, action.spec_cycle_len() as int, t),
            ),
            r is None ==> final(self)@ == old(self)@,
    {
        let len = action.cycle_len();
        let (step, baseline) = self.continuation(action, current_frame, work_area, len);
        let target = target_for_with(action, step, current_frame, work_area, displays, tunables);
        match target {
            Some(t) => {
                self.record = Some(
                    SnapRecord { action, step, last_set: t, baseline, work_area },
                );
            },
            None => {},
        }
        target
    }

    /// Store the frame the window actually landed at (re-read after `set_frame`), so the
    /// next press compares against reality.
    pub fn record_result(&mut self, actual_frame: Rect)
        ensures
            final(self)@ == (match old(self)@ {
                Some(r) => Some(SnapRecord { last_set: actual_frame, ..r }),
                None => None,
            }),
    {
        match self.record {
            Some(r) => {
                self.record = Some(SnapRecord { last_set: actual_frame, ..r });
            },
            None => {},
        }
    }

    /// The restore baseline for the current run, if any.
    pub fn baseline(&self) -> (r: Option<Rect>)
        ensures
            r == (match self@ {
                Some(rec) => Some(rec.baseline),
                None => None,
            }),
    {
        match self.record {
            Some(r) => Some(r.baseline),
            None => None,
        }
    }

    /// Forget the current run (Restore calls this after returning to the baseline).
    pub fn clear(&mut self)
        ensures
            final(self)@ is None,
    {
        self.record = None;
    }
}

impl Default for SnapState {
    fn default() -> (r: SnapState)
        ensures
            r@ is None,
    {
        SnapState::new()
    }
}

/// The record after `k + 1` presses of `action` on work area `work`, starting from no run
/// with the window at `start`, each later press finding the window exactly where the
/// previous press put it.
pub open spec fn repeated_presses(
    action: Action,
    cycle: Seq<Fraction>,
    start: Rect,
    work: Rect,
    k: nat,
) -> SnapRecord
    decreases k,
{
    if k == 0 {
        press(None, action, cycle, start, work)
    } else {
        let prev = repeated_presses(action, cycle, start, work, (k - 1) as nat);
        press(Some(prev), action, cycle, prev.last_set, work)
    }
}

/// Repeating an action on the same display, with the window left where each press put it,
/// walks the cycle in order and wraps around: press `k` (counting from 0) lands on step
/// `k mod len`, and the restore baseline stays the frame from before the first press.
pub proof fn lemma_repeated_presses_cycle(
    action: Action,
    cycle: Seq<Fraction>,
    start: Rect,
    work: Rect,
    k: nat,
)
    requires
        0 < cycle.len() <= usize::MAX,
    ensures
        repeated_presses(action, cycle, start, work, k).step == k % cycle.len(),
        repeated_presses(action, cycle, start, work, k).baseline == start,
        repeated_presses(action, cycle, start, work, k).last_set == spec_fraction_to_rect(
            work,
            cycle[(k % cycle.len()) as int],
        ),
        repeated_presses(action, cycle, start, work, k).action == action,
        repeated_presses(action, cycle, start, work, k).work_area == work,
    decreases k,
{
    let len = cycle.len() as int;
    if k == 0 {
        vstd::arithmetic::div_mod::lemma_small_mod(0, cycle.len());
    } else {
        lemma_repeated_presses_cycle(action, cycle, start, work, (k - 1) as nat);
        let prev = repeated_presses(action, cycle, start, work, (k - 1) as nat);
        assert(continues(Some(prev), action, prev.last_set, work));
        vstd::arithmetic::div_mod::lemma_add_mod_noop_right(1, (k - 1) as int, len);
        vstd::arithmetic::div_mod::lemma_mod_bound((k - 1) as int, len);
        vstd::arithmetic::div_mod::lemma_mod_bound(k as int, len);
        assert(((k - 1) % len) + 1 == 1 + ((k - 1) as int % len));
    }
}

/// The record after `k + 1` presses of `action` through
/// [`SnapState::next_target_for`], starting from no run with the window at `start`, each
/// later press finding the window exactly where the previous press put it.
pub open spec fn repeated_presses_for(
    action: Action,
    start: Rect,
    work: Rect,
    displays: Seq<Rect>,
    t: Tunables,
    k: nat,
) -> Option<SnapRecord>
    decreases k,
{
    let len = action.spec_cycle_len() as int;
    if k == 0 {
        match spec_target_for(action, 0, start, work, displays, t) {
            Some(target) => Some(press_to(None, action, start, work, len, target)),
            None => None,
        }
    } else {
        match repeated_presses_for(action, start, work, displays, t, (k - 1) as nat) {
            Some(prev) => {
                let step = next_step(Some(prev), action, prev.last_set, work, len);
                match spec_target_for(action, step, prev.last_set, work, displays, t) {
                    Some(target) => Some(press_to(Some(prev), action, prev.last_set, work, len, target)),
                    None => Some(prev),
                }
            },
            None => None,
        }
    }
}

/// Repeating any placing action on the same display, with the window left where each press
/// put it, walks the action's size cycle in order and wraps around (½ → ⅔ → ⅓ for the
/// halves; a single step for everything else), and the restore baseline stays the frame from
/// before the first press.
pub proof fn lemma_repeated_presses_for_cycle(
    action: Action,
    start: Rect,
    work: Rect,
    displays: Seq<Rect>,
    t: Tunables,
    k: nat,
)
    requires
        spec_target_for(action, 0, start, work, displays, t) is Some,
    ensures
        repeated_presses_for(action, start, work, displays, t, k) is Some,
        repeated_presses_for(action, start, work, displays, t, k)->0.step == k % action.spec_cycle_len(),
        repeated_presses_for(action, start, work, displays, t, k)->0.baseline == start,
        repeated_presses_for(action, start, work, displays, t, k)->0.action == action,
        repeated_presses_for(action, start, work, displays, t, k)->0.work_area == work,
    decreases k,
{
    let len = action.spec_cycle_len() as int;
    if k == 0 {
        vstd::arithmetic::div_mod::lemma_small_mod(0, action.spec_cycle_len());
    } else {
        lemma_repeated_presses_for_cycle(action, start, work, displays, t, (k - 1) as nat);
        let prev = repeated_presses_for(action, start, work, displays, t, (k - 1) as nat)->0;
        assert(continues(Some(prev), action, prev.last_set, work));
        vstd::arithmetic::div_mod::lemma_add_mod_noop_right(1, (k - 1) as int, len);
        vstd::arithmetic::div_mod::lemma_mod_bound((k - 1) as int, len);
        vstd::arithmetic::div_mod::lemma_mod_bound(k as int, len);
        assert(((k - 1) % len) + 1 == 1 + ((k - 1) as int % len));
        let step = next_step(Some(prev), action, prev.last_set, work, len);
        assert(step == k as int % len);
    }
}

/// A press continues the remembered run exactly when it repeats the run's action on the same
/// display (work areas within 5 units on every component) with the window within 5 units of
/// where it was last put: it then takes the next step of the cycle and keeps the restore
/// baseline. Any other press is a fresh grab: step 0, and the current frame becomes the
/// baseline.
pub proof fn lemma_continue_or_fresh_grab(
    rec: Option<SnapRecord>,
    action: Action,
    current: Rect,
    work: Rect,
    len: int,
)
    requires
        len > 0,
    ensures
        ({
            let near = |a: Rect, b: Rect|
                {
                    &&& -5 <= a.x - b.x <= 5
                    &&& -5 <= a.y - b.y <= 5
                    &&& -5 <= a.w - b.w <= 5
                    &&& -5 <= a.h - b.h <= 5
                };
            let same_run = rec is Some && rec->0.action == action && near(rec->0.work_area, work) && near(
                rec->0.last_set,
                current,
            );
            &&& same_run ==> next_step(rec, action, current, work, len) == (rec->0.step + 1) % len
                && next_baseline(rec, action, current, work) == rec->0.baseline
            &&& !same_run ==> next_step(rec, action, current, work, len) == 0 && next_baseline(
                rec,
                action,
                current,
                work,
            ) == current
        }),
{
}

} // verus!
