//! Position bookkeeping of the plugin strategies' signal passes: one position
//! at a time, its direction and entry bar, the time limit on holding it, the
//! flattening at a session change, and the retest window of an armed setup.
use vstd::prelude::*;

verus! {

/// The position a plugin signal pass holds between bars.
#[derive(Debug, Clone, Copy, PartialEq, Eq, Structural)]
pub struct HeldPosition {
    pub in_pos: bool,
    /// +1 long, -1 short.
    pub dir: i8,
    /// Bar on which the position was entered.
    pub entry_bar: usize,
}

/// Bars a position entered on `entry_bar` has been held at bar `i`; 0 before
/// its entry bar.
pub open spec fn bars_held(entry_bar: int, i: int) -> int {
    if i >= entry_bar {
        i - entry_bar
    } else {
        0
    }
}

/// `p` after an entry signal at bar `i`: a flat pass opens a position in
/// direction `dir`; a pass that holds one ignores the entry.
pub open spec fn entered(p: HeldPosition, i: int, dir: i8) -> HeldPosition {
    if p.in_pos {
        p
    } else {
        HeldPosition { in_pos: true, dir, entry_bar: i as usize }
    }
}

/// Whether an open position exits at bar `i`: its exit rule fired, or it has
/// been held `max_hold` bars.
pub open spec fn exit_due(p: HeldPosition, i: int, rule_exit: bool, max_hold: int) -> bool {
    p.in_pos && (rule_exit || bars_held(p.entry_bar as int, i) >= max_hold)
}

impl HeldPosition {
    /// A pass that holds nothing.
    pub fn flat() -> (p: HeldPosition)
        ensures
            !p.in_pos,
            p.dir == 1,
            p.entry_bar == 0,
    {
        HeldPosition { in_pos: false, dir: 1, entry_bar: 0 }
    }

    /// Bars held at bar `i`.
    pub fn held(&self, i: usize) -> (r: usize)
        ensures
            r == bars_held(self.entry_bar as int, i as int),
    {
        i.saturating_sub(self.entry_bar)
    }

    /// Take an entry signal at bar `i`; returns whether a position opened.
    pub fn enter(&mut self, i: usize, dir: i8) -> (opened: bool)
        ensures
            opened == !old(self).in_pos,
            *final(self) == entered(*old(self), i as int, dir),
    {
        if self.in_pos {
            false
        } else {
            *self = HeldPosition { in_pos: true, dir, entry_bar: i };
            true
        }
    }

    /// Exit check of bar `i`: an open position closes when `rule_exit` holds
    /// or when it has been held `max_hold` bars; returns whether it closed.
    pub fn exit_step(&mut self, i: usize, rule_exit: bool, max_hold: usize) -> (exit: bool)
        ensures
            exit == exit_due(*old(self), i as int, rule_exit, max_hold as int),
            final(self).in_pos == (old(self).in_pos && !exit),
            final(self).dir == old(self).dir,
            final(self).entry_bar == old(self).entry_bar,
    {
        let exit = self.in_pos && (rule_exit || self.held(i) >= max_hold);
        if exit {
            self.in_pos = false;
        }
        exit
    }

    /// A new session starts: an open position is closed on its first bar.
    /// Returns whether a position was closed.
    pub fn close_on_new_session(&mut self) -> (exit: bool)
        ensures
            exit == old(self).in_pos,
            !final(self).in_pos,
            final(self).dir == old(self).dir,
            final(self).entry_bar == old(self).entry_bar,
    {
        let exit = self.in_pos;
        self.in_pos = false;
        exit
    }
}

/// Bars held count from the entry bar: `i - entry_bar` from the entry bar on.
pub proof fn bars_held_counts_from_entry(entry_bar: int, i: int)
    ensures
        i >= entry_bar ==> bars_held(entry_bar, i) == i - entry_bar,
        i <= entry_bar ==> bars_held(entry_bar, i) == 0,
{
}

/// The exit check of bar `i` (on or after the entry bar) closes an open
/// position exactly when its exit rule fired or it has been held at least
/// `max_hold` bars: with no rule exit, a position held fewer bars stays open.
/// A flat pass never exits.
pub proof fn exit_due_exactly(p: HeldPosition, i: int, rule_exit: bool, max_hold: int)
    requires
        i >= p.entry_bar,
    ensures
        p.in_pos ==> (exit_due(p, i, rule_exit, max_hold) <==> (rule_exit || i - p.entry_bar >= max_hold)),
        !p.in_pos ==> !exit_due(p, i, rule_exit, max_hold),
{
}

/// An entry on a flat pass opens a position in the signalled direction with
/// the signal's bar as its entry bar.
pub proof fn entry_opens_when_flat(p: HeldPosition, i: usize, dir: i8)
    requires
        !p.in_pos,
    ensures
        entered(p, i as int, dir).in_pos,
        entered(p, i as int, dir).dir == dir,
        entered(p, i as int, dir).entry_bar == i,
{
}

/// No position outlives its time limit: once a position entered on bar `e`
/// reaches bar `e + max_hold`, the exit check of that bar or any later one
/// closes it, whatever its exit rule says.
pub proof fn held_position_exits_by_time_limit(
    p: HeldPosition,
    e: int,
    dir: i8,
    i: int,
    rule_exit: bool,
    max_hold: int,
)
    requires
        !p.in_pos,
        0 <= e <= usize::MAX,
        i >= e + max_hold,
    ensures
        exit_due(entered(p, e, dir), i, rule_exit, max_hold),
{
}

/// A pass that holds a position ignores further entries: the position keeps
/// its direction and entry bar.
pub proof fn entries_ignored_while_held(p: HeldPosition, i: int, dir: i8)
    requires
        p.in_pos,
    ensures
        entered(p, i, dir) == p,
{
}

/// Where bar `i` stands in the retest window of a setup armed on bar
/// `armed_at`.
#[derive(Debug, Clone, Copy, PartialEq, Eq, Structural)]
pub enum RetestPhase {
    /// The arming bar itself: no entry is taken on it.
    ArmBar,
    /// One to `window` bars after arming: a retest may enter.
    Open,
    /// More than `window` bars after arming: the setup is dropped.
    Expired,
}

pub open spec fn retest_phase_of(i: int, armed_at: int, window: int) -> RetestPhase {
    let waited = bars_held(armed_at, i);
    if waited > window {
        RetestPhase::Expired
    } else if waited < 1 {
        RetestPhase::ArmBar
    } else {
        RetestPhase::Open
    }
}

/// The retest window counts bars from the arming bar: the arming bar (or an
/// earlier one) is `ArmBar` while the window is not negative, bars 1 to
/// `window` after it are `Open`, and every later bar is `Expired`.
pub proof fn retest_phase_by_bars_waited(i: int, armed_at: int, window: int)
    requires
        window >= 0,
    ensures
        i <= armed_at ==> retest_phase_of(i, armed_at, window) == RetestPhase::ArmBar,
        armed_at < i <= armed_at + window ==> retest_phase_of(i, armed_at, window) == RetestPhase::Open,
        i > armed_at + window ==> retest_phase_of(i, armed_at, window) == RetestPhase::Expired,
{
}

/// Phase of bar `i` in the retest window of `window` bars of a setup armed on
/// bar `armed_at`.
pub fn retest_phase(i: usize, armed_at: usize, window: usize) -> (r: RetestPhase)
    ensures
        r == retest_phase_of(i as int, armed_at as int, window as int),
{
    let waited = i.saturating_sub(armed_at);
    if waited > window {
        RetestPhase::Expired
    } else if waited < 1 {
        RetestPhase::ArmBar
    } else {
        RetestPhase::Open
    }
}

} // verus!
