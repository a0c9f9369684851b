//! Execution rules of the single-position bar engine: configuration errors,
//! signal validation and the fill schedule (signal on the close of bar `i`,
//! fill at the open of bar `i + 1`).
use vstd::prelude::*;

use crate::runtime::signal_position;
use crate::text::{ascii_lower, ascii_lowercase, str_eq, trim_spec, trim_str};

verus! {

/// Bet sizing mode (fixed notional or price fraction).
#[derive(Debug, Clone, Copy, PartialEq, Eq, Structural)]
pub enum BetMode {
    Fixed,
    PriceFrac,
}

/// The mode that `BetMode::parse` reads from `raw`.
pub open spec fn bet_mode_of(raw: Seq<char>) -> BetMode {
    let key = ascii_lower(trim_spec(raw));
    if key == "price_frac"@ || key == "pricefrac"@ {
        BetMode::PriceFrac
    } else {
        BetMode::Fixed
    }
}

/// The bet mode is `PriceFrac` exactly when the text, without surrounding
/// white space and in ASCII lower case, reads `price_frac` or `pricefrac`;
/// every other text, the empty one included, selects `Fixed`.
pub proof fn bet_mode_reads_price_frac(raw: Seq<char>)
    ensures
        bet_mode_of(raw) == BetMode::PriceFrac <==> (ascii_lower(trim_spec(raw)) == "price_frac"@ || ascii_lower(
            trim_spec(raw),
        ) == "pricefrac"@),
        bet_mode_of(raw) == BetMode::Fixed <==> !(ascii_lower(trim_spec(raw)) == "price_frac"@ || ascii_lower(
            trim_spec(raw),
        ) == "pricefrac"@),
{
}

impl BetMode {
    /// `price_frac` / `pricefrac` (any ASCII case, surrounding white space
    /// ignored) selects `PriceFrac`; anything else is `Fixed`.
    pub fn parse(raw: &str) -> (mode: Self)
        ensures
            mode == bet_mode_of(raw@),
    {
        let trimmed = trim_str(raw);
        let key = ascii_lowercase(trimmed);
        if str_eq(key.as_str(), "price_frac") || str_eq(key.as_str(), "pricefrac") {
            BetMode::PriceFrac
        } else {
            BetMode::Fixed
        }
    }
}

#[derive(Debug, Clone, PartialEq)]
pub enum ConfigError {
    InvalidInitialCapital,
    InvalidFixedBetSize,
    InvalidPriceBetFrac,
    NegativeCommission,
    InvalidSlippage,
    LengthMismatch { field: &'static str, expected: usize, actual: usize },
    InvalidDirection { index: usize, value: i8 },
}

/// Every signal column must have one value per bar, checked in the order
/// entries, exits, directions.
pub fn validate_signal_lengths(n: usize, entries: &[bool], exits: &[bool], directions: &[i8]) -> (r: Result<(), ConfigError>)
    ensures
        entries@.len() != n ==> r == Err::<(), ConfigError>(
            ConfigError::LengthMismatch { field: "entries", expected: n, actual: entries@.len() as usize },
        ),
        entries@.len() == n && exits@.len() != n ==> r == Err::<(), ConfigError>(
            ConfigError::LengthMismatch { field: "exits", expected: n, actual: exits@.len() as usize },
        ),
        entries@.len() == n && exits@.len() == n && directions@.len() != n ==> r == Err::<(), ConfigError>(
            ConfigError::LengthMismatch { field: "directions", expected: n, actual: directions@.len() as usize },
        ),
        entries@.len() == n && exits@.len() == n && directions@.len() == n ==> r is Ok,
{
    if entries.len() != n {
        return Err(ConfigError::LengthMismatch { field: "entries", expected: n, actual: entries.len() });
    }
    if exits.len() != n {
        return Err(ConfigError::LengthMismatch { field: "exits", expected: n, actual: exits.len() });
    }
    if directions.len() != n {
        return Err(ConfigError::LengthMismatch { field: "directions", expected: n, actual: directions.len() });
    }
    Ok(())
}

pub open spec fn valid_direction(d: i8) -> bool {
    d == 1 || d == -1
}

/// The only valid directions are +1 (long) and -1 (short); 0 and every other
/// value are rejected.
pub proof fn valid_directions_are_long_and_short(d: i8)
    ensures
        valid_direction(d) <==> (d == 1 || d == -1),
        !valid_direction(0),
{
}

/// Every direction must be +1 (long) or -1 (short), on every bar, whether or
/// not the bar carries an entry; the first offending bar is reported.
pub fn validate_directions(directions: &[i8]) -> (r: Result<(), ConfigError>)
    ensures
        r is Ok <==> (forall|i: int| 0 <= i < directions@.len() ==> valid_direction(#[trigger] directions@[i])),
        r matches Err(e) ==> (e matches ConfigError::InvalidDirection { index, value } && {
            &&& index < directions@.len()
            &&& value == directions@[index as int]
            &&& !valid_direction(value)
            &&& forall|j: int| 0 <= j < index ==> valid_direction(#[trigger] directions@[j])
        }),
{
    let mut i: usize = 0;
    while i < directions.len()
        invariant
            0 <= i <= directions@.len(),
            forall|j: int| 0 <= j < i ==> valid_direction(#[trigger] directions@[j]),
        decreases directions@.len() - i,
    {
        let dir = directions[i];
        if dir != -1 && dir != 1 {
            return Err(ConfigError::InvalidDirection { index: i, value: dir });
        }
        i += 1;
    }
    Ok(())
}

/// A batch needs one exits list and one directions list per entries list.
pub fn validate_batch_lengths(entries_len: usize, exits_len: usize, directions_len: usize) -> (r: Result<(), ConfigError>)
    ensures
        (entries_len == exits_len && entries_len == directions_len) ==> r is Ok,
        !(entries_len == exits_len && entries_len == directions_len) ==> r == Err::<(), ConfigError>(
            ConfigError::LengthMismatch {
                field: "batch_signals",
                expected: entries_len,
                actual: if exits_len <= directions_len { exits_len } else { directions_len },
            },
        ),
{
    if entries_len != exits_len || entries_len != directions_len {
        let actual = if exits_len <= directions_len { exits_len } else { directions_len };
        return Err(ConfigError::LengthMismatch { field: "batch_signals", expected: entries_len, actual });
    }
    Ok(())
}

/// Sign of the slippage applied to a fill: buying (a long entry or a short
/// exit) fills above the raw price, selling fills below it.
pub fn adverse_slippage_sign(direction: i8, is_entry: bool) -> (sign: i8)
    ensures
        sign == if (direction > 0) == is_entry { 1i8 } else { -1i8 },
{
    if (direction > 0) == is_entry {
        1
    } else {
        -1
    }
}

/// Order scheduled by a signal on the prior bar.
#[derive(Debug, Clone, Copy, PartialEq, Eq, Structural)]
pub enum PendingFill {
    Idle,
    Entry { direction: i8 },
    Exit,
}

/// What the engine does at a bar's open.
#[derive(Debug, Clone, Copy, PartialEq, Eq, Structural)]
pub enum FillAction {
    /// Nothing fills at this open.
    Hold,
    /// A position in `direction` opens at this open.
    Open { direction: i8 },
    /// A scheduled entry could not be sized (no notional available).
    Skip,
    /// The open position closes at this open on its exit signal.
    Close,
}

/// Position and order state of the single-position engine between bars.
#[derive(Debug, Clone, Copy)]
pub struct PositionTracker {
    pub in_position: bool,
    pub direction: i8,
    pub entry_bar: usize,
    pub pending: PendingFill,
}

impl PositionTracker {
    /// An entry is only ever scheduled while flat, an exit only while in a
    /// position.
    pub open spec fn wf(self) -> bool {
        &&& (self.pending is Entry ==> !self.in_position)
        &&& (self.pending is Exit ==> self.in_position)
    }

    /// State after the fills at the open of `bar`; `sized` says whether a
    /// scheduled entry got a positive notional.
    pub open spec fn open_step(self, bar: usize, sized: bool) -> PositionTracker {
        match self.pending {
            PendingFill::Entry { direction } => if sized {
                PositionTracker { in_position: true, direction, entry_bar: bar, pending: PendingFill::Idle }
            } else {
                PositionTracker { pending: PendingFill::Idle, ..self }
            },
            PendingFill::Exit => PositionTracker { in_position: false, pending: PendingFill::Idle, ..self },
            PendingFill::Idle => self,
        }
    }

    pub open spec fn open_action(self, sized: bool) -> FillAction {
        match self.pending {
            PendingFill::Entry { direction } => if sized {
                FillAction::Open { direction }
            } else {
                FillAction::Skip
            },
            PendingFill::Exit => FillAction::Close,
            PendingFill::Idle => FillAction::Hold,
        }
    }

    /// State after the signals observed at the close of `bar` (of `n` bars).
    /// Exits are only scheduled in a position, entries only when flat with no
    /// order pending, and neither on the last bar, which has no next open.
    pub open spec fn close_step(self, bar: usize, n: usize, entry: bool, exit: bool, direction: i8) -> PositionTracker {
        if self.in_position {
            if exit && bar + 1 < n {
                PositionTracker { pending: PendingFill::Exit, ..self }
            } else {
                self
            }
        } else if self.pending == PendingFill::Idle && entry && bar + 1 < n {
            PositionTracker { pending: PendingFill::Entry { direction }, ..self }
        } else {
            self
        }
    }

    /// A flat engine with nothing scheduled.
    pub fn new() -> (t: Self)
        ensures
            t.wf(),
            !t.in_position,
            t.pending == PendingFill::Idle,
            t.direction == 1,
            t.entry_bar == 0,
    {
        PositionTracker { in_position: false, direction: 1, entry_bar: 0, pending: PendingFill::Idle }
    }

    /// Execute the order scheduled at the previous close at the open of `bar`.
    pub fn open_bar(&mut self, bar: usize, sized: bool) -> (action: FillAction)
        requires
            old(self).wf(),
        ensures
            final(self).wf(),
            *final(self) == old(self).open_step(bar, sized),
            action == old(self).open_action(sized),
            final(self).pending == PendingFill::Idle,
    {
        match self.pending {
            PendingFill::Entry { direction } => {
                self.pending = PendingFill::Idle;
                if sized {
                    self.in_position = true;
                    self.direction = direction;
                    self.entry_bar = bar;
                    FillAction::Open { direction }
                } else {
                    FillAction::Skip
                }
            },
            PendingFill::Exit => {
                self.pending = PendingFill::Idle;
                self.in_position = false;
                FillAction::Close
            },
            PendingFill::Idle => FillAction::Hold,
        }
    }

    /// Record the signals of the close of `bar`; fills happen at the next open.
    pub fn close_bar(&mut self, bar: usize, n: usize, entry: bool, exit: bool, direction: i8)
        requires
            old(self).wf(),
        ensures
            final(self).wf(),
            *final(self) == old(self).close_step(bar, n, entry, exit, direction),
    {
        let has_next = bar < n && n - bar > 1;
        if self.in_position {
            if exit && has_next {
                self.pending = PendingFill::Exit;
            }
        } else if self.pending == PendingFill::Idle && entry && has_next {
            self.pending = PendingFill::Entry { direction };
        }
    }

    /// After the last bar an open position is closed at the final close.
    pub fn finish(&mut self) -> (force_close: bool)
        requires
            old(self).wf(),
        ensures
            force_close == old(self).in_position,
            !final(self).in_position,
            final(self).pending == PendingFill::Idle,
            final(self).wf(),
            final(self).direction == old(self).direction,
            final(self).entry_bar == old(self).entry_bar,
    {
        let force_close = self.in_position;
        self.in_position = false;
        self.pending = PendingFill::Idle;
        force_close
    }
}

/// A sized entry opens a position in exactly the scheduled direction, with
/// the filling bar as its entry bar, whatever the state held before.
pub proof fn sized_entry_opens_in_scheduled_direction(t: PositionTracker, bar: usize, d: i8)
    requires
        t.pending == (PendingFill::Entry { direction: d }),
    ensures
        t.open_step(bar, true).in_position,
        t.open_step(bar, true).direction == d,
        t.open_step(bar, true).entry_bar == bar,
        t.open_step(bar, true).pending == PendingFill::Idle,
        t.open_action(true) == (FillAction::Open { direction: d }),
{
}

/// An entry that cannot be sized is dropped: nothing opens and the rest of the
/// state is kept.
pub proof fn unsized_entry_is_dropped(t: PositionTracker, bar: usize, d: i8)
    requires
        t.pending == (PendingFill::Entry { direction: d }),
    ensures
        t.open_step(bar, false).in_position == t.in_position,
        t.open_step(bar, false).direction == t.direction,
        t.open_step(bar, false).entry_bar == t.entry_bar,
        t.open_step(bar, false).pending == PendingFill::Idle,
        t.open_action(false) == FillAction::Skip,
{
}

/// A scheduled exit closes the position at the open and keeps its direction
/// and entry bar for the trade record; with nothing scheduled the open
/// changes nothing.
pub proof fn open_closes_or_holds(t: PositionTracker, bar: usize, sized: bool)
    ensures
        t.pending == PendingFill::Exit ==> !t.open_step(bar, sized).in_position,
        t.pending == PendingFill::Exit ==> t.open_step(bar, sized).direction == t.direction,
        t.pending == PendingFill::Exit ==> t.open_step(bar, sized).entry_bar == t.entry_bar,
        t.pending == PendingFill::Exit ==> t.open_step(bar, sized).pending == PendingFill::Idle,
        t.pending == PendingFill::Exit ==> t.open_action(sized) == FillAction::Close,
        t.pending == PendingFill::Idle ==> t.open_step(bar, sized) == t,
        t.pending == PendingFill::Idle ==> t.open_action(sized) == FillAction::Hold,
{
}

/// What the close of `bar` (of `n` bars) schedules: in a position an exit
/// signal schedules an exit when a next open exists; flat with nothing
/// pending an entry signal schedules an entry in the signalled direction when
/// a next open exists; the position itself never changes at a close, and in
/// every other case nothing is scheduled.
pub proof fn close_schedules_signal(t: PositionTracker, bar: usize, n: usize, entry: bool, exit: bool, d: i8)
    ensures
        t.close_step(bar, n, entry, exit, d).in_position == t.in_position,
        t.close_step(bar, n, entry, exit, d).direction == t.direction,
        t.close_step(bar, n, entry, exit, d).entry_bar == t.entry_bar,
        t.in_position && exit && bar + 1 < n ==> t.close_step(bar, n, entry, exit, d).pending == PendingFill::Exit,
        !t.in_position && t.pending == PendingFill::Idle && entry && bar + 1 < n ==> t.close_step(
            bar,
            n,
            entry,
            exit,
            d,
        ).pending == (PendingFill::Entry { direction: d }),
        !(t.in_position && exit && bar + 1 < n) && !(!t.in_position && t.pending == PendingFill::Idle && entry && bar
            + 1 < n) ==> t.close_step(bar, n, entry, exit, d) == t,
{
}

/// Entry signals are ignored while a position is open: the close of any bar
/// in a position can schedule an exit, never an entry.
pub proof fn entries_ignored_in_position(t: PositionTracker, bar: usize, n: usize, entry: bool, exit: bool, direction: i8)
    requires
        t.wf(),
        t.in_position,
    ensures
        !(t.close_step(bar, n, entry, exit, direction).pending is Entry),
{
}

/// The last bar has no next open, so its signals schedule nothing.
pub proof fn final_bar_schedules_nothing(t: PositionTracker, bar: usize, n: usize, entry: bool, exit: bool, direction: i8)
    requires
        bar + 1 >= n,
    ensures
        t.close_step(bar, n, entry, exit, direction) == t,
{
}

/// A signal on the close of bar `i` fills at the open of bar `i + 1`: with
/// nothing pending, the next open's action is exactly what the close asked
/// for (an exit, an entry in the signalled direction, or nothing).
pub proof fn signal_fills_at_next_open(t: PositionTracker, bar: usize, n: usize, entry: bool, exit: bool, direction: i8)
    requires
        t.wf(),
        t.pending == PendingFill::Idle,
        bar + 1 < n,
    ensures
        t.in_position ==> t.close_step(bar, n, entry, exit, direction).open_action(true) == if exit {
            FillAction::Close
        } else {
            FillAction::Hold
        },
        !t.in_position ==> t.close_step(bar, n, entry, exit, direction).open_action(true) == if entry {
            FillAction::Open { direction }
        } else {
            FillAction::Hold
        },
        (!t.in_position && entry) ==> t.close_step(bar, n, entry, exit, direction).open_step(
            (bar + 1) as usize,
            true,
        ).entry_bar == bar + 1,
{
}

/// The engine never holds a position that the signal state does not: when
/// every entry can be sized, the position after the next open equals the
/// signal builders' state update (`update_signal_position`) for that bar.
pub proof fn engine_matches_signal_state(t: PositionTracker, bar: usize, n: usize, entry: bool, exit: bool, direction: i8)
    requires
        t.wf(),
        t.pending == PendingFill::Idle,
        bar + 1 < n,
    ensures
        t.close_step(bar, n, entry, exit, direction).open_step((bar + 1) as usize, true).in_position
            == signal_position(t.in_position, entry, exit),
{
}


/// Engine state after the close of bar `i` when every scheduled entry can be
/// sized, starting flat with nothing pending.
pub open spec fn engine_after_close(entries: Seq<bool>, exits: Seq<bool>, directions: Seq<i8>, n: usize, i: nat) -> PositionTracker
    decreases i,
{
    let start = if i == 0 {
        PositionTracker { in_position: false, direction: 1, entry_bar: 0, pending: PendingFill::Idle }
    } else {
        engine_after_close(entries, exits, directions, n, (i - 1) as nat).open_step(i as usize, true)
    };
    start.close_step(i as usize, n, entries[i as int], exits[i as int], directions[i as int])
}

/// Position of the signal builders' single-position state after bar `i`.
pub open spec fn signal_state_after(entries: Seq<bool>, exits: Seq<bool>, i: nat) -> bool
    decreases i,
{
    let before = if i == 0 {
        false
    } else {
        signal_state_after(entries, exits, (i - 1) as nat)
    };
    signal_position(before, entries[i as int], exits[i as int])
}

proof fn lemma_engine_after_close_wf(entries: Seq<bool>, exits: Seq<bool>, directions: Seq<i8>, n: usize, i: nat)
    ensures
        engine_after_close(entries, exits, directions, n, i).wf(),
    decreases i,
{
    if i > 0 {
        lemma_engine_after_close_wf(entries, exits, directions, n, (i - 1) as nat);
    }
}

/// Over a whole run where every entry can be sized, the engine holds a
/// position at the open after bar `i` exactly when the signal builders'
/// position state says so after bar `i`: the engine opens no position that
/// the signals did not, and keeps none that they closed.
pub proof fn engine_follows_signal_state(entries: Seq<bool>, exits: Seq<bool>, directions: Seq<i8>, n: usize, i: nat)
    requires
        i + 1 < n,
        n <= entries.len(),
        n <= exits.len(),
        n <= directions.len(),
    ensures
        engine_after_close(entries, exits, directions, n, i).open_step((i + 1) as usize, true).in_position
            == signal_state_after(entries, exits, i),
    decreases i,
{
    let start = if i == 0 {
        PositionTracker { in_position: false, direction: 1, entry_bar: 0, pending: PendingFill::Idle }
    } else {
        engine_after_close(entries, exits, directions, n, (i - 1) as nat).open_step(i as usize, true)
    };
    if i > 0 {
        engine_follows_signal_state(entries, exits, directions, n, (i - 1) as nat);
        lemma_engine_after_close_wf(entries, exits, directions, n, (i - 1) as nat);
    }
    engine_matches_signal_state(start, i as usize, n, entries[i as int], exits[i as int], directions[i as int]);
}

} // verus!
