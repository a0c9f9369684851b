//! Signal buffers shared by the signal builders, and their position state.
use vstd::prelude::*;

verus! {

/// Single-position signal state after a bar: in a position it stays unless
/// the bar exits; flat it enters on an entry signal. An exit wins over an
/// entry on the same bar.
pub open spec fn signal_position(in_position: bool, entry: bool, exit: bool) -> bool {
    if in_position {
        !exit
    } else {
        entry
    }
}

/// The single-position rule: in a position only an exit matters and it
/// closes the position (an entry on the same bar does not re-open it); flat,
/// only an entry matters and it opens one.
pub proof fn signal_position_rules(entry: bool, exit: bool)
    ensures
        signal_position(true, entry, exit) == !exit,
        signal_position(false, entry, exit) == entry,
{
}

/// Mirror the engine's single-position signal state.
///
/// An exit from an existing position wins over an entry on the same bar, so a
/// signal builder cannot create a position that the engine never opened.
pub fn update_signal_position(in_position: bool, entry: bool, exit: bool) -> (r: bool)
    ensures
        r == signal_position(in_position, entry, exit),
{
    if in_position {
        !exit
    } else {
        entry
    }
}

} // verus!

verus! {

/// Per-bar signals of one genome: entry and exit flags and the entry
/// direction (+1 long, -1 short).
#[derive(Clone, Debug)]
pub struct SignalBuffers {
    pub entries: Vec<bool>,
    pub exits: Vec<bool>,
    pub directions: Vec<i8>,
}

/// `v` resized to `n`: cut to its first `n` values, or padded with `fill`.
pub open spec fn resized<T>(v: Seq<T>, n: nat, fill: T) -> Seq<T> {
    if n <= v.len() {
        v.take(n as int)
    } else {
        v + Seq::new((n - v.len()) as nat, |_i: int| fill)
    }
}

/// A resized column has exactly `n` values: the first ones are the old
/// values, and every value past the old length is `fill`.
pub proof fn resized_keeps_prefix<T>(v: Seq<T>, n: nat, fill: T)
    ensures
        resized(v, n, fill).len() == n,
        forall|i: int| 0 <= i < n && i < v.len() ==> #[trigger] resized(v, n, fill)[i] == v[i],
        forall|i: int| v.len() <= i < n ==> #[trigger] resized(v, n, fill)[i] == fill,
{
}

impl Default for SignalBuffers {
    fn default() -> (b: Self)
        ensures
            b.entries@.len() == 0,
            b.exits@.len() == 0,
            b.directions@.len() == 0,
    {
        SignalBuffers { entries: Vec::new(), exits: Vec::new(), directions: Vec::new() }
    }
}

impl SignalBuffers {
    /// Each column gets length `n`; new bars carry no entry, no exit and a
    /// long direction, existing bars keep their values.
    pub fn resize(&mut self, n: usize)
        ensures
            final(self).entries@ == resized(old(self).entries@, n as nat, false),
            final(self).exits@ == resized(old(self).exits@, n as nat, false),
            final(self).directions@ == resized(old(self).directions@, n as nat, 1i8),
    {
        self.entries.resize(n, false);
        self.exits.resize(n, false);
        self.directions.resize(n, 1);
        assert(self.entries@ =~= resized(old(self).entries@, n as nat, false));
        assert(self.exits@ =~= resized(old(self).exits@, n as nat, false));
        assert(self.directions@ =~= resized(old(self).directions@, n as nat, 1i8));
    }

    /// Store at bar `i` the signals of the last bar of `prefix` (a run on the
    /// bars up to and including `i`).
    pub fn record_last_bar(&mut self, i: usize, prefix: &SignalBuffers)
        requires
            i < old(self).entries@.len(),
            i < old(self).exits@.len(),
            i < old(self).directions@.len(),
            prefix.entries@.len() > 0,
            prefix.exits@.len() >= prefix.entries@.len(),
            prefix.directions@.len() >= prefix.entries@.len(),
        ensures
            final(self).entries@ == old(self).entries@.update(i as int, prefix.entries@.last()),
            final(self).exits@ == old(self).exits@.update(i as int, prefix.exits@[prefix.entries@.len() - 1]),
            final(self).directions@ == old(self).directions@.update(
                i as int,
                prefix.directions@[prefix.entries@.len() - 1],
            ),
    {
        let last = prefix.entries.len() - 1;
        self.entries.set(i, prefix.entries[last]);
        self.exits.set(i, prefix.exits[last]);
        self.directions.set(i, prefix.directions[last]);
    }
}

/// Whether bar `i` carries the same entry, exit and direction in both runs.
pub open spec fn same_signals_at(a: SignalBuffers, b: SignalBuffers, i: int) -> bool {
    &&& a.entries@[i] == b.entries@[i]
    &&& a.exits@[i] == b.exits@[i]
    &&& a.directions@[i] == b.directions@[i]
}

/// Two runs disagree at a bar exactly when its entry, its exit or its
/// direction differs between them; a direction-only difference counts.
pub proof fn signals_differ_at(a: SignalBuffers, b: SignalBuffers, i: int)
    ensures
        !same_signals_at(a, b, i) <==> (a.entries@[i] != b.entries@[i] || a.exits@[i] != b.exits@[i]
            || a.directions@[i] != b.directions@[i]),
{
}

/// Buffers cover `n` bars exactly when each of their columns holds at least
/// `n` values.
pub proof fn covers_every_column(b: SignalBuffers, n: nat)
    ensures
        covers(b, n) <==> (b.entries@.len() >= n && b.exits@.len() >= n && b.directions@.len() >= n),
{
}

pub open spec fn covers(b: SignalBuffers, n: nat) -> bool {
    &&& b.entries@.len() >= n
    &&& b.exits@.len() >= n
    &&& b.directions@.len() >= n
}

/// First of the `n` bars at which the causal (bar-by-bar) signals differ
/// from the batch signals; `None` when they agree on every bar.
pub fn first_signal_mismatch(n: usize, causal: &SignalBuffers, batch: &SignalBuffers) -> (r: Option<usize>)
    requires
        covers(*causal, n as nat),
        covers(*batch, n as nat),
    ensures
        r is None <==> (forall|i: int| 0 <= i < n ==> #[trigger] same_signals_at(*causal, *batch, i)),
        r matches Some(k) ==> k < n && !same_signals_at(*causal, *batch, k as int) && (forall|i: int|
            0 <= i < k ==> #[trigger] same_signals_at(*causal, *batch, i)),
{
    let mut i: usize = 0;
    while i < n
        invariant
            0 <= i <= n,
            covers(*causal, n as nat),
            covers(*batch, n as nat),
            forall|j: int| 0 <= j < i ==> #[trigger] same_signals_at(*causal, *batch, j),
        decreases n - i,
    {
        if causal.entries[i] != batch.entries[i] || causal.exits[i] != batch.exits[i]
            || causal.directions[i] != batch.directions[i] {
            assert(!same_signals_at(*causal, *batch, i as int));
            return Some(i);
        }
        i += 1;
    }
    None
}

/// `min(max(v, lo), hi)` on integers.
pub open spec fn clamp_int(v: int, lo: int, hi: int) -> int {
    let raised = if v >= lo { v } else { lo };
    if raised <= hi {
        raised
    } else {
        hi
    }
}

/// With `lo <= hi`, the clamped value lies in `[lo, hi]`, is `v` itself when
/// `v` does, and is the nearer bound otherwise.
pub proof fn clamp_int_bounds(v: int, lo: int, hi: int)
    requires
        lo <= hi,
    ensures
        lo <= clamp_int(v, lo, hi) <= hi,
        lo <= v <= hi ==> clamp_int(v, lo, hi) == v,
        v < lo ==> clamp_int(v, lo, hi) == lo,
        v > hi ==> clamp_int(v, lo, hi) == hi,
{
}

/// Clamp a signed genome value into `[min, max]` and return it as a `usize`
/// (`max` wins when `min > max`).
pub fn clamp_usize(v: i64, min: usize, max: usize) -> (r: usize)
    ensures
        min <= i64::MAX && max <= i64::MAX && min <= max ==> r as int == clamp_int(v as int, min as int, max as int)
            && min <= r <= max,
        min <= i64::MAX && max <= i64::MAX ==> r as int == clamp_int(v as int, min as int, max as int),
        r == clamp_int(v as int, (min as i64) as int, (max as i64) as int) as usize,
{
    let lo = min as i64;
    let hi = max as i64;
    let raised = if v >= lo { v } else { lo };
    let clamped = if raised <= hi { raised } else { hi };
    clamped as usize
}

/// Position state `(in_position, entry_bar)` before bar `i` of the
/// previous-high / time exit pass of indicator recipes.
pub open spec fn prev_high_exit_state(entries: Seq<bool>, above_prev_high: Seq<bool>, exits: Seq<bool>, max_bars: int, i: nat) -> (bool, int)
    decreases i,
{
    if i == 0 {
        (false, 0)
    } else {
        let k = (i - 1) as nat;
        let prev = prev_high_exit_state(entries, above_prev_high, exits, max_bars, k);
        let exit = prev_high_exit_flag_from(prev, above_prev_high, exits, max_bars, k);
        let now = signal_position(prev.0, entries[k as int], exit);
        (now, if !prev.0 && now { k as int } else { prev.1 })
    }
}

/// Exit flag of bar `k` given the position state before it: an exit already
/// on the bar, or, in a position, a close above the previous bar's high or a
/// holding time of `max_bars` bars (when `max_bars` is positive).
pub open spec fn prev_high_exit_flag_from(state: (bool, int), above_prev_high: Seq<bool>, exits: Seq<bool>, max_bars: int, k: nat) -> bool {
    exits[k as int] || (state.0 && (above_prev_high[k as int] || (max_bars > 0 && k - state.1 >= max_bars)))
}

pub open spec fn prev_high_exit_flag(entries: Seq<bool>, above_prev_high: Seq<bool>, exits: Seq<bool>, max_bars: int, i: nat) -> bool {
    prev_high_exit_flag_from(prev_high_exit_state(entries, above_prev_high, exits, max_bars, i), above_prev_high, exits, max_bars, i)
}

/// One bar of the previous-high / time exit pass, for every bar and every
/// `max_bars`: a flat bar keeps its exit flag as given and opens a position
/// exactly when it carries an entry, with that bar as the entry bar; a bar in
/// a position exits exactly when it already carried an exit, closes above the
/// previous bar's high, or (with a positive `max_bars`) has held the position
/// `max_bars` bars; a position that survives the bar keeps its entry bar.
pub proof fn prev_high_exit_step(entries: Seq<bool>, above_prev_high: Seq<bool>, exits: Seq<bool>, max_bars: int, i: nat)
    ensures
        !prev_high_exit_state(entries, above_prev_high, exits, max_bars, i).0 ==> prev_high_exit_flag(
            entries,
            above_prev_high,
            exits,
            max_bars,
            i,
        ) == exits[i as int],
        !prev_high_exit_state(entries, above_prev_high, exits, max_bars, i).0 ==> prev_high_exit_state(
            entries,
            above_prev_high,
            exits,
            max_bars,
            i + 1,
        ).0 == entries[i as int],
        !prev_high_exit_state(entries, above_prev_high, exits, max_bars, i).0 && entries[i as int]
            ==> prev_high_exit_state(entries, above_prev_high, exits, max_bars, i + 1).1 == i,
        prev_high_exit_state(entries, above_prev_high, exits, max_bars, i).0 ==> prev_high_exit_flag(
            entries,
            above_prev_high,
            exits,
            max_bars,
            i,
        ) == (exits[i as int] || above_prev_high[i as int] || (max_bars > 0 && i - prev_high_exit_state(
            entries,
            above_prev_high,
            exits,
            max_bars,
            i,
        ).1 >= max_bars)),
        prev_high_exit_state(entries, above_prev_high, exits, max_bars, i).0 ==> prev_high_exit_state(
            entries,
            above_prev_high,
            exits,
            max_bars,
            i + 1,
        ).0 == !prev_high_exit_flag(entries, above_prev_high, exits, max_bars, i),
        prev_high_exit_state(entries, above_prev_high, exits, max_bars, i).0 ==> prev_high_exit_state(
            entries,
            above_prev_high,
            exits,
            max_bars,
            i + 1,
        ).1 == prev_high_exit_state(entries, above_prev_high, exits, max_bars, i).1,
{
}

/// Whatever the time limit, a bar that starts in a position and closes above
/// the previous bar's high exits it.
pub proof fn prev_high_break_always_exits(entries: Seq<bool>, above_prev_high: Seq<bool>, exits: Seq<bool>, max_bars: int, i: nat)
    requires
        prev_high_exit_state(entries, above_prev_high, exits, max_bars, i).0,
        above_prev_high[i as int],
    ensures
        prev_high_exit_flag(entries, above_prev_high, exits, max_bars, i),
        !prev_high_exit_state(entries, above_prev_high, exits, max_bars, i + 1).0,
{
}

/// A position entered on bar `e` whose later bars carry no exit and no close
/// above the previous high is held until, and exits exactly on, bar
/// `e + max_bars`.
pub proof fn prev_high_time_exit_at_limit(
    entries: Seq<bool>,
    above_prev_high: Seq<bool>,
    exits: Seq<bool>,
    max_bars: int,
    e: nat,
    j: nat,
)
    requires
        max_bars >= 1,
        !prev_high_exit_state(entries, above_prev_high, exits, max_bars, e).0,
        entries[e as int],
        e < j <= e + max_bars,
        forall|k: int| e < k <= e + max_bars ==> !#[trigger] exits[k] && !above_prev_high[k],
    ensures
        prev_high_exit_state(entries, above_prev_high, exits, max_bars, j) == (true, e as int),
        prev_high_exit_flag(entries, above_prev_high, exits, max_bars, j) == (j == e + max_bars),
    decreases j,
{
    if j > e + 1 {
        prev_high_time_exit_at_limit(entries, above_prev_high, exits, max_bars, e, (j - 1) as nat);
    }
}

/// With `max_bars == 0` there is no time limit: a position without an exit
/// signal or a close above the previous high is kept.
pub proof fn prev_high_no_time_limit(entries: Seq<bool>, above_prev_high: Seq<bool>, exits: Seq<bool>, i: nat)
    requires
        prev_high_exit_state(entries, above_prev_high, exits, 0, i).0,
        !exits[i as int],
        !above_prev_high[i as int],
    ensures
        !prev_high_exit_flag(entries, above_prev_high, exits, 0, i),
        prev_high_exit_state(entries, above_prev_high, exits, 0, i + 1).0,
{
}

/// Exit a position on the first bar that closes above the previous bar's high
/// (`above_prev_high`) or that has held the position `max_bars` bars
/// (`max_bars == 0` disables the time limit); over the first `n` bars.
pub fn build_prev_high_or_time_exits(n: usize, entries: &[bool], max_bars: usize, above_prev_high: &[bool], exits: &mut [bool])
    requires
        entries@.len() >= n,
        above_prev_high@.len() >= n,
        old(exits)@.len() >= n,
    ensures
        final(exits)@.len() == old(exits)@.len(),
        forall|i: int|
            0 <= i < n ==> #[trigger] final(exits)@[i] == prev_high_exit_flag(
                entries@,
                above_prev_high@,
                old(exits)@,
                max_bars as int,
                i as nat,
            ),
        forall|i: int| n <= i < old(exits)@.len() ==> #[trigger] final(exits)@[i] == old(exits)@[i],
{
    let ghost orig = exits@;
    let mut in_pos = false;
    let mut entry_i: usize = 0;
    let mut i: usize = 0;
    while i < n
        invariant
            entries@.len() >= n,
            above_prev_high@.len() >= n,
            0 <= i <= n,
            exits@.len() == orig.len(),
            orig.len() >= n,
            (in_pos, entry_i as int) == prev_high_exit_state(entries@, above_prev_high@, orig, max_bars as int, i as nat),
            entry_i <= i,
            forall|j: int|
                0 <= j < i ==> #[trigger] exits@[j] == prev_high_exit_flag(entries@, above_prev_high@, orig, max_bars as int, j as nat),
            forall|j: int| i <= j < orig.len() ==> #[trigger] exits@[j] == orig[j],
        decreases n - i,
    {
        let was_in_pos = in_pos;
        if in_pos {
            let held = i - entry_i;
            if above_prev_high[i] || (max_bars > 0 && held >= max_bars) {
                exits[i] = true;
            }
        }
        in_pos = update_signal_position(was_in_pos, entries[i], exits[i]);
        if !was_in_pos && in_pos {
            entry_i = i;
        }
        i += 1;
    }
}

/// Ultimate Oscillator periods from raw genome values: the short period in
/// `[2, 200]`, the middle one above it and at most 300, the long one above
/// the middle one and at most 400.
pub fn uo_periods(p1_raw: i64, p2_raw: i64, p3_raw: i64) -> (periods: (usize, usize, usize))
    ensures
        periods.0 as int == clamp_int(p1_raw as int, 2, 200),
        periods.1 as int == clamp_int(p2_raw as int, periods.0 + 1, 300),
        periods.2 as int == clamp_int(p3_raw as int, periods.1 + 1, 400),
        2 <= periods.0 < periods.1 < periods.2 <= 400,
{
    let p1 = clamp_usize(p1_raw, 2, 200);
    let p2 = clamp_usize(p2_raw, p1 + 1, 300);
    let p3 = clamp_usize(p3_raw, p2 + 1, 400);
    (p1, p2, p3)
}

} // verus!

