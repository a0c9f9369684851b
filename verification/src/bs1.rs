//! Plugin configuration and time-based exits of the BS1 breakout strategy.
use vstd::prelude::*;

use crate::recipe::{nth_or_zero, PluginSpec};
use crate::runtime::{signal_position, update_signal_position};
use crate::text::{ascii_lower, eq_ignore_ascii_case, str_eq};

verus! {

#[derive(Debug, Clone, Copy, PartialEq, Eq, Structural)]
pub enum BS1ExitMethod {
    OppositeDonchian,
    ChandelierAtr,
    TimeOnly,
    /// Exit when close reclaims the POI anchor (through poi back toward entry).
    ReclaimPoi,
}

#[derive(Debug, Clone, Copy)]
pub struct BS1PluginConfig {
    pub direction: i8,
    pub exit_method: BS1ExitMethod,
    pub session_utc_start_hour: i32,
    pub session_utc_start_min: i32,
}

/// Exit method named by the plugin's `exit_method` label; unknown labels mean
/// the opposite Donchian channel.
pub open spec fn exit_method_of(label: Seq<char>) -> BS1ExitMethod {
    if label == "chandelier_atr"@ {
        BS1ExitMethod::ChandelierAtr
    } else if label == "time_only"@ {
        BS1ExitMethod::TimeOnly
    } else if label == "reclaim_poi"@ {
        BS1ExitMethod::ReclaimPoi
    } else {
        BS1ExitMethod::OppositeDonchian
    }
}

/// Each exit method is chosen by exactly its own label, and every other label
/// (the empty one included) means the opposite Donchian channel.
pub proof fn exit_method_by_label(label: Seq<char>)
    ensures
        exit_method_of(label) == BS1ExitMethod::ChandelierAtr <==> label == "chandelier_atr"@,
        exit_method_of(label) == BS1ExitMethod::TimeOnly <==> label == "time_only"@,
        exit_method_of(label) == BS1ExitMethod::ReclaimPoi <==> label == "reclaim_poi"@,
        exit_method_of(label) == BS1ExitMethod::OppositeDonchian <==> (label != "chandelier_atr"@ && label
            != "time_only"@ && label != "reclaim_poi"@),
{
    reveal_strlit("chandelier_atr");
    reveal_strlit("time_only");
    reveal_strlit("reclaim_poi");
    assert("chandelier_atr"@.len() == 14);
    assert("time_only"@.len() == 9);
    assert("reclaim_poi"@.len() == 11);
}

/// Read the plugin section: direction `short` (any ASCII case) trades short,
/// anything else long; the session open is `[hour, minute]` with missing
/// values read as 0.
pub fn config_from_spec(spec: &PluginSpec) -> (cfg: BS1PluginConfig)
    ensures
        cfg.direction == if ascii_lower(spec.direction@) == ascii_lower("short"@) { -1i8 } else { 1i8 },
        cfg.exit_method == exit_method_of(spec.exit_method@),
        cfg.session_utc_start_hour == nth_or_zero(spec.session_utc_start@, 0),
        cfg.session_utc_start_min == nth_or_zero(spec.session_utc_start@, 1),
{
    let direction: i8 = if eq_ignore_ascii_case(spec.direction.as_str(), "short") {
        -1
    } else {
        1
    };
    let label = spec.exit_method.as_str();
    let exit_method = if str_eq(label, "chandelier_atr") {
        BS1ExitMethod::ChandelierAtr
    } else if str_eq(label, "time_only") {
        BS1ExitMethod::TimeOnly
    } else if str_eq(label, "reclaim_poi") {
        BS1ExitMethod::ReclaimPoi
    } else {
        BS1ExitMethod::OppositeDonchian
    };
    let start = &spec.session_utc_start;
    let hour = if start.len() > 0 { start[0] } else { 0 };
    let minute = if start.len() > 1 { start[1] } else { 0 };
    BS1PluginConfig { direction, exit_method, session_utc_start_hour: hour, session_utc_start_min: minute }
}

/// Position state `(in_position, entry_bar)` before bar `i` of a time-exit
/// pass: a bar exits when it carried an exit already or when the position has
/// been held `max_bars` bars; entries open a position only when flat.
pub open spec fn time_exit_state(entries: Seq<bool>, exits: Seq<bool>, max_bars: int, i: nat) -> (bool, int)
    decreases i,
{
    if i == 0 {
        (false, 0)
    } else {
        let k = (i - 1) as nat;
        let prev = time_exit_state(entries, exits, max_bars, k);
        let held = if k >= prev.1 { k - prev.1 } else { 0 };
        let exit = exits[k as int] || (prev.0 && held >= max_bars);
        let now = signal_position(prev.0, entries[k as int], exit);
        (now, if !prev.0 && now { k as int } else { prev.1 })
    }
}

/// Exit flag of bar `i` after a time-exit pass.
pub open spec fn time_exit_flag(entries: Seq<bool>, exits: Seq<bool>, max_bars: int, i: nat) -> bool {
    let st = time_exit_state(entries, exits, max_bars, i);
    let held = if i >= st.1 { i - st.1 } else { 0 };
    exits[i as int] || (st.0 && held >= max_bars)
}

/// Mark an exit on every bar where a position has been held `max_bars` bars
/// (counted from its entry bar); other bars keep their flags.
pub fn build_time_exits(entries: &[bool], max_bars: usize, exits: &mut [bool])
    requires
        old(exits)@.len() >= entries@.len(),
    ensures
        final(exits)@.len() == old(exits)@.len(),
        forall|i: int|
            0 <= i < entries@.len() ==> #[trigger] final(exits)@[i] == time_exit_flag(
                entries@,
                old(exits)@,
                max_bars as int,
                i as nat,
            ),
        forall|i: int| entries@.len() <= i < old(exits)@.len() ==> #[trigger] final(exits)@[i] == old(exits)@[i],
{
    let n = entries.len();
    let ghost orig = exits@;
    let mut in_pos = false;
    let mut entry_i: usize = 0;
    let mut i: usize = 0;
    while i < n
        invariant
            n == entries@.len(),
            0 <= i <= n,
            exits@.len() == orig.len(),
            orig.len() >= n,
            (in_pos, entry_i as int) == time_exit_state(entries@, orig, max_bars as int, i as nat),
            entry_i <= i,
            forall|j: int| 0 <= j < i ==> #[trigger] exits@[j] == time_exit_flag(entries@, orig, max_bars as int, j as nat),
            forall|j: int| i <= j < orig.len() ==> #[trigger] exits@[j] == orig[j],
        decreases n - i,
    {
        let was_in_pos = in_pos;
        if in_pos && i.saturating_sub(entry_i) >= max_bars {
            exits[i] = true;
        }
        in_pos = update_signal_position(was_in_pos, entries[i], exits[i]);
        if !was_in_pos && in_pos {
            entry_i = i;
        }
        i += 1;
    }
}

proof fn lemma_time_exit_state_bounds(entries: Seq<bool>, exits: Seq<bool>, max_bars: int, i: nat)
    requires
        max_bars >= 0,
    ensures
        0 <= time_exit_state(entries, exits, max_bars, i).1 <= i,
        time_exit_state(entries, exits, max_bars, i).0 ==> time_exit_state(entries, exits, max_bars, i).1 < i,
        time_exit_state(entries, exits, max_bars, i).0 ==> i - time_exit_state(entries, exits, max_bars, i).1
            <= if max_bars >= 1 { max_bars } else { 1 },
    decreases i,
{
    if i > 0 {
        lemma_time_exit_state_bounds(entries, exits, max_bars, (i - 1) as nat);
    }
}

/// No position outlives its time limit: a position that is open when bar `i`
/// starts was entered before bar `i` and at most `max_bars` bars earlier (one
/// bar when `max_bars` is 0), so the time exit fires by bar `entry + max_bars`.
pub proof fn time_exit_bounds_holding(entries: Seq<bool>, exits: Seq<bool>, max_bars: int, i: nat)
    requires
        max_bars >= 0,
        time_exit_state(entries, exits, max_bars, i).0,
    ensures
        time_exit_state(entries, exits, max_bars, i).1 < i,
        i - time_exit_state(entries, exits, max_bars, i).1 <= if max_bars >= 1 { max_bars } else { 1 },
{
    lemma_time_exit_state_bounds(entries, exits, max_bars, i);
}

/// A bar that exits a position leaves the pass flat, even when it also
/// carries an entry: no re-entry on the exit bar.
pub proof fn time_exit_no_same_bar_reentry(entries: Seq<bool>, exits: Seq<bool>, max_bars: int, i: nat)
    requires
        time_exit_state(entries, exits, max_bars, i).0,
        time_exit_flag(entries, exits, max_bars, i),
    ensures
        !time_exit_state(entries, exits, max_bars, i + 1).0,
{
}

/// One bar of the time-exit pass, for every bar: a flat bar keeps its exit
/// flag as given and opens a position exactly when it carries an entry, with
/// that bar as the entry bar; a bar in a position exits exactly when it
/// already carried an exit or the position has been held `max_bars` bars
/// since its entry bar, and a position that survives the bar keeps its entry
/// bar, whatever entry signals the bar carries.
pub proof fn time_exit_step(entries: Seq<bool>, exits: Seq<bool>, max_bars: int, i: nat)
    requires
        max_bars >= 0,
    ensures
        !time_exit_state(entries, exits, max_bars, i).0 ==> time_exit_flag(entries, exits, max_bars, i) == exits[i as int],
        !time_exit_state(entries, exits, max_bars, i).0 ==> time_exit_state(entries, exits, max_bars, i + 1).0
            == entries[i as int],
        !time_exit_state(entries, exits, max_bars, i).0 && entries[i as int] ==> time_exit_state(
            entries,
            exits,
            max_bars,
            i + 1,
        ).1 == i,
        time_exit_state(entries, exits, max_bars, i).0 ==> time_exit_flag(entries, exits, max_bars, i) == (exits[i as int]
            || i - time_exit_state(entries, exits, max_bars, i).1 >= max_bars),
        time_exit_state(entries, exits, max_bars, i).0 ==> time_exit_state(entries, exits, max_bars, i + 1).0 == !time_exit_flag(
            entries,
            exits,
            max_bars,
            i,
        ),
        time_exit_state(entries, exits, max_bars, i).0 ==> time_exit_state(entries, exits, max_bars, i + 1).1
            == time_exit_state(entries, exits, max_bars, i).1,
{
    lemma_time_exit_state_bounds(entries, exits, max_bars, i);
}

/// A position entered on bar `e` with no exit signal of its own on the bars
/// after it is held until, and exits exactly on, bar `e + max_bars`: every
/// bar in between is in the position entered on `e` and carries no exit.
pub proof fn time_exit_fires_at_limit(entries: Seq<bool>, exits: Seq<bool>, max_bars: int, e: nat, j: nat)
    requires
        max_bars >= 1,
        !time_exit_state(entries, exits, max_bars, e).0,
        entries[e as int],
        e < j <= e + max_bars,
        forall|k: int| e < k <= e + max_bars ==> !#[trigger] exits[k],
    ensures
        time_exit_state(entries, exits, max_bars, j) == (true, e as int),
        time_exit_flag(entries, exits, max_bars, j) == (j == e + max_bars),
    decreases j,
{
    if j > e + 1 {
        time_exit_fires_at_limit(entries, exits, max_bars, e, (j - 1) as nat);
    }
}

/// Whether a position is open after bar `i` of the opposite-channel exit
/// pass: a break of the opposite channel closes an open position, and an
/// entry opens one only on a bar that started flat, so the pass never
/// re-enters on the bar it exits.
pub open spec fn channel_exit_in_position(entries: Seq<bool>, breaks_channel: Seq<bool>, i: nat) -> bool
    decreases i,
{
    let before = if i == 0 {
        false
    } else {
        channel_exit_in_position(entries, breaks_channel, (i - 1) as nat)
    };
    signal_position(before, entries[i as int], before && breaks_channel[i as int])
}

/// Whether a position is open when bar `i` starts.
pub open spec fn channel_exit_open_before(entries: Seq<bool>, breaks_channel: Seq<bool>, i: nat) -> bool {
    i > 0 && channel_exit_in_position(entries, breaks_channel, (i - 1) as nat)
}

/// One bar of the opposite-channel exit pass: a flat bar opens a position
/// exactly when it carries an entry; a bar in a position stays in it exactly
/// when it does not break the opposite channel.
pub proof fn channel_exit_step(entries: Seq<bool>, breaks_channel: Seq<bool>, i: nat)
    ensures
        !channel_exit_open_before(entries, breaks_channel, i) ==> channel_exit_in_position(entries, breaks_channel, i)
            == entries[i as int],
        channel_exit_open_before(entries, breaks_channel, i) ==> channel_exit_in_position(entries, breaks_channel, i)
            == !breaks_channel[i as int],
        channel_exit_open_before(entries, breaks_channel, i + 1) == channel_exit_in_position(entries, breaks_channel, i),
        !channel_exit_open_before(entries, breaks_channel, 0),
{
}

/// Mark an exit on every bar that breaks the opposite channel
/// (`breaks_channel`, worked out per bar for the trade direction) while a
/// position is open; over the first `n` bars.
pub fn build_opposite_donchian_exits(n: usize, entries: &[bool], breaks_channel: &[bool], exits: &mut [bool])
    requires
        entries@.len() >= n,
        breaks_channel@.len() >= n,
        old(exits)@.len() >= n,
    ensures
        final(exits)@.len() == old(exits)@.len(),
        forall|i: int|
            0 <= i < n ==> #[trigger] final(exits)@[i] == (old(exits)@[i] || (channel_exit_open_before(
                entries@,
                breaks_channel@,
                i as nat,
            ) && breaks_channel@[i])),
        forall|i: int| n <= i < old(exits)@.len() ==> #[trigger] final(exits)@[i] == old(exits)@[i],
{
    let ghost orig = exits@;
    let mut in_pos = false;
    let mut i: usize = 0;
    while i < n
        invariant
            entries@.len() >= n,
            breaks_channel@.len() >= n,
            0 <= i <= n,
            exits@.len() == orig.len(),
            orig.len() >= n,
            in_pos == channel_exit_open_before(entries@, breaks_channel@, i as nat),
            forall|j: int|
                0 <= j < i ==> #[trigger] exits@[j] == (orig[j] || (channel_exit_open_before(
                    entries@,
                    breaks_channel@,
                    j as nat,
                ) && breaks_channel@[j])),
            forall|j: int| i <= j < orig.len() ==> #[trigger] exits@[j] == orig[j],
        decreases n - i,
    {
        let breaks = in_pos && breaks_channel[i];
        if breaks {
            exits[i] = true;
        }
        in_pos = update_signal_position(in_pos, entries[i], breaks);
        i += 1;
    }
}

/// A bar that breaks the opposite channel while a position is open leaves the
/// pass flat, even when it also carries an entry: no re-entry on the exit bar.
pub proof fn channel_exit_no_same_bar_reentry(entries: Seq<bool>, breaks_channel: Seq<bool>, i: nat)
    requires
        channel_exit_open_before(entries, breaks_channel, i),
        breaks_channel[i as int],
    ensures
        !channel_exit_in_position(entries, breaks_channel, i),
{
}

/// A filter series delayed by `bias` bars: bar `i` reads bar `i - bias`, and
/// the first `bias` bars, which have no earlier bar, read themselves.
pub fn lag_filter(values: &[bool], bias: usize) -> (out: Vec<bool>)
    ensures
        out@.len() == values@.len(),
        forall|i: int|
            0 <= i < values@.len() ==> #[trigger] out@[i] == if i >= bias { values@[i - bias] } else { values@[i] },
{
    let n = values.len();
    let mut out: Vec<bool> = Vec::with_capacity(n);
    let mut i: usize = 0;
    while i < n
        invariant
            n == values@.len(),
            0 <= i <= n,
            out@.len() == i,
            forall|j: int| 0 <= j < i ==> #[trigger] out@[j] == if j >= bias { values@[j - bias] } else { values@[j] },
        decreases n - i,
    {
        let src = if i >= bias { i - bias } else { i };
        out.push(values[src]);
        i += 1;
    }
    out
}

} // verus!

