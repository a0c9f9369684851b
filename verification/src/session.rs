//! Session-day indexing of bars from UTC timestamps.
use std::sync::Arc;
use vstd::prelude::*;

use crate::recipe::{nth_or_zero, Recipe};
use crate::text::str_eq;

verus! {

/// Seconds in one UTC day.
pub open spec fn day_secs() -> int {
    86400
}

/// Integer division as Rust computes it on signed values (rounds toward zero).
pub open spec fn trunc_div(a: int, d: int) -> int {
    if a >= 0 {
        a / d
    } else {
        -((-a) / d)
    }
}

/// Remainder as Rust's `%` computes it on signed values (sign of the dividend).
pub open spec fn trunc_rem(a: int, d: int) -> int {
    a - d * trunc_div(a, d)
}

/// Whole UTC seconds of a nanosecond timestamp.
pub open spec fn ns_to_sec(t: i64) -> int {
    trunc_div(t as int, 1_000_000_000)
}

/// Start (UTC seconds) of the session window that the first bar falls in or
/// after: the configured session open on the first bar's UTC calendar day, one
/// day earlier when the first bar comes before that open.
pub open spec fn session_anchor(first_sec: int, hour: int, minute: int) -> int {
    let first_day = first_sec - trunc_rem(first_sec, day_secs());
    let start = first_day + hour * 3600 + minute * 60;
    if first_sec < start {
        start - day_secs()
    } else {
        start
    }
}

/// Index of the whole-day window after `anchor` that `sec` falls in (floor).
pub open spec fn window_index(sec: int, anchor: int) -> int {
    (sec - anchor) / day_secs()
}

pub open spec fn max_int(a: int, b: int) -> int {
    if a >= b {
        a
    } else {
        b
    }
}

/// Session day of bar `i`: the largest window index reached by any bar up to
/// and including `i`, and never below 0. Day indices never move backward.
pub open spec fn session_day(ts: Seq<i64>, anchor: int, i: nat) -> int
    decreases i,
{
    if i == 0 {
        max_int(0, window_index(ns_to_sec(ts[0]), anchor))
    } else {
        max_int(session_day(ts, anchor, (i - 1) as nat), window_index(ns_to_sec(ts[i as int]), anchor))
    }
}

/// The anchor that `compute_session_days` uses for a non-empty series.
pub open spec fn series_anchor(ts: Seq<i64>, hour: i32, minute: i32) -> int {
    session_anchor(ns_to_sec(ts[0]), hour as int, minute as int)
}

/// Full specification of `compute_session_days`.
pub open spec fn session_days_spec(ts: Seq<i64>, hour: i32, minute: i32, days: Seq<i32>) -> bool {
    &&& days.len() == ts.len()
    &&& forall|i: int|
        0 <= i < ts.len() ==> #[trigger] days[i] as int == session_day(ts, series_anchor(ts, hour, minute), i as nat)
}

proof fn lemma_ns_to_sec_bounds(t: i64)
    ensures
        -9_223_372_037 <= ns_to_sec(t) <= 9_223_372_037,
{
}

proof fn lemma_window_at(sec: int, anchor: int, k: int)
    requires
        anchor + k * 86400 <= sec < anchor + (k + 1) * 86400,
    ensures
        window_index(sec, anchor) == k,
{
    assert((sec - anchor) / 86400 == k) by (nonlinear_arith)
        requires
            k * 86400 <= sec - anchor < (k + 1) * 86400,
    ;
}

proof fn lemma_window_below(sec: int, anchor: int, k: int)
    requires
        sec < anchor + (k + 1) * 86400,
    ensures
        window_index(sec, anchor) <= k,
{
    assert((sec - anchor) / 86400 <= k) by (nonlinear_arith)
        requires
            sec - anchor < (k + 1) * 86400,
    ;
}

/// Session day index per bar from UTC nanosecond timestamps and the session
/// open (`utc_start_hour`:`utc_start_min`, UTC). A new index starts each time a
/// bar reaches the next session open after the anchor of the first bar.
pub fn compute_session_days(timestamps_ns: &[i64], utc_start_hour: i32, utc_start_min: i32) -> (days: Vec<i32>)
    ensures
        session_days_spec(timestamps_ns@, utc_start_hour, utc_start_min, days@),
{
    let n = timestamps_ns.len();
    let mut days: Vec<i32> = Vec::with_capacity(n);
    if n == 0 {
        return days;
    }
    let seconds_per_day: i64 = 86400;
    let first_sec = timestamps_ns[0] / 1_000_000_000;
    proof {
        lemma_ns_to_sec_bounds(timestamps_ns[0]);
    }
    let first_day_sec = first_sec - (first_sec % seconds_per_day);
    let session_start_sec = first_day_sec + (utc_start_hour as i64 * 3600 + utc_start_min as i64 * 60);
    let mut current_start = if first_sec < session_start_sec {
        session_start_sec - seconds_per_day
    } else {
        session_start_sec
    };
    let ghost anchor: int = series_anchor(timestamps_ns@, utc_start_hour, utc_start_min);
    assert(current_start as int == anchor);
    let mut current_day_idx: i32 = 0;
    let mut i: usize = 0;
    while i < n
        invariant
            n == timestamps_ns@.len(),
            n > 0,
            0 <= i <= n,
            seconds_per_day == 86400,
            anchor == series_anchor(timestamps_ns@, utc_start_hour, utc_start_min),
            anchor >= -7_900_000_000_000,
            anchor <= 9_223_372_037 + 7_900_000_000_000,
            days@.len() == i,
            current_start as int == anchor + current_day_idx * 86400,
            0 <= current_day_idx <= 100_000_000,
            current_day_idx > 0 ==> current_start <= 9_223_372_037,
            i == 0 ==> current_day_idx == 0,
            i > 0 ==> current_day_idx as int == session_day(timestamps_ns@, anchor, (i - 1) as nat),
            forall|j: int|
                0 <= j < i ==> #[trigger] days@[j] as int == session_day(timestamps_ns@, anchor, j as nat),
        decreases n - i,
    {
        let ts_sec = timestamps_ns[i] / 1_000_000_000;
        proof {
            lemma_ns_to_sec_bounds(timestamps_ns[i as int]);
        }
        let ghost prev_idx: int = current_day_idx as int;
        while ts_sec >= current_start + seconds_per_day
            invariant
                anchor >= -7_900_000_000_000,
                anchor <= 9_223_372_037 + 7_900_000_000_000,
                -9_223_372_037 <= ts_sec <= 9_223_372_037,
                current_start as int == anchor + current_day_idx * 86400,
                0 <= current_day_idx <= 100_000_000,
                current_day_idx > 0 ==> current_start <= 9_223_372_037,
                prev_idx <= current_day_idx,
                current_day_idx > prev_idx ==> current_start <= ts_sec,
                seconds_per_day == 86400,
            decreases ts_sec - current_start,
        {
            current_start += seconds_per_day;
            current_day_idx += 1;
            assert(current_day_idx <= 100_000_000) by (nonlinear_arith)
                requires
                    current_start as int == anchor + current_day_idx * 86400,
                    current_start <= 9_223_372_037,
                    anchor >= -7_900_000_000_000,
            ;
        }
        proof {
            let sec = ns_to_sec(timestamps_ns@[i as int]);
            assert(sec == ts_sec as int);
            if current_day_idx > prev_idx {
                lemma_window_at(sec, anchor, current_day_idx as int);
            } else {
                lemma_window_below(sec, anchor, prev_idx);
            }
        }
        days.push(current_day_idx);
        i += 1;
    }
    days
}


proof fn lemma_session_day_monotone(ts: Seq<i64>, anchor: int, i: nat, j: nat)
    requires
        i <= j,
    ensures
        session_day(ts, anchor, i) <= session_day(ts, anchor, j),
    decreases j - i,
{
    if i < j {
        lemma_session_day_monotone(ts, anchor, i, (j - 1) as nat);
    }
}

/// Session day indices never decrease along the series, whatever the
/// timestamps hold.
pub proof fn session_days_never_decrease(
    ts: Seq<i64>,
    hour: i32,
    minute: i32,
    days: Seq<i32>,
    i: int,
    j: int,
)
    requires
        session_days_spec(ts, hour, minute, days),
        0 <= i <= j < ts.len(),
    ensures
        days[i] <= days[j],
{
    lemma_session_day_monotone(ts, series_anchor(ts, hour, minute), i as nat, j as nat);
}

/// With a session open at or after midnight UTC (a non-negative offset), the
/// first bar always belongs to session day 0.
pub proof fn first_bar_is_session_day_zero(ts: Seq<i64>, hour: i32, minute: i32, days: Seq<i32>)
    requires
        session_days_spec(ts, hour, minute, days),
        ts.len() > 0,
        hour * 3600 + minute * 60 >= 0,
    ensures
        days[0] == 0,
{
    let sec = ns_to_sec(ts[0]);
    let anchor = series_anchor(ts, hour, minute);
    let first_day = sec - trunc_rem(sec, 86400);
    assert(sec - 86400 < first_day <= sec + 86400) by (nonlinear_arith)
        requires
            first_day == sec - trunc_rem(sec, 86400),
            trunc_rem(sec, 86400) == sec - 86400 * trunc_div(sec, 86400),
            trunc_div(sec, 86400) == (if sec >= 0 { sec / 86400 } else { -((-sec) / 86400) }),
    ;
    assert(sec < anchor + 86400);
    lemma_window_below(sec, anchor, 0);
}

proof fn lemma_sorted_session_day(ts: Seq<i64>, anchor: int, i: nat)
    requires
        i < ts.len(),
        forall|a: int, b: int| 0 <= a <= b < ts.len() ==> ns_to_sec(#[trigger] ts[a]) <= ns_to_sec(#[trigger] ts[b]),
    ensures
        session_day(ts, anchor, i) == max_int(0, window_index(ns_to_sec(ts[i as int]), anchor)),
    decreases i,
{
    if i > 0 {
        lemma_sorted_session_day(ts, anchor, (i - 1) as nat);
        let p = ns_to_sec(ts[i - 1]);
        let q = ns_to_sec(ts[i as int]);
        assert((p - anchor) / 86400 <= (q - anchor) / 86400) by (nonlinear_arith)
            requires
                p <= q,
        ;
    }
}

/// On time-ordered bars, a bar's session day is the number of whole days
/// between the anchor session open and the bar (0 before the anchor): two bars
/// share a day exactly when no session open lies between them.
pub proof fn sorted_bars_follow_session_windows(ts: Seq<i64>, hour: i32, minute: i32, days: Seq<i32>, i: int)
    requires
        session_days_spec(ts, hour, minute, days),
        0 <= i < ts.len(),
        forall|a: int, b: int| 0 <= a <= b < ts.len() ==> ns_to_sec(#[trigger] ts[a]) <= ns_to_sec(#[trigger] ts[b]),
    ensures
        days[i] as int == max_int(0, window_index(ns_to_sec(ts[i]), series_anchor(ts, hour, minute))),
{
    lemma_sorted_session_day(ts, series_anchor(ts, hour, minute), i as nat);
}

/// For timestamps from 1970 on, the anchor is the session open (at
/// `hour`:`minute` UTC, an offset within the day) that the first bar falls on
/// or after, within one day: the latest such open at or before the first bar.
pub proof fn anchor_is_last_session_open_before_first_bar(ts: Seq<i64>, hour: i32, minute: i32)
    requires
        ts.len() > 0,
        ns_to_sec(ts[0]) >= 0,
        0 <= hour * 3600 + minute * 60 < 86400,
    ensures
        series_anchor(ts, hour, minute) <= ns_to_sec(ts[0]) < series_anchor(ts, hour, minute) + 86400,
        (series_anchor(ts, hour, minute) - (hour * 3600 + minute * 60)) % 86400 == 0,
{
    let sec = ns_to_sec(ts[0]);
    let q = sec / 86400;
    let off = hour * 3600 + minute * 60;
    assert(0 <= sec - 86400 * q < 86400) by (nonlinear_arith)
        requires
            sec >= 0,
            q == sec / 86400,
    ;
    assert(trunc_rem(sec, 86400) == sec - 86400 * q);
    let a = series_anchor(ts, hour, minute);
    assert(a == 86400 * q + off || a == 86400 * (q - 1) + off);
    if a == 86400 * q + off {
        assert((a - off) % 86400 == 0) by (nonlinear_arith)
            requires
                a - off == 86400 * q,
        ;
    } else {
        assert((a - off) % 86400 == 0) by (nonlinear_arith)
            requires
                a - off == 86400 * (q - 1),
        ;
    }
}

/// On time-ordered bars from 1970 on, a bar that lies `k` whole days (and
/// less than `k + 1`) after the anchor session open is in session day `k`.
pub proof fn sorted_bar_day_is_whole_days_after_anchor(
    ts: Seq<i64>,
    hour: i32,
    minute: i32,
    days: Seq<i32>,
    i: int,
    k: int,
)
    requires
        session_days_spec(ts, hour, minute, days),
        0 <= i < ts.len(),
        k >= 0,
        forall|a: int, b: int| 0 <= a <= b < ts.len() ==> ns_to_sec(#[trigger] ts[a]) <= ns_to_sec(#[trigger] ts[b]),
        series_anchor(ts, hour, minute) + k * 86400 <= ns_to_sec(ts[i]) < series_anchor(ts, hour, minute) + (k + 1)
            * 86400,
    ensures
        days[i] == k,
{
    let a = series_anchor(ts, hour, minute);
    lemma_sorted_session_day(ts, a, i as nat);
    lemma_window_at(ns_to_sec(ts[i]), a, k);
}

/// Session day per bar: a new day starts whenever the gap to the previous bar
/// exceeds the threshold (never below 60 s).
pub open spec fn gap_day(ts: Seq<i64>, gap: int, i: nat) -> int
    decreases i,
{
    if i == 0 {
        0
    } else {
        gap_day(ts, gap, (i - 1) as nat) + if ns_to_sec(ts[i as int]) - ns_to_sec(ts[i - 1]) > gap {
            1int
        } else {
            0int
        }
    }
}

pub open spec fn effective_gap(min_gap_secs: i64) -> int {
    if min_gap_secs >= 60 {
        min_gap_secs as int
    } else {
        60
    }
}

proof fn lemma_gap_day_bounds(ts: Seq<i64>, gap: int, i: nat)
    ensures
        0 <= gap_day(ts, gap, i) <= i,
    decreases i,
{
    if i > 0 {
        lemma_gap_day_bounds(ts, gap, (i - 1) as nat);
    }
}

/// Gap-separated session days start at 0 and move by one step at most per
/// bar: bar `i` starts a new day exactly when it comes more than `gap`
/// seconds after bar `i - 1`, and otherwise shares that bar's day. The
/// threshold is `min_gap_secs`, raised to 60 seconds.
pub proof fn gap_days_step(ts: Seq<i64>, gap: int, i: nat, min_gap_secs: i64)
    ensures
        gap_day(ts, gap, 0) == 0,
        i > 0 && ns_to_sec(ts[i as int]) - ns_to_sec(ts[i - 1]) > gap ==> gap_day(ts, gap, i) == gap_day(
            ts,
            gap,
            (i - 1) as nat,
        ) + 1,
        i > 0 && ns_to_sec(ts[i as int]) - ns_to_sec(ts[i - 1]) <= gap ==> gap_day(ts, gap, i) == gap_day(
            ts,
            gap,
            (i - 1) as nat,
        ),
        effective_gap(min_gap_secs) >= 60,
        min_gap_secs >= 60 ==> effective_gap(min_gap_secs) == min_gap_secs,
        min_gap_secs < 60 ==> effective_gap(min_gap_secs) == 60,
{
}

/// A timestamp from 1970 on falls in the whole second `ns_to_sec` names.
pub proof fn ns_to_sec_is_whole_second(t: i64)
    requires
        t >= 0,
    ensures
        ns_to_sec(t) * 1_000_000_000 <= t < (ns_to_sec(t) + 1) * 1_000_000_000,
{
    let q = ns_to_sec(t);
    assert(q * 1_000_000_000 <= t < (q + 1) * 1_000_000_000) by (nonlinear_arith)
        requires
            t >= 0,
            q == (t as int) / 1_000_000_000,
    ;
}

/// Session day index per bar for sessions separated by gaps in the bar
/// timestamps (nanoseconds): the index grows by one after every gap longer
/// than `min_gap_secs` (at least 60 seconds).
pub fn session_days_from_gaps(timestamps_ns: &[i64], min_gap_secs: i64) -> (days: Vec<i32>)
    requires
        timestamps_ns@.len() <= i32::MAX,
    ensures
        days@.len() == timestamps_ns@.len(),
        forall|i: int|
            0 <= i < days@.len() ==> #[trigger] days@[i] as int == gap_day(
                timestamps_ns@,
                effective_gap(min_gap_secs),
                i as nat,
            ),
{
    let n = timestamps_ns.len();
    let mut days: Vec<i32> = Vec::with_capacity(n);
    if n == 0 {
        return days;
    }
    let gap = if min_gap_secs >= 60 { min_gap_secs } else { 60 };
    let ghost g = effective_gap(min_gap_secs);
    let mut idx: i32 = 0;
    days.push(0);
    let mut i: usize = 1;
    while i < n
        invariant
            n == timestamps_ns@.len(),
            n <= i32::MAX,
            1 <= i <= n,
            gap as int == g,
            days@.len() == i,
            idx as int == gap_day(timestamps_ns@, g, (i - 1) as nat),
            forall|j: int| 0 <= j < i ==> #[trigger] days@[j] as int == gap_day(timestamps_ns@, g, j as nat),
        decreases n - i,
    {
        proof {
            lemma_gap_day_bounds(timestamps_ns@, g, (i - 1) as nat);
            lemma_ns_to_sec_bounds(timestamps_ns[i as int - 1]);
            lemma_ns_to_sec_bounds(timestamps_ns[i as int]);
        }
        let prev = timestamps_ns[i - 1] / 1_000_000_000;
        let cur = timestamps_ns[i] / 1_000_000_000;
        if cur - prev > gap {
            idx += 1;
        }
        days.push(idx);
        i += 1;
    }
    days
}


/// Per-run context shared by the signal builders of one batch.
#[derive(Clone, Debug)]
pub struct BatchContext {
    pub session_days: Option<Arc<Vec<i32>>>,
}

impl Default for BatchContext {
    fn default() -> (c: Self)
        ensures
            c.session_days is None,
    {
        BatchContext { session_days: None }
    }
}

/// Session days a plugin recipe works with, when no days come with the data.
pub open spec fn derived_session_days<V>(recipe: Recipe<V>, timestamps_ns: Seq<i64>, days: Seq<i32>) -> bool {
    let spec = recipe.plugin.unwrap();
    if spec.plugin_type@ == "vwap_trend"@ {
        &&& days.len() == timestamps_ns.len()
        &&& forall|i: int|
            0 <= i < days.len() ==> #[trigger] days[i] as int == gap_day(timestamps_ns, effective_gap(14_400), i as nat)
    } else {
        session_days_spec(
            timestamps_ns,
            nth_or_zero(spec.session_utc_start@, 0),
            nth_or_zero(spec.session_utc_start@, 1),
            days,
        )
    }
}

impl BatchContext {
    /// Session days for a batch: none for indicator recipes; for plugin
    /// recipes the days supplied with the data when there are any, otherwise
    /// days from bar gaps (at least four hours) for `vwap_trend`, and days from
    /// the plugin's session open for every other plugin.
    pub fn for_recipe<V>(data_session_days: Option<&Vec<i32>>, recipe: &Recipe<V>, timestamps_ns: &[i64]) -> (ctx: Self)
        requires
            timestamps_ns@.len() <= i32::MAX,
        ensures
            recipe.plugin is None ==> ctx.session_days is None,
            recipe.plugin is Some ==> ctx.session_days is Some,
            recipe.plugin is Some && data_session_days is Some ==> ctx.session_days.unwrap()@
                == data_session_days.unwrap()@,
            recipe.plugin is Some && data_session_days is None ==> derived_session_days(
                *recipe,
                timestamps_ns@,
                ctx.session_days.unwrap()@,
            ),
    {
        match &recipe.plugin {
            None => BatchContext { session_days: None },
            Some(spec) => {
                if let Some(days) = data_session_days {
                    let copy = days.clone();
                    assert(copy@ =~= days@);
                    return BatchContext { session_days: Some(Arc::new(copy)) };
                }
                if str_eq(spec.plugin_type.as_str(), "vwap_trend") {
                    return BatchContext { session_days: Some(Arc::new(session_days_from_gaps(timestamps_ns, 14_400))) };
                }
                let start = &spec.session_utc_start;
                let h = if start.len() > 0 { start[0] } else { 0 };
                let m = if start.len() > 1 { start[1] } else { 0 };
                BatchContext { session_days: Some(Arc::new(compute_session_days(timestamps_ns, h, m))) }
            },
        }
    }
}

} // verus!
