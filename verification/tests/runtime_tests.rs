use engine_core::bs1::{build_opposite_donchian_exits, build_time_exits, lag_filter};
use engine_core::recipe::list_strategy_ids;
use engine_core::runtime::{
    build_prev_high_or_time_exits, clamp_usize, first_signal_mismatch, update_signal_position, SignalBuffers,
};

#[test]
fn exit_prevents_same_bar_simulated_reentry() {
    assert!(!update_signal_position(true, true, true));
}

#[test]
fn flat_state_accepts_entry() {
    assert!(update_signal_position(false, true, false));
}

#[test]
fn position_state_truth_table() {
    assert!(update_signal_position(true, false, false));
    assert!(update_signal_position(true, true, false));
    assert!(!update_signal_position(true, false, true));
    assert!(!update_signal_position(false, false, false));
    assert!(!update_signal_position(false, false, true));
    assert!(update_signal_position(false, true, true));
}

#[test]
fn time_exit_cannot_reenter_on_same_bar() {
    let entries = [true, true, false];
    let mut exits = [false; 3];
    build_time_exits(&entries, 1, &mut exits);
    assert_eq!(exits, [false, true, false]);
}

#[test]
fn time_exit_after_max_bars_then_reenters_next_bar() {
    let entries = [true, false, false, false, true, false, false, false];
    let mut exits = [false; 8];
    build_time_exits(&entries, 3, &mut exits);
    assert_eq!(exits, [false, false, false, true, false, false, false, true]);
}

#[test]
fn time_exit_keeps_existing_exits_and_tail() {
    let entries = [true, false, false, true, false];
    let mut exits = [false, true, false, false, false, true];
    build_time_exits(&entries, 10, &mut exits);
    assert_eq!(exits, [false, true, false, false, false, true]);
}

#[test]
fn time_exit_zero_bars_exits_next_bar() {
    let entries = [true, false, true, false];
    let mut exits = [false; 4];
    build_time_exits(&entries, 0, &mut exits);
    assert_eq!(exits, [false, true, false, true]);
}

#[test]
fn list_strategies_is_sorted_and_unique() {
    let ids = list_strategy_ids();
    let mut sorted = ids.clone();
    sorted.sort();
    sorted.dedup();
    assert_eq!(ids, sorted);
}

#[test]
fn builtin_strategy_ids_listed() {
    let ids = list_strategy_ids();
    assert_eq!(ids.len(), 11);
    assert_eq!(ids[0], "BS1_breakout");
    assert_eq!(ids[1], "donchian_atr");
    assert_eq!(ids[10], "zlema_retrace");
}

#[test]
fn breakout_levels_are_not_tick_rounded() {
    let poi: f64 = 100.03;
    let atr: f64 = 0.17;
    let mult: f64 = 1.3;
    let level = poi + mult * atr;
    assert!((level - 100.251).abs() < 1e-12);
    assert_ne!(level, (level / 0.25).round() * 0.25);
}

#[test]
fn resize_pads_with_flat_long_bars() {
    let mut b = SignalBuffers::default();
    b.entries.push(true);
    b.resize(3);
    assert_eq!(b.entries, vec![true, false, false]);
    assert_eq!(b.exits, vec![false, false, false]);
    assert_eq!(b.directions, vec![1, 1, 1]);
    b.resize(1);
    assert_eq!(b.entries, vec![true]);
    assert_eq!(b.directions, vec![1]);
}

fn buffers(entries: Vec<bool>, exits: Vec<bool>, directions: Vec<i8>) -> SignalBuffers {
    SignalBuffers { entries, exits, directions }
}

#[test]
fn first_signal_mismatch_finds_earliest_bar() {
    let batch = buffers(vec![true, false, false], vec![false, true, false], vec![1, 1, 1]);
    let same = batch.clone();
    assert_eq!(first_signal_mismatch(3, &same, &batch), None);
    let dir_diff = buffers(vec![true, false, false], vec![false, true, false], vec![1, 1, -1]);
    assert_eq!(first_signal_mismatch(3, &dir_diff, &batch), Some(2));
    let exit_diff = buffers(vec![true, false, false], vec![false, false, true], vec![1, 1, -1]);
    assert_eq!(first_signal_mismatch(3, &exit_diff, &batch), Some(1));
    assert_eq!(first_signal_mismatch(1, &exit_diff, &batch), None);
}

#[test]
fn record_last_bar_copies_prefix_tail() {
    let mut causal = buffers(vec![false; 3], vec![false; 3], vec![1; 3]);
    let prefix = buffers(vec![false, true], vec![false, true], vec![1, -1]);
    causal.record_last_bar(1, &prefix);
    assert_eq!(causal.entries, vec![false, true, false]);
    assert_eq!(causal.exits, vec![false, true, false]);
    assert_eq!(causal.directions, vec![1, -1, 1]);
}

#[test]
fn clamp_usize_bounds() {
    assert_eq!(clamp_usize(-5, 2, 200), 2);
    assert_eq!(clamp_usize(14, 2, 200), 14);
    assert_eq!(clamp_usize(999, 2, 200), 200);
    assert_eq!(clamp_usize(5, 10, 3), 3);
}

#[test]
fn prev_high_or_time_exits() {
    let entries = [true, false, false, false, true, false, false];
    let above = [false, false, true, false, false, false, false];
    let mut exits = [false; 7];
    build_prev_high_or_time_exits(7, &entries, 0, &above, &mut exits);
    assert_eq!(exits, [false, false, true, false, false, false, false]);
    let mut timed = [false; 7];
    build_prev_high_or_time_exits(7, &entries, 2, &[false; 7], &mut timed);
    assert_eq!(timed, [false, false, true, false, false, false, true]);
    // A pre-set exit flag does not stop an entry on a flat bar.
    let mut pre = [true, false, false];
    build_prev_high_or_time_exits(3, &[true, true, false], 0, &[false, false, true], &mut pre);
    assert_eq!(pre, [true, false, true]);
}

#[test]
fn opposite_donchian_exits_never_reenter_on_exit_bar() {
    let entries = [true, false, true, false, false];
    let breaks = [true, false, true, true, false];
    let mut exits = [false; 5];
    build_opposite_donchian_exits(5, &entries, &breaks, &mut exits);
    // The entry on the exit bar is ignored, so the break on bar 3 finds the
    // pass flat and marks nothing.
    assert_eq!(exits, [false, false, true, false, false]);
    // An entry on a later flat bar opens a new position.
    let mut again = [false; 5];
    build_opposite_donchian_exits(5, &[true, false, true, true, false], &[false, true, true, false, true], &mut again);
    assert_eq!(again, [false, true, false, false, true]);
}

#[test]
fn lag_filter_delays_by_bias() {
    let v = [true, false, false, true, false, true];
    assert_eq!(lag_filter(&v, 4), vec![true, false, false, true, true, false]);
    assert_eq!(lag_filter(&v, 0), v.to_vec());
    assert!(lag_filter(&[], 4).is_empty());
}

#[test]
fn uo_periods_strictly_increase() {
    use_uo(7, 14, 28, (7, 14, 28));
    use_uo(1, 1, 1, (2, 3, 4));
    use_uo(500, 500, 500, (200, 300, 400));
    use_uo(10, 5, 11, (10, 11, 12));
}

fn use_uo(a: i64, b: i64, c: i64, expected: (usize, usize, usize)) {
    assert_eq!(engine_core::runtime::uo_periods(a, b, c), expected);
}
