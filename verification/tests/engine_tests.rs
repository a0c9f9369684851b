use engine_core::data::{check_lengths, check_ohlcv_shape, DataError};
use engine_core::engine::{
    adverse_slippage_sign, validate_batch_lengths, validate_directions, validate_signal_lengths, BetMode,
    ConfigError, FillAction, PendingFill, PositionTracker,
};

#[test]
fn bet_mode_parse() {
    assert_eq!(BetMode::parse("price_frac"), BetMode::PriceFrac);
    assert_eq!(BetMode::parse("  PriceFrac \n"), BetMode::PriceFrac);
    assert_eq!(BetMode::parse("PRICE_FRAC"), BetMode::PriceFrac);
    assert_eq!(BetMode::parse("fixed"), BetMode::Fixed);
    assert_eq!(BetMode::parse("price frac"), BetMode::Fixed);
    assert_eq!(BetMode::parse(""), BetMode::Fixed);
}

#[test]
fn adverse_sign_for_every_fill_side() {
    assert_eq!(adverse_slippage_sign(1, true), 1);
    assert_eq!(adverse_slippage_sign(1, false), -1);
    assert_eq!(adverse_slippage_sign(-1, true), -1);
    assert_eq!(adverse_slippage_sign(-1, false), 1);
}

#[test]
fn signal_lengths_checked_in_order() {
    assert_eq!(validate_signal_lengths(1, &[], &[], &[]), Err(ConfigError::LengthMismatch {
        field: "entries",
        expected: 1,
        actual: 0,
    }));
    assert_eq!(validate_signal_lengths(1, &[true], &[], &[]), Err(ConfigError::LengthMismatch {
        field: "exits",
        expected: 1,
        actual: 0,
    }));
    assert_eq!(validate_signal_lengths(1, &[true], &[false], &[1, 1]), Err(ConfigError::LengthMismatch {
        field: "directions",
        expected: 1,
        actual: 2,
    }));
    assert_eq!(validate_signal_lengths(1, &[true], &[false], &[1]), Ok(()));
}

#[test]
fn invalid_direction_rejected() {
    assert_eq!(validate_directions(&[2]), Err(ConfigError::InvalidDirection { index: 0, value: 2 }));
    assert_eq!(validate_directions(&[1, 0]), Err(ConfigError::InvalidDirection { index: 1, value: 0 }));
    assert_eq!(validate_directions(&[1, -1, 1]), Ok(()));
    assert_eq!(validate_directions(&[]), Ok(()));
}

#[test]
fn batch_lengths() {
    assert_eq!(validate_batch_lengths(2, 2, 2), Ok(()));
    assert_eq!(validate_batch_lengths(3, 2, 4), Err(ConfigError::LengthMismatch {
        field: "batch_signals",
        expected: 3,
        actual: 2,
    }));
}

/// Drive the tracker over bars as the engine does, every entry sized.
fn schedule(entries: &[bool], exits: &[bool], directions: &[i8]) -> Vec<(usize, usize, i8, &'static str)> {
    let n = entries.len();
    let mut t = PositionTracker::new();
    let mut trades = Vec::new();
    for i in 0..n {
        if i > 0 {
            match t.open_bar(i, true) {
                FillAction::Close => trades.push((t.entry_bar, i, t.direction, "signal")),
                _ => {}
            }
        }
        t.close_bar(i, n, entries[i], exits[i], directions[i]);
    }
    let (entry_bar, direction) = (t.entry_bar, t.direction);
    if t.finish() {
        trades.push((entry_bar, n - 1, direction, "force_close"));
    }
    trades
}

#[test]
fn schedule_fills_at_next_open() {
    assert_eq!(schedule(&[true, false, false], &[false, false, true], &[1, 1, 1]), vec![(1, 2, 1, "force_close")]);
    assert_eq!(schedule(&[true, false, false], &[false, true, false], &[1, 1, 1]), vec![(1, 2, 1, "signal")]);
}

#[test]
fn schedule_ignores_final_bar_entry() {
    assert!(schedule(&[false, true], &[false, false], &[1, 1]).is_empty());
}

#[test]
fn schedule_ignores_entry_in_position() {
    let trades = schedule(&[true, true, false, false], &[false, false, true, false], &[1, -1, 1, 1]);
    assert_eq!(trades, vec![(1, 3, 1, "signal")]);
}

#[test]
fn short_entry_direction_is_kept() {
    assert_eq!(schedule(&[true, false, false], &[false, true, false], &[-1, 1, 1]), vec![(1, 2, -1, "signal")]);
}

#[test]
fn unsized_entry_is_skipped() {
    let mut t = PositionTracker::new();
    t.close_bar(0, 3, true, false, 1);
    assert_eq!(t.pending, PendingFill::Entry { direction: 1 });
    assert_eq!(t.open_bar(1, false), FillAction::Skip);
    assert!(!t.in_position);
    assert_eq!(t.pending, PendingFill::Idle);
    t.close_bar(1, 3, true, false, -1);
    assert_eq!(t.open_bar(2, true), FillAction::Open { direction: -1 });
    assert_eq!(t.entry_bar, 2);
    assert!(t.finish());
}

#[test]
fn exit_wins_over_entry_in_position() {
    let mut t = PositionTracker::new();
    t.close_bar(0, 4, true, false, 1);
    t.open_bar(1, true);
    t.close_bar(1, 4, true, true, -1);
    assert_eq!(t.pending, PendingFill::Exit);
    assert_eq!(t.open_bar(2, true), FillAction::Close);
    assert!(!t.finish());
}

#[test]
fn ohlcv_shape_errors() {
    assert_eq!(check_ohlcv_shape(0, 0, 0, 0, 0, 0), Err(DataError::Empty));
    assert_eq!(check_ohlcv_shape(2, 1, 2, 2, 2, 2), Err(DataError::LengthMismatch {
        field: "timestamp",
        expected: 2,
        actual: 1,
    }));
    assert_eq!(check_ohlcv_shape(2, 2, 2, 3, 2, 1), Err(DataError::LengthMismatch {
        field: "low",
        expected: 2,
        actual: 3,
    }));
    assert_eq!(check_ohlcv_shape(2, 2, 2, 2, 2, 1), Err(DataError::LengthMismatch {
        field: "volume",
        expected: 2,
        actual: 1,
    }));
    assert_eq!(check_ohlcv_shape(2, 2, 2, 2, 2, 2), Ok(()));
}

#[test]
fn session_days_length_checked() {
    assert_eq!(check_lengths(3, &[("session_days", 2)]), Err(DataError::LengthMismatch {
        field: "session_days",
        expected: 3,
        actual: 2,
    }));
    assert_eq!(check_lengths(3, &[("session_days", 3)]), Ok(()));
}

#[test]
fn invalid_direction_on_non_entry_bar_rejected() {
    assert_eq!(validate_signal_lengths(2, &[true, false], &[false, false], &[1, 0]), Ok(()));
    assert_eq!(validate_directions(&[1, 0]), Err(ConfigError::InvalidDirection { index: 1, value: 0 }));
}

#[test]
fn schedule_force_closes_open_position() {
    assert_eq!(schedule(&[true, false], &[false, false], &[1, 1]), vec![(1, 1, 1, "force_close")]);
    assert_eq!(schedule(&[true, false, false], &[false, false, false], &[-1, 1, 1]), vec![(1, 2, -1, "force_close")]);
}

#[test]
fn penultimate_exit_fills_at_last_open() {
    assert_eq!(schedule(&[true, false, false], &[false, true, false], &[1, 1, 1]), vec![(1, 2, 1, "signal")]);
}
