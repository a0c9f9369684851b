use engine_core::position::{retest_phase, HeldPosition, RetestPhase};

#[test]
fn flat_position_opens_on_entry() {
    let mut pos = HeldPosition::flat();
    assert!(!pos.in_pos);
    assert!(pos.enter(5, -1));
    assert_eq!(pos, HeldPosition { in_pos: true, dir: -1, entry_bar: 5 });
}

#[test]
fn entry_while_held_is_ignored() {
    let mut pos = HeldPosition::flat();
    assert!(pos.enter(3, 1));
    assert!(!pos.enter(4, -1));
    assert_eq!(pos, HeldPosition { in_pos: true, dir: 1, entry_bar: 3 });
}

#[test]
fn held_bars_count_from_entry() {
    let mut pos = HeldPosition::flat();
    pos.enter(10, 1);
    assert_eq!(pos.held(10), 0);
    assert_eq!(pos.held(17), 7);
    assert_eq!(pos.held(4), 0);
}

#[test]
fn exit_step_closes_on_rule_or_time_limit() {
    let mut pos = HeldPosition::flat();
    pos.enter(2, 1);
    // Held 3 bars of 4: only the rule can close it.
    assert!(!pos.exit_step(5, false, 4));
    assert!(pos.in_pos);
    // Held 4 bars: the time limit closes it whatever the rule says.
    assert!(pos.exit_step(6, false, 4));
    assert!(!pos.in_pos);
    assert_eq!((pos.dir, pos.entry_bar), (1, 2));

    let mut ruled = HeldPosition::flat();
    ruled.enter(2, -1);
    assert!(ruled.exit_step(3, true, 100));
    assert!(!ruled.in_pos);
}

#[test]
fn exit_step_on_flat_pass_does_nothing() {
    let mut pos = HeldPosition::flat();
    assert!(!pos.exit_step(50, true, 0));
    assert_eq!(pos, HeldPosition::flat());
}

#[test]
fn time_limit_holds_for_every_later_bar() {
    for max_hold in 0..6usize {
        for i in 7..20usize {
            let mut pos = HeldPosition::flat();
            pos.enter(7, 1);
            let exit = pos.exit_step(i, false, max_hold);
            assert_eq!(exit, i >= 7 + max_hold, "max_hold {max_hold}, bar {i}");
        }
    }
}

#[test]
fn new_session_flattens_an_open_position() {
    let mut pos = HeldPosition::flat();
    assert!(!pos.close_on_new_session());
    pos.enter(8, -1);
    assert!(pos.close_on_new_session());
    assert!(!pos.in_pos);
    assert_eq!((pos.dir, pos.entry_bar), (-1, 8));
}

#[test]
fn retest_window_phases() {
    // Armed on bar 10 with a window of 3 bars.
    assert_eq!(retest_phase(10, 10, 3), RetestPhase::ArmBar);
    assert_eq!(retest_phase(11, 10, 3), RetestPhase::Open);
    assert_eq!(retest_phase(13, 10, 3), RetestPhase::Open);
    assert_eq!(retest_phase(14, 10, 3), RetestPhase::Expired);
    // A bar before the arming bar counts as the arming bar.
    assert_eq!(retest_phase(9, 10, 3), RetestPhase::ArmBar);
    // A window of 0 bars expires right after the arming bar.
    assert_eq!(retest_phase(11, 10, 0), RetestPhase::Expired);
}
