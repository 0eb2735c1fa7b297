use ferro_core::background::{
    catchup_cursor, catchup_step, retention_cutoff, snooze_command, sync_interval_seconds, CatchupLap,
    CatchupNext,
};

#[test]
fn sync_interval_falls_back_to_five_minutes() {
    assert_eq!(sync_interval_seconds(Some(15)), 900);
    assert_eq!(sync_interval_seconds(Some(0)), 300);
    assert_eq!(sync_interval_seconds(Some(-3)), 300);
    assert_eq!(sync_interval_seconds(None), 300);
}

#[test]
fn retention_cutoff_is_unlimited_for_zero_days() {
    assert_eq!(retention_cutoff(0, 1_000_000), None);
    assert_eq!(retention_cutoff(-1, 1_000_000), None);
    assert_eq!(retention_cutoff(2, 1_000_000), Some(1_000_000 - 2 * 86400));
}

#[test]
fn snooze_command_refuses_unknown_presets() {
    assert_eq!(snooze_command(None, 5), Ok(None));
    assert_eq!(snooze_command(Some("1d"), 5), Ok(Some(5 + 86400)));
    assert_eq!(snooze_command(Some("1w"), 0), Ok(Some(604800)));
    assert_eq!(snooze_command(Some("2y"), 0), Err("unknown snooze preset: 2y".to_string()));
}

#[test]
fn periodic_catchup_cursor_moves_on_and_wraps() {
    assert_eq!(catchup_cursor(0, Some((3, Some(40)))), (40, 3));
    assert_eq!(catchup_cursor(40, Some((1, None))), (0, 1));
    assert_eq!(catchup_cursor(40, None), (40, 0));
}

#[test]
fn startup_catchup_stops_after_an_idle_lap() {
    let mut lap = CatchupLap { after_id: 0, indexed_this_lap: 0 };
    assert_eq!(catchup_step(&mut lap, Some((5, Some(10)))), CatchupNext::Continue);
    assert_eq!(lap, CatchupLap { after_id: 10, indexed_this_lap: 5 });
    assert_eq!(catchup_step(&mut lap, None), CatchupNext::RetryLater);
    assert_eq!(catchup_step(&mut lap, Some((0, None))), CatchupNext::Continue);
    assert_eq!(lap, CatchupLap { after_id: 0, indexed_this_lap: 0 });
    assert_eq!(catchup_step(&mut lap, Some((0, None))), CatchupNext::Finished);
}
