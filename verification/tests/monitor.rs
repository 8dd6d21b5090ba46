//! When monitors look at their clocks, and when they end a call.

use hyperlight_js::sandbox::monitor::{cpu_time_pause, wall_clock_pause, watch_step, Watch};

#[test]
fn the_wall_clock_is_looked_at_when_the_limit_is_due() {
    assert_eq!(wall_clock_pause(5_000, 0), Some(5_000));
    assert_eq!(wall_clock_pause(5_000, 4_999), Some(1));
    assert_eq!(wall_clock_pause(5_000, 5_000), None);
    assert_eq!(wall_clock_pause(5_000, 9_000), None);
}

#[test]
fn the_cpu_clock_is_looked_at_more_often_towards_the_limit() {
    assert_eq!(cpu_time_pause(500_000, 0), Some(10_000));
    assert_eq!(cpu_time_pause(500_000, 490_000), Some(5_000));
    assert_eq!(cpu_time_pause(500_000, 499_999), Some(1_000));
    assert_eq!(cpu_time_pause(500_000, 500_000), None);
}

#[test]
fn any_monitor_ends_the_call() {
    assert_eq!(watch_step(&vec![Some(7), Some(3)]), Watch::Wait(3));
    assert_eq!(watch_step(&vec![Some(7), None]), Watch::Fire(1));
    assert_eq!(watch_step(&vec![None, None]), Watch::Fire(0));
    assert_eq!(watch_step(&vec![]), Watch::Wait(u64::MAX));
}
