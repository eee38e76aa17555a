use time_tracker::align_timestamp;
use time_tracker::is_user_idle;
use time_tracker::process_tick;
use time_tracker::seconds_until_next_boundary;
use time_tracker::EntryLog;
use time_tracker::Scheduler;
use time_tracker::TickInput;
use time_tracker::TimerCommand;

fn tick(now: i64, idle: bool) -> TickInput {
    TickInput {
        now,
        utc_offset_seconds: 0,
        idle_milliseconds: if idle { 600_000 } else { 0 },
        idle_threshold_minutes: 5,
        notification_enabled: false,
        notification_sound: String::from("default"),
    }
}

#[test]
fn test_alignment_wait_example() {
    // At 10:07:32 with a 15-minute interval the next boundary is 10:15:00.
    assert_eq!(seconds_until_next_boundary(15, 7, 32), 448);
}

#[test]
fn test_alignment_wait_on_boundary() {
    assert_eq!(seconds_until_next_boundary(15, 30, 0), 0);
    // On a boundary minute but mid-second: wait a full interval.
    assert_eq!(seconds_until_next_boundary(15, 30, 12), 888);
    assert_eq!(seconds_until_next_boundary(1, 59, 59), 1);
    assert_eq!(seconds_until_next_boundary(60, 0, 0), 0);
    assert_eq!(seconds_until_next_boundary(60, 59, 59), 1);
}

#[test]
fn test_align_timestamp_values() {
    assert_eq!(align_timestamp(1000, 1), 960);
    assert_eq!(align_timestamp(900, 15), 900);
    assert_eq!(align_timestamp(1799, 15), 900);
    assert_eq!(align_timestamp(0, 15), 0);
    // Truncation goes down for instants before the epoch as well.
    assert_eq!(align_timestamp(-1, 15), -900);
}

#[test]
fn test_idle_classification_boundary() {
    let just_under = (299.9_f64 * 1000.0) as u64;
    let exactly = (300.0_f64 * 1000.0) as u64;
    assert!(!is_user_idle(just_under, 5));
    assert!(is_user_idle(exactly, 5));
}

#[test]
fn test_three_idle_ticks_book_three_away_entries() {
    let mut sched = Scheduler::new(15);
    let mut log = EntryLog::new();
    let t: i64 = 900_000;  // a 15-minute boundary
    for k in 0..3 {
        let o = process_tick(&mut sched, &mut log, &tick(t + k * 900, true));
        assert!(o.away_entry.is_some());
        assert!(o.return_from_away.is_none());
        assert!(o.notification.is_none());
        assert!(o.prompt_timestamp.is_none());
        assert!(!o.show_window);
    }
    assert_eq!(log.len(), 3);
    for k in 0..3usize {
        let e = log.get(k);
        assert_eq!(e.timestamp, t - 900 + (k as i64) * 900);
        assert_eq!(e.category, "away");
        assert_eq!(e.duration_minutes, 15);
        assert!(e.is_away);
        assert!(!e.is_retroactive);
        assert!(e.notes.is_none());
    }
}

#[test]
fn test_return_from_away_transition() {
    let mut sched = Scheduler::new(15);
    let mut log = EntryLog::new();
    let t: i64 = 900_000;
    let o1 = process_tick(&mut sched, &mut log, &tick(t, true));
    assert!(o1.away_entry.is_some());
    assert!(o1.return_from_away.is_none());
    let o2 = process_tick(&mut sched, &mut log, &tick(t + 900, false));
    assert!(o2.away_entry.is_none());
    let span = o2.return_from_away.expect("the active tick must report the away span");
    assert_eq!(span.away_start, t - 900);
    assert_eq!(span.away_end, t);
    assert_eq!(o2.prompt_timestamp, Some(t));
    assert!(o2.show_window);
    // Exactly one persisted away entry, from the idle tick.
    assert_eq!(log.len(), 1);
}

#[test]
fn test_prompt_notification_body() {
    let mut sched = Scheduler::new(15);
    // 900000 is 10:00:00 UTC; with offset 0 the reported interval is
    // 10:00 AM to 10:15 AM.
    let input = TickInput {
        now: 900_900,
        utc_offset_seconds: 0,
        idle_milliseconds: 0,
        idle_threshold_minutes: 5,
        notification_enabled: true,
        notification_sound: String::from("glass"),
    };
    let o = sched.handle_tick(&input);
    let n = o.notification.expect("notifications are enabled");
    assert_eq!(n.title, "Time Tracker");
    assert_eq!(n.body, "What did you work on 10:00 AM - 10:15 AM?");
    assert_eq!(n.sound, "glass");
    assert_eq!(o.prompt_timestamp, Some(900_000));
}

#[test]
fn test_notification_disabled_still_prompts() {
    let mut sched = Scheduler::new(15);
    let o = sched.handle_tick(&tick(900_900, false));
    assert!(o.notification.is_none());
    assert_eq!(o.prompt_timestamp, Some(900_000));
    assert!(o.show_window);
}

#[test]
fn test_reconfiguration_rearms_for_new_interval() {
    let mut sched = Scheduler::new(15);
    let o = sched.handle_command(TimerCommand::UpdateInterval(30));
    assert_eq!(o.rearm_interval_minutes, Some(30));
    assert!(!o.exit);
    assert_eq!(sched.interval_minutes, 30);
    // The next tick already reports on a 30-minute boundary.
    let ot = sched.handle_tick(&tick(1_801_800, false));
    assert_eq!(ot.prompt_timestamp, Some(1_800_000));
}

#[test]
fn test_reconfiguration_preserves_away_state() {
    let mut sched = Scheduler::new(15);
    let mut log = EntryLog::new();
    let t: i64 = 900_000;
    process_tick(&mut sched, &mut log, &tick(t, true));
    assert_eq!(sched.idle_start, Some(t - 900));
    sched.handle_command(TimerCommand::UpdateInterval(30));
    assert_eq!(sched.idle_start, Some(t - 900));
}

#[test]
fn test_stop_is_terminal() {
    let mut sched = Scheduler::new(15);
    let o = sched.handle_command(TimerCommand::Stop);
    assert!(o.exit);
    assert!(o.rearm_interval_minutes.is_none());
    assert!(sched.stopped);
    // Further ticks and commands, even if already enqueued, do nothing.
    let ot = sched.handle_tick(&tick(900_000, true));
    assert!(ot.away_entry.is_none());
    assert!(ot.return_from_away.is_none());
    assert!(ot.notification.is_none());
    assert!(ot.prompt_timestamp.is_none());
    assert!(!ot.show_window);
    let oc = sched.handle_command(TimerCommand::UpdateInterval(30));
    assert!(oc.rearm_interval_minutes.is_none());
    assert!(!oc.exit);
    assert_eq!(sched.interval_minutes, 15);
    assert!(sched.stopped);
}

#[test]
fn test_idle_start_kept_across_consecutive_idle_ticks() {
    let mut sched = Scheduler::new(15);
    let mut log = EntryLog::new();
    let t: i64 = 900_000;
    process_tick(&mut sched, &mut log, &tick(t, true));
    process_tick(&mut sched, &mut log, &tick(t + 900, true));
    // The away span still starts where idleness was first observed.
    assert_eq!(sched.idle_start, Some(t - 900));
}
