use growntrol::{DeadlineScheduler, ScheduledEventKind};

#[test]
fn replacing_a_deadline_prevents_duplicate_events() {
    let mut scheduler = DeadlineScheduler::default();
    scheduler.schedule_after(100, 10, ScheduledEventKind::ClimateSample);
    scheduler.schedule_after(100, 20, ScheduledEventKind::ClimateSample);

    assert!(scheduler.take_due(115).is_empty());
    assert_eq!(
        scheduler.take_due(120),
        vec![ScheduledEventKind::ClimateSample]
    );
}

#[test]
fn cancel_removes_a_pending_safety_timeout() {
    let mut scheduler = DeadlineScheduler::default();
    scheduler.schedule_after(100, 15, ScheduledEventKind::PumpSafetyTimeout);
    scheduler.cancel(ScheduledEventKind::PumpSafetyTimeout);

    assert!(!scheduler.contains(ScheduledEventKind::PumpSafetyTimeout));
    assert!(scheduler.take_due(200).is_empty());
}

#[test]
fn due_events_are_returned_in_deadline_order() {
    let mut scheduler = DeadlineScheduler::default();
    scheduler.schedule_after(100, 20, ScheduledEventKind::AbsorptionFinished);
    scheduler.schedule_after(100, 5, ScheduledEventKind::PumpPulseFinished);

    assert_eq!(
        scheduler.take_due(120),
        vec![
            ScheduledEventKind::PumpPulseFinished,
            ScheduledEventKind::AbsorptionFinished
        ]
    );
}

#[test]
fn next_due_and_saturating_deadlines() {
    let mut scheduler = DeadlineScheduler::default();
    assert_eq!(scheduler.next_due_at(), None);
    scheduler.schedule_after(u64::MAX - 3, 10, ScheduledEventKind::LightTransition);
    scheduler.schedule_after(50, 10, ScheduledEventKind::ClimateSample);
    assert_eq!(scheduler.next_due_at(), Some(60));
    assert!(scheduler.contains(ScheduledEventKind::LightTransition));
    assert_eq!(scheduler.take_due(u64::MAX - 1), vec![ScheduledEventKind::ClimateSample]);
    assert_eq!(scheduler.next_due_at(), Some(u64::MAX));
    assert_eq!(scheduler.take_due(u64::MAX), vec![ScheduledEventKind::LightTransition]);
    assert_eq!(scheduler.next_due_at(), None);
}

#[test]
fn equal_deadlines_keep_scheduling_order_and_cancel_keeps_others() {
    let mut scheduler = DeadlineScheduler::default();
    scheduler.schedule_after(0, 30, ScheduledEventKind::ClimateSample);
    scheduler.schedule_after(10, 20, ScheduledEventKind::LightTransition);
    scheduler.schedule_after(0, 40, ScheduledEventKind::AbsorptionFinished);
    scheduler.cancel(ScheduledEventKind::AbsorptionFinished);
    assert!(scheduler.contains(ScheduledEventKind::ClimateSample));
    let copy = scheduler.clone();
    assert_eq!(copy, scheduler);
    assert_eq!(
        scheduler.take_due(1000),
        vec![ScheduledEventKind::ClimateSample, ScheduledEventKind::LightTransition]
    );
}

#[test]
fn rescheduling_moves_a_deadline_earlier() {
    let mut scheduler = DeadlineScheduler::default();
    scheduler.schedule_after(0, 100, ScheduledEventKind::ClimateSample);
    scheduler.schedule_after(0, 50, ScheduledEventKind::LightTransition);
    scheduler.schedule_after(0, 10, ScheduledEventKind::ClimateSample);
    assert_eq!(scheduler.next_due_at(), Some(10));
    assert_eq!(scheduler.take_due(99), vec![
        ScheduledEventKind::ClimateSample,
        ScheduledEventKind::LightTransition
    ]);
    assert!(scheduler.take_due(1000).is_empty());
}
