use deadass::dedup::EventDeduplicator;
use deadass::trigger::TriggerKind;
use deadass::event::{EventKind, EventSource, GameEvent};
use std::time::{Duration, Instant};

#[test]
fn immediate_repeat_is_dropped() {
    let mut dedup = EventDeduplicator::new(Duration::from_millis(200));
    assert!(dedup.should_emit_at(TriggerKind::Kill, 1000));
    assert!(!dedup.should_emit_at(TriggerKind::Kill, 1100));
}

#[test]
fn repeat_after_window_passes() {
    let mut dedup = EventDeduplicator::new(Duration::from_millis(200));
    assert!(dedup.should_emit_at(TriggerKind::Kill, 1000));
    assert!(dedup.should_emit_at(TriggerKind::Kill, 1300));
}

#[test]
fn other_triggers_are_not_deduplicated_together() {
    let mut dedup = EventDeduplicator::with_window_ms(200);
    assert!(dedup.should_emit_at(TriggerKind::Kill, 1000));
    assert!(dedup.should_emit_at(TriggerKind::Death, 1050));
    assert!(!dedup.should_emit_at(TriggerKind::Death, 1100));
}

#[test]
fn stale_sender_timestamp_does_not_suppress() {
    let kill = GameEvent::new(1, 0, EventSource::Dll, EventKind::Kill);
    let mut dedup = EventDeduplicator::new(Duration::from_millis(200));
    assert!(dedup.should_emit(kill));
    let start = Instant::now();
    while start.elapsed() < Duration::from_millis(250) {}
    assert!(dedup.should_emit(kill));
}

#[test]
fn suppressed_calls_do_not_extend_the_window() {
    let mut dedup = EventDeduplicator::with_window_ms(200);
    assert!(dedup.should_emit_at(TriggerKind::Kill, 1000));
    assert!(!dedup.should_emit_at(TriggerKind::Kill, 1150));
    assert!(dedup.should_emit_at(TriggerKind::Kill, 1250));
    assert!(!dedup.should_emit_at(TriggerKind::Kill, 1450));
    assert!(dedup.should_emit_at(TriggerKind::Kill, 1451));
}
