use ed_journals_live::merge::{LiveEvent, MergeControl, MergeStep};
use ed_journals_live::records::{AtmosphereElement, DeleteSuitLoadoutEvent, Suit};
use ed_journals_live::watch::{bytes_equal, reaction, ChangeKind, Reaction};

type Control = MergeControl<String, String, u32>;

#[test]
fn log_record_comes_before_queued_snapshot() {
    let mut c: Control = MergeControl::new();
    assert!(!c.push_snapshot(Ok("status".to_string())));
    let step = c.next_step(Some(Ok("log".to_string())));
    assert_eq!(step, MergeStep::Deliver(Ok(LiveEvent::LogRecord("log".to_string()))));
    assert_eq!(c.pending.len(), 1);
    let step = c.next_step(None);
    assert_eq!(step, MergeStep::Deliver(Ok(LiveEvent::SnapshotRecord("status".to_string()))));
    assert!(c.pending.is_empty());
}

#[test]
fn snapshots_come_out_in_order_with_errors() {
    let mut c: Control = MergeControl::new();
    c.push_snapshot(Ok("one".to_string()));
    c.push_snapshot(Err(7));
    c.push_snapshot(Ok("three".to_string()));
    assert_eq!(c.next_step(None), MergeStep::Deliver(Ok(LiveEvent::SnapshotRecord("one".to_string()))));
    assert_eq!(c.next_step(None), MergeStep::Deliver(Err(7)));
    assert_eq!(c.next_step(None), MergeStep::Deliver(Ok(LiveEvent::SnapshotRecord("three".to_string()))));
}

#[test]
fn log_error_is_delivered() {
    let mut c: Control = MergeControl::new();
    assert_eq!(c.next_step(Some(Err(3))), MergeStep::Deliver(Err(3)));
}

#[test]
fn nothing_ready_parks_until_a_source_signals() {
    let mut c: Control = MergeControl::new();
    assert_eq!(c.next_step(None), MergeStep::Park);
    assert!(!c.on_wake());
    assert!(c.push_snapshot(Ok("s".to_string())));
    assert!(c.on_wake());
    assert_eq!(c.next_step(None), MergeStep::Deliver(Ok(LiveEvent::SnapshotRecord("s".to_string()))));
}

#[test]
fn signal_before_suspend_retries() {
    let mut c: Control = MergeControl::new();
    assert!(!c.on_log_activity());
    assert_eq!(c.next_step(None), MergeStep::Retry);
    assert_eq!(c.next_step(None), MergeStep::Park);
}

#[test]
fn reactions_to_changes() {
    let snap: &[u8] = b"Status.json";
    assert_eq!(reaction(ChangeKind::ContentChanged, b"Status.json", Some(snap)), Reaction::ReloadSnapshot);
    assert_eq!(reaction(ChangeKind::ContentChanged, b"Journal.01.log", Some(snap)), Reaction::Wake);
    assert_eq!(reaction(ChangeKind::ContentChanged, b"Status.json", None), Reaction::Wake);
    assert_eq!(reaction(ChangeKind::EntryCreated, b"Journal.02.log", Some(snap)), Reaction::NewEntry);
    assert_eq!(reaction(ChangeKind::Other, b"Status.json", Some(snap)), Reaction::Ignore);
    assert!(bytes_equal(b"", b""));
    assert!(!bytes_equal(b"ab", b"abc"));
}

#[test]
fn record_payloads() {
    let a = AtmosphereElement::Neon;
    assert_eq!(a, AtmosphereElement::Neon);
    assert_ne!(a, AtmosphereElement::Argon);
    let e = DeleteSuitLoadoutEvent {
        suit_id: 1700217809818876,
        suit_name: Suit { symbol: "utilitysuit_class1".to_string() },
        suit_name_localized: "Maverick Suit".to_string(),
        loadout_id: 4293000002,
        loadout_name: "Loadout".to_string(),
    };
    assert_eq!(e.clone(), e);
}
