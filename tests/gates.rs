use ed_journals_live::gate::WakeGate;
use ed_journals_live::tail::{TailControl, TailStep};

#[test]
fn signal_before_suspend_is_kept() {
    let mut g = WakeGate::new();
    assert!(!g.signal());
    assert!(!g.begin_suspend());
    assert_eq!(g, WakeGate { pending: false, waiting: false });
}

#[test]
fn signals_coalesce_into_one_wake() {
    let mut g = WakeGate::new();
    g.signal();
    g.signal();
    assert!(!g.begin_suspend());
    // The second signal was not counted: the next suspension parks.
    assert!(g.begin_suspend());
    assert!(g.waiting);
}

#[test]
fn parked_consumer_goes_on_only_after_a_signal() {
    let mut g = WakeGate::new();
    assert!(g.begin_suspend());
    assert!(!g.resume());
    assert!(g.waiting);
    assert!(g.signal());
    assert!(g.resume());
    assert_eq!(g, WakeGate { pending: false, waiting: false });
}

#[test]
fn blocked_reader_does_not_read_without_a_signal() {
    let mut c = TailControl::new();
    assert_eq!(c.poll(), TailStep::Read);
    assert_eq!(c.after_read(false), TailStep::Park);
    // Spurious wakes park again without a read.
    assert_eq!(c.on_wake(), TailStep::Park);
    assert_eq!(c.on_wake(), TailStep::Park);
    assert!(c.notify());
    assert_eq!(c.on_wake(), TailStep::Read);
    assert_eq!(c.after_read(true), TailStep::Yield);
}

#[test]
fn change_between_read_and_suspend_is_not_lost() {
    let mut c = TailControl::new();
    assert_eq!(c.poll(), TailStep::Read);
    // The content changes after the read found nothing, before suspension.
    assert!(!c.notify());
    assert_eq!(c.after_read(false), TailStep::Read);
    assert_eq!(c.after_read(false), TailStep::Park);
}

#[test]
fn close_twice_is_close_once() {
    let mut once = TailControl::new();
    once.close();
    let mut twice = TailControl::new();
    twice.close();
    twice.close();
    assert_eq!(once, twice);
    assert_eq!(twice.poll(), TailStep::Stop);
}

#[test]
fn close_wakes_a_parked_reader_which_stops() {
    let mut c = TailControl::new();
    assert_eq!(c.after_read(false), TailStep::Park);
    assert!(c.close());
    assert_eq!(c.on_wake(), TailStep::Stop);
    assert_eq!(c.poll(), TailStep::Stop);
}

#[test]
fn close_during_read_stops_after_it() {
    let mut c = TailControl::new();
    assert_eq!(c.poll(), TailStep::Read);
    assert!(!c.close());
    assert_eq!(c.after_read(false), TailStep::Stop);
    assert!(!c.gate.waiting);
}
