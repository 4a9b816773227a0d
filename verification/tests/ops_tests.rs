use bookos_store::ops::{Ops, Pct, Progress};

#[test]
fn a_tracked_operation_is_active_and_can_be_cancelled() {
    let mut ops = Ops::new();
    assert_eq!(ops.progress("a"), Progress::Ended);
    assert_eq!(ops.cancel_op("a"), None);
    ops.track("a", 4711);
    assert_eq!(
        ops.progress("a"),
        Progress::Active { pct: Pct::Zero, downloaded: 0, total: 0 }
    );
    let kill = ops.cancel_op("a").unwrap();
    assert_eq!(kill.program, "kill");
    assert_eq!(kill.args, vec!["-TERM", "4711"]);
}

#[test]
fn progress_and_process_are_apart() {
    let mut ops = Ops::new();
    let pct = Pct::Share { part: 5, whole: 10 };
    ops.set_progress("a", pct, 5, 10);
    assert_eq!(ops.cancel_op("a"), None);
    ops.track("a", 1);
    assert_eq!(ops.progress("a"), Progress::Active { pct, downloaded: 5, total: 10 });
    ops.set_progress("a", Pct::Full, 10, 10);
    assert_eq!(ops.cancel_op("a").unwrap().args, vec!["-TERM", "1"]);
}

#[test]
fn a_forgotten_operation_has_ended_and_others_go_on() {
    let mut ops = Ops::new();
    ops.track("a", 1);
    ops.track("b", 2);
    ops.untrack("a");
    ops.untrack("unknown");
    assert_eq!(ops.progress("a"), Progress::Ended);
    assert_eq!(ops.cancel_op("a"), None);
    assert_eq!(ops.cancel_op("b").unwrap().args, vec!["-TERM", "2"]);
}
