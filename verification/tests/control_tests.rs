use task_loop::control::LoopControl;

#[test]
fn fresh_control_is_idle_and_deliverable() {
    let control = LoopControl::new();
    assert!(control.run_finished(0));
    assert!(!control.must_wait(0));
    assert!(control.may_deliver());
}

#[test]
fn dispatch_and_collect_balance_out() {
    let mut control = LoopControl::new();
    control.note_dispatch();
    control.note_dispatch();
    assert!(!control.run_finished(0));
    assert!(control.must_wait(0));
    assert!(!control.must_wait(3));
    control.note_collect();
    control.note_collect();
    assert!(control.run_finished(0));
    assert!(!control.run_finished(1));
}

#[test]
fn shutdown_suppresses_delivery_for_good() {
    let mut control = LoopControl::new();
    control.note_dispatch();
    assert!(control.may_deliver());
    control.mark_shutdown();
    assert!(!control.may_deliver());
    control.note_collect();
    assert!(!control.may_deliver());
    control.note_dispatch();
    assert!(!control.may_deliver());
}
