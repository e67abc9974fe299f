use task_loop::driver::{run_task_loop, TaskLoop};
use task_loop::scenario::{CounterContext, CounterError, CounterTask};
use task_loop::task::{Task, TaskType};

fn fresh_context(limit: u64, fail_main: bool, fail_background: bool) -> CounterContext {
    CounterContext { count: 0, limit, fail_main, fail_background, }
}

#[test]
fn test_run_task_loop() {
    let mut context = fresh_context(4, false, false);
    let res = run_task_loop(&mut context, vec![CounterTask::Spawn { fail: false }]);
    assert!(res.is_ok(), "task loop should be run success");
    assert_eq!(context.count, 7);

    let mut context = fresh_context(4, true, false);
    let res = run_task_loop(&mut context, vec![CounterTask::Spawn { fail: false }]);
    assert_eq!(res, Err(CounterError::MainFailed), "should return the main failure");
    assert_eq!(context.count, 0);

    let mut context = fresh_context(4, false, true);
    let res = run_task_loop(&mut context, vec![CounterTask::Spawn { fail: false }]);
    assert_eq!(res, Err(CounterError::BackgroundFailed), "should return the background failure");
    assert_eq!(context.count, 1);
}

#[test]
fn empty_seed_succeeds_without_touching_the_context() {
    let mut context = CounterContext { count: 11, limit: 3, fail_main: true, fail_background: true };
    let res = run_task_loop(&mut context, Vec::<CounterTask>::new());
    assert_eq!(res, Ok(()));
    assert_eq!(context.count, 11);
    assert_eq!(context.limit, 3);
    assert!(context.fail_main);
    assert!(context.fail_background);
}

#[test]
fn single_main_task_past_the_limit_stops_the_fan_out() {
    let mut context = fresh_context(0, false, false);
    let res = run_task_loop(&mut context, vec![CounterTask::Increment]);
    assert_eq!(res, Ok(()));
    assert_eq!(context.count, 1);
}

#[test]
fn counter_saturates_at_the_largest_value() {
    let mut context = CounterContext {
        count: u64::MAX,
        limit: 0,
        fail_main: false,
        fail_background: false,
    };
    let res = run_task_loop(&mut context, vec![CounterTask::Increment]);
    assert_eq!(res, Ok(()));
    assert_eq!(context.count, u64::MAX);
}

#[test]
fn failing_seed_background_task_is_the_error_returned() {
    let mut context = fresh_context(4, false, false);
    let res = run_task_loop(&mut context, vec![CounterTask::Spawn { fail: true }]);
    assert_eq!(res, Err(CounterError::BackgroundFailed));
    assert_eq!(context.count, 0);
}

#[test]
fn main_failure_beats_queued_work() {
    // The failing main task sits in front; the healthy background task
    // behind it is abandoned and the counter is never touched.
    let mut context = fresh_context(4, true, false);
    let res = run_task_loop(
        &mut context,
        vec![CounterTask::Increment, CounterTask::Spawn { fail: false }],
    );
    assert_eq!(res, Err(CounterError::MainFailed));
    assert_eq!(context.count, 0);
}

#[test]
fn task_loop_state_is_drained_on_success() {
    let mut state = TaskLoop::new(vec![CounterTask::Spawn { fail: false }]);
    let mut context = fresh_context(2, false, false);
    let res = state.run(&mut context);
    assert_eq!(res, Ok(()));
    assert_eq!(state.queue.len(), 0);
    assert_eq!(state.in_flight.len(), 0);
    assert_eq!(context.count, 3);
}

#[test]
fn task_types_match_the_variants() {
    assert_eq!(CounterTask::Increment.get_task_type(), TaskType::Main);
    assert_eq!(CounterTask::Spawn { fail: false }.get_task_type(), TaskType::Background);
    assert_eq!(CounterTask::Spawn { fail: true }.get_task_type(), TaskType::Background);
}
