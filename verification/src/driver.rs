use vstd::prelude::*;

use crate::semantics::{lemma_seq_measure_concat, lemma_seq_measure_mono, lemma_seq_measure_push};
use crate::semantics::{run_spec, seq_measure};
use crate::task::{Task, TaskType};

verus! {

/// The driver's whole state: the FIFO queue of not-yet-started tasks and
/// the dispatched background tasks whose results have not been collected
/// yet, oldest first.
pub struct TaskLoop<T> {
    /// Not-yet-started tasks, front first. Continuations are appended at
    /// the tail, so scheduling is breadth-first in dependency depth.
    pub queue: Vec<T>,
    /// Dispatched background tasks awaiting collection.
    pub in_flight: Vec<T>,
}

impl<T> TaskLoop<T> {
    /// Start a run from an ordered list of seed tasks.
    pub fn new(init_tasks: Vec<T>) -> (state: Self)
        ensures
            state.queue@ == init_tasks@,
            state.in_flight@ == Seq::<T>::empty(),
    {
        TaskLoop { queue: init_tasks, in_flight: Vec::new() }
    }

    /// Drive the loop to completion against the shared context.
    ///
    /// The outcome is exactly what [`run_spec`] says: main tasks run in
    /// queue order against the context, background results are collected
    /// oldest first once the queue runs dry, and the first failure observed
    /// ends the run with that failure, abandoning all remaining work. On
    /// success nothing is left anywhere: the queue is empty and no
    /// background task remains uncollected.
    pub fn run<Ctx>(&mut self, ctx: &mut Ctx) -> (r: Result<(), T::Err>) where T: Task<Ctx>
        requires
            forall|i: int|
                0 <= i < old(self).in_flight@.len() ==> (#[trigger] old(
                    self,
                ).in_flight@[i]).kind() == TaskType::Background,
        ensures
            ({
                let step = run_spec(*old(ctx), old(self).queue@, old(self).in_flight@);
                &&& *final (ctx) == step.0
                &&& (match r {
                    Ok(()) => {
                        &&& step.1 is None
                        &&& final (self).queue@.len() == 0
                        &&& final (self).in_flight@.len() == 0
                    },
                    Err(e) => step.1 == Some(e),
                })
            }),
    {
        let ghost goal = run_spec(*ctx, self.queue@, self.in_flight@);
        loop
            invariant
                goal == run_spec(*old(ctx), old(self).queue@, old(self).in_flight@),
                run_spec(*ctx, self.queue@, self.in_flight@) == goal,
                forall|i: int|
                    0 <= i < self.in_flight@.len() ==> (#[trigger] self.in_flight@[i]).kind()
                        == TaskType::Background,
            decreases
                    seq_measure(self.queue@, *ctx) + seq_measure(self.in_flight@, *ctx),
                    self.queue@.len(),
        {
            let ghost q0 = self.queue@;
            let ghost p0 = self.in_flight@;
            let ghost c0 = *ctx;
            if self.queue.len() == 0 {
                if self.in_flight.len() == 0 {
                    return Ok(());
                }
                // The queue ran dry with background work still in flight:
                // wait for the oldest outstanding result.
                let collected = self.in_flight.remove(0);
                proof {
                    assert(p0.remove(0) =~= p0.drop_first());
                    collected.lemma_background_measure(c0);
                }
                match collected.background_run() {
                    Result::Ok(mut next) => {
                        let ghost n0 = next@;
                        self.queue.append(&mut next);
                        proof {
                            assert(self.queue@ =~= n0);
                        }
                    },
                    Result::Err(e) => {
                        return Err(e);
                    },
                }
            } else {
                let popped = self.queue.remove(0);
                proof {
                    assert(q0.remove(0) =~= q0.drop_first());
                }
                match popped.get_task_type() {
                    TaskType::Main => {
                        // A main task runs here and now, with exclusive
                        // access to the context for the whole call.
                        proof {
                            popped.lemma_main_measure(c0);
                        }
                        match popped.main_run(ctx) {
                            Result::Ok(mut next) => {
                                let ghost n0 = next@;
                                self.queue.append(&mut next);
                                proof {
                                    let c2 = popped.main_next(c0).0;
                                    lemma_seq_measure_concat(q0.drop_first(), n0, c2);
                                    lemma_seq_measure_mono(q0.drop_first(), c0, c2);
                                    lemma_seq_measure_mono(p0, c0, c2);
                                    assert(self.queue@ =~= q0.drop_first() + n0);
                                }
                            },
                            Result::Err(e) => {
                                return Err(e);
                            },
                        }
                    },
                    TaskType::Background => {
                        // A background task is only dispatched; its result
                        // is collected in a later iteration.
                        self.in_flight.push(popped);
                        proof {
                            lemma_seq_measure_push(p0, popped, c0);
                        }
                    },
                }
            }
        }
    }
}

/// Run the task loop to completion: pop tasks from the front of the queue,
/// run main tasks in place against the context, dispatch background tasks,
/// collect their results once the queue runs dry, and append every
/// successful task's continuations to the tail of the queue. Returns `Ok`
/// when no work remains anywhere, or the first failure observed, abandoning
/// any tasks still queued or in flight.
pub fn run_task_loop<Ctx, T: Task<Ctx>>(ctx: &mut Ctx, init_tasks: Vec<T>) -> (r: Result<
    (),
    T::Err,
>)
    ensures
        ({
            let step = run_spec(*old(ctx), init_tasks@, Seq::<T>::empty());
            &&& *final (ctx) == step.0
            &&& (match r {
                Ok(()) => step.1 is None,
                Err(e) => step.1 == Some(e),
            })
        }),
{
    let mut state = TaskLoop::new(init_tasks);
    state.run(ctx)
}

} // verus!
