use vstd::prelude::*;

use crate::task::{lemma_weight_sum_concat, lemma_weight_sum_mono, lemma_weight_sum_push};
use crate::task::{weight_sum, Task, TaskType};

verus! {

/// Combined termination measure of a sequence of tasks under one context.
pub open spec fn seq_measure<Ctx, T: Task<Ctx>>(tasks: Seq<T>, ctx: Ctx) -> nat {
    weight_sum(tasks, |u: T| u.measure(ctx))
}

/// The measure of a concatenation is the sum of the measures.
pub proof fn lemma_seq_measure_concat<Ctx, T: Task<Ctx>>(a: Seq<T>, b: Seq<T>, ctx: Ctx)
    ensures
        seq_measure(a + b, ctx) == seq_measure(a, ctx) + seq_measure(b, ctx),
{
    lemma_weight_sum_concat(a, b, |u: T| u.measure(ctx));
}

/// Appending one task adds exactly its measure.
pub proof fn lemma_seq_measure_push<Ctx, T: Task<Ctx>>(s: Seq<T>, t: T, ctx: Ctx)
    ensures
        seq_measure(s.push(t), ctx) == seq_measure(s, ctx) + t.measure(ctx),
{
    lemma_weight_sum_push(s, t, |u: T| u.measure(ctx));
}

/// If no single task's measure grows from `c1` to `c2`, neither does the
/// measure of a whole sequence.
pub proof fn lemma_seq_measure_mono<Ctx, T: Task<Ctx>>(s: Seq<T>, c1: Ctx, c2: Ctx)
    requires
        forall|u: T| #[trigger] u.measure(c2) <= u.measure(c1),
    ensures
        seq_measure(s, c2) <= seq_measure(s, c1),
{
    lemma_weight_sum_mono(s, |u: T| u.measure(c1), |u: T| u.measure(c2));
}

/// One whole run of the task loop, as a pure function of the starting
/// context, the queue of not-yet-started tasks, and the queue of dispatched
/// background tasks whose results have not been collected yet.
///
/// Each recursive step mirrors one iteration of the driver: while the queue
/// is non-empty its front task is popped; a main task runs against the
/// context at once and its continuations go to the queue's tail, while a
/// background task is dispatched, joining the in-flight tasks. Once the
/// queue is empty the driver waits for the oldest in-flight result. The
/// first failure observed ends the run and is returned; the run succeeds
/// when no work remains anywhere.
pub open spec fn run_spec<Ctx, T: Task<Ctx>>(ctx: Ctx, queue: Seq<T>, pending: Seq<T>) -> (
    Ctx,
    Option<T::Err>,
)
    decreases seq_measure(queue, ctx) + seq_measure(pending, ctx), queue.len(),
{
    if queue.len() == 0 && pending.len() == 0 {
        (ctx, None)
    } else if queue.len() == 0 {
        match pending[0].background_next() {
            Result::Ok(next) => {
                proof {
                    pending[0].lemma_background_measure(ctx);
                }
                run_spec(ctx, next, pending.drop_first())
            },
            Result::Err(e) => (ctx, Some(e)),
        }
    } else if queue[0].kind() == TaskType::Main {
        match queue[0].main_next(ctx).1 {
            Result::Ok(next) => {
                proof {
                    queue[0].lemma_main_measure(ctx);
                    lemma_seq_measure_concat(queue.drop_first(), next, queue[0].main_next(ctx).0);
                    lemma_seq_measure_mono(queue.drop_first(), ctx, queue[0].main_next(ctx).0);
                    lemma_seq_measure_mono(pending, ctx, queue[0].main_next(ctx).0);
                }
                run_spec(queue[0].main_next(ctx).0, queue.drop_first() + next, pending)
            },
            Result::Err(e) => (queue[0].main_next(ctx).0, Some(e)),
        }
    } else {
        proof {
            lemma_seq_measure_push(pending, queue[0], ctx);
        }
        run_spec(ctx, queue.drop_first(), pending.push(queue[0]))
    }
}

/// With no seed tasks the run succeeds at once and leaves the context
/// untouched.
pub proof fn lemma_run_spec_empty<Ctx, T: Task<Ctx>>(ctx: Ctx)
    ensures
        run_spec(ctx, Seq::<T>::empty(), Seq::<T>::empty()) == (ctx, None::<T::Err>),
{
}

/// Main executions never overlap and their effects are never torn: after a
/// successful main run the rest of the run starts from exactly the context
/// that run produced, with its continuations at the tail of the queue, so
/// the context seen between two main runs reflects precisely the mutations
/// of all main runs completed so far.
pub proof fn lemma_main_runs_exclusively<Ctx, T: Task<Ctx>>(ctx: Ctx, queue: Seq<T>, pending: Seq<T>)
    requires
        queue.len() > 0,
        queue[0].kind() == TaskType::Main,
        queue[0].main_next(ctx).1 is Ok,
    ensures
        run_spec(ctx, queue, pending) == run_spec(
            queue[0].main_next(ctx).0,
            queue.drop_first() + queue[0].main_next(ctx).1->Ok_0,
            pending,
        ),
{
}

/// A main task that fails ends the run at once with exactly its error;
/// everything still queued or in flight is abandoned unread.
pub proof fn lemma_first_main_failure_wins<Ctx, T: Task<Ctx>>(ctx: Ctx, queue: Seq<T>, pending: Seq<T>)
    requires
        queue.len() > 0,
        queue[0].kind() == TaskType::Main,
        queue[0].main_next(ctx).1 is Err,
    ensures
        run_spec(ctx, queue, pending) == (
            queue[0].main_next(ctx).0,
            Some(queue[0].main_next(ctx).1->Err_0),
        ),
{
}

/// A collected background failure ends the run at once with exactly its
/// error; everything still in flight is abandoned unread.
pub proof fn lemma_first_background_failure_wins<Ctx, T: Task<Ctx>>(ctx: Ctx, pending: Seq<T>)
    requires
        pending.len() > 0,
        pending[0].background_next() is Err,
    ensures
        run_spec(ctx, Seq::<T>::empty(), pending) == (
            ctx,
            Some(pending[0].background_next()->Err_0),
        ),
{
}

/// A background task that would fail is never dropped on the floor: while
/// one sits anywhere among the in-flight tasks, the run cannot end in
/// success.
pub proof fn lemma_in_flight_failure_surfaces<Ctx, T: Task<Ctx>>(
    ctx: Ctx,
    queue: Seq<T>,
    pending: Seq<T>,
    i: int,
)
    requires
        0 <= i < pending.len(),
        pending[i].background_next() is Err,
    ensures
        run_spec(ctx, queue, pending).1 is Some,
    decreases seq_measure(queue, ctx) + seq_measure(pending, ctx), queue.len(),
{
    if queue.len() == 0 {
        match pending[0].background_next() {
            Result::Ok(next) => {
                pending[0].lemma_background_measure(ctx);
                lemma_in_flight_failure_surfaces(ctx, next, pending.drop_first(), i - 1);
            },
            Result::Err(_) => {},
        }
    } else if queue[0].kind() == TaskType::Main {
        match queue[0].main_next(ctx).1 {
            Result::Ok(next) => {
                queue[0].lemma_main_measure(ctx);
                lemma_seq_measure_concat(queue.drop_first(), next, queue[0].main_next(ctx).0);
                lemma_seq_measure_mono(queue.drop_first(), ctx, queue[0].main_next(ctx).0);
                lemma_seq_measure_mono(pending, ctx, queue[0].main_next(ctx).0);
                lemma_in_flight_failure_surfaces(
                    queue[0].main_next(ctx).0,
                    queue.drop_first() + next,
                    pending,
                    i,
                );
            },
            Result::Err(_) => {},
        }
    } else {
        lemma_seq_measure_push(pending, queue[0], ctx);
        lemma_in_flight_failure_surfaces(ctx, queue.drop_first(), pending.push(queue[0]), i);
    }
}

/// A queued background task that would fail is never dropped on the floor
/// either: while one sits anywhere in the queue, the run cannot end in
/// success.
pub proof fn lemma_queued_failure_surfaces<Ctx, T: Task<Ctx>>(
    ctx: Ctx,
    queue: Seq<T>,
    pending: Seq<T>,
    i: int,
)
    requires
        0 <= i < queue.len(),
        queue[i].kind() == TaskType::Background,
        queue[i].background_next() is Err,
    ensures
        run_spec(ctx, queue, pending).1 is Some,
    decreases seq_measure(queue, ctx) + seq_measure(pending, ctx), queue.len(),
{
    if queue[0].kind() == TaskType::Main {
        match queue[0].main_next(ctx).1 {
            Result::Ok(next) => {
                queue[0].lemma_main_measure(ctx);
                lemma_seq_measure_concat(queue.drop_first(), next, queue[0].main_next(ctx).0);
                lemma_seq_measure_mono(queue.drop_first(), ctx, queue[0].main_next(ctx).0);
                lemma_seq_measure_mono(pending, ctx, queue[0].main_next(ctx).0);
                lemma_queued_failure_surfaces(
                    queue[0].main_next(ctx).0,
                    queue.drop_first() + next,
                    pending,
                    i - 1,
                );
            },
            Result::Err(_) => {},
        }
    } else {
        lemma_seq_measure_push(pending, queue[0], ctx);
        if i == 0 {
            lemma_in_flight_failure_surfaces(
                ctx,
                queue.drop_first(),
                pending.push(queue[0]),
                pending.len() as int,
            );
        } else {
            lemma_queued_failure_surfaces(ctx, queue.drop_first(), pending.push(queue[0]), i - 1);
        }
    }
}

} // verus!
