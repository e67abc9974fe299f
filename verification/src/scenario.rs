use vstd::prelude::*;

use crate::task::{weight_sum, Task, TaskType};

verus! {

/// The shared context of the fan-out scenario: a counter that only main
/// tasks touch.
#[derive(Clone, Copy, Debug)]
pub struct CounterContext {
    /// How many main tasks have completed successfully.
    pub count: u64,
    /// Fan-out stops once the counter reaches this bound.
    pub limit: u64,
    /// When set, every main task fails without touching the counter.
    pub fail_main: bool,
    /// When set, background tasks spawned from here on fail.
    pub fail_background: bool,
}

/// The failure a scenario task reports.
#[derive(Clone, Copy, Debug, PartialEq, Eq, Structural)]
pub enum CounterError {
    /// A main task failed.
    MainFailed,
    /// A background task failed.
    BackgroundFailed,
}

/// A task of the fan-out scenario.
///
/// An `Increment` main task bumps the counter and, while the counter is
/// still below the limit, yields two `Spawn` background tasks. A `Spawn`
/// background task yields one `Increment` on success. Starting from a
/// single `Spawn` the graph therefore doubles at each depth until the limit
/// cuts it off.
#[derive(Clone, Copy, Debug, PartialEq, Eq, Structural)]
pub enum CounterTask {
    /// The main variant: runs against the context.
    Increment,
    /// The background variant: runs without context access and fails iff
    /// the flag it was created with is set.
    Spawn { fail: bool },
}

/// The counter after one more main run: one step toward `u64::MAX`.
pub open spec fn bumped(count: u64) -> u64 {
    if count == u64::MAX {
        count
    } else {
        (count + 1) as u64
    }
}

/// How far the counter still is from the limit.
pub open spec fn gap(ctx: CounterContext) -> nat {
    if ctx.count < ctx.limit {
        (ctx.limit - ctx.count) as nat
    } else {
        0
    }
}

/// Termination measure of one `Increment` task when the counter is `g`
/// steps from the limit: enough to pay for the two background tasks and the
/// two main tasks that one successful run can fan out into.
pub open spec fn increment_measure(g: nat) -> nat
    decreases g,
{
    if g == 0 {
        1
    } else {
        3 + 2 * increment_measure((g - 1) as nat)
    }
}

/// The measure grows with the distance from the limit.
pub proof fn lemma_increment_measure_mono(g1: nat, g2: nat)
    requires
        g1 <= g2,
    ensures
        increment_measure(g1) <= increment_measure(g2),
    decreases g2,
{
    if g1 < g2 {
        lemma_increment_measure_mono(g1, (g2 - 1) as nat);
    }
}

impl Task<CounterContext> for CounterTask {
    type Err = CounterError;

    open spec fn kind(&self) -> TaskType {
        match self {
            CounterTask::Increment => TaskType::Main,
            CounterTask::Spawn { .. } => TaskType::Background,
        }
    }

    open spec fn measure(&self, ctx: CounterContext) -> nat {
        match self {
            CounterTask::Increment => increment_measure(gap(ctx)),
            CounterTask::Spawn { .. } => 1 + increment_measure(gap(ctx)),
        }
    }

    open spec fn main_next(&self, ctx: CounterContext) -> (
        CounterContext,
        Result<Seq<CounterTask>, CounterError>,
    ) {
        match self {
            CounterTask::Increment => {
                if ctx.fail_main {
                    (ctx, Err(CounterError::MainFailed))
                } else {
                    let bumped_ctx = CounterContext {
                        count: bumped(ctx.count),
                        limit: ctx.limit,
                        fail_main: ctx.fail_main,
                        fail_background: ctx.fail_background,
                    };
                    if bumped_ctx.count < bumped_ctx.limit {
                        (
                            bumped_ctx,
                            Ok(
                                seq![
                                    CounterTask::Spawn { fail: ctx.fail_background },
                                    CounterTask::Spawn { fail: ctx.fail_background },
                                ],
                            ),
                        )
                    } else {
                        (bumped_ctx, Ok(Seq::empty()))
                    }
                }
            },
            CounterTask::Spawn { .. } => (ctx, Ok(Seq::empty())),
        }
    }

    open spec fn background_next(&self) -> Result<Seq<CounterTask>, CounterError> {
        match self {
            CounterTask::Increment => Ok(Seq::empty()),
            CounterTask::Spawn { fail } => {
                if *fail {
                    Err(CounterError::BackgroundFailed)
                } else {
                    Ok(seq![CounterTask::Increment])
                }
            },
        }
    }

    proof fn lemma_main_measure(&self, ctx: CounterContext) {
        if self is Increment && !ctx.fail_main {
            let next_ctx = self.main_next(ctx).0;
            assert(gap(next_ctx) <= gap(ctx));
            assert forall|u: CounterTask| #[trigger] u.measure(next_ctx) <= u.measure(ctx) by {
                lemma_increment_measure_mono(gap(next_ctx), gap(ctx));
            }
            match self.main_next(ctx).1 {
                Result::Ok(next) => {
                    if next_ctx.count < next_ctx.limit {
                        // Two background tasks were fanned out, each one
                        // step closer to the limit than the task that
                        // produced them.
                        assert(gap(next_ctx) == gap(ctx) - 1);
                        let spawned = CounterTask::Spawn { fail: ctx.fail_background };
                        assert(next =~= seq![spawned, spawned]);
                        assert(next.drop_first() =~= seq![spawned]);
                        assert(next.drop_first().drop_first() =~= Seq::<CounterTask>::empty());
                        assert(weight_sum(next, |u: CounterTask| u.measure(next_ctx)) == 2 + 2
                            * increment_measure(gap(next_ctx))) by {
                            reveal_with_fuel(weight_sum, 3);
                        };
                        assert(increment_measure(gap(ctx)) == 3 + 2 * increment_measure(
                            gap(next_ctx),
                        ));
                    } else {
                        assert(next =~= Seq::<CounterTask>::empty());
                    }
                },
                Result::Err(_) => {},
            }
        }
    }

    proof fn lemma_background_measure(&self, ctx: CounterContext) {
        match self.background_next() {
            Result::Ok(next) => {
                if self is Increment {
                    assert(next =~= Seq::<CounterTask>::empty());
                } else {
                    assert(next =~= seq![CounterTask::Increment]);
                    assert(next.drop_first() =~= Seq::<CounterTask>::empty());
                    assert(weight_sum(next, |u: CounterTask| u.measure(ctx))
                        == increment_measure(gap(ctx))) by {
                        reveal_with_fuel(weight_sum, 2);
                    };
                }
            },
            Result::Err(_) => {},
        }
    }

    fn get_task_type(&self) -> (t: TaskType) {
        match self {
            CounterTask::Increment => TaskType::Main,
            CounterTask::Spawn { .. } => TaskType::Background,
        }
    }

    fn main_run(self, ctx: &mut CounterContext) -> (r: Result<Vec<CounterTask>, CounterError>) {
        match self {
            CounterTask::Increment => {
                if ctx.fail_main {
                    Err(CounterError::MainFailed)
                } else {
                    let fail = ctx.fail_background;
                    if ctx.count < u64::MAX {
                        ctx.count = ctx.count + 1;
                    }
                    if ctx.count < ctx.limit {
                        let next = vec![
                            CounterTask::Spawn { fail },
                            CounterTask::Spawn { fail },
                        ];
                        proof {
                            assert(next@ =~= seq![
                                CounterTask::Spawn { fail },
                                CounterTask::Spawn { fail },
                            ]);
                        }
                        Ok(next)
                    } else {
                        Ok(Vec::new())
                    }
                }
            },
            CounterTask::Spawn { .. } => vstd::pervasive::unreached(),
        }
    }

    fn background_run(self) -> (r: Result<Vec<CounterTask>, CounterError>) {
        match self {
            CounterTask::Increment => vstd::pervasive::unreached(),
            CounterTask::Spawn { fail } => {
                if fail {
                    Err(CounterError::BackgroundFailed)
                } else {
                    let next = vec![CounterTask::Increment];
                    proof {
                        assert(next@ =~= seq![CounterTask::Increment]);
                    }
                    Ok(next)
                }
            },
        }
    }
}

} // verus!
