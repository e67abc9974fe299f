use vstd::prelude::*;

verus! {

/// The two shapes a unit of work can take.
#[derive(Clone, Copy, Debug, PartialEq, Eq, Structural)]
pub enum TaskType {
    /// Runs on the driver's own thread of control, with exclusive write
    /// access to the shared context.
    Main,
    /// Runs with no context access at all, so it may execute concurrently
    /// with the driver and with other background tasks.
    Background,
}

/// Sum of a weight function over a sequence.
pub open spec fn weight_sum<T>(items: Seq<T>, w: spec_fn(T) -> nat) -> nat
    decreases items.len(),
{
    if items.len() == 0 {
        0
    } else {
        w(items[0]) + weight_sum(items.drop_first(), w)
    }
}

/// A unit of work that the task loop can run.
///
/// A task declares its variant with [`Task::kind`] and implements the
/// matching execution method; the other method is never invoked on it.
/// Each execution method returns either a failure value or the ordered list
/// of continuation tasks to enqueue next.
///
/// The two spec functions `main_next` and `background_next` describe the
/// executions exactly, so the loop's outcome is a pure function of the
/// context and the seed tasks. The `measure` function, together with the
/// two lemma obligations, states that the task graph is finite: every
/// successful execution yields continuations whose combined measure is
/// strictly below the measure of the task that produced them, and a main
/// run never raises the measure of any other task. Termination of the whole
/// loop is proved from these obligations alone.
pub trait Task<Ctx>: Sized {
    /// The error a failing task reports. Opaque to the loop: the first one
    /// observed is handed back unchanged and ends the run.
    type Err;

    /// Which variant the task is.
    spec fn kind(&self) -> TaskType;

    /// Termination measure of the task under a given context.
    spec fn measure(&self, ctx: Ctx) -> nat;

    /// The context and result the task produces when run as a main task in
    /// the given context.
    spec fn main_next(&self, ctx: Ctx) -> (Ctx, Result<Seq<Self>, Self::Err>);

    /// The result the task produces when run as a background task. Background
    /// tasks cannot read the context, so the result depends on the task
    /// alone.
    spec fn background_next(&self) -> Result<Seq<Self>, Self::Err>;

    /// A successful main run strictly shrinks the measure: its
    /// continuations weigh less than the task did, and no task's measure
    /// grows when the context changes under it.
    proof fn lemma_main_measure(&self, ctx: Ctx)
        ensures
            self.main_next(ctx).1 matches Ok(next) ==> {
                &&& weight_sum(next, |u: Self| u.measure(self.main_next(ctx).0)) < self.measure(
                    ctx,
                )
                &&& forall|u: Self| #[trigger] u.measure(self.main_next(ctx).0) <= u.measure(ctx)
            },
    ;

    /// A successful background run strictly shrinks the measure, whatever
    /// the context happens to be when its result is collected.
    proof fn lemma_background_measure(&self, ctx: Ctx)
        ensures
            self.background_next() matches Ok(next) ==> weight_sum(
                next,
                |u: Self| u.measure(ctx),
            ) < self.measure(ctx),
    ;

    /// Report the variant of the task.
    fn get_task_type(&self) -> (t: TaskType)
        ensures
            t == self.kind(),
    ;

    /// Run this main task with exclusive access to the shared context.
    fn main_run(self, ctx: &mut Ctx) -> (r: Result<Vec<Self>, Self::Err>)
        requires
            self.kind() == TaskType::Main,
        ensures
            *final (ctx) == self.main_next(*old(ctx)).0,
            (match r {
                Ok(next) => self.main_next(*old(ctx)).1 == Ok::<Seq<Self>, Self::Err>(next@),
                Err(e) => self.main_next(*old(ctx)).1 == Err::<Seq<Self>, Self::Err>(e),
            }),
    ;

    /// Run this background task; it gets no access to the context.
    fn background_run(self) -> (r: Result<Vec<Self>, Self::Err>)
        requires
            self.kind() == TaskType::Background,
        ensures
            (match r {
                Ok(next) => self.background_next() == Ok::<Seq<Self>, Self::Err>(next@),
                Err(e) => self.background_next() == Err::<Seq<Self>, Self::Err>(e),
            }),
    ;
}

/// The weight of a concatenation is the sum of the weights.
pub proof fn lemma_weight_sum_concat<T>(a: Seq<T>, b: Seq<T>, w: spec_fn(T) -> nat)
    ensures
        weight_sum(a + b, w) == weight_sum(a, w) + weight_sum(b, w),
    decreases a.len(),
{
    if a.len() == 0 {
        assert(a + b =~= b);
    } else {
        assert((a + b).drop_first() =~= a.drop_first() + b);
        lemma_weight_sum_concat(a.drop_first(), b, w);
    }
}

/// Appending one item adds exactly its weight.
pub proof fn lemma_weight_sum_push<T>(s: Seq<T>, t: T, w: spec_fn(T) -> nat)
    ensures
        weight_sum(s.push(t), w) == weight_sum(s, w) + w(t),
    decreases s.len(),
{
    if s.len() == 0 {
        assert(s.push(t)[0] == t);
        assert(s.push(t).drop_first() =~= Seq::<T>::empty());
        assert(weight_sum(s.push(t), w) == w(t) + weight_sum(Seq::<T>::empty(), w));
    } else {
        assert(s.push(t)[0] == s[0]);
        assert(s.push(t).drop_first() =~= s.drop_first().push(t));
        lemma_weight_sum_push(s.drop_first(), t, w);
        assert(weight_sum(s.push(t), w) == w(s[0]) + weight_sum(s.drop_first().push(t), w));
    }
}

/// If no single item's weight grows from `w1` to `w2`, neither does the
/// weight of a whole sequence.
pub proof fn lemma_weight_sum_mono<T>(s: Seq<T>, w1: spec_fn(T) -> nat, w2: spec_fn(T) -> nat)
    requires
        forall|u: T| #[trigger] w2(u) <= w1(u),
    ensures
        weight_sum(s, w2) <= weight_sum(s, w1),
    decreases s.len(),
{
    if s.len() > 0 {
        lemma_weight_sum_mono(s.drop_first(), w1, w2);
    }
}

} // verus!
