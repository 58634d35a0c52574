//! Worker pool behind `request_exec`: which task index goes to whom, and when
//! the caller may go on.
//!
//! The program holds a [`Pool`] behind one lock. Its workers ask
//! [`worker_loop`] what to do next and report every finished task.

use crate::text::append_number;
use vstd::prelude::*;

verus! {

/// State of the pool. `wake_count` counts tasks that nobody claimed yet, not
/// workers: with more tasks than workers each worker claims several.
#[derive(Clone, Copy, Debug, PartialEq, Eq, Structural)]
pub struct Pool {
    /// Index that the next claim hands out.
    pub next_index: u32,
    /// Tasks still to be claimed.
    pub wake_count: u32,
    /// Tasks that ran to their end.
    pub done_count: u32,
    pub stop: bool,
    /// Workers running; 0 before [`init`].
    pub workers: u32,
    /// Address of the plugin that tasks run for; 0 while there is none.
    pub plugin: u64,
    /// The missing extension was reported once already.
    pub warned: bool,
}

/// What a worker does next.
#[derive(Clone, Copy, Debug, PartialEq, Eq, Structural)]
pub enum WorkerStep {
    /// Sleep until there is work.
    Wait,
    /// End the thread.
    Stop,
    /// Run the task with this index.
    Run(u32),
}

/// How a request is carried out.
#[derive(Clone, Copy, Debug, PartialEq, Eq, Structural)]
pub enum ExecPlan {
    /// Answer true, there is nothing to do.
    Done,
    /// Answer false. `warn` asks for a message first.
    Refuse { warn: bool },
    /// Run task 0 on the calling thread, then answer true.
    Inline,
    /// The tasks were handed to the workers: start `spawn` workers first, wake
    /// all, wait until every task is done, then answer true.
    Dispatched { spawn: u32 },
}

impl ExecPlan {
    /// The answer the plugin gets in the end.
    pub open spec fn spec_accepted(self) -> bool {
        !(self is Refuse)
    }

    pub fn accepted(&self) -> (r: bool)
        ensures
            r == self.spec_accepted(),
    {
        match self {
            ExecPlan::Refuse { .. } => false,
            _ => true,
        }
    }
}

/// Printed once where the plugin lacks the extension.
pub const EXT_MISSING: &'static str = "clap.thread-pool: plugin has no thread-pool extension";

/// The pool after one task was claimed.
pub open spec fn claimed(pool: Pool) -> Pool {
    Pool {
        wake_count: (pool.wake_count - 1) as u32,
        next_index: pool.next_index.wrapping_add(1),
        ..pool
    }
}

/// The pool after one task ended.
pub open spec fn finished(pool: Pool) -> Pool {
    Pool { done_count: (pool.done_count + 1) as u32, ..pool }
}

/// How many workers a pool starts with: one per processor and at least one.
pub open spec fn initial_workers(parallelism: Option<u32>) -> u32 {
    match parallelism {
        Some(n) => if n > 0 {
            n
        } else {
            1
        },
        None => 1,
    }
}

/// The pool once its workers run.
pub open spec fn started(pool: Pool, parallelism: Option<u32>) -> Pool {
    if pool.workers > 0 {
        pool
    } else {
        Pool { workers: initial_workers(parallelism), ..pool }
    }
}

/// The pool after `num_tasks` tasks were handed to the workers.
pub open spec fn dispatched(pool: Pool, num_tasks: u32) -> Pool {
    Pool { next_index: 0, done_count: 0, wake_count: num_tasks, ..pool }
}

impl Pool {
    pub fn new() -> (pool: Pool)
        ensures
            pool == (Pool {
                next_index: 0,
                wake_count: 0,
                done_count: 0,
                stop: false,
                workers: 0,
                plugin: 0,
                warned: false,
            }),
    {
        Pool {
            next_index: 0,
            wake_count: 0,
            done_count: 0,
            stop: false,
            workers: 0,
            plugin: 0,
            warned: false,
        }
    }
}

/// A worker asks for its next step. `working` says that it just ended a task:
/// then it goes on claiming while there is work, before it looks at `stop`.
pub fn worker_loop(pool: &mut Pool, working: bool) -> (step: WorkerStep)
    ensures
        step is Run <==> old(pool).wake_count > 0 && (working || !old(pool).stop),
        step is Stop <==> old(pool).stop && !(working && old(pool).wake_count > 0),
        step is Wait <==> old(pool).wake_count == 0 && !old(pool).stop,
        step is Run ==> step == WorkerStep::Run(old(pool).next_index) && *final(pool) == claimed(
            *old(pool),
        ),
        !(step is Run) ==> *final(pool) == *old(pool),
{
    if pool.stop && !(working && pool.wake_count > 0) {
        return WorkerStep::Stop;
    }
    if pool.wake_count == 0 {
        return WorkerStep::Wait;
    }
    pool.wake_count = pool.wake_count - 1;
    let task_index: u32 = pool.next_index;
    pool.next_index = task_index.wrapping_add(1);
    WorkerStep::Run(task_index)
}

/// A worker ended the task it had claimed. The caller of `request_exec` is to
/// be told.
pub fn task_done(pool: &mut Pool)
    requires
        old(pool).done_count < u32::MAX,
    ensures
        *final(pool) == finished(*old(pool)),
{
    pool.done_count = pool.done_count + 1;
}

/// Whether the caller who handed out `num_tasks` tasks may go on.
pub fn all_done(pool: &Pool, num_tasks: u32) -> (r: bool)
    ensures
        r == (pool.done_count >= num_tasks),
{
    pool.done_count >= num_tasks
}

/// Start the pool once: how many workers to spawn, one per processor and at
/// least one. `None` where it runs already.
pub fn init(pool: &mut Pool, parallelism: Option<u32>) -> (spawn: Option<u32>)
    ensures
        spawn == if old(pool).workers > 0 {
            None
        } else {
            Some(initial_workers(parallelism))
        },
        *final(pool) == started(*old(pool), parallelism),
        final(pool).workers > 0,
{
    if pool.workers > 0 {
        return None;
    }
    let n: u32 = match parallelism {
        Some(n) => if n > 0 {
            n
        } else {
            1
        },
        None => 1,
    };
    pool.workers = n;
    Some(n)
}

/// Name of the thread of a worker.
pub fn worker_name(index: u32) -> (name: String)
    ensures
        name@ == "clap-host-pool-"@ + crate::text::decimal(index as nat),
{
    let mut name = "clap-host-pool-".to_owned();
    append_number(&mut name, index as u64);
    name
}

/// Tasks run for this plugin from now on; address 0 for none.
pub fn set_current_plugin(pool: &mut Pool, plugin: u64)
    ensures
        *final(pool) == (Pool { plugin, ..*old(pool) }),
{
    pool.plugin = plugin;
}

/// What becomes of a request, given what the plugin offers: no thread-pool
/// extension, or one with or without `exec`.
pub open spec fn exec_plan(
    pool: Pool,
    num_tasks: u32,
    exec: Option<bool>,
    parallelism: Option<u32>,
) -> ExecPlan {
    if num_tasks == 0 {
        ExecPlan::Done
    } else if pool.plugin == 0 {
        ExecPlan::Refuse { warn: false }
    } else if exec is None {
        ExecPlan::Refuse { warn: !pool.warned }
    } else if exec == Some(false) {
        ExecPlan::Refuse { warn: false }
    } else if num_tasks == 1 {
        ExecPlan::Inline
    } else {
        ExecPlan::Dispatched {
            spawn: if pool.workers > 0 {
                0
            } else {
                initial_workers(parallelism)
            },
        }
    }
}

/// The plugin asks to run `exec` for the indices `0..num_tasks`. `exec` says
/// what the current plugin offers: no extension, or whether it has `exec`. Where
/// tasks go to the workers and none run yet, the pool is started, with
/// `parallelism` as in [`init`].
pub fn request_exec(
    pool: &mut Pool,
    num_tasks: u32,
    exec: Option<bool>,
    parallelism: Option<u32>,
) -> (plan: ExecPlan)
    ensures
        plan == exec_plan(*old(pool), num_tasks, exec, parallelism),
        plan is Dispatched ==> final(pool).workers > 0,
        *final(pool) == match plan {
            ExecPlan::Dispatched { .. } => dispatched(
                started(*old(pool), parallelism),
                num_tasks,
            ),
            ExecPlan::Refuse { warn } => Pool { warned: old(pool).warned || warn, ..*old(pool) },
            _ => *old(pool),
        },
{
    if num_tasks == 0 {
        return ExecPlan::Done;
    }
    if pool.plugin == 0 {
        return ExecPlan::Refuse { warn: false };
    }
    match exec {
        None => {
            let warn = !pool.warned;
            pool.warned = true;
            ExecPlan::Refuse { warn }
        },
        Some(false) => ExecPlan::Refuse { warn: false },
        Some(true) => {
            if num_tasks == 1 {
                return ExecPlan::Inline;
            }
            let spawn: u32 = match init(pool, parallelism) {
                Some(n) => n,
                None => 0,
            };
            pool.next_index = 0;
            pool.done_count = 0;
            pool.wake_count = num_tasks;
            ExecPlan::Dispatched { spawn }
        },
    }
}

pub fn worker_count(pool: &Pool) -> (n: usize)
    ensures
        n == pool.workers,
{
    pool.workers as usize
}

/// What workers do to the pool between two requests.
pub enum PoolEvent {
    /// Some worker claims a task.
    Claim,
    /// Some worker ends a task it claimed.
    Finish,
}

/// The pool after an event.
pub open spec fn stepped(pool: Pool, event: PoolEvent) -> Pool {
    match event {
        PoolEvent::Claim => claimed(pool),
        PoolEvent::Finish => finished(pool),
    }
}

/// The pool after a run of events.
pub open spec fn ran(pool: Pool, events: Seq<PoolEvent>) -> Pool
    decreases events.len(),
{
    if events.len() == 0 {
        pool
    } else {
        stepped(ran(pool, events.drop_last()), events.last())
    }
}

/// The task indices that a run of events hands out, in order.
pub open spec fn indices(pool: Pool, events: Seq<PoolEvent>) -> Seq<u32>
    decreases events.len(),
{
    if events.len() == 0 {
        Seq::empty()
    } else {
        let before = indices(pool, events.drop_last());
        match events.last() {
            PoolEvent::Claim => before.push(ran(pool, events.drop_last()).next_index),
            PoolEvent::Finish => before,
        }
    }
}

/// The runs that workers can perform: they claim only while there is work, and
/// end only what they claimed.
pub open spec fn possible(pool: Pool, events: Seq<PoolEvent>) -> bool
    decreases events.len(),
{
    events.len() == 0 || {
        let before = ran(pool, events.drop_last());
        &&& possible(pool, events.drop_last())
        &&& match events.last() {
            PoolEvent::Claim => before.wake_count > 0,
            PoolEvent::Finish => before.done_count < before.next_index,
        }
    }
}

/// Law: however many workers take part and in whatever order they claim and
/// finish, the indices handed out are `0, 1, 2, ..` without gap or repetition,
/// never more than were asked for, and never fewer were claimed than are done.
pub proof fn every_index_is_claimed_once(pool: Pool, num_tasks: u32, events: Seq<PoolEvent>)
    requires
        possible(dispatched(pool, num_tasks), events),
    ensures
        ({
            let start = dispatched(pool, num_tasks);
            let end = ran(start, events);
            &&& indices(start, events) == Seq::new(end.next_index as nat, |i: int| i as u32)
            &&& end.next_index + end.wake_count == num_tasks
            &&& end.done_count <= end.next_index
        }),
    decreases events.len(),
{
    let start = dispatched(pool, num_tasks);
    if events.len() == 0 {
        assert(indices(start, events) =~= Seq::new(0, |i: int| i as u32));
    } else {
        every_index_is_claimed_once(pool, num_tasks, events.drop_last());
        let before = ran(start, events.drop_last());
        let end = ran(start, events);
        assert(indices(start, events) =~= Seq::new(end.next_index as nat, |i: int| i as u32));
    }
}

/// Law: the caller goes on exactly when every index `0..num_tasks` was claimed
/// and every claimed task ended.
pub proof fn the_caller_waits_for_every_task(pool: Pool, num_tasks: u32, events: Seq<PoolEvent>)
    requires
        possible(dispatched(pool, num_tasks), events),
    ensures
        ({
            let start = dispatched(pool, num_tasks);
            let end = ran(start, events);
            end.done_count >= num_tasks <==> {
                &&& indices(start, events) == Seq::new(num_tasks as nat, |i: int| i as u32)
                &&& end.done_count == end.next_index
            }
        }),
{
    every_index_is_claimed_once(pool, num_tasks, events);
    let start = dispatched(pool, num_tasks);
    let end = ran(start, events);
    if indices(start, events) == Seq::new(num_tasks as nat, |i: int| i as u32) {
        assert(indices(start, events).len() == num_tasks);
    }
}

/// Law: while a caller waits for tasks that it dispatched, the pool has a worker
/// and some worker can always make progress: a task is left to claim, and a
/// worker that asks for work gets it, or a claimed task is left to end.
pub proof fn waiting_is_never_in_vain(
    pool: Pool,
    num_tasks: u32,
    parallelism: Option<u32>,
    events: Seq<PoolEvent>,
)
    requires
        !pool.stop,
        possible(dispatched(started(pool, parallelism), num_tasks), events),
        ran(dispatched(started(pool, parallelism), num_tasks), events).done_count < num_tasks,
    ensures
        ({
            let start = dispatched(started(pool, parallelism), num_tasks);
            let end = ran(start, events);
            &&& end.workers > 0
            &&& !end.stop
            &&& end.wake_count > 0 || end.done_count < end.next_index
            &&& possible(start, events.push(PoolEvent::Claim)) || possible(
                start,
                events.push(PoolEvent::Finish),
            )
        }),
{
    let start = dispatched(started(pool, parallelism), num_tasks);
    every_index_is_claimed_once(started(pool, parallelism), num_tasks, events);
    workers_stay(start, events);
    assert(events.push(PoolEvent::Claim).drop_last() =~= events);
    assert(events.push(PoolEvent::Finish).drop_last() =~= events);
}

/// Claiming and ending tasks changes neither the workers nor `stop`.
proof fn workers_stay(pool: Pool, events: Seq<PoolEvent>)
    ensures
        ran(pool, events).workers == pool.workers,
        ran(pool, events).stop == pool.stop,
    decreases events.len(),
{
    if events.len() > 0 {
        workers_stay(pool, events.drop_last());
    }
}

/// Law: a request is carried out wherever there is a plugin that can run tasks: no
/// task at all is done, a single one runs on the calling thread, more go to the
/// workers. It is refused exactly where there is none, and a missing extension is
/// warned of once.
pub proof fn requests_are_carried_out(
    pool: Pool,
    num_tasks: u32,
    exec: Option<bool>,
    parallelism: Option<u32>,
)
    ensures
        ({
            let plan = exec_plan(pool, num_tasks, exec, parallelism);
            let able = pool.plugin != 0 && exec == Some(true);
            &&& plan is Done <==> num_tasks == 0
            &&& plan is Refuse <==> num_tasks > 0 && !able
            &&& plan is Inline <==> num_tasks == 1 && able
            &&& plan is Dispatched <==> num_tasks > 1 && able
            &&& plan is Refuse ==> plan->warn == (pool.plugin != 0 && exec is None && !pool.warned)
            &&& plan is Dispatched ==> plan->spawn + pool.workers == started(
                pool,
                parallelism,
            ).workers
            &&& plan.spec_accepted() <==> num_tasks == 0 || able
        }),
{
    match exec {
        Some(true) => {},
        Some(false) => {},
        None => {},
    }
}

/// Law: a pool has one worker per processor and at least one, started once.
pub proof fn pools_start_once(pool: Pool, parallelism: Option<u32>, again: Option<u32>)
    ensures
        initial_workers(parallelism) > 0,
        parallelism is Some && parallelism->0 > 0 ==> Some(initial_workers(parallelism))
            == parallelism,
        parallelism is None || parallelism->0 == 0 ==> initial_workers(parallelism) == 1,
        started(started(pool, parallelism), again) == started(pool, parallelism),
        pool.workers == 0 ==> started(pool, parallelism).workers == initial_workers(parallelism),
        pool.workers > 0 ==> started(pool, parallelism) == pool,
        started(pool, parallelism) == (Pool {
            workers: started(pool, parallelism).workers,
            ..pool
        }),
{
}

/// Law: handing out tasks begins a new count: as many are to be claimed as were
/// asked for, from index 0 on, and none is done. A claim hands out one index and
/// an end counts one task; nothing else changes.
pub proof fn tasks_are_counted(pool: Pool, num_tasks: u32)
    requires
        pool.wake_count > 0,
        pool.next_index < u32::MAX,
        pool.done_count < u32::MAX,
    ensures
        dispatched(pool, num_tasks).wake_count == num_tasks,
        dispatched(pool, num_tasks).next_index == 0,
        dispatched(pool, num_tasks).done_count == 0,
        dispatched(pool, num_tasks).workers == pool.workers,
        dispatched(pool, num_tasks).plugin == pool.plugin,
        dispatched(pool, num_tasks).stop == pool.stop,
        dispatched(pool, num_tasks).warned == pool.warned,
        claimed(pool).wake_count + 1 == pool.wake_count,
        claimed(pool).next_index == pool.next_index + 1,
        claimed(pool).done_count == pool.done_count,
        finished(pool).done_count == pool.done_count + 1,
        finished(pool).wake_count == pool.wake_count,
        finished(pool).next_index == pool.next_index,
{
}

} // verus!
