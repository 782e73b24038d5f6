//! Cross-core task-launch bookkeeping.
//!
//! Dispatching work to a logical core hands a one-shot, owned context (the
//! entrypoint's typed argument) to the scheduler.  The context is owned by
//! exactly one party at any instant: the caller until a launch succeeds,
//! the scheduler's slot afterwards, and the trampoline once it starts the
//! work.  [`Launcher`] is the scheduler's bookkeeping, made explicit so the
//! ownership hand-offs are machine-checked: a launch either commits the
//! context to the target worker's slot or reports a typed failure and hands
//! the context straight back — never both, never neither.
//!
//! The runtime that actually pins threads to cores drives this bookkeeping
//! from the single coordinating (main) core; none of these operations is
//! meant to be called from several cores at once.  Blocking is confined to
//! `join_all`, which in this model requires that every worker has already
//! reached a terminal state (the native call would wait for that state).
//!
//! A failure inside a worker's entrypoint must never unwind across native
//! stack frames; [`trampoline_exit`] fixes the decision the trampoline
//! takes: a normal completion hands its status back to the scheduler, a
//! caught panic turns into an abnormal process termination.

use vstd::prelude::*;

use crate::error::{Error, EBUSY, EINVAL};
use crate::lcore::Id;

verus! {

/// The scheduler's view of one core: idle, executing, or done with the
/// result not yet collected.
#[derive(Clone, Copy, PartialEq, Eq, Structural, Debug)]
pub enum State {
    /// The core is idle and can accept a launch.
    Wait,
    /// The core is executing a dispatched task.
    Running,
    /// The task finished; the core returns to `Wait` when joined.
    Finished,
}

/// Decodes the native scheduler's numeric core state.
pub fn state_from_raw(raw: u32) -> (s: Option<State>)
    ensures
        s == (if raw == 0 {
            Some(State::Wait)
        } else if raw == 1 {
            Some(State::Running)
        } else if raw == 2 {
            Some(State::Finished)
        } else {
            None::<State>
        }),
{
    if raw == 0 {
        Some(State::Wait)
    } else if raw == 1 {
        Some(State::Running)
    } else if raw == 2 {
        Some(State::Finished)
    } else {
        None
    }
}

/// What the trampoline does after the entrypoint ran.
#[derive(Clone, Copy, PartialEq, Eq, Structural, Debug)]
pub enum WorkerExit {
    /// The entrypoint returned normally; its status is handed back to the
    /// scheduler.
    Status(i32),
    /// The entrypoint panicked; the process must terminate abnormally
    /// rather than let the failure unwind through native frames.
    Abort,
}

/// The decision the trampoline takes once the entrypoint's outcome is
/// known: a normal return is reported as a status, a caught failure is
/// never unwound further and becomes an abort of the whole process.
pub fn trampoline_exit(outcome: Result<i32, ()>) -> (e: WorkerExit)
    ensures
        e == (match outcome {
            Ok(status) => WorkerExit::Status(status),
            Err(()) => WorkerExit::Abort,
        }),
{
    match outcome {
        Ok(status) => WorkerExit::Status(status),
        Err(()) => WorkerExit::Abort,
    }
}

/// The scheduler's record for one worker core.
pub struct WorkerSlot<T> {
    /// The worker's core number.
    pub id: u32,
    /// The worker's current state.
    pub state: State,
    /// The context dispatched to the worker and not yet taken by its
    /// trampoline.
    pub task: Option<T>,
}

/// The abstract state of the launch bookkeeping.
pub struct LauncherView<T> {
    /// The coordinating core, which can never be a launch target.
    pub main: u32,
    /// One record per worker core.
    pub workers: Seq<WorkerSlot<T>>,
}

/// Index of the first record for core `id`, or `-1` if there is none.
pub open spec fn find_idx<T>(ws: Seq<WorkerSlot<T>>, id: u32) -> int
    decreases ws.len(),
{
    if ws.len() == 0 {
        -1
    } else if ws.first().id == id {
        0
    } else {
        let r = find_idx(ws.drop_first(), id);
        if r == -1 {
            -1
        } else {
            r + 1
        }
    }
}

/// What `find_idx` finds: a valid index bearing `id`, before which no
/// record bears `id`; or `-1` exactly when no record bears `id`.
pub proof fn lemma_find_idx<T>(ws: Seq<WorkerSlot<T>>, id: u32)
    ensures
        -1 <= find_idx(ws, id) < ws.len(),
        find_idx(ws, id) >= 0 ==> ws[find_idx(ws, id)].id == id,
        find_idx(ws, id) == -1 <==> (forall|k: int| 0 <= k < ws.len() ==> ws[k].id != id),
        forall|k: int| 0 <= k < find_idx(ws, id) ==> ws[k].id != id,
    decreases ws.len(),
{
    if ws.len() > 0 {
        let d = ws.drop_first();
        lemma_find_idx(d, id);
        assert forall|k: int| 0 <= k < d.len() implies d[k] == ws[k + 1] by {}
        if ws.first().id != id {
            let r = find_idx(d, id);
            if r == -1 {
                assert forall|k: int| 0 <= k < ws.len() implies ws[k].id != id by {
                    if k > 0 {
                        assert(d[k - 1] == ws[k]);
                    }
                }
            } else {
                assert(ws[r + 1].id == id);
                assert forall|k: int| 0 <= k < r + 1 implies ws[k].id != id by {
                    if k > 0 {
                        assert(d[k - 1] == ws[k]);
                    }
                }
            }
        }
    }
}

/// Two worker sequences whose records bear the same core numbers are
/// searched alike.
pub proof fn lemma_find_idx_same_ids<T>(a: Seq<WorkerSlot<T>>, b: Seq<WorkerSlot<T>>, id: u32)
    requires
        a.len() == b.len(),
        forall|k: int| 0 <= k < a.len() ==> a[k].id == b[k].id,
    ensures
        find_idx(a, id) == find_idx(b, id),
    decreases a.len(),
{
    if a.len() > 0 {
        lemma_find_idx_same_ids(a.drop_first(), b.drop_first(), id);
        assert(forall|k: int|
            0 <= k < a.drop_first().len() ==> a.drop_first()[k] == a[k + 1]);
        assert(forall|k: int|
            0 <= k < b.drop_first().len() ==> b.drop_first()[k] == b[k + 1]);
    }
}

impl<T> LauncherView<T> {
    /// Whether a worker record exists for core `id`.
    pub open spec fn has_worker(self, id: u32) -> bool {
        find_idx(self.workers, id) >= 0
    }

    /// The record for core `id`.
    pub open spec fn worker(self, id: u32) -> WorkerSlot<T> {
        self.workers[find_idx(self.workers, id)]
    }

    /// The state of core `id`.
    pub open spec fn state_of(self, id: u32) -> State {
        self.worker(id).state
    }

    /// The context stored for core `id`.
    pub open spec fn task_of(self, id: u32) -> Option<T> {
        self.worker(id).task
    }

    /// Whether a launch on core `id` must succeed: the core is a known
    /// worker (never the coordinating core) and is idle.
    pub open spec fn can_launch(self, id: u32) -> bool {
        id != self.main && self.has_worker(id) && self.state_of(id) is Wait
    }

    /// Same coordinating core and the same worker records at every index
    /// except those bearing `id`.
    pub open spec fn frame_except(self, post: Self, id: u32) -> bool {
        &&& post.main == self.main
        &&& post.workers.len() == self.workers.len()
        &&& forall|k: int| 0 <= k < self.workers.len() ==> post.workers[k].id == (
        #[trigger] self.workers[k]).id
        &&& forall|k: int|
            0 <= k < self.workers.len() && self.workers[k].id != id ==> post.workers[k] == (
            #[trigger] self.workers[k])
    }
}

/// The full effect of one launch call: success exactly when the target can
/// be launched, in which case the context is committed to the target's
/// record and the target starts running; otherwise the bookkeeping is
/// untouched and the context comes back to the caller with the error that
/// names the reason (an unknown or coordinating core, or a busy core).
pub open spec fn launch_transition<T>(
    pre: LauncherView<T>,
    post: LauncherView<T>,
    id: u32,
    task: T,
    r: Result<(), (Error, T)>,
) -> bool {
    &&& (r is Ok <==> pre.can_launch(id))
    &&& (r is Ok ==> {
        &&& pre.frame_except(post, id)
        &&& post.has_worker(id)
        &&& post.state_of(id) is Running
        &&& post.task_of(id) == Some(task)
    })
    &&& (r is Err ==> {
        &&& post == pre
        &&& r->Err_0.1 == task
        &&& r->Err_0.0 == (if id == pre.main || !pre.has_worker(id) {
            Error(EINVAL)
        } else {
            Error(EBUSY)
        })
    })
}

/// The launch bookkeeping: one record per worker core, driven from the
/// coordinating core.
pub struct Launcher<T> {
    main: u32,
    workers: Vec<WorkerSlot<T>>,
}

impl<T> View for Launcher<T> {
    type V = LauncherView<T>;

    closed spec fn view(&self) -> LauncherView<T> {
        LauncherView { main: self.main, workers: self.workers@ }
    }
}

impl<T> Launcher<T> {
    /// Bookkeeping for the given coordinating core and worker cores, all
    /// idle, none holding a context.
    pub fn new(main: Id, worker_ids: &Vec<Id>) -> (r: Launcher<T>)
        ensures
            r@.main == main.spec_get(),
            r@.workers.len() == worker_ids@.len(),
            forall|k: int|
                0 <= k < worker_ids@.len() ==> #[trigger] r@.workers[k] == (WorkerSlot {
                    id: worker_ids@[k].spec_get(),
                    state: State::Wait,
                    task: None::<T>,
                }),
    {
        let n = worker_ids.len();
        let mut workers: Vec<WorkerSlot<T>> = Vec::new();
        let mut i: usize = 0;
        while i < n
            invariant
                n == worker_ids@.len(),
                i <= n,
                workers@.len() == i,
                forall|k: int|
                    0 <= k < i ==> #[trigger] workers@[k] == (WorkerSlot {
                        id: worker_ids@[k].spec_get(),
                        state: State::Wait,
                        task: None::<T>,
                    }),
            decreases n - i,
        {
            workers.push(WorkerSlot { id: worker_ids[i].get(), state: State::Wait, task: None });
            i = i + 1;
        }
        Launcher { main: main.get(), workers }
    }

    /// The coordinating core.
    pub fn main_lcore(&self) -> (r: Id)
        ensures
            r.spec_get() == self@.main,
    {
        Id::new(self.main)
    }

    /// Finds the record for core `id`.
    fn find(&self, id: u32) -> (r: Option<usize>)
        ensures
            r is Some ==> r->0 == find_idx(self@.workers, id) && r->0 < self@.workers.len(),
            r is None ==> find_idx(self@.workers, id) == -1,
    {
        let n = self.workers.len();
        let mut i: usize = 0;
        while i < n
            invariant
                n == self.workers@.len(),
                i <= n,
                forall|k: int| 0 <= k < i ==> (#[trigger] self.workers@[k]).id != id,
            decreases n - i,
        {
            if self.workers[i].id == id {
                proof {
                    lemma_find_idx(self@.workers, id);
                }
                return Some(i);
            }
            i = i + 1;
        }
        proof {
            lemma_find_idx(self@.workers, id);
        }
        None
    }

    /// Dispatches a context to a worker core.
    ///
    /// Succeeds exactly when the core is a known idle worker; then the
    /// context is committed to the core's record and the core starts
    /// running.  On failure the bookkeeping is untouched and the context is
    /// handed straight back beside the error, so the caller reclaims it
    /// immediately — the context can never be both committed and returned,
    /// nor lost.
    pub fn launch(&mut self, id: Id, task: T) -> (r: Result<(), (Error, T)>)
        ensures
            launch_transition(old(self)@, final(self)@, id.spec_get(), task, r),
    {
        let raw = id.get();
        if raw == self.main {
            return Err((Error(EINVAL), task));
        }
        match self.find(raw) {
            None => Err((Error(EINVAL), task)),
            Some(i) => {
                proof {
                    lemma_find_idx(self@.workers, raw);
                }
                let idle = match self.workers[i].state {
                    State::Wait => true,
                    _ => false,
                };
                if idle {
                    let ghost pre = self@.workers;
                    self.workers[i] = WorkerSlot {
                        id: raw,
                        state: State::Running,
                        task: Some(task),
                    };
                    proof {
                        lemma_find_idx_same_ids(pre, self@.workers, raw);
                        assert(old(self)@.frame_except(self@, raw));
                    }
                    Ok(())
                } else {
                    Err((Error(EBUSY), task))
                }
            },
        }
    }

    /// Whether a worker record exists for the given core.
    pub fn has_worker(&self, id: Id) -> (r: bool)
        ensures
            r == self@.has_worker(id.spec_get()),
    {
        self.find(id.get()).is_some()
    }

    /// The state of a worker core; a pure query of the bookkeeping.
    pub fn state(&self, id: Id) -> (s: State)
        requires
            self@.has_worker(id.spec_get()),
        ensures
            s == self@.state_of(id.spec_get()),
    {
        let raw = id.get();
        match self.find(raw) {
            Some(i) => self.workers[i].state,
            None => {
                proof {
                    lemma_find_idx(self@.workers, raw);
                }
                vstd::pervasive::unreached()
            },
        }
    }

    /// Takes the context out of a worker's record, exactly once: what the
    /// trampoline does when the scheduler starts it on the target core.
    /// The record keeps running and no longer holds a context, so a second
    /// take on the same dispatch is ruled out by this contract.
    pub fn take_task(&mut self, id: Id) -> (t: T)
        requires
            old(self)@.has_worker(id.spec_get()),
            old(self)@.task_of(id.spec_get()) is Some,
        ensures
            Some(t) == old(self)@.task_of(id.spec_get()),
            old(self)@.frame_except(final(self)@, id.spec_get()),
            final(self)@.state_of(id.spec_get()) == old(self)@.state_of(id.spec_get()),
            final(self)@.task_of(id.spec_get()) is None,
    {
        let raw = id.get();
        proof {
            lemma_find_idx(self@.workers, raw);
        }
        match self.find(raw) {
            Some(i) => {
                let st = self.workers[i].state;
                let ghost pre = self@.workers;
                let mut tmp = WorkerSlot { id: raw, state: st, task: None };
                core::mem::swap(&mut self.workers[i], &mut tmp);
                proof {
                    lemma_find_idx_same_ids(pre, self@.workers, raw);
                }
                match tmp.task {
                    Some(t) => t,
                    None => vstd::pervasive::unreached(),
                }
            },
            None => vstd::pervasive::unreached(),
        }
    }

    /// Marks a running worker that has consumed its context as finished:
    /// what the trampoline does when the entrypoint returns.
    pub fn finish_worker(&mut self, id: Id)
        requires
            old(self)@.has_worker(id.spec_get()),
            old(self)@.state_of(id.spec_get()) is Running,
            old(self)@.task_of(id.spec_get()) is None,
        ensures
            old(self)@.frame_except(final(self)@, id.spec_get()),
            final(self)@.state_of(id.spec_get()) is Finished,
            final(self)@.task_of(id.spec_get()) is None,
    {
        let raw = id.get();
        proof {
            lemma_find_idx(self@.workers, raw);
        }
        match self.find(raw) {
            Some(i) => {
                let ghost pre = self@.workers;
                self.workers[i] = WorkerSlot { id: raw, state: State::Finished, task: None };
                proof {
                    lemma_find_idx_same_ids(pre, self@.workers, raw);
                }
            },
            None => {
                proof {
                    assert(false);
                }
            },
        }
    }

    /// Collects every worker back to idle.  The native call blocks until
    /// all dispatched work completes; in this bookkeeping that is the
    /// precondition that no worker is still running.  Must be driven from
    /// the coordinating core only.
    pub fn join_all(&mut self)
        requires
            forall|k: int|
                0 <= k < old(self)@.workers.len() ==> !((#[trigger] old(self)@.workers[k]).state
                    is Running),
        ensures
            final(self)@.main == old(self)@.main,
            final(self)@.workers.len() == old(self)@.workers.len(),
            forall|k: int|
                0 <= k < old(self)@.workers.len() ==> #[trigger] final(self)@.workers[k]
                    == (WorkerSlot { state: State::Wait, ..old(self)@.workers[k] }),
    {
        let n = self.workers.len();
        let mut i: usize = 0;
        while i < n
            invariant
                n == self.workers@.len(),
                i <= n,
                self.main == old(self).main,
                forall|k: int|
                    i <= k < n ==> #[trigger] self.workers@[k] == old(self).workers@[k],
                forall|k: int|
                    0 <= k < i ==> #[trigger] self.workers@[k] == (WorkerSlot {
                        state: State::Wait,
                        ..old(self).workers@[k]
                    }),
            decreases n - i,
        {
            let idv = self.workers[i].id;
            let mut tmp = WorkerSlot { id: idv, state: State::Wait, task: None };
            core::mem::swap(&mut self.workers[i], &mut tmp);
            let WorkerSlot { id: _, state: _, task } = tmp;
            self.workers[i] = WorkerSlot { id: idv, state: State::Wait, task };
            i = i + 1;
        }
    }
}

/// Launch exactly-once law: for every launch call, the context ends in
/// exactly one place.  On success it is committed to the target worker's
/// record; on failure the bookkeeping is untouched and the very context
/// comes back to the caller.  Success happens exactly when the target is a
/// known idle worker, and a call is always exactly one of the two.
pub proof fn lemma_launch_exactly_once<T>(
    pre: LauncherView<T>,
    post: LauncherView<T>,
    id: u32,
    task: T,
    r: Result<(), (Error, T)>,
)
    requires
        launch_transition(pre, post, id, task, r),
    ensures
        r is Ok <==> pre.can_launch(id),
        r is Ok ==> post.task_of(id) == Some(task) && post.state_of(id) is Running,
        r is Err ==> post == pre && r->Err_0.1 == task,
        !(r is Ok && r is Err),
        r is Ok || r is Err,
{
}

} // verus!
