use vstd::prelude::*;

verus! {

/// What a worker is doing.
#[derive(Clone, Copy, Debug, PartialEq, Eq, Structural)]
pub enum WorkerState {
    /// Waiting for a job.
    Idle,
    /// Running the job with this id.
    Busy(u64),
    /// Gone for good: the queue was closed and empty.
    Stopped,
}

/// What an idle worker does next.
#[derive(Clone, Copy, Debug, PartialEq, Eq, Structural)]
pub enum Step {
    /// Run the job with this id, then report it finished.
    Run(u64),
    /// Block until a job is submitted or the queue is closed.
    Wait,
    /// Leave: no job will come any more.
    Exit,
}

/// Number of busy workers among `ws`.
pub open spec fn busy_count(ws: Seq<WorkerState>) -> nat
    decreases ws.len(),
{
    if ws.len() == 0 {
        0
    } else {
        busy_count(ws.drop_last()) + if ws.last() is Busy {
            1nat
        } else {
            0nat
        }
    }
}

/// Every worker of `ws` is stopped.
pub open spec fn all_stopped(ws: Seq<WorkerState>) -> bool {
    forall|w: int| 0 <= w < ws.len() ==> ws[w] == WorkerState::Stopped
}

/// Some worker of `ws` runs the job `id`.
pub open spec fn running(ws: Seq<WorkerState>, id: u64) -> bool {
    exists|w: int| 0 <= w < ws.len() && ws[w] == WorkerState::Busy(id)
}

/// The bookkeeping of a pool of workers fed from one job queue.
///
/// Jobs are named by ids handed out in order of submission. A job is first
/// queued, then started by exactly one worker, then done.
pub struct PoolState {
    queue: Vec<u64>,
    workers: Vec<WorkerState>,
    closed: bool,
    next_id: u64,
    started: Ghost<Set<u64>>,
    done: Ghost<Set<u64>>,
}

impl PoolState {
    /// Ids of the jobs waiting in the queue, oldest first.
    pub closed spec fn queue(&self) -> Seq<u64> {
        self.queue@
    }

    /// State of each worker, by index.
    pub closed spec fn workers(&self) -> Seq<WorkerState> {
        self.workers@
    }

    /// Whether the queue was closed.
    pub closed spec fn is_closed(&self) -> bool {
        self.closed
    }

    /// Number of jobs submitted so far; their ids are `0..submitted()`.
    pub closed spec fn submitted(&self) -> nat {
        self.next_id as nat
    }

    /// Ids of the jobs that a worker has taken from the queue.
    pub closed spec fn started(&self) -> Set<u64> {
        self.started@
    }

    /// Ids of the jobs that have run to completion.
    pub closed spec fn done(&self) -> Set<u64> {
        self.done@
    }

    /// The pool's invariant.
    pub closed spec fn wf(&self) -> bool {
        let q = self.queue@;
        let ws = self.workers@;
        &&& ws.len() > 0
        &&& forall|i: int|
            0 <= i < q.len() ==> q[i] < self.next_id && !self.started@.contains(#[trigger] q[i])
        &&& forall|i: int, j: int| 0 <= i < j < q.len() ==> q[i] != q[j]
        &&& forall|id: u64| #[trigger] self.started@.contains(id) ==> id < self.next_id
        &&& forall|id: u64| id < self.next_id ==> #[trigger] self.started@.contains(id) || q.contains(id)
        &&& self.done@.subset_of(self.started@)
        &&& forall|w: int|
            0 <= w < ws.len() && #[trigger] ws[w] is Busy ==> self.started@.contains(ws[w]->Busy_0)
                && !self.done@.contains(ws[w]->Busy_0)
        &&& forall|v: int, w: int|
            0 <= v < w < ws.len() && #[trigger] ws[v] is Busy && #[trigger] ws[w] is Busy
                ==> ws[v] != ws[w]
        &&& forall|id: u64|
            #[trigger] self.started@.contains(id) && !self.done@.contains(id) ==> running(ws, id)
        &&& forall|w: int|
            0 <= w < ws.len() && #[trigger] ws[w] == WorkerState::Stopped ==> self.closed
                && q.len() == 0
    }

    /// A pool of `size` idle workers, an empty open queue and no job yet.
    pub fn new(size: usize) -> (r: Self)
        requires
            size > 0,
        ensures
            r.wf(),
            r.workers() == Seq::new(size as nat, |w: int| WorkerState::Idle),
            r.queue() == Seq::<u64>::empty(),
            !r.is_closed(),
            r.submitted() == 0,
            r.started() == Set::<u64>::empty(),
            r.done() == Set::<u64>::empty(),
    {
        let mut workers: Vec<WorkerState> = Vec::new();
        let mut i: usize = 0;
        while i < size
            invariant
                i <= size,
                workers@ == Seq::new(i as nat, |w: int| WorkerState::Idle),
            decreases size - i,
        {
            workers.push(WorkerState::Idle);
            i = i + 1;
            assert(workers@ =~= Seq::new(i as nat, |w: int| WorkerState::Idle));
        }
        PoolState {
            queue: Vec::new(),
            workers,
            closed: false,
            next_id: 0,
            started: Ghost(Set::empty()),
            done: Ghost(Set::empty()),
        }
    }

    /// Number of workers.
    pub fn size(&self) -> (r: usize)
        ensures
            r == self.workers().len(),
    {
        self.workers.len()
    }

    /// State of worker `w`.
    pub fn worker_state(&self, w: usize) -> (r: WorkerState)
        requires
            w < self.workers().len(),
        ensures
            r == self.workers()[w as int],
    {
        self.workers[w]
    }

    /// Whether the queue was closed.
    pub fn closed(&self) -> (r: bool)
        ensures
            r == self.is_closed(),
    {
        self.closed
    }

    /// Whether every worker has stopped.
    pub fn is_shut_down(&self) -> (r: bool)
        ensures
            r == all_stopped(self.workers()),
    {
        let mut w: usize = 0;
        while w < self.workers.len()
            invariant
                w <= self.workers@.len(),
                forall|v: int| 0 <= v < w ==> self.workers@[v] == WorkerState::Stopped,
            decreases self.workers@.len() - w,
        {
            if self.workers[w] != WorkerState::Stopped {
                return false;
            }
            w = w + 1;
        }
        true
    }

    /// Queues a new job and returns its id. After the queue was closed, or once
    /// every id has been used, nothing is queued and the result is `None`.
    pub fn submit(&mut self) -> (r: Option<u64>)
        requires
            old(self).wf(),
        ensures
            final(self).wf(),
            old(self).is_closed() || old(self).submitted() == u64::MAX ==> r is None && *final(self)
                == *old(self),
            !old(self).is_closed() && old(self).submitted() < u64::MAX ==> {
                &&& r == Some(old(self).submitted() as u64)
                &&& final(self).queue() == old(self).queue().push(old(self).submitted() as u64)
                &&& final(self).submitted() == old(self).submitted() + 1
                &&& final(self).workers() == old(self).workers()
                &&& final(self).is_closed() == old(self).is_closed()
                &&& final(self).started() == old(self).started()
                &&& final(self).done() == old(self).done()
            },
    {
        if self.closed || self.next_id == u64::MAX {
            return None;
        }
        let id = self.next_id;
        self.queue.push(id);
        self.next_id = id + 1;
        proof {
            let q = self.queue@;
            assert(q.last() == id);
            assert forall|x: u64| x < self.next_id implies #[trigger] self.started@.contains(x)
                || q.contains(x) by {
                if x == id {
                    assert(q[q.len() - 1] == x);
                } else if !self.started@.contains(x) {
                    let i = choose|i: int| 0 <= i < old(self).queue@.len() && old(self).queue@[i] == x;
                    assert(q[i] == x);
                }
            }
        }
        Some(id)
    }

    /// Closes the queue: no job is queued after this. Closing twice is
    /// closing once.
    pub fn close(&mut self)
        requires
            old(self).wf(),
        ensures
            final(self).wf(),
            final(self).is_closed(),
            final(self).queue() == old(self).queue(),
            final(self).workers() == old(self).workers(),
            final(self).submitted() == old(self).submitted(),
            final(self).started() == old(self).started(),
            final(self).done() == old(self).done(),
    {
        self.closed = true;
    }

    /// Decides what the idle worker `w` does next: it takes the oldest queued
    /// job if there is one; otherwise it stops if the queue is closed, and
    /// waits if not.
    pub fn next_step(&mut self, w: usize) -> (r: Step)
        requires
            old(self).wf(),
            w < old(self).workers().len(),
            old(self).workers()[w as int] == WorkerState::Idle,
        ensures
            final(self).wf(),
            final(self).submitted() == old(self).submitted(),
            final(self).is_closed() == old(self).is_closed(),
            final(self).done() == old(self).done(),
            old(self).queue().len() > 0 ==> {
                let id = old(self).queue()[0];
                &&& r == Step::Run(id)
                &&& !old(self).started().contains(id)
                &&& final(self).started() == old(self).started().insert(id)
                &&& final(self).queue() == old(self).queue().drop_first()
                &&& final(self).workers() == old(self).workers().update(
                    w as int,
                    WorkerState::Busy(id),
                )
            },
            old(self).queue().len() == 0 && old(self).is_closed() ==> {
                &&& r == Step::Exit
                &&& final(self).started() == old(self).started()
                &&& final(self).queue() == old(self).queue()
                &&& final(self).workers() == old(self).workers().update(
                    w as int,
                    WorkerState::Stopped,
                )
            },
            old(self).queue().len() == 0 && !old(self).is_closed() ==> r == Step::Wait
                && *final(self) == *old(self),
    {
        if self.queue.len() > 0 {
            let ghost q0 = self.queue@;
            let ghost ws0 = self.workers@;
            let id = self.queue.remove(0);
            self.workers.set(w, WorkerState::Busy(id));
            proof {
                self.started@ = self.started@.insert(id);
                let q = self.queue@;
                let ws = self.workers@;
                assert forall|i: int| 0 <= i < q.len() implies q[i] < self.next_id
                    && !self.started@.contains(#[trigger] q[i]) by {
                    assert(q[i] == q0[i + 1]);
                    assert(q0[0] != q0[i + 1]);
                }
                assert forall|x: u64| x < self.next_id implies #[trigger] self.started@.contains(x)
                    || q.contains(x) by {
                    if x != id && !old(self).started@.contains(x) {
                        let i = choose|i: int| 0 <= i < q0.len() && q0[i] == x;
                        assert(i != 0);
                        assert(q[i - 1] == x);
                    }
                }
                assert forall|v: int, u: int|
                    0 <= v < u < ws.len() && #[trigger] ws[v] is Busy && #[trigger] ws[u] is Busy
                        implies ws[v] != ws[u] by {
                    if v != w && u != w {
                        assert(ws0[v] != ws0[u]);
                    }
                }
                assert forall|x: u64|
                    #[trigger] self.started@.contains(x) && !self.done@.contains(x) implies running(
                    ws,
                    x,
                ) by {
                    if x == id {
                        assert(ws[w as int] == WorkerState::Busy(x));
                    } else {
                        let v = choose|v: int| 0 <= v < ws0.len() && ws0[v] == WorkerState::Busy(x);
                        assert(v != w);
                        assert(ws[v] == WorkerState::Busy(x));
                    }
                }
                assert(q =~= q0.drop_first());
            }
            Step::Run(id)
        } else if self.closed {
            let ghost ws0 = self.workers@;
            self.workers.set(w, WorkerState::Stopped);
            proof {
                let ws = self.workers@;
                assert forall|x: u64|
                    #[trigger] self.started@.contains(x) && !self.done@.contains(x) implies running(
                    ws,
                    x,
                ) by {
                    let v = choose|v: int| 0 <= v < ws0.len() && ws0[v] == WorkerState::Busy(x);
                    assert(v != w);
                    assert(ws[v] == WorkerState::Busy(x));
                }
                assert forall|v: int, u: int|
                    0 <= v < u < ws.len() && #[trigger] ws[v] is Busy && #[trigger] ws[u] is Busy
                        implies ws[v] != ws[u] by {
                    assert(ws0[v] != ws0[u]);
                }
            }
            Step::Exit
        } else {
            Step::Wait
        }
    }

    /// Records that worker `w` has run its job to completion; the worker is
    /// idle again.
    pub fn finish(&mut self, w: usize)
        requires
            old(self).wf(),
            w < old(self).workers().len(),
            old(self).workers()[w as int] is Busy,
        ensures
            final(self).wf(),
            final(self).done() == old(self).done().insert(old(self).workers()[w as int]->Busy_0),
            final(self).workers() == old(self).workers().update(w as int, WorkerState::Idle),
            final(self).queue() == old(self).queue(),
            final(self).submitted() == old(self).submitted(),
            final(self).is_closed() == old(self).is_closed(),
            final(self).started() == old(self).started(),
    {
        let ghost ws0 = self.workers@;
        let ghost id = ws0[w as int]->Busy_0;
        self.workers.set(w, WorkerState::Idle);
        proof {
            self.done@ = self.done@.insert(id);
            let ws = self.workers@;
            assert forall|x: u64|
                #[trigger] self.started@.contains(x) && !self.done@.contains(x) implies running(
                ws,
                x,
            ) by {
                let v = choose|v: int| 0 <= v < ws0.len() && ws0[v] == WorkerState::Busy(x);
                assert(v != w);
                assert(ws[v] == WorkerState::Busy(x));
            }
            assert forall|v: int| 0 <= v < ws.len() && #[trigger] ws[v] is Busy implies
                self.started@.contains(ws[v]->Busy_0) && !self.done@.contains(ws[v]->Busy_0) by {
                assert(v != w);
                if v < w {
                    assert(ws0[v] != ws0[w as int]);
                } else {
                    assert(ws0[w as int] != ws0[v]);
                }
            }
            assert forall|v: int, u: int|
                0 <= v < u < ws.len() && #[trigger] ws[v] is Busy && #[trigger] ws[u] is Busy
                    implies ws[v] != ws[u] by {
                assert(ws0[v] != ws0[u]);
            }
        }
    }
}

proof fn lemma_busy_count_bounds(ws: Seq<WorkerState>)
    ensures
        busy_count(ws) <= ws.len(),
        all_stopped(ws) ==> busy_count(ws) == 0,
    decreases ws.len(),
{
    if ws.len() > 0 {
        lemma_busy_count_bounds(ws.drop_last());
        if all_stopped(ws) {
            assert forall|w: int| 0 <= w < ws.drop_last().len() implies ws.drop_last()[w]
                == WorkerState::Stopped by {
                assert(ws[w] == WorkerState::Stopped);
            }
            assert(ws[ws.len() - 1] == WorkerState::Stopped);
        }
    }
}

/// At no moment do more jobs run than the pool has workers: each worker
/// runs at most one job at a time.
pub proof fn lemma_running_at_most_size(p: PoolState)
    requires
        p.wf(),
    ensures
        busy_count(p.workers()) <= p.workers().len(),
{
    lemma_busy_count_bounds(p.workers());
}

/// Every submitted job is in exactly one place: queued, running on one
/// worker, or done. No submitted job is lost, and no two workers run the
/// same job.
pub proof fn lemma_each_job_once(p: PoolState)
    requires
        p.wf(),
    ensures
        forall|id: u64|
            (id as nat) < p.submitted() ==> {
                ||| p.queue().contains(id) && !running(p.workers(), id) && !p.done().contains(id)
                ||| !p.queue().contains(id) && running(p.workers(), id) && !p.done().contains(id)
                ||| !p.queue().contains(id) && !running(p.workers(), id) && p.done().contains(id)
            },
        forall|v: int, w: int|
            0 <= v < w < p.workers().len() && p.workers()[v] is Busy && p.workers()[w] is Busy
                ==> p.workers()[v] != p.workers()[w],
{
    let ws = p.workers@;
    assert forall|id: u64| (id as nat) < p.submitted() implies {
        ||| p.queue().contains(id) && !running(ws, id) && !p.done().contains(id)
        ||| !p.queue().contains(id) && running(ws, id) && !p.done().contains(id)
        ||| !p.queue().contains(id) && !running(ws, id) && p.done().contains(id)
    } by {
        if p.queue@.contains(id) {
            let i = choose|i: int| 0 <= i < p.queue@.len() && p.queue@[i] == id;
            assert(!p.started@.contains(p.queue@[i]));
            if running(ws, id) {
                let w = choose|w: int| 0 <= w < ws.len() && ws[w] == WorkerState::Busy(id);
                assert(ws[w] is Busy);
            }
        } else {
            assert(p.started@.contains(id));
            if p.done@.contains(id) && running(ws, id) {
                let w = choose|w: int| 0 <= w < ws.len() && ws[w] == WorkerState::Busy(id);
                assert(ws[w] is Busy);
            }
        }
    }
}

/// Once every worker has stopped, the queue was closed and is empty, no job
/// runs, and every submitted job has run to completion.
pub proof fn lemma_shutdown_drains(p: PoolState)
    requires
        p.wf(),
        all_stopped(p.workers()),
    ensures
        p.is_closed(),
        p.queue().len() == 0,
        busy_count(p.workers()) == 0,
        forall|id: u64| (id as nat) < p.submitted() ==> p.done().contains(id),
{
    let ws = p.workers@;
    assert(ws[0] == WorkerState::Stopped);
    lemma_busy_count_bounds(ws);
    assert forall|id: u64| (id as nat) < p.submitted() implies p.done().contains(id) by {
        assert(p.started@.contains(id) || p.queue@.contains(id));
        if !p.done@.contains(id) {
            let w = choose|w: int| 0 <= w < ws.len() && ws[w] == WorkerState::Busy(id);
            assert(ws[w] == WorkerState::Stopped);
        }
    }
}

} // verus!
