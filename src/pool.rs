use vstd::prelude::*;

use crate::message::{terminates, Message};
use crate::queue::WorkQueue;
use crate::worker::Worker;

verus! {

/// The handles still held by `ws`, in the order of the workers.
pub open spec fn joinable<H>(ws: Seq<Worker<H>>) -> Seq<H>
    decreases ws.len(),
{
    if ws.len() == 0 {
        Seq::empty()
    } else {
        let rest = joinable(ws.drop_last());
        match ws.last().spec_thread() {
            Some(h) => rest.push(h),
            None => rest,
        }
    }
}

/// What one teardown does, from pool `p0` and queue `q0` to `p1` and `q1`,
/// handing out the handles `r`: every handle still held is handed out and none
/// is left; if the pool had not been shut down, one stop signal per worker is
/// appended to the queue, otherwise the queue is left as it was.
pub open spec fn shutdown_post<H, J>(
    p0: ThreadPool<H>,
    q0: WorkQueue<J>,
    p1: ThreadPool<H>,
    q1: WorkQueue<J>,
    r: Seq<H>,
) -> bool {
    &&& p1.wf()
    &&& p1.spec_terminated()
    &&& p1.spec_workers().len() == p0.spec_workers().len()
    &&& forall|i: int|
        0 <= i < p1.spec_workers().len() ==> (#[trigger] p1.spec_workers()[i]).spec_thread() is None
    &&& r == joinable(p0.spec_workers())
    &&& q1.wf()
    &&& q1.delivered() == q0.delivered()
    &&& !p0.spec_terminated() ==> {
        &&& q1.pending() == q0.pending() + terminates(p0.spec_workers().len())
        &&& q1.sent() == q0.sent() + terminates(p0.spec_workers().len())
    }
    &&& p0.spec_terminated() ==> {
        &&& q1.pending() == q0.pending()
        &&& q1.sent() == q0.sent()
    }
}

/// Workers whose handles have all been taken hold none.
pub proof fn lemma_joinable_none<H>(ws: Seq<Worker<H>>)
    requires
        forall|i: int| 0 <= i < ws.len() ==> (#[trigger] ws[i]).spec_thread() is None,
    ensures
        joinable(ws) == Seq::<H>::empty(),
    decreases ws.len(),
{
    if ws.len() > 0 {
        assert(ws[ws.len() - 1].spec_thread() is None);
        lemma_joinable_none(ws.drop_last());
    }
}

/// Teardown may be reached twice: the second one sends nothing and hands out no
/// handle, so across both every handle is handed out exactly once.
pub proof fn lemma_shutdown_twice<H, J>(
    p0: ThreadPool<H>,
    q0: WorkQueue<J>,
    p1: ThreadPool<H>,
    q1: WorkQueue<J>,
    r1: Seq<H>,
    p2: ThreadPool<H>,
    q2: WorkQueue<J>,
    r2: Seq<H>,
)
    requires
        shutdown_post(p0, q0, p1, q1, r1),
        shutdown_post(p1, q1, p2, q2, r2),
    ensures
        r2.len() == 0,
        r1 + r2 == joinable(p0.spec_workers()),
        q2.pending() == q1.pending(),
        q2.sent() == q1.sent(),
        q2.delivered() == q1.delivered(),
{
    lemma_joinable_none(p1.spec_workers());
    assert(r1 + r2 =~= r1);
}

/// A job submitted right before teardown is received before any of the stop
/// signals that the teardown sent: whenever one of those signals has been
/// received, the job was received earlier. `q` is the queue just after the
/// submission and the teardown, `later` the same queue at any later time.
pub proof fn lemma_job_before_terminates<J>(
    q: WorkQueue<J>,
    later: WorkQueue<J>,
    earlier_sent: Seq<Message<J>>,
    job: J,
    n: nat,
)
    requires
        q.wf(),
        later.wf(),
        later.extends(&q),
        q.sent() == earlier_sent.push(Message::NewJob(job)) + terminates::<J>(n),
    ensures
        forall|t: int|
            earlier_sent.len() < t <= earlier_sent.len() + n && t < later.delivered().len() ==> {
                &&& (#[trigger] later.delivered()[t]) is Terminate
                &&& later.delivered()[earlier_sent.len() as int] == Message::NewJob(job)
            },
{
    later.lemma_each_message_once();
    let m = earlier_sent.len() as int;
    assert forall|t: int|
        m < t <= m + n && t < later.delivered().len() implies {
            &&& (#[trigger] later.delivered()[t]) is Terminate
            &&& later.delivered()[m] == Message::NewJob(job)
        } by {
        assert(later.delivered()[t] == later.sent()[t]);
        assert(later.sent()[t] == q.sent()[t]);
        assert(q.sent()[t] == terminates::<J>(n)[t - m - 1]);
        assert(later.delivered()[m] == later.sent()[m]);
        assert(later.sent()[m] == q.sent()[m]);
    }
}

/// A pool of a fixed number of workers, numbered from zero, and the sending side
/// of their shared work queue. `H` is the handle by which a worker's thread is
/// joined.
pub struct ThreadPool<H> {
    workers: Vec<Worker<H>>,
    terminated: bool,
}

impl<H> ThreadPool<H> {
    /// The workers, in the order of their identities.
    pub closed spec fn spec_workers(&self) -> Seq<Worker<H>> {
        self.workers@
    }

    /// Whether shutdown has sent its stop signals.
    pub closed spec fn spec_terminated(&self) -> bool {
        self.terminated
    }

    /// There is at least one worker, and the worker at each position has that
    /// position as its identity.
    pub open spec fn wf(&self) -> bool {
        &&& self.spec_workers().len() > 0
        &&& forall|i: int|
            0 <= i < self.spec_workers().len() ==> #[trigger] self.spec_workers()[i].spec_id()
                == i
    }

    /// A pool of `size` workers, numbered `0..size`. The handle of the worker
    /// numbered `id` is one that `spawn(id)` returned.
    pub fn new<F: Fn(usize) -> H>(size: usize, spawn: F) -> (r: Self)
        requires
            size > 0,
            forall|id: usize| id < size ==> #[trigger] spawn.requires((id,)),
        ensures
            r.wf(),
            !r.spec_terminated(),
            r.spec_workers().len() == size,
            forall|i: int|
                0 <= i < size ==> {
                    &&& (#[trigger] r.spec_workers()[i]).spec_thread() is Some
                    &&& spawn.ensures((i as usize,), r.spec_workers()[i].spec_thread()->Some_0)
                },
    {
        let mut workers: Vec<Worker<H>> = Vec::with_capacity(size);
        let mut id: usize = 0;
        while id < size
            invariant
                id <= size,
                workers@.len() == id,
                forall|id: usize| id < size ==> #[trigger] spawn.requires((id,)),
                forall|i: int|
                    0 <= i < id ==> {
                        &&& (#[trigger] workers@[i]).spec_id() == i
                        &&& workers@[i].spec_thread() is Some
                        &&& spawn.ensures((i as usize,), workers@[i].spec_thread()->Some_0)
                    },
            decreases size - id,
        {
            let thread = spawn(id);
            workers.push(Worker::new(id, thread));
            id = id + 1;
        }
        ThreadPool { workers, terminated: false }
    }

    /// The number of workers.
    pub fn size(&self) -> (r: usize)
        ensures
            r == self.spec_workers().len(),
    {
        self.workers.len()
    }

    /// The workers, in the order of their identities.
    pub fn workers(&self) -> (r: &Vec<Worker<H>>)
        ensures
            r@ == self.spec_workers(),
    {
        &self.workers
    }

    /// Submits `job`: it goes to the back of the queue, for exactly one worker to
    /// receive.
    pub fn execute<J>(&self, queue: &mut WorkQueue<J>, job: J)
        requires
            !self.spec_terminated(),
            old(queue).wf(),
        ensures
            final(queue).wf(),
            final(queue).pending() == old(queue).pending().push(Message::NewJob(job)),
            final(queue).sent() == old(queue).sent().push(Message::NewJob(job)),
            final(queue).delivered() == old(queue).delivered(),
    {
        queue.send(Message::NewJob(job));
    }

    /// Takes every handle that is still held, in the order of the workers, and
    /// leaves none behind, so that no thread can be handed out to be joined twice.
    pub fn take_threads(&mut self) -> (r: Vec<H>)
        requires
            old(self).wf(),
        ensures
            final(self).wf(),
            final(self).spec_terminated() == old(self).spec_terminated(),
            final(self).spec_workers().len() == old(self).spec_workers().len(),
            forall|i: int|
                0 <= i < final(self).spec_workers().len() ==> (#[trigger] final(self).spec_workers()[i]).spec_thread() is None,
            r@ == joinable(old(self).spec_workers()),
    {
        let ghost ws = self.workers@;
        let n = self.workers.len();
        let mut handles: Vec<H> = Vec::new();
        let mut i: usize = 0;
        while i < n
            invariant
                n == ws.len(),
                self.terminated == old(self).terminated,
                self.workers@.len() == n,
                i <= n,
                ws.len() > 0,
                forall|j: int| 0 <= j < n ==> #[trigger] ws[j].spec_id() == j,
                forall|j: int|
                    0 <= j < n ==> (#[trigger] self.workers@[j]).spec_id() == ws[j].spec_id(),
                forall|j: int| 0 <= j < i ==> (#[trigger] self.workers@[j]).spec_thread() is None,
                forall|j: int| i <= j < n ==> #[trigger] self.workers@[j] == ws[j],
                handles@ == joinable(ws.take(i as int)),
            decreases n - i,
        {
            let taken = self.workers[i].take_thread();
            match taken {
                Some(h) => handles.push(h),
                None => {},
            }
            assert(ws.take(i + 1).drop_last() =~= ws.take(i as int));
            i = i + 1;
        }
        assert(ws.take(n as int) =~= ws);
        handles
    }

    /// Teardown. The first call puts one stop signal per worker at the back of
    /// the queue; later calls send nothing. Every call then takes the handles
    /// still held, for the caller to join once it has let go of the queue: all
    /// signals are sent before any join begins, and no handle is returned twice.
    pub fn shutdown<J>(&mut self, queue: &mut WorkQueue<J>) -> (r: Vec<H>)
        requires
            old(self).wf(),
            old(queue).wf(),
        ensures
            shutdown_post(*old(self), *old(queue), *final(self), *final(queue), r@),
    {
        if !self.terminated {
            let n = self.workers.len();
            let ghost p0 = queue.pending();
            let ghost s0 = queue.sent();
            let mut k: usize = 0;
            while k < n
                invariant
                    k <= n,
                    queue.wf(),
                    queue.delivered() == old(queue).delivered(),
                    queue.pending() == p0 + terminates::<J>(k as nat),
                    queue.sent() == s0 + terminates::<J>(k as nat),
                decreases n - k,
            {
                queue.send(Message::Terminate);
                assert(p0 + terminates::<J>(k as nat).push(Message::Terminate) =~= p0 + terminates::<J>((k + 1) as nat));
                assert(s0 + terminates::<J>(k as nat).push(Message::Terminate) =~= s0 + terminates::<J>((k + 1) as nat));
                k = k + 1;
            }
            self.terminated = true;
        }
        self.take_threads()
    }

    /// The workers' identities are pairwise distinct: they are `0..size`.
    pub proof fn lemma_ids_distinct(&self)
        requires
            self.wf(),
        ensures
            forall|i: int, j: int|
                0 <= i < j < self.spec_workers().len() ==> #[trigger] self.spec_workers()[i].spec_id()
                    != #[trigger] self.spec_workers()[j].spec_id(),
    {
    }
}

} // verus!
