//! The worker-pool protocol as a verified model: a FIFO queue of messages
//! consumed by a fixed set of workers, submissions that never block, and a
//! graceful shutdown that first drains every accepted job and then retires
//! each worker with one `Terminate` sentinel (drain-then-terminate: a job
//! accepted before the shutdown call is always executed). The surrounding
//! program runs this protocol on real threads; the model fixes what the
//! protocol decides at every step.

use vstd::prelude::*;

verus! {

/// A unit of deferred work, named by its job id, or the shutdown sentinel.
#[derive(Debug, PartialEq, Eq, Structural, Clone, Copy)]
pub enum Message {
    NewJob(u64),
    Terminate,
}

/// One worker's phase: `Idle` between messages, `Running` while executing
/// a job, `Terminated` after consuming the sentinel. `Terminated` is
/// absorbing.
#[derive(Debug, PartialEq, Eq, Structural, Clone, Copy)]
pub enum WorkerPhase {
    Idle,
    Running(u64),
    Terminated,
}

impl WorkerPhase {
    /// An idle worker's reaction to one message: a job starts running, the
    /// sentinel retires the worker.
    pub fn on_message(self, message: Message) -> (next: WorkerPhase)
        requires
            self is Idle,
        ensures
            next == (match message {
                Message::NewJob(job) => WorkerPhase::Running(job),
                Message::Terminate => WorkerPhase::Terminated,
            }),
    {
        match message {
            Message::NewJob(job) => WorkerPhase::Running(job),
            Message::Terminate => WorkerPhase::Terminated,
        }
    }

    /// A running worker finishing its job goes back to waiting.
    pub fn finish(self) -> (next: WorkerPhase)
        requires
            self is Running,
        ensures
            next is Idle,
    {
        WorkerPhase::Idle
    }
}

/// The id carried by a job message.
pub open spec fn job_of(message: Message) -> u64 {
    match message {
        Message::NewJob(job) => job,
        Message::Terminate => 0,
    }
}

/// The job ids of a queue of job messages, in queue order.
pub open spec fn job_ids(queue: Seq<Message>) -> Seq<u64> {
    queue.map_values(|m: Message| job_of(m))
}

/// The pool model: the shared FIFO message queue and the worker set.
#[derive(Debug)]
pub struct ThreadPool {
    queue: Vec<Message>,
    workers: Vec<WorkerPhase>,
}

impl ThreadPool {
    /// The pending messages, front first.
    pub closed spec fn queue_seq(&self) -> Seq<Message> {
        self.queue@
    }

    /// The workers' phases.
    pub closed spec fn workers_seq(&self) -> Seq<WorkerPhase> {
        self.workers@
    }

    /// Outside a shutdown only jobs sit in the queue.
    pub open spec fn wf(&self) -> bool {
        forall|i: int| 0 <= i < self.queue_seq().len() ==> (#[trigger] self.queue_seq()[i]) is NewJob
    }

    /// Every worker is waiting for a message.
    pub open spec fn all_idle(&self) -> bool {
        forall|j: int| 0 <= j < self.workers_seq().len() ==> (#[trigger] self.workers_seq()[j]) is Idle
    }

    /// A pool of `size` idle workers with an empty queue.
    pub fn new(size: usize) -> (pool: ThreadPool)
        requires
            size >= 1,
        ensures
            pool.wf(),
            pool.all_idle(),
            pool.queue_seq().len() == 0,
            pool.workers_seq().len() == size,
    {
        let mut workers: Vec<WorkerPhase> = Vec::with_capacity(size);
        let mut spawned: usize = 0;
        while spawned < size
            invariant
                spawned <= size,
                workers@.len() == spawned,
                forall|j: int| 0 <= j < spawned ==> (#[trigger] workers@[j]) is Idle,
            decreases size - spawned,
        {
            workers.push(WorkerPhase::Idle);
            spawned = spawned + 1;
        }
        ThreadPool { queue: Vec::new(), workers }
    }

    /// How many workers the pool was built with.
    pub fn worker_count(&self) -> (count: usize)
        ensures
            count == self.workers_seq().len(),
    {
        self.workers.len()
    }

    /// The phase of the worker at `index`.
    pub fn worker_phase(&self, index: usize) -> (phase: WorkerPhase)
        requires
            index < self.workers_seq().len(),
        ensures
            phase == self.workers_seq()[index as int],
    {
        self.workers[index]
    }

    /// How many messages are waiting in the queue.
    pub fn queue_len(&self) -> (length: usize)
        ensures
            length == self.queue_seq().len(),
    {
        self.queue.len()
    }

    /// Submits a job: fire and forget. The queue is unbounded, so the
    /// submitter never blocks and nothing is rejected.
    pub fn execute(&mut self, job: u64)
        requires
            old(self).wf(),
        ensures
            final(self).wf(),
            final(self).queue_seq() == old(self).queue_seq().push(Message::NewJob(job)),
            final(self).workers_seq() == old(self).workers_seq(),
    {
        self.queue.push(Message::NewJob(job));
        proof {
            let after = final(self).queue_seq();
            assert forall|i: int| 0 <= i < after.len() implies (#[trigger] after[i]) is NewJob by {
                if i < old(self).queue_seq().len() {
                    assert(old(self).queue_seq()[i] is NewJob);
                }
            }
        }
    }

    /// The graceful shutdown: every job already accepted is executed in
    /// queue order, then one `Terminate` sentinel per worker is enqueued
    /// and consumed, retiring every worker. Afterwards the queue holds
    /// nothing — no sentinel is left unconsumed — and no worker is left
    /// running.
    pub fn shutdown(&mut self) -> (executed: Vec<u64>)
        requires
            old(self).wf(),
            old(self).all_idle(),
            old(self).workers_seq().len() >= 1,
        ensures
            executed@ == job_ids(old(self).queue_seq()),
            final(self).queue_seq().len() == 0,
            final(self).workers_seq().len() == old(self).workers_seq().len(),
            forall|j: int|
                0 <= j < final(self).workers_seq().len() ==> (#[trigger] final(self).workers_seq()[j]) is Terminated,
            final(self).wf(),
    {
        let ghost submitted = self.queue@;
        let mut executed: Vec<u64> = Vec::new();
        while self.queue.len() > 0
            invariant
                old(self).wf(),
                old(self).all_idle(),
                old(self).workers_seq().len() >= 1,
                submitted == old(self).queue_seq(),
                self.workers@ == old(self).workers_seq(),
                executed@.len() + self.queue@.len() == submitted.len(),
                executed@ == job_ids(submitted.take(executed@.len() as int)),
                self.queue@ == submitted.skip(executed@.len() as int),
            decreases self.queue@.len(),
        {
            let ghost done = executed@.len() as int;
            let message = self.queue.remove(0);
            assert(message == submitted[done]);
            assert(message is NewJob);
            assert(self.workers@[0] is Idle);
            match message {
                Message::NewJob(job) => {
                    let running = self.workers[0].on_message(message);
                    self.workers[0] = running;
                    executed.push(job);
                    let idle = self.workers[0].finish();
                    self.workers[0] = idle;
                },
                Message::Terminate => {},
            }
            proof {
                assert(self.workers@ =~= old(self).workers_seq());
                assert(self.queue@ =~= submitted.skip(done + 1));
                assert(executed@ =~= job_ids(submitted.take(done + 1))) by {
                    assert(job_ids(submitted.take(done + 1)).drop_last() =~= job_ids(
                        submitted.take(done),
                    ));
                }
            }
        }
        proof {
            assert(submitted.take(executed@.len() as int) =~= submitted);
        }
        let count = self.workers.len();
        let mut sent: usize = 0;
        while sent < count
            invariant
                count == self.workers@.len(),
                sent <= count,
                self.queue@.len() == sent,
                self.workers@ == old(self).workers_seq(),
                forall|i: int| 0 <= i < sent ==> (#[trigger] self.queue@[i]) is Terminate,
            decreases count - sent,
        {
            self.queue.push(Message::Terminate);
            sent = sent + 1;
        }
        let mut retired: usize = 0;
        while retired < count
            invariant
                old(self).all_idle(),
                count == self.workers@.len(),
                count == old(self).workers_seq().len(),
                retired <= count,
                self.queue@.len() == count - retired,
                forall|i: int| 0 <= i < self.queue@.len() ==> (#[trigger] self.queue@[i]) is Terminate,
                forall|j: int|
                    0 <= j < retired ==> (#[trigger] self.workers@[j]) is Terminated,
                forall|j: int|
                    retired <= j < count ==> self.workers@[j] == old(self).workers_seq()[j],
            decreases count - retired,
        {
            let message = self.queue.remove(0);
            assert(old(self).workers_seq()[retired as int] is Idle);
            let next = self.workers[retired].on_message(message);
            self.workers[retired] = next;
            retired = retired + 1;
        }
        executed
    }
}

} // verus!
