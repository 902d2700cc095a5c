//! The durable work queue, modelled over the sequence of jobs it holds.
//!
//! `enqueue` pushes to the tail and bumps a monotonic counter that serves
//! observability only — it is no ordering or dedup device.  `dequeue` pops
//! the head; against an empty queue it returns nothing and the caller
//! retries after a short backoff.  The pop is atomic at the store level, so
//! a popped job is gone: no second consumer can receive it.
//!
//! The store transport that makes the queue durable lives outside this
//! crate; it carries jobs as opaque serialized blobs and hands values in and
//! out of this model.

use vstd::prelude::*;
use crate::job::Job;

verus! {

/// What one atomic pop does to the queue's contents.
pub open spec fn spec_dequeue(s: Seq<Job>) -> (Option<Job>, Seq<Job>) {
    if s.len() == 0 {
        (None, s)
    } else {
        (Some(s[0]), s.drop_first())
    }
}

/// The ordered, at-most-once work queue.  Its view is the sequence of jobs
/// it holds, oldest first.
pub struct JobQueue {
    jobs: Vec<Job>,
    nonce: u64,
}

impl View for JobQueue {
    type V = Seq<Job>;

    closed spec fn view(&self) -> Seq<Job> {
        self.jobs@
    }
}

impl JobQueue {
    /// The observability counter: how many jobs were pushed and not yet
    /// popped, saturating at the machine bound.
    pub closed spec fn spec_nonce(&self) -> u64 {
        self.nonce
    }

    pub fn new() -> (q: Self)
        ensures
            q@ == Seq::<Job>::empty(),
            q.spec_nonce() == 0,
    {
        JobQueue { jobs: Vec::new(), nonce: 0 }
    }

    pub fn len(&self) -> (n: usize)
        ensures
            n == self@.len(),
    {
        self.jobs.len()
    }

    /// Pushes the job to the tail and returns the bumped counter as the
    /// job's sequence number — observability only, no dedup guarantee.
    pub fn enqueue(&mut self, job: Job) -> (seq_no: u64)
        ensures
            final(self)@ == old(self)@.push(job),
            final(self).spec_nonce() == (if old(self).spec_nonce() < u64::MAX {
                old(self).spec_nonce() + 1
            } else {
                old(self).spec_nonce() as int
            }),
            seq_no == final(self).spec_nonce(),
    {
        self.jobs.push(job);
        if self.nonce < u64::MAX {
            self.nonce = self.nonce + 1;
        }
        self.nonce
    }

    /// Pops the head atomically.  Nothing comes back from an empty queue —
    /// the caller retries later; that is no error.  A returned job has left
    /// the queue, so no other consumer can also receive it.
    pub fn dequeue(&mut self) -> (r: Option<Job>)
        ensures
            r == spec_dequeue(old(self)@).0,
            final(self)@ == spec_dequeue(old(self)@).1,
            old(self)@.len() == 0 ==> final(self).spec_nonce() == old(self).spec_nonce(),
            old(self)@.len() > 0 ==> final(self).spec_nonce() == (
            if old(self).spec_nonce() > 0 {
                old(self).spec_nonce() - 1
            } else {
                0int
            }),
    {
        if self.jobs.len() == 0 {
            return None;
        }
        let job = self.jobs.remove(0);
        if self.nonce > 0 {
            self.nonce = self.nonce - 1;
        }
        proof {
            assert(self.jobs@ =~= old(self)@.drop_first());
        }
        Some(job)
    }
}

/// The queue's contents after a row of enqueues.
pub open spec fn spec_enqueue_all(q: Seq<Job>, js: Seq<Job>) -> Seq<Job>
    decreases js.len(),
{
    if js.len() == 0 {
        q
    } else {
        spec_enqueue_all(q.push(js.first()), js.drop_first())
    }
}

/// A row of enqueues appends the jobs in order.
pub proof fn lemma_enqueue_all(q: Seq<Job>, js: Seq<Job>)
    ensures
        spec_enqueue_all(q, js) == q + js,
    decreases js.len(),
{
    if js.len() == 0 {
        assert(q + js =~= q);
    } else {
        lemma_enqueue_all(q.push(js.first()), js.drop_first());
        assert(q.push(js.first()) + js.drop_first() =~= q + js);
    }
}

/// First-in, first-out: after N enqueues of `js` into an empty queue, the
/// queue holds exactly `js`, and with no enqueue in between, the k-th of N
/// dequeues yields `js[k]` — dequeue order equals enqueue order.
pub proof fn lemma_fifo(js: Seq<Job>, k: int)
    requires
        0 <= k < js.len(),
    ensures
        spec_enqueue_all(Seq::<Job>::empty(), js) == js,
        spec_dequeue(js.skip(k)).0 == Some(js[k]),
        spec_dequeue(js.skip(k)).1 == js.skip(k + 1),
{
    lemma_enqueue_all(Seq::<Job>::empty(), js);
    assert(Seq::<Job>::empty() + js =~= js);
    assert(js.skip(k)[0] == js[k]);
    assert(js.skip(k).drop_first() =~= js.skip(k + 1));
}

/// At most once: against a queue holding exactly one job, of two dequeues —
/// serialized by the store's atomic pop — only the first succeeds with the
/// job; the second finds the queue empty.
pub proof fn lemma_at_most_once(j: Job)
    ensures
        spec_dequeue(seq![j]).0 == Some(j),
        spec_dequeue(spec_dequeue(seq![j]).1).0 is None,
{
    assert(seq![j].drop_first() =~= Seq::<Job>::empty());
}

} // verus!
