//! Decision core of the background prefetch pipeline.
//!
//! A runner that executes a loader ahead of consumption owns one worker
//! and one consumer around a bounded queue with a cancellation signal.
//! The runner performs the blocking channel work; every decision — when
//! the worker may compute, send, or must exit — is taken here, so the
//! backpressure and cancellation rules are checked once and for all:
//! the worker never completes more than `capacity + 1` unconsumed
//! batches, and on an observed cancellation it discards its in-flight
//! batch and exits at the send-or-cancel checkpoint.
use vstd::prelude::*;

verus! {

/// The worker's phase: computing and sending batches, done with the whole
/// pass, or stopped by cancellation.
#[derive(Debug, Clone, Copy, PartialEq, Eq, Structural)]
pub enum WorkerPhase {
    /// The worker still computes and sends batches.
    Running,
    /// The pass ended; the worker exited normally.
    Exhausted,
    /// The consumer cancelled; the worker exited at the checkpoint.
    Cancelled,
}

/// What the runner must do next with its worker.
#[derive(Debug, Clone, Copy, PartialEq, Eq, Structural)]
pub enum WorkerAction {
    /// Push the held batch into the queue.
    Send,
    /// Block until a queue slot frees or cancellation arrives.
    Wait,
    /// Exit the worker thread at once.
    Exit,
}

/// The observable state of one prefetch pipeline: a bounded queue between
/// one worker and one consumer.
pub struct PrefetchPipeline {
    /// Bounded queue capacity: the configured prefetch size.
    pub capacity: usize,
    /// Completed batches sitting in the queue, not yet consumed.
    pub queued: usize,
    /// Whether the worker holds one completed batch not yet pushed.
    pub holding: bool,
    /// Batches of the pass the worker has still to compute.
    pub pending: usize,
    /// The worker's phase.
    pub phase: WorkerPhase,
}

impl PrefetchPipeline {
    /// The pipeline's invariant: the queue never exceeds its capacity,
    /// and only a running worker holds an in-flight batch.
    pub open spec fn inv(&self) -> bool {
        &&& self.queued <= self.capacity
        &&& self.holding ==> self.phase is Running
    }

    /// Create the pipeline for a pass of `total_batches`, with a bounded
    /// queue of the given capacity.
    pub fn new(capacity: usize, total_batches: usize) -> (p: Self)
        ensures
            p.inv(),
            p.capacity == capacity,
            p.queued == 0,
            !p.holding,
            p.pending == total_batches,
            p.phase is Running,
    {
        PrefetchPipeline {
            capacity,
            queued: 0,
            holding: false,
            pending: total_batches,
            phase: WorkerPhase::Running,
        }
    }

    /// The worker finishes computing the next batch of the pass and now
    /// holds it.
    pub fn worker_compute(&mut self)
        requires
            old(self).inv(),
            old(self).phase is Running,
            !old(self).holding,
            old(self).pending > 0,
        ensures
            final(self).inv(),
            final(self).holding,
            final(self).pending == old(self).pending - 1,
            final(self).queued == old(self).queued,
            final(self).capacity == old(self).capacity,
            final(self).phase is Running,
    {
        self.holding = true;
        self.pending = self.pending - 1;
    }

    /// The worker reaches the send-or-cancel checkpoint while holding a
    /// batch. Cancellation wins over sending: an observed cancellation
    /// discards the held batch and exits at once; otherwise the batch is
    /// sent if a slot is free, and the worker keeps waiting if not.
    pub fn worker_checkpoint(&mut self, cancelled: bool) -> (action: WorkerAction)
        requires
            old(self).inv(),
            old(self).phase is Running,
            old(self).holding,
        ensures
            final(self).inv(),
            final(self).capacity == old(self).capacity,
            final(self).pending == old(self).pending,
            cancelled ==> {
                &&& action == WorkerAction::Exit
                &&& final(self).phase == WorkerPhase::Cancelled
                &&& !final(self).holding
                &&& final(self).queued == old(self).queued
            },
            !cancelled && old(self).queued < old(self).capacity ==> {
                &&& action == WorkerAction::Send
                &&& !final(self).holding
                &&& final(self).queued == old(self).queued + 1
                &&& final(self).phase is Running
            },
            !cancelled && old(self).queued >= old(self).capacity ==> {
                &&& action == WorkerAction::Wait
                &&& *final(self) == *old(self)
            },
    {
        if cancelled {
            self.holding = false;
            self.phase = WorkerPhase::Cancelled;
            WorkerAction::Exit
        } else if self.queued < self.capacity {
            self.holding = false;
            self.queued = self.queued + 1;
            WorkerAction::Send
        } else {
            WorkerAction::Wait
        }
    }

    /// The worker exits normally once the pass holds no further batch.
    pub fn worker_finish(&mut self)
        requires
            old(self).inv(),
            old(self).phase is Running,
            !old(self).holding,
            old(self).pending == 0,
        ensures
            final(self).inv(),
            final(self).phase == WorkerPhase::Exhausted,
            final(self).queued == old(self).queued,
            final(self).capacity == old(self).capacity,
            final(self).pending == 0,
    {
        self.phase = WorkerPhase::Exhausted;
    }

    /// The consumer takes one completed batch out of the queue.
    pub fn consumer_receive(&mut self)
        requires
            old(self).inv(),
            old(self).queued > 0,
        ensures
            final(self).inv(),
            final(self).queued == old(self).queued - 1,
            final(self).capacity == old(self).capacity,
            final(self).pending == old(self).pending,
            final(self).holding == old(self).holding,
            final(self).phase == old(self).phase,
    {
        self.queued = self.queued - 1;
    }

    /// The number of completed batches the pipeline holds ahead of the
    /// consumer: what sits in the queue plus what the worker holds.
    pub open spec fn spec_unconsumed(&self) -> int {
        self.queued + if self.holding {
            1int
        } else {
            0int
        }
    }
}

/// LAW of backpressure: with a prefetch buffer of capacity `k`, the
/// pipeline never holds more than `k + 1` completed, unconsumed batches —
/// at most `k` in the queue and one in the worker's hand.
pub proof fn lemma_backpressure(p: PrefetchPipeline)
    requires
        p.inv(),
    ensures
        p.spec_unconsumed() <= p.capacity + 1,
{
}

} // verus!
