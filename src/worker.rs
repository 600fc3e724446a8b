//! The decisions of the decompression worker: one job in, one action out.

use vstd::prelude::*;
use crate::decompressor::{decompress_outcome, ZlibDecompressionError, ZlibStreamDecompressor};

verus! {

/// A message on the worker's job queue.
pub enum WorkerJob {
    /// Stop once every job queued before this one is done.
    Finish,
    /// Feed this chunk to the decompressor.
    Decompress(Vec<u8>),
}

/// What the worker does after one job.
pub enum WorkerAction {
    /// Leave the work loop.
    Stop,
    /// Send this outcome on the job's reply channel.
    Reply(Result<Vec<u8>, ZlibDecompressionError>),
}

/// What `handle` promises of one job: `before` and `after` are the worker
/// around the call, `r` its action.
pub open spec fn handled(
    before: DecompressorWorker,
    job: WorkerJob,
    after: DecompressorWorker,
    r: WorkerAction,
) -> bool {
    &&& before.is_stopped() ==> r is Stop && after == before
    &&& !before.is_stopped() && job is Finish ==> {
        &&& r is Stop
        &&& after.is_stopped()
        &&& after.decompressor() == before.decompressor()
    }
    &&& !before.is_stopped() && job is Decompress ==> {
        &&& r is Reply
        &&& !after.is_stopped()
        &&& decompress_outcome(
            before.decompressor(),
            job->Decompress_0@,
            after.decompressor(),
            r->Reply_0,
        )
    }
}

/// Drain before stop: when the worker handles `jobs` in queue order from a
/// running state, it replies to exactly the `Decompress` jobs queued before
/// the first `Finish`, and stops at that `Finish` and at every job after it.
/// `states[i]` is the worker before job `i`, `actions[i]` its action.
pub proof fn lemma_worker_drains_then_stops(
    jobs: Seq<WorkerJob>,
    states: Seq<DecompressorWorker>,
    actions: Seq<WorkerAction>,
)
    requires
        states.len() == jobs.len() + 1,
        actions.len() == jobs.len(),
        !states[0].is_stopped(),
        forall|i: int|
            0 <= i < jobs.len() ==> handled(states[i], #[trigger] jobs[i], states[i + 1], actions[i]),
    ensures
        forall|i: int|
            0 <= i < jobs.len() ==> ((#[trigger] actions[i] is Reply) <==> (jobs[i] is Decompress
                && forall|j: int| 0 <= j < i ==> !(#[trigger] jobs[j] is Finish))),
{
    assert forall|i: int| 0 <= i < jobs.len() implies ((#[trigger] actions[i] is Reply) <==> (
    jobs[i] is Decompress && forall|j: int| 0 <= j < i ==> !(#[trigger] jobs[j] is Finish))) by {
        lemma_stopped_after_finish(jobs, states, actions, i);
        assert(handled(states[i], jobs[i], states[i + 1], actions[i]));
    }
}

/// The worker is stopped before job `i` exactly when a `Finish` came
/// earlier.
proof fn lemma_stopped_after_finish(
    jobs: Seq<WorkerJob>,
    states: Seq<DecompressorWorker>,
    actions: Seq<WorkerAction>,
    i: int,
)
    requires
        0 <= i <= jobs.len(),
        states.len() == jobs.len() + 1,
        actions.len() == jobs.len(),
        !states[0].is_stopped(),
        forall|k: int|
            0 <= k < jobs.len() ==> handled(states[k], #[trigger] jobs[k], states[k + 1], actions[k]),
    ensures
        states[i].is_stopped() <==> exists|j: int| 0 <= j < i && #[trigger] jobs[j] is Finish,
    decreases i,
{
    if i > 0 {
        lemma_stopped_after_finish(jobs, states, actions, i - 1);
        assert(handled(states[i - 1], jobs[i - 1], states[i], actions[i - 1]));
        if states[i - 1].is_stopped() {
            let j = choose|j: int| 0 <= j < i - 1 && #[trigger] jobs[j] is Finish;
            assert(0 <= j < i && jobs[j] is Finish);
        } else if jobs[i - 1] is Finish {
            assert(0 <= i - 1 < i && jobs[i - 1] is Finish);
        }
    }
}

/// The worker's state: the decompressor it owns exclusively, and whether it
/// has been told to stop.
pub struct DecompressorWorker {
    decompressor: ZlibStreamDecompressor,
    stopped: bool,
}

impl DecompressorWorker {
    /// The decompressor the worker drives.
    pub closed spec fn decompressor(&self) -> ZlibStreamDecompressor {
        self.decompressor
    }

    /// The decompressor is well formed.
    pub open spec fn wf(&self) -> bool {
        self.decompressor().wf()
    }

    /// Whether the worker has been told to stop.
    pub closed spec fn is_stopped(&self) -> bool {
        self.stopped
    }

    /// A worker over the given decompressor.
    pub fn new(decompressor: ZlibStreamDecompressor) -> (r: Self)
        requires
            decompressor.wf(),
        ensures
            r.wf(),
            !r.is_stopped(),
            r.decompressor() == decompressor,
    {
        DecompressorWorker { decompressor, stopped: false }
    }

    /// Handles one job, in the order the jobs were queued.
    ///
    /// A stopped worker stops again; `Finish` stops it; a chunk is fed to the
    /// decompressor and its outcome is the reply.
    pub fn handle(&mut self, job: WorkerJob) -> (r: WorkerAction)
        requires
            old(self).wf(),
        ensures
            final(self).wf(),
            handled(*old(self), job, *final(self), r),
    {
        if self.stopped {
            return WorkerAction::Stop;
        }
        match job {
            WorkerJob::Finish => {
                self.stopped = true;
                WorkerAction::Stop
            },
            WorkerJob::Decompress(data) => {
                WorkerAction::Reply(self.decompressor.decompress(data.as_slice()))
            },
        }
    }
}

} // verus!
