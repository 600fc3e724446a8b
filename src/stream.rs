//! The decisions of the stream adapter: what one upstream chunk, or one
//! reply of the worker, turns into for the consumer.

use vstd::prelude::*;
use flate2::DecompressError;
use crate::decompressor::{
    decompress_outcome, ZlibDecompressionError, ZlibStreamDecompressor,
    DEFAULT_OUTPUT_BUFFER_SIZE,
};

verus! {

/// What the adapter does after one resumption.
pub enum StreamStep {
    /// Hand a decoded message to the consumer.
    Message(Vec<u8>),
    /// Hand the fatal error to the consumer; the sequence ends after it.
    Fatal(DecompressError),
    /// The chunk completed no message: poll upstream again without yielding.
    Rearm,
    /// The sequence is exhausted.
    End,
}

/// The step for one outcome of the decompressor.
pub open spec fn step_of(outcome: Result<Vec<u8>, ZlibDecompressionError>) -> StreamStep {
    match outcome {
        Ok(data) => StreamStep::Message(data),
        Err(ZlibDecompressionError::NeedMoreData) => StreamStep::Rearm,
        Err(ZlibDecompressionError::DecompressError(e)) => StreamStep::Fatal(e),
    }
}

/// Maps one outcome of the decompressor to what the adapter does.
pub fn step_for_outcome(outcome: Result<Vec<u8>, ZlibDecompressionError>) -> (r: StreamStep)
    ensures
        r == step_of(outcome),
{
    match outcome {
        Ok(data) => StreamStep::Message(data),
        Err(ZlibDecompressionError::NeedMoreData) => StreamStep::Rearm,
        Err(ZlibDecompressionError::DecompressError(e)) => StreamStep::Fatal(e),
    }
}

/// The bytes of an optional chunk.
pub open spec fn item_view(item: Option<&[u8]>) -> Option<Seq<u8>> {
    match item {
        Some(chunk) => Some(chunk@),
        None => None,
    }
}

/// What `on_item` promises of one item from upstream: `before` and `after`
/// are the adapter around the call, `r` its step.
pub open spec fn stepped(
    before: ZlibStreamState,
    item: Option<Seq<u8>>,
    after: ZlibStreamState,
    r: StreamStep,
) -> bool {
    &&& before.is_finished() ==> r is End && after == before
    &&& !before.is_finished() && item is None ==> {
        &&& r is End
        &&& after.is_finished()
        &&& after.decompressor() == before.decompressor()
    }
    &&& !before.is_finished() && item is Some ==> {
        &&& exists|o: Result<Vec<u8>, ZlibDecompressionError>|
            decompress_outcome(before.decompressor(), item->Some_0, after.decompressor(), o)
                && r == #[trigger] step_of(o)
        &&& after.is_finished() <==> r is Fatal
    }
}

/// Fatal then exhausted: over any run of the adapter from a state that has
/// not ended, a fatal error is yielded at most once, and every step after it
/// (or after the end of upstream) is the end of the sequence.
/// `states[i]` is the adapter before item `i`, `steps[i]` its step.
pub proof fn lemma_fatal_then_exhausted(
    items: Seq<Option<Seq<u8>>>,
    states: Seq<ZlibStreamState>,
    steps: Seq<StreamStep>,
)
    requires
        states.len() == items.len() + 1,
        steps.len() == items.len(),
        !states[0].is_finished(),
        forall|i: int|
            0 <= i < items.len() ==> stepped(states[i], #[trigger] items[i], states[i + 1], steps[i]),
    ensures
        forall|i: int, j: int|
            0 <= i < j < items.len() && (#[trigger] steps[i] is Fatal || steps[i] is End) ==> #[trigger] steps[j] is End,
{
    assert forall|i: int, j: int|
        0 <= i < j < items.len() && (#[trigger] steps[i] is Fatal || steps[i] is End) implies #[trigger] steps[j] is End by {
        assert(stepped(states[i], items[i], states[i + 1], steps[i]));
        lemma_finished_stays(items, states, steps, i + 1, j);
        assert(stepped(states[j], items[j], states[j + 1], steps[j]));
    }
}

/// Once ended, the adapter stays ended.
proof fn lemma_finished_stays(
    items: Seq<Option<Seq<u8>>>,
    states: Seq<ZlibStreamState>,
    steps: Seq<StreamStep>,
    i: int,
    j: int,
)
    requires
        0 <= i <= j <= items.len(),
        states.len() == items.len() + 1,
        steps.len() == items.len(),
        states[i].is_finished(),
        forall|k: int|
            0 <= k < items.len() ==> stepped(states[k], #[trigger] items[k], states[k + 1], steps[k]),
    ensures
        states[j].is_finished(),
    decreases j - i,
{
    if i < j {
        assert(stepped(states[i], items[i], states[i + 1], steps[i]));
        lemma_finished_stays(items, states, steps, i + 1, j);
    }
}

/// The inline adapter's state: the decompressor it owns, and whether the
/// sequence has ended.
pub struct ZlibStreamState {
    decompressor: ZlibStreamDecompressor,
    finished: bool,
}

impl ZlibStreamState {
    /// The decompressor the adapter drives.
    pub closed spec fn decompressor(&self) -> ZlibStreamDecompressor {
        self.decompressor
    }

    /// The decompressor is well formed.
    pub open spec fn wf(&self) -> bool {
        self.decompressor().wf()
    }

    /// Whether the sequence has ended; it then yields nothing more.
    pub closed spec fn is_finished(&self) -> bool {
        self.finished
    }

    /// An adapter state over a decompressor with the default configuration.
    pub fn new() -> (r: Self)
        ensures
            r.wf(),
            !r.is_finished(),
            r.decompressor().is_fresh(),
            forall|n: nat| #[trigger] r.decompressor().output_capacity(n) == DEFAULT_OUTPUT_BUFFER_SIZE,
    {
        ZlibStreamState { decompressor: ZlibStreamDecompressor::new(), finished: false }
    }

    /// An adapter state over the given decompressor.
    pub fn new_with_decompressor(decompressor: ZlibStreamDecompressor) -> (r: Self)
        requires
            decompressor.wf(),
        ensures
            r.wf(),
            !r.is_finished(),
            r.decompressor() == decompressor,
    {
        ZlibStreamState { decompressor, finished: false }
    }

    /// Whether the sequence has ended.
    pub fn finished(&self) -> (r: bool)
        ensures
            r == self.is_finished(),
    {
        self.finished
    }

    /// Handles one item from upstream (`None`: upstream is exhausted).
    ///
    /// Once ended, the adapter ends at every later call.  A chunk is fed to
    /// the decompressor: a message is yielded, or nothing (poll again), or
    /// the fatal error, exactly once, after which the adapter has ended.
    pub fn on_item(&mut self, item: Option<&[u8]>) -> (r: StreamStep)
        requires
            old(self).wf(),
        ensures
            final(self).wf(),
            stepped(*old(self), item_view(item), *final(self), r),
    {
        if self.finished {
            return StreamStep::End;
        }
        match item {
            None => {
                self.finished = true;
                StreamStep::End
            },
            Some(chunk) => {
                let outcome = self.decompressor.decompress(chunk);
                let ghost o = outcome;
                let step = step_for_outcome(outcome);
                if let StreamStep::Fatal(_) = step {
                    self.finished = true;
                }
                step
            },
        }
    }
}

/// The offloaded adapter's state: the decompressor runs on a worker, so
/// only whether the sequence has ended is kept here.
pub struct OffloadStreamState {
    finished: bool,
}

impl OffloadStreamState {
    /// Whether the sequence has ended; it then yields nothing more.
    pub closed spec fn is_finished(&self) -> bool {
        self.finished
    }

    /// A state that has not ended.
    pub fn new() -> (r: Self)
        ensures
            !r.is_finished(),
    {
        OffloadStreamState { finished: false }
    }

    /// Whether the sequence has ended.
    pub fn finished(&self) -> (r: bool)
        ensures
            r == self.is_finished(),
    {
        self.finished
    }

    /// Handles the worker's reply to one chunk (`None`: the worker is gone,
    /// or upstream is exhausted), which ends the sequence.
    pub fn on_reply(&mut self, reply: Option<Result<Vec<u8>, ZlibDecompressionError>>) -> (r: StreamStep)
        ensures
            old(self).is_finished() ==> r is End && final(self).is_finished(),
            !old(self).is_finished() && reply is None ==> r is End && final(self).is_finished(),
            !old(self).is_finished() && reply is Some ==> r == step_of(reply->Some_0)
                && (final(self).is_finished() <==> r is Fatal),
    {
        if self.finished {
            return StreamStep::End;
        }
        match reply {
            None => {
                self.finished = true;
                StreamStep::End
            },
            Some(outcome) => {
                let step = step_for_outcome(outcome);
                if let StreamStep::Fatal(_) = step {
                    self.finished = true;
                }
                step
            },
        }
    }
}

} // verus!
