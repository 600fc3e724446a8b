//! The decompression engine: buffers fragments until a sync-flush marker ends
//! the pending bytes, then inflates them against the connection-wide context.

use vstd::prelude::*;
use flate2::{Decompress, DecompressError};
use crate::chunk::concat;
use crate::inflate::{inflate_sync, zlib_decoded, zlib_rejects, InflateStatus, Inflater};

verus! {

/// Output buffer capacity used by `ZlibStreamDecompressor::new` (128 KiB).
pub const DEFAULT_OUTPUT_BUFFER_SIZE: usize = 1024 * 128;

/// Largest scratch buffer an inflate call is given: the largest capacity a
/// byte vector can have.
pub const MAX_OUTPUT_BUFFER_SIZE: usize = isize::MAX as usize;

/// True when `s` ends with the sync-flush marker `00 00 FF FF`.
pub open spec fn ends_with_trailer(s: Seq<u8>) -> bool {
    &&& s.len() >= 4
    &&& s[s.len() - 4] == 0u8
    &&& s[s.len() - 3] == 0u8
    &&& s[s.len() - 2] == 255u8
    &&& s[s.len() - 1] == 255u8
}

/// Whether `buf` ends with the sync-flush marker that closes a message.
pub fn ends_with_sync_flush(buf: &[u8]) -> (r: bool)
    ensures
        r == ends_with_trailer(buf@),
{
    let n = buf.len();
    n >= 4 && buf[n - 4] == 0 && buf[n - 3] == 0 && buf[n - 2] == 255 && buf[n - 1] == 255
}

/// Capacity of the scratch buffer of one inflate call, for a pending buffer
/// of `frame` bytes: `frame * factor` under a factor policy, else the fixed
/// size, else the default size; never below one byte nor above
/// `MAX_OUTPUT_BUFFER_SIZE`.  The capacity bounds memory per call only: the
/// inflate loop calls again while a call fills its buffer.
pub open spec fn output_capacity_of(factor: Option<usize>, size: Option<usize>, frame: nat) -> nat {
    let c: int = match factor {
        Some(f) => frame * f,
        None => match size {
            Some(s) => s as int,
            None => DEFAULT_OUTPUT_BUFFER_SIZE as int,
        },
    };
    if c < 1 {
        1
    } else if c > MAX_OUTPUT_BUFFER_SIZE {
        MAX_OUTPUT_BUFFER_SIZE as nat
    } else {
        c as nat
    }
}

/// What `decompress` promises when it is called on `before` with the
/// fragment `frame`, leaving `after` and returning `r`.
///
/// A decompressor that has failed fails again and stays as it was.
/// Otherwise `NeedMoreData` comes exactly when the pending bytes and `frame`
/// do not end with the sync-flush marker; they are then kept and the
/// inflater is left alone.  Else the buffer is inflated.  It fails exactly
/// when the inflater rejects the stream read so far followed by the buffer
/// (where the compressed stream ends inside the buffer, only what was read
/// up to that end counts); the decompressor has then failed.  On success
/// the inflater has read all of the buffer (or a prefix, where the
/// compressed stream ended), the pending bytes are cleared, and the message
/// is what those bytes decode to after what was decoded before.
pub open spec fn decompress_outcome(
    before: ZlibStreamDecompressor,
    frame: Seq<u8>,
    after: ZlibStreamDecompressor,
    r: Result<Vec<u8>, ZlibDecompressionError>,
) -> bool {
    let buf = before.pending() + frame;
    &&& before.has_failed() ==> (r matches Err(ZlibDecompressionError::DecompressError(_)))
        && after == before
    &&& !before.has_failed() ==> {
        &&& (r matches Err(ZlibDecompressionError::NeedMoreData)) <==> !ends_with_trailer(buf)
        &&& (r matches Err(ZlibDecompressionError::NeedMoreData)) ==> {
            &&& after.pending() == buf
            &&& after.consumed() == before.consumed()
            &&& after.stream_ended() == before.stream_ended()
            &&& !after.has_failed()
        }
        &&& ends_with_trailer(buf) && !zlib_rejects(before.consumed() + buf) ==> r is Ok
        &&& (r matches Err(ZlibDecompressionError::DecompressError(_))) ==> {
            &&& after.pending() == buf
            &&& after.has_failed()
            &&& zlib_rejects(before.consumed() + buf)
        }
        &&& r is Ok ==> {
            &&& after.pending() == Seq::<u8>::empty()
            &&& !after.has_failed()
            &&& before.consumed().is_prefix_of(after.consumed())
            &&& after.consumed().is_prefix_of(before.consumed() + buf)
            &&& after.consumed() == before.consumed() + buf || after.stream_ended()
            &&& !zlib_rejects(after.consumed())
            &&& zlib_decoded(before.consumed()) + r->Ok_0@ == zlib_decoded(after.consumed())
        }
    }
}

/// Fragmentation invariance: split one message's compressed bytes into
/// pieces, no proper prefix of which (at a piece boundary) ends with the
/// sync-flush marker, and feed them one at a time to a sound decompressor
/// with no pending bytes (`states[j]` before call `j`, `outcome[j]` its
/// outcome).  Every call but the last returns `NeedMoreData` and leaves the
/// inflater alone, and the last call inflates exactly the bytes that one
/// call with the whole message inflates from the same state (`whole_after`,
/// `whole`).  Where the message ends with the marker and the inflater does
/// not reject it, both succeed; where both succeed before the stream ends,
/// they return the same message.
pub proof fn lemma_fragmentation_invariance(
    pieces: Seq<Seq<u8>>,
    states: Seq<ZlibStreamDecompressor>,
    outcome: Seq<Result<Vec<u8>, ZlibDecompressionError>>,
    whole_after: ZlibStreamDecompressor,
    whole: Result<Vec<u8>, ZlibDecompressionError>,
)
    requires
        pieces.len() >= 1,
        states.len() == pieces.len() + 1,
        outcome.len() == pieces.len(),
        states[0].pending() == Seq::<u8>::empty(),
        !states[0].has_failed(),
        forall|j: int| 0 < j < pieces.len() ==> !ends_with_trailer(#[trigger] concat(pieces.take(j))),
        forall|j: int|
            0 <= j < pieces.len() ==> decompress_outcome(
                states[j],
                #[trigger] pieces[j],
                states[j + 1],
                outcome[j],
            ),
        decompress_outcome(states[0], concat(pieces), whole_after, whole),
    ensures
        forall|j: int|
            0 <= j < pieces.len() - 1 ==> (#[trigger] outcome[j] matches Err(
                ZlibDecompressionError::NeedMoreData,
            )),
        forall|j: int|
            0 <= j < pieces.len() ==> {
                &&& #[trigger] states[j].pending() == concat(pieces.take(j))
                &&& states[j].consumed() == states[0].consumed()
                &&& !states[j].has_failed()
            },
        states[pieces.len() - 1].pending() + pieces.last() == states[0].pending() + concat(pieces),
        outcome.last() is Ok && whole is Ok && !states[pieces.len() as int].stream_ended()
            && !whole_after.stream_ended() ==> outcome.last()->Ok_0@ == whole->Ok_0@,
        ends_with_trailer(concat(pieces)) && !zlib_rejects(states[0].consumed() + concat(pieces))
            ==> outcome.last() is Ok && whole is Ok,
{
    let k = pieces.len() as int;
    assert forall|j: int| 0 <= j < k implies {
        &&& #[trigger] states[j].pending() == concat(pieces.take(j))
        &&& states[j].consumed() == states[0].consumed()
        &&& !states[j].has_failed()
    } by {
        lemma_pending_is_prefix(pieces, states, outcome, j);
    }
    assert forall|j: int| 0 <= j < k - 1 implies (#[trigger] outcome[j] matches Err(
        ZlibDecompressionError::NeedMoreData,
    )) by {
        lemma_pending_is_prefix(pieces, states, outcome, j);
        lemma_concat_take_step(pieces, j);
        assert(!ends_with_trailer(concat(pieces.take(j + 1))));
        assert(decompress_outcome(states[j], pieces[j], states[j + 1], outcome[j]));
    }
    lemma_pending_is_prefix(pieces, states, outcome, k - 1);
    lemma_concat_take_step(pieces, k - 1);
    assert(pieces.take(k) =~= pieces);
    assert(Seq::<u8>::empty() + concat(pieces) =~= concat(pieces));
    if outcome.last() is Ok && whole is Ok && !states[k].stream_ended()
        && !whole_after.stream_ended() {
        let v = outcome.last()->Ok_0;
        let w = whole->Ok_0;
        assert(decompress_outcome(states[k - 1], pieces[k - 1], states[k], outcome[k - 1]));
        let a = zlib_decoded(states[0].consumed());
        assert(a + v@ == a + w@);
        assert(v@ =~= (a + v@).skip(a.len() as int));
        assert(w@ =~= (a + w@).skip(a.len() as int));
    }
}

/// The output buffer policy is no correctness concern: two sound
/// decompressors with the same pending bytes and the same consumed stream
/// prefix, whatever their policies, agree on whether a fragment completes a
/// message, and where both succeed before the stream ends they return the
/// same message and have consumed the same bytes; before the stream ends
/// neither succeeds where the other fails.
pub proof fn lemma_policy_independence(
    d1: ZlibStreamDecompressor,
    d2: ZlibStreamDecompressor,
    frame: Seq<u8>,
    after1: ZlibStreamDecompressor,
    after2: ZlibStreamDecompressor,
    r1: Result<Vec<u8>, ZlibDecompressionError>,
    r2: Result<Vec<u8>, ZlibDecompressionError>,
)
    requires
        !d1.has_failed(),
        !d2.has_failed(),
        d1.pending() == d2.pending(),
        d1.consumed() == d2.consumed(),
        decompress_outcome(d1, frame, after1, r1),
        decompress_outcome(d2, frame, after2, r2),
    ensures
        (r1 matches Err(ZlibDecompressionError::NeedMoreData)) <==> (r2 matches Err(
            ZlibDecompressionError::NeedMoreData,
        )),
        !after1.stream_ended() && !after2.stream_ended() ==> (r1 is Ok <==> r2 is Ok),
        r1 is Ok && r2 is Ok && !after1.stream_ended() && !after2.stream_ended() ==> r1->Ok_0@
            == r2->Ok_0@ && after1.consumed() == after2.consumed(),
{
    if r1 is Ok && r2 is Ok && !after1.stream_ended() && !after2.stream_ended() {
        let a = zlib_decoded(d1.consumed());
        assert(a + r1->Ok_0@ == a + r2->Ok_0@);
        assert(r1->Ok_0@ =~= (a + r1->Ok_0@).skip(a.len() as int));
        assert(r2->Ok_0@ =~= (a + r2->Ok_0@).skip(a.len() as int));
    }
}

/// One more piece extends the concatenation of the pieces before it.
proof fn lemma_concat_take_step(pieces: Seq<Seq<u8>>, j: int)
    requires
        0 <= j < pieces.len(),
    ensures
        concat(pieces.take(j + 1)) == concat(pieces.take(j)) + pieces[j],
{
    assert(pieces.take(j + 1).drop_last() =~= pieces.take(j));
}

/// Before call `j` the pending bytes are the pieces fed so far, and the
/// inflater is as it was.
proof fn lemma_pending_is_prefix(
    pieces: Seq<Seq<u8>>,
    states: Seq<ZlibStreamDecompressor>,
    outcome: Seq<Result<Vec<u8>, ZlibDecompressionError>>,
    j: int,
)
    requires
        0 <= j < pieces.len(),
        states.len() == pieces.len() + 1,
        outcome.len() == pieces.len(),
        states[0].pending() == Seq::<u8>::empty(),
        !states[0].has_failed(),
        forall|i: int| 0 < i < pieces.len() ==> !ends_with_trailer(#[trigger] concat(pieces.take(i))),
        forall|i: int|
            0 <= i < pieces.len() ==> decompress_outcome(
                states[i],
                #[trigger] pieces[i],
                states[i + 1],
                outcome[i],
            ),
    ensures
        states[j].pending() == concat(pieces.take(j)),
        states[j].consumed() == states[0].consumed(),
        !states[j].has_failed(),
    decreases j,
{
    if j == 0 {
        assert(pieces.take(0) =~= Seq::<Seq<u8>>::empty());
    } else {
        lemma_pending_is_prefix(pieces, states, outcome, j - 1);
        lemma_concat_take_step(pieces, j - 1);
        assert(!ends_with_trailer(concat(pieces.take(j))));
        assert(decompress_outcome(states[j - 1], pieces[j - 1], states[j], outcome[j - 1]));
    }
}

/// Why `decompress` returned no message.
pub enum ZlibDecompressionError {
    /// The inflate primitive rejected the stream; the decompressor must be
    /// discarded.
    DecompressError(DecompressError),
    /// The pending bytes do not end with the sync-flush marker yet.
    NeedMoreData,
}

/// Stateful decompressor for one continuous zlib stream, flushed at message
/// boundaries.  One instance serves exactly one stream: once the inflater
/// has reported an error it answers every call with that error, and must be
/// replaced.
pub struct ZlibStreamDecompressor {
    inflate: Inflater,
    read_buf: Vec<u8>,
    output_buffer_factor: Option<usize>,
    output_buffer_size: Option<usize>,
    failure: Option<DecompressError>,
}

impl ZlibStreamDecompressor {
    /// The bytes of the message being assembled.
    pub closed spec fn pending(&self) -> Seq<u8> {
        self.read_buf@
    }

    /// The compressed bytes the inflater has consumed.
    pub closed spec fn consumed(&self) -> Seq<u8> {
        self.inflate.consumed()
    }

    /// Whether the inflater has reported the end of the compressed stream.
    pub closed spec fn stream_ended(&self) -> bool {
        self.inflate.ended()
    }

    /// Whether the inflater has reported an error.
    pub closed spec fn has_failed(&self) -> bool {
        self.failure is Some
    }

    /// Scratch capacity of one inflate call for a pending buffer of `frame` bytes.
    pub closed spec fn output_capacity(&self, frame: nat) -> nat {
        output_capacity_of(self.output_buffer_factor, self.output_buffer_size, frame)
    }

    /// Until it fails, what the inflater has written is all that the bytes
    /// it consumed decode to.
    pub closed spec fn wf(&self) -> bool {
        &&& self.inflate.failed() == self.has_failed()
        &&& !self.has_failed() ==> self.inflate.written() == zlib_decoded(self.inflate.consumed())
    }

    /// A decompressor that has consumed nothing, holds nothing and has not
    /// failed.
    pub open spec fn is_fresh(&self) -> bool {
        &&& self.wf()
        &&& self.pending() == Seq::<u8>::empty()
        &&& self.consumed() == Seq::<u8>::empty()
        &&& !self.has_failed()
    }

    /// A decompressor with a fixed output buffer of `DEFAULT_OUTPUT_BUFFER_SIZE`.
    pub fn new() -> (r: Self)
        ensures
            r.is_fresh(),
            forall|n: nat| #[trigger] r.output_capacity(n) == DEFAULT_OUTPUT_BUFFER_SIZE,
    {
        ZlibStreamDecompressor::with_buffer_size(DEFAULT_OUTPUT_BUFFER_SIZE)
    }

    /// A decompressor whose output buffer holds `output_buffer_factor` times
    /// the pending bytes.  Unverified input may then claim much memory.
    pub fn with_buffer_factor(output_buffer_factor: usize) -> (r: Self)
        ensures
            r.is_fresh(),
            forall|n: nat| #[trigger]
                r.output_capacity(n) == output_capacity_of(Some(output_buffer_factor), None, n),
    {
        ZlibStreamDecompressor {
            inflate: Inflater::new(),
            read_buf: Vec::new(),
            output_buffer_factor: Some(output_buffer_factor),
            output_buffer_size: None,
            failure: None,
        }
    }

    /// A decompressor with a fixed output buffer of `output_buffer_size` bytes.
    pub fn with_buffer_size(output_buffer_size: usize) -> (r: Self)
        ensures
            r.is_fresh(),
            forall|n: nat| #[trigger]
                r.output_capacity(n) == output_capacity_of(None, Some(output_buffer_size), n),
    {
        ZlibStreamDecompressor {
            inflate: Inflater::new(),
            read_buf: Vec::new(),
            output_buffer_factor: None,
            output_buffer_size: Some(output_buffer_size),
            failure: None,
        }
    }

    /// Capacity of the scratch buffer of one inflate call for a pending
    /// buffer of `frame_size` bytes.
    pub fn output_buffer_capacity(&self, frame_size: usize) -> (r: usize)
        ensures
            r == self.output_capacity(frame_size as nat),
            r >= 1,
    {
        let c: usize = match self.output_buffer_factor {
            Some(factor) => match frame_size.checked_mul(factor) {
                Some(c) => c,
                None => MAX_OUTPUT_BUFFER_SIZE,
            },
            None => match self.output_buffer_size {
                Some(s) => s,
                None => DEFAULT_OUTPUT_BUFFER_SIZE,
            },
        };
        if c < 1 {
            1
        } else if c > MAX_OUTPUT_BUFFER_SIZE {
            MAX_OUTPUT_BUFFER_SIZE
        } else {
            c
        }
    }

    /// Whether the inflater has reported an error.
    pub fn failed(&self) -> (r: bool)
        ensures
            r == self.has_failed(),
    {
        self.failure.is_some()
    }

    /// Appends `frame` to the pending bytes; once they end with the
    /// sync-flush marker, inflates them and returns the decoded message, as
    /// `decompress_outcome` states.
    pub fn decompress(&mut self, frame: &[u8]) -> (r: Result<Vec<u8>, ZlibDecompressionError>)
        requires
            old(self).wf(),
        ensures
            final(self).wf(),
            forall|n: nat| #[trigger] final(self).output_capacity(n) == old(self).output_capacity(n),
            decompress_outcome(*old(self), frame@, *final(self), r),
    {
        if let Some(e) = &self.failure {
            return Err(ZlibDecompressionError::DecompressError(e.clone()));
        }
        self.read_buf.extend_from_slice(frame);
        proof {
            assert(self.read_buf@ =~= old(self).read_buf@ + frame@);
        }
        if !ends_with_sync_flush(self.read_buf.as_slice()) {
            return Err(ZlibDecompressionError::NeedMoreData);
        }
        let len = self.read_buf.len();
        let room = self.output_buffer_capacity(len);
        let mut read_offset: usize = 0;
        let mut output_buf: Vec<u8> = Vec::new();
        proof {
            assert(self.read_buf@.take(0) =~= Seq::<u8>::empty());
            assert(self.inflate.consumed() =~= old(self).inflate.consumed() + self.read_buf@.take(0));
            assert(self.inflate.written() =~= old(self).inflate.written() + output_buf@);
        }
        loop
            invariant
                read_offset <= len,
                len == self.read_buf@.len(),
                1 <= room <= isize::MAX,
                self.read_buf@ == old(self).read_buf@ + frame@,
                ends_with_trailer(self.read_buf@),
                output_buf@.len() <= usize::MAX,
                self.output_buffer_factor == old(self).output_buffer_factor,
                self.output_buffer_size == old(self).output_buffer_size,
                self.failure is None,
                old(self).failure is None,
                !self.inflate.failed(),
                old(self).inflate.written() == zlib_decoded(old(self).inflate.consumed()),
                self.inflate.consumed() == old(self).inflate.consumed() + self.read_buf@.take(
                    read_offset as int,
                ),
                self.inflate.written() == old(self).inflate.written() + output_buf@,
            ensures
                self.inflate.written() == zlib_decoded(self.inflate.consumed()),
                !zlib_rejects(self.inflate.consumed()),
                read_offset == len || self.inflate.ended(),
            decreases (len - read_offset) + (usize::MAX - output_buf@.len()),
        {
            let input = &self.read_buf.as_slice()[read_offset..len];
            let step = inflate_sync(&mut self.inflate, input, room);
            match step.result {
                Err(e) => {
                    proof {
                        let c0 = old(self).inflate.consumed();
                        let buf = self.read_buf@;
                        let n = (step.total_in_after - step.total_in_before) as int;
                        let more = buf.skip(read_offset + n);
                        assert(self.read_buf@.take(read_offset as int) + input@.take(n) + more
                            =~= buf);
                        assert(c0 + buf =~= self.inflate.consumed() + more);
                        assert(zlib_rejects(self.inflate.consumed() + more));
                    }
                    self.failure = Some(e.clone());
                    return Err(ZlibDecompressionError::DecompressError(e));
                },
                Ok(status) => {
                    let ghost before_offset = read_offset;
                    let consumed = (step.total_in_after - step.total_in_before) as usize;
                    proof {
                        assert(self.read_buf@.take(read_offset as int) + input@.take(consumed as int)
                            =~= self.read_buf@.take(read_offset + consumed));
                    }
                    read_offset = read_offset + consumed;
                    let mut out = step.output;
                    let produced = out.len();
                    output_buf.append(&mut out);
                    // the length of a vector always fits in usize
                    let _total_out: usize = output_buf.len();
                    // a call that neither reads nor writes ends the message
                    if consumed == 0 && produced == 0 {
                        proof {
                            assert(step.output@.len() == 0);
                            assert(input@.len() == len - before_offset);
                            if status != InflateStatus::StreamEnd && read_offset < len {
                                assert(status == InflateStatus::Progress || status
                                    == InflateStatus::BufError);
                            }
                        }
                        break ;
                    }
                },
            }
        }
        self.read_buf.clear();
        proof {
            let c0 = old(self).inflate.consumed();
            let buf = old(self).read_buf@ + frame@;
            assert(buf.take(read_offset as int) =~= (c0 + buf).subrange(c0.len() as int, c0.len() + read_offset));
            assert(c0.is_prefix_of(self.inflate.consumed()));
            assert(self.inflate.consumed().is_prefix_of(c0 + buf));
            if read_offset == len {
                assert(buf.take(len as int) =~= buf);
            }
        }
        Ok(output_buf)
    }
}

impl Default for ZlibStreamDecompressor {
    /// The decompressor of `ZlibStreamDecompressor::new`.
    fn default() -> (r: Self)
        ensures
            r.is_fresh(),
            forall|n: nat| #[trigger] r.output_capacity(n) == DEFAULT_OUTPUT_BUFFER_SIZE,
    {
        ZlibStreamDecompressor::new()
    }
}

} // verus!
