//! The inflate primitive of flate2, with a ghost record of what it has
//! consumed and written.

use vstd::prelude::*;
use flate2::{Decompress, DecompressError, FlushDecompress, Status};

verus! {

#[verifier::external_type_specification]
#[verifier::external_body]
pub struct ExDecompress(flate2::Decompress);

#[verifier::external_type_specification]
#[verifier::external_body]
pub struct ExDecompressError(flate2::DecompressError);

/// Relies on `Clone` of flate2::DecompressError: a copy of the error.
pub assume_specification[ <flate2::DecompressError as core::clone::Clone>::clone ](
    e: &flate2::DecompressError,
) -> flate2::DecompressError;

/// What flate2's zlib inflater has written in total once it has consumed
/// the stream prefix `stream` and has nothing left to write.
pub uninterp spec fn zlib_decoded(stream: Seq<u8>) -> Seq<u8>;

/// Whether flate2's zlib inflater reports an error by the time it has read
/// the stream prefix `stream`.
pub uninterp spec fn zlib_rejects(stream: Seq<u8>) -> bool;

/// How one inflate call ended, when it did not fail.
#[derive(Clone, Copy, Debug, PartialEq, Eq, Structural)]
pub enum InflateStatus {
    /// Progress was made; more output space or more input may be needed.
    Progress,
    /// No progress was possible with the given input and output space.
    BufError,
    /// The logical end of the compressed stream was reached.
    StreamEnd,
}

/// The outcome of one inflate call: the input counter before and after the
/// call, what the call reported, and the bytes it wrote.
pub struct InflateStep {
    pub total_in_before: u64,
    pub result: Result<InflateStatus, DecompressError>,
    pub total_in_after: u64,
    pub output: Vec<u8>,
}

/// A zlib inflate context, with the compressed bytes it has consumed and
/// the bytes it has written since it was made, and whether it has reported
/// an error.  Only this module makes or changes one, so the record always
/// describes the context.
pub struct Inflater {
    inner: Decompress,
    consumed: Ghost<Seq<u8>>,
    written: Ghost<Seq<u8>>,
    failed: Ghost<bool>,
    ended: Ghost<bool>,
}

impl Inflater {
    /// The compressed bytes consumed so far.
    pub closed spec fn consumed(&self) -> Seq<u8> {
        self.consumed@
    }

    /// The bytes written so far.
    pub closed spec fn written(&self) -> Seq<u8> {
        self.written@
    }

    /// Whether a call has reported an error.
    pub closed spec fn failed(&self) -> bool {
        self.failed@
    }

    /// Whether a call has reported the end of the compressed stream.
    pub closed spec fn ended(&self) -> bool {
        self.ended@
    }

    /// A fresh context that expects a zlib header: it has consumed nothing
    /// and written what no input decodes to.
    pub fn new() -> (r: Inflater)
        ensures
            r.consumed() == Seq::<u8>::empty(),
            r.written() == zlib_decoded(r.consumed()),
            !r.failed(),
            !r.ended(),
    {
        Inflater {
            inner: new_zlib_decompress(),
            consumed: Ghost(Seq::empty()),
            written: Ghost(zlib_decoded(Seq::empty())),
            failed: Ghost(false),
            ended: Ghost(false),
        }
    }
}

/// Relies on flate2::Decompress::new: a fresh inflate context that expects
/// a zlib header.
#[verifier::external_body]
fn new_zlib_decompress() -> (r: Decompress) {
    Decompress::new(true)
}

/// Relies on flate2::Decompress::decompress_vec (sync flush, backed by
/// miniz_oxide) and flate2::Decompress::total_in, on a context that has
/// reported no error:
/// - the call adds the number of input bytes it read, at most the length
///   of the input, to the input counter (a u64 that 2^64 processed bytes
///   would be needed to wrap), and those bytes are the front of the input;
/// - it reports an error exactly when the bytes read so far are rejected,
///   whatever follows them;
/// - it writes into a vector with room for at least `room` bytes, and what
///   the context has written in total is a prefix of what the bytes read
///   decode to;
/// - a call given no input that writes nothing into room of at least one
///   byte has nothing left to write, and neither has a call that reports
///   the end of the stream (miniz_oxide reports it only once its window
///   buffer is empty): the total is then all that the bytes read decode to;
/// - with room to spare, it reports `BufError` only when it was given no
///   input, and it reports `Ok` without writing anything only once it has
///   read all of its input.
#[verifier::external_body]
pub fn inflate_sync(inf: &mut Inflater, input: &[u8], room: usize) -> (r: InflateStep)
    requires
        !old(inf).failed(),
        room <= isize::MAX,
    ensures
        r.total_in_before <= r.total_in_after,
        r.total_in_after - r.total_in_before <= input@.len(),
        final(inf).consumed() == old(inf).consumed() + input@.take(
            (r.total_in_after - r.total_in_before) as int,
        ),
        final(inf).failed() <==> r.result is Err,
        final(inf).ended() == (old(inf).ended() || r.result == Ok::<InflateStatus, DecompressError>(
            InflateStatus::StreamEnd,
        )),
        r.result is Err ==> forall|more: Seq<u8>| #[trigger]
            zlib_rejects(final(inf).consumed() + more),
        r.result is Ok ==> {
            &&& !zlib_rejects(final(inf).consumed())
            &&& final(inf).written() == old(inf).written() + r.output@
            &&& final(inf).written().is_prefix_of(zlib_decoded(final(inf).consumed()))
            &&& (input@.len() == 0 && r.output@.len() == 0 && room > 0) || r.result == Ok::<
                InflateStatus,
                DecompressError,
            >(InflateStatus::StreamEnd) ==> final(inf).written() == zlib_decoded(
                final(inf).consumed(),
            )
            &&& r.result == Ok::<InflateStatus, DecompressError>(InflateStatus::BufError)
                && r.output@.len() < room ==> r.total_in_after - r.total_in_before == input@.len()
            &&& r.result == Ok::<InflateStatus, DecompressError>(InflateStatus::Progress)
                && r.output@.len() == 0 && room > 0 ==> r.total_in_after - r.total_in_before
                == input@.len()
        },
{
    let total_in_before = inf.inner.total_in();
    let mut output = Vec::with_capacity(room);
    let result = match inf.inner.decompress_vec(input, &mut output, FlushDecompress::Sync) {
        Ok(Status::Ok) => Ok(InflateStatus::Progress),
        Ok(Status::BufError) => Ok(InflateStatus::BufError),
        Ok(Status::StreamEnd) => Ok(InflateStatus::StreamEnd),
        Err(e) => Err(e),
    };
    InflateStep { total_in_before, result, total_in_after: inf.inner.total_in(), output }
}

} // verus!
