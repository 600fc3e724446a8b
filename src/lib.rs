//! Incremental decompression of one continuous zlib stream that arrives in
//! arbitrary fragments and is flushed (sync flush) at message boundaries.

pub mod inflate;
pub mod decompressor;
pub mod chunk;
pub mod stream;
pub mod worker;

pub use inflate::InflateStatus;
pub use decompressor::{
    ends_with_sync_flush, ZlibDecompressionError, ZlibStreamDecompressor,
    DEFAULT_OUTPUT_BUFFER_SIZE, MAX_OUTPUT_BUFFER_SIZE,
};
pub use chunk::ChunkSplitter;
pub use stream::{step_for_outcome, OffloadStreamState, StreamStep, ZlibStreamState};
pub use worker::{DecompressorWorker, WorkerAction, WorkerJob};
