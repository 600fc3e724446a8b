use flate2::DecompressError;
use zlib_stream::{
    ends_with_sync_flush, ChunkSplitter, DecompressorWorker,
    OffloadStreamState, StreamStep, WorkerAction, WorkerJob, ZlibDecompressionError,
    ZlibStreamDecompressor, ZlibStreamState, DEFAULT_OUTPUT_BUFFER_SIZE, MAX_OUTPUT_BUFFER_SIZE,
};

fn payload() -> Vec<u8> {
    vec![
        120, 156, 52, 201, 65, 14, 130, 48, 16, 5, 208, 187, 252, 117, 107, 90, 35, 155, 185, 10,
        37, 100, 132, 137, 54, 41, 5, 203, 160, 49, 77, 239, 46, 27, 119, 47, 121, 21, 10, 202, 71,
        74, 6, 251, 31, 235, 6, 242, 206, 96, 6, 85, 60, 133, 139, 222, 133, 117, 140, 89, 165,
        188, 57, 129, 110, 254, 218, 157, 63, 106, 225, 73, 64, 61, 250, 128, 7, 171, 124, 248,
        107, 183, 50, 219, 133, 99, 182, 154, 253, 43, 192, 212, 128, 37, 78, 101, 221, 3, 200, 93,
        92, 27, 48, 180, 246, 3, 0, 0, 255, 255,
    ]
}

fn split_payload() -> Vec<Vec<u8>> {
    vec![
        vec![
            120, 156, 52, 201, 65, 14, 130, 48, 16, 5, 208, 187, 252, 117, 107, 90, 35, 155, 185,
            10, 37, 100, 132, 137, 54, 41, 5, 203, 160, 49, 77, 239, 46, 27, 119, 47, 121, 21, 10,
            202, 71,
        ],
        vec![
            74, 6, 251, 31, 235, 6, 242, 206, 96, 6, 85, 60, 133, 139, 222, 133, 117, 140, 89, 165,
            188, 57, 129, 110, 254, 218, 157, 63, 106, 225, 73, 64, 61, 250, 128, 7, 171, 124, 248,
            107, 183, 50, 219, 133, 99, 182, 154, 253, 43, 192, 212, 128, 37, 78, 101, 221, 3, 200,
            93, 92, 27, 48, 180, 246, 3, 0, 0, 255, 255,
        ],
    ]
}

fn inflated() -> &'static str {
    r#"{"t":null,"s":null,"op":10,"d":{"heartbeat_interval":41250,"_trace":["[\"gateway-prd-main-tn1q\",{\"micros\":0.0}]"]}}"#
}

/// Drives the inline adapter over `chunks` as a stream would be polled:
/// the first item it yields, or `None` at the end of the sequence.
fn next_from_stream(
    state: &mut ZlibStreamState,
    chunks: &mut std::vec::IntoIter<Vec<u8>>,
) -> Option<Result<Vec<u8>, DecompressError>> {
    loop {
        let item = chunks.next();
        match state.on_item(item.as_deref()) {
            StreamStep::Message(data) => return Some(Ok(data)),
            StreamStep::Fatal(e) => return Some(Err(e)),
            StreamStep::Rearm => continue,
            StreamStep::End => return None,
        }
    }
}

/// Drives the splitter over `items`, collecting every unit it emits.
fn split_all(items: Vec<Vec<u8>>, max: usize) -> Vec<Vec<u8>> {
    let mut splitter = ChunkSplitter::new(max);
    let mut out = vec![];
    let mut items = items.into_iter();
    loop {
        if let Some(unit) = splitter.take_leftover() {
            out.push(unit);
            continue;
        }
        match items.next() {
            Some(item) => out.push(splitter.split(&item)),
            None => return out,
        }
    }
}

#[test]
fn test() {
    let mut decompressor = ZlibStreamDecompressor::with_buffer_factor(8);
    let result = decompressor.decompress(&payload());
    assert_eq!(
        inflated(),
        String::from_utf8(result.ok().expect("Decompression failed")).unwrap()
    )
}

#[test]
fn test_split() {
    let mut decompressor = ZlibStreamDecompressor::with_buffer_factor(8);
    let vec = split_payload();
    let mut payloads = vec.iter();
    let result = decompressor.decompress(payloads.next().expect("Missing payload"));
    assert!(
        match result {
            Err(ZlibDecompressionError::NeedMoreData) => true,
            _ => false,
        },
        "First non-zlib payload didn't return NeedMoreData"
    );
    let result = decompressor.decompress(payloads.next().expect("Missing payload"));
    assert_eq!(
        inflated(),
        String::from_utf8(result.ok().expect("Decompression failed")).unwrap()
    )
}

#[test]
fn test_stream() {
    let stream: Vec<Vec<u8>> = vec![payload()];
    let mut chunks = stream.into_iter();
    let mut state = ZlibStreamState::new();

    let result = next_from_stream(&mut state, &mut chunks);
    assert_eq!(
        inflated(),
        String::from_utf8(
            result
                .expect("Poll returned end of stream")
                .expect("Decompression failed")
        )
        .unwrap()
    )
}

#[test]
fn test_stream_split() {
    let stream: Vec<Vec<u8>> = split_payload();
    let mut chunks = stream.into_iter();
    let mut state = ZlibStreamState::new();

    let result = next_from_stream(&mut state, &mut chunks);
    assert_eq!(
        inflated(),
        String::from_utf8(
            result
                .expect("Poll returned end of stream")
                .expect("Decompression failed")
        )
        .unwrap()
    )
}

#[test]
fn test_chunk_stream() {
    let chunk_size = 8usize;
    let data = vec![payload()];

    let mut concat = vec![];
    for data in split_all(data, chunk_size) {
        concat.extend_from_slice(data.as_slice());
        assert!(data.len() <= chunk_size, "Data size exceeded threshold!")
    }

    assert_eq!(concat, payload(), "Payloads aren't equal")
}

#[test]
fn test_chunk_stream_zlib() {
    let chunk_size = 55usize;
    let data = vec![payload()];

    let mut chunks = split_all(data, chunk_size).into_iter();
    let mut state = ZlibStreamState::new();

    let result = next_from_stream(&mut state, &mut chunks);
    assert_eq!(
        inflated(),
        String::from_utf8(
            result
                .expect("Poll returned end of stream")
                .expect("Decompression failed")
        )
        .unwrap()
    )
}

#[test]
fn chunk_splitter_then_stream_with_limit_eight() {
    let units = split_all(vec![payload()], 8);
    assert!(units.iter().all(|u| u.len() <= 8));
    assert_eq!(units.len(), (payload().len() + 7) / 8);
    let mut chunks = units.into_iter();
    let mut state = ZlibStreamState::new();
    let first = next_from_stream(&mut state, &mut chunks).expect("no message");
    assert_eq!(String::from_utf8(first.ok().unwrap()).unwrap(), inflated());
    assert!(next_from_stream(&mut state, &mut chunks).is_none());
}

#[test]
fn every_split_point_gives_need_more_data_then_message() {
    let p = payload();
    for cut in 1..p.len() {
        let mut d = ZlibStreamDecompressor::new();
        let first = d.decompress(&p[..cut]);
        let tail = &p[cut..];
        if ends_with_sync_flush(&p[..cut]) {
            continue;
        }
        assert!(matches!(first, Err(ZlibDecompressionError::NeedMoreData)));
        let second = d.decompress(tail).ok().expect("Decompression failed");
        assert_eq!(String::from_utf8(second).unwrap(), inflated());
    }
}

#[test]
fn three_pieces_with_default_policy() {
    let p = payload();
    let mut d = ZlibStreamDecompressor::default();
    assert!(matches!(d.decompress(&p[..10]), Err(ZlibDecompressionError::NeedMoreData)));
    assert!(matches!(d.decompress(&p[10..60]), Err(ZlibDecompressionError::NeedMoreData)));
    let out = d.decompress(&p[60..]).ok().unwrap();
    assert_eq!(String::from_utf8(out).unwrap(), inflated());
}

#[test]
fn fixed_size_policy_decodes() {
    let mut d = ZlibStreamDecompressor::with_buffer_size(4096);
    let out = d.decompress(&payload()).ok().unwrap();
    assert_eq!(String::from_utf8(out).unwrap(), inflated());
}

#[test]
fn empty_fragment_needs_more_data() {
    let mut d = ZlibStreamDecompressor::new();
    assert!(matches!(d.decompress(&[]), Err(ZlibDecompressionError::NeedMoreData)));
}

#[test]
fn marker_only_is_a_corrupt_stream() {
    let mut d = ZlibStreamDecompressor::new();
    let r = d.decompress(&[0, 0, 255, 255]);
    assert!(matches!(r, Err(ZlibDecompressionError::DecompressError(_))));
}

#[test]
fn stream_yields_one_fatal_item_then_ends() {
    let chunks: Vec<Vec<u8>> = vec![vec![0, 0, 255, 255], payload()];
    let mut chunks = chunks.into_iter();
    let mut state = ZlibStreamState::new();
    assert!(matches!(next_from_stream(&mut state, &mut chunks), Some(Err(_))));
    assert!(state.finished());
    assert!(next_from_stream(&mut state, &mut chunks).is_none());
    assert!(next_from_stream(&mut state, &mut chunks).is_none());
}

#[test]
fn stream_ends_when_upstream_ends() {
    let chunks: Vec<Vec<u8>> = vec![split_payload()[0].clone()];
    let mut chunks = chunks.into_iter();
    let mut state = ZlibStreamState::new_with_decompressor(ZlibStreamDecompressor::with_buffer_factor(4));
    assert!(next_from_stream(&mut state, &mut chunks).is_none());
    assert!(state.finished());
}

#[test]
fn offload_state_maps_replies() {
    let mut s = OffloadStreamState::new();
    assert!(matches!(s.on_reply(Some(Err(ZlibDecompressionError::NeedMoreData))), StreamStep::Rearm));
    match s.on_reply(Some(Ok(vec![1, 2, 3]))) {
        StreamStep::Message(m) => assert_eq!(m, vec![1, 2, 3]),
        _ => panic!("expected a message"),
    }
    assert!(!s.finished());
    assert!(matches!(s.on_reply(None), StreamStep::End));
    assert!(s.finished());
    assert!(matches!(s.on_reply(Some(Ok(vec![4]))), StreamStep::End));
}

#[test]
fn offload_state_ends_after_fatal_reply() {
    let mut bad = ZlibStreamDecompressor::new();
    let err = bad.decompress(&[0, 0, 255, 255]);
    let mut s = OffloadStreamState::new();
    assert!(matches!(s.on_reply(Some(err)), StreamStep::Fatal(_)));
    assert!(s.finished());
    assert!(matches!(s.on_reply(Some(Ok(vec![4]))), StreamStep::End));
}

#[test]
fn worker_replies_in_submission_order_and_stops() {
    let mut w = DecompressorWorker::new(ZlibStreamDecompressor::with_buffer_factor(8));
    let pieces = split_payload();
    let mut replies = vec![];
    let jobs = vec![
        WorkerJob::Decompress(pieces[0].clone()),
        WorkerJob::Decompress(pieces[1].clone()),
        WorkerJob::Finish,
        WorkerJob::Decompress(payload()),
    ];
    for job in jobs {
        replies.push(w.handle(job));
    }
    assert!(matches!(replies[0], WorkerAction::Reply(Err(ZlibDecompressionError::NeedMoreData))));
    match &replies[1] {
        WorkerAction::Reply(Ok(m)) => assert_eq!(String::from_utf8(m.clone()).unwrap(), inflated()),
        _ => panic!("expected the message"),
    }
    assert!(matches!(replies[2], WorkerAction::Stop));
    assert!(matches!(replies[3], WorkerAction::Stop));
}

#[test]
fn sync_flush_marker_detection() {
    assert!(ends_with_sync_flush(&[0, 0, 255, 255]));
    assert!(ends_with_sync_flush(&[7, 0, 0, 255, 255]));
    assert!(!ends_with_sync_flush(&[0, 255, 255]));
    assert!(!ends_with_sync_flush(&[]));
    assert!(!ends_with_sync_flush(&[0, 0, 255, 254]));
    assert!(!ends_with_sync_flush(&[0, 0, 255, 255, 0]));
}

#[test]
fn output_buffer_policies() {
    assert_eq!(ZlibStreamDecompressor::new().output_buffer_capacity(10), DEFAULT_OUTPUT_BUFFER_SIZE);
    assert_eq!(DEFAULT_OUTPUT_BUFFER_SIZE, 131072);
    assert_eq!(ZlibStreamDecompressor::with_buffer_size(512).output_buffer_capacity(99999), 512);
    let f = ZlibStreamDecompressor::with_buffer_factor(8);
    assert_eq!(f.output_buffer_capacity(110), 880);
    assert_eq!(f.output_buffer_capacity(0), 1);
    assert_eq!(ZlibStreamDecompressor::with_buffer_size(0).output_buffer_capacity(5), 1);
    assert_eq!(ZlibStreamDecompressor::with_buffer_factor(0).output_buffer_capacity(5), 1);
    assert_eq!(ZlibStreamDecompressor::with_buffer_size(usize::MAX).output_buffer_capacity(5), MAX_OUTPUT_BUFFER_SIZE);
    assert_eq!(f.output_buffer_capacity(usize::MAX), MAX_OUTPUT_BUFFER_SIZE);
    assert_eq!(MAX_OUTPUT_BUFFER_SIZE, isize::MAX as usize);
    let big: usize = 1 << 30;
    assert_eq!(f.output_buffer_capacity(big), big * 8);
    assert_eq!(ZlibStreamDecompressor::with_buffer_size(big * 4).output_buffer_capacity(1), big * 4);
}

#[test]
fn splitter_edge_cases() {
    assert_eq!(split_all(vec![], 4), Vec::<Vec<u8>>::new());
    assert_eq!(split_all(vec![vec![]], 4), vec![Vec::<u8>::new()]);
    assert_eq!(split_all(vec![vec![1, 2, 3, 4]], 4), vec![vec![1, 2, 3, 4]]);
    assert_eq!(
        split_all(vec![vec![1, 2, 3, 4, 5], vec![6], vec![7, 8, 9]], 2),
        vec![vec![1, 2], vec![3, 4], vec![5], vec![6], vec![7, 8], vec![9]]
    );
    assert_eq!(split_all(vec![vec![1, 2, 3]], 1), vec![vec![1], vec![2], vec![3]]);
}

#[test]
fn splitter_holds_leftover_until_taken() {
    let mut s = ChunkSplitter::new(3);
    assert!(!s.has_leftover());
    assert_eq!(s.split(&[1, 2, 3, 4, 5, 6, 7]), vec![1, 2, 3]);
    assert!(s.has_leftover());
    assert_eq!(s.take_leftover(), Some(vec![4, 5, 6]));
    assert_eq!(s.take_leftover(), Some(vec![7]));
    assert_eq!(s.take_leftover(), None);
}

#[test]
fn payload_split_at_byte_thirty_nine() {
    let p = payload();
    let mut d = ZlibStreamDecompressor::with_buffer_factor(8);
    assert!(matches!(d.decompress(&p[..39]), Err(ZlibDecompressionError::NeedMoreData)));
    let out = d.decompress(&p[39..]).ok().expect("Decompression failed");
    assert_eq!(String::from_utf8(out).unwrap(), inflated());
}

#[test]
fn decompressor_is_reused_for_a_second_fragment_sequence() {
    // after a message the pending bytes are empty again: a fragment without
    // the marker waits for more data
    let mut d = ZlibStreamDecompressor::new();
    assert!(d.decompress(&payload()).is_ok());
    assert!(matches!(d.decompress(&[1, 2, 3]), Err(ZlibDecompressionError::NeedMoreData)));
}

#[test]
fn small_output_buffers_still_decode_whole_message() {
    for mut d in vec![
        ZlibStreamDecompressor::with_buffer_size(1),
        ZlibStreamDecompressor::with_buffer_size(16),
        ZlibStreamDecompressor::with_buffer_factor(1),
        ZlibStreamDecompressor::with_buffer_factor(0),
    ] {
        let out = d.decompress(&payload()).ok().expect("Decompression failed");
        assert_eq!(String::from_utf8(out).unwrap(), inflated());
    }
}

#[test]
fn small_output_buffer_with_split_payload() {
    let mut d = ZlibStreamDecompressor::with_buffer_size(7);
    let pieces = split_payload();
    assert!(matches!(d.decompress(&pieces[0]), Err(ZlibDecompressionError::NeedMoreData)));
    let out = d.decompress(&pieces[1]).ok().expect("Decompression failed");
    assert_eq!(String::from_utf8(out).unwrap(), inflated());
}

#[test]
fn marker_split_across_fragments_completes() {
    let p = payload();
    let n = p.len();
    let mut d = ZlibStreamDecompressor::new();
    assert!(matches!(d.decompress(&p[..n - 2]), Err(ZlibDecompressionError::NeedMoreData)));
    let out = d.decompress(&p[n - 2..]).ok().expect("Decompression failed");
    assert_eq!(String::from_utf8(out).unwrap(), inflated());
}

#[test]
fn failed_decompressor_keeps_failing() {
    let mut d = ZlibStreamDecompressor::new();
    assert!(!d.failed());
    assert!(matches!(d.decompress(&[0, 0, 255, 255]), Err(ZlibDecompressionError::DecompressError(_))));
    assert!(d.failed());
    assert!(matches!(d.decompress(&payload()), Err(ZlibDecompressionError::DecompressError(_))));
    assert!(matches!(d.decompress(&[1]), Err(ZlibDecompressionError::DecompressError(_))));
}
