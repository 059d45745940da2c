use fastdog::bench::benchmark_decode;
use fastdog::codec::decode_fastdog_binary;
use fastdog::codec::DecodeError;
use fastdog::stream::StreamDecoder;

fn zlib_compress(data: &[u8]) -> Vec<u8> {
    let mut enc = flate2::read::ZlibEncoder::new(data, flate2::Compression::default());
    let mut out = Vec::new();
    std::io::Read::read_to_end(&mut enc, &mut out).unwrap();
    out
}

fn make_container(version: u32, payload: &[u8], declared_len: u32) -> Vec<u8> {
    let compressed = zlib_compress(payload);
    let mut buf = Vec::new();
    buf.extend_from_slice(b"FASTDOG1");
    buf.extend_from_slice(&version.to_le_bytes());
    buf.extend_from_slice(&(compressed.len() as u32).to_le_bytes());
    buf.extend_from_slice(&compressed);
    buf.extend_from_slice(&declared_len.to_le_bytes());
    buf
}

#[test]
fn single_chunk_matches_one_shot() {
    let payload = b"{\"a\":1,\"b\":[2,3,4]}";
    let buf = make_container(1, payload, payload.len() as u32);
    let one_shot = decode_fastdog_binary(&buf);
    let mut dec = StreamDecoder::new();
    let r = dec.add_chunk(&buf);
    assert_eq!(r.success, one_shot.success);
    assert!(r.is_complete);
    assert_eq!(r.data, one_shot.data);
    assert!(r.error.is_none());
    assert_eq!(r.progress_permille, 1000);
    assert_eq!(r.chunks_processed, 1);
    assert_eq!(r.total_received, buf.len() as u32);
    let st = r.stats.expect("completion snapshot carries stats");
    assert_eq!(st.original_size, one_shot.stats.original_size);
    assert_eq!(st.compressed_size, one_shot.stats.compressed_size);
    assert_eq!(
        st.compression_ratio_permille,
        one_shot.stats.compression_ratio_permille
    );
    assert_eq!(st.format_version, one_shot.stats.format_version);
}

#[test]
fn byte_by_byte_matches_one_shot() {
    let payload = b"{\"hello\":\"world\",\"n\":12345}";
    let buf = make_container(1, payload, payload.len() as u32);
    let one_shot = decode_fastdog_binary(&buf);
    let mut dec = StreamDecoder::new();
    let mut last = None;
    for (i, byte) in buf.iter().enumerate() {
        let r = dec.add_chunk(&[*byte]);
        if i + 1 < buf.len() {
            assert!(r.success, "partial data is not an error");
            assert!(!r.is_complete);
            assert!(r.data.is_none());
            assert!(r.error.is_none());
        }
        last = Some(r);
    }
    let r = last.unwrap();
    assert_eq!(r.success, one_shot.success);
    assert!(r.is_complete);
    assert_eq!(r.data, one_shot.data);
    assert_eq!(r.progress_permille, 1000);
    assert_eq!(r.chunks_processed, buf.len() as u32);
    assert_eq!(r.total_received, buf.len() as u32);
    let st = r.stats.expect("completion snapshot carries stats");
    assert_eq!(st.original_size, one_shot.stats.original_size);
    assert_eq!(st.compressed_size, one_shot.stats.compressed_size);
}

#[test]
fn uneven_chunks_match_one_shot() {
    let payload = b"[0,1,2,3,4,5,6,7,8,9,10,11,12]";
    let buf = make_container(1, payload, payload.len() as u32);
    let one_shot = decode_fastdog_binary(&buf);
    let mut dec = StreamDecoder::new();
    let mut last = None;
    let mut pos = 0usize;
    for size in [3usize, 7, 1, 11, 2, 5, usize::MAX] {
        if pos >= buf.len() {
            break;
        }
        let end = (pos.saturating_add(size)).min(buf.len());
        last = Some(dec.add_chunk(&buf[pos..end]));
        pos = end;
    }
    let r = last.unwrap();
    assert_eq!(r.success, one_shot.success);
    assert!(r.is_complete);
    assert_eq!(r.data, one_shot.data);
}

#[test]
fn progress_monotonic_and_exact() {
    let payload = vec![42u8; 200];
    let buf = make_container(1, &payload, 200);
    let expected_total = buf.len() as u64;
    let mut dec = StreamDecoder::new();
    let mut previous = 0u32;
    for (i, byte) in buf.iter().enumerate() {
        let r = dec.add_chunk(&[*byte]);
        let received = (i + 1) as u64;
        if received < 20 {
            assert_eq!(r.progress_permille, 0, "no progress before the header");
        } else {
            let exact = ((received * 1000) / expected_total).min(1000) as u32;
            assert_eq!(r.progress_permille, exact);
        }
        assert!(r.progress_permille >= previous, "progress never decreases");
        assert_eq!(r.progress_permille, dec.get_progress());
        previous = r.progress_permille;
    }
    assert_eq!(previous, 1000, "progress reaches exactly 1000 on completion");
}

#[test]
fn truncated_prefix_reports_partial_progress() {
    let payload: Vec<u8> = (0u8..=255).collect();
    let buf = make_container(1, &payload, 256);
    let compressed_len = zlib_compress(&payload).len() as u64;
    assert!(compressed_len > 9);
    let mut dec = StreamDecoder::new();
    let r = dec.add_chunk(&buf[..25]);
    assert!(r.success);
    assert!(!r.is_complete);
    assert!(r.error.is_none());
    assert!(r.data.is_none());
    assert_eq!(
        r.progress_permille as u64,
        25 * 1000 / (20 + compressed_len)
    );
}

#[test]
fn bad_magic_fails_immediately_and_stays_failed() {
    let mut dec = StreamDecoder::new();
    let r = dec.add_chunk(&[7u8; 24]);
    assert!(!r.success);
    assert!(!r.is_complete);
    assert_eq!(r.progress_permille, 0);
    match r.error {
        Some(DecodeError::BadMagic { ref observed }) => assert_eq!(&observed[..], &[7u8; 8]),
        _ => panic!("expected BadMagic"),
    }
    let r2 = dec.add_chunk(&[7u8; 4]);
    assert!(!r2.success);
    assert!(matches!(r2.error, Some(DecodeError::BadMagic { .. })));
    assert_eq!(r2.chunks_processed, 2);
    assert_eq!(r2.total_received, 28);
}

#[test]
fn wrong_version_rejected_at_header_parse() {
    let payload = b"{}";
    let buf = make_container(9, payload, 2);
    let one_shot = decode_fastdog_binary(&buf);
    assert!(matches!(one_shot.error, Some(DecodeError::UnsupportedVersion { version: 9 })));
    let mut dec = StreamDecoder::new();
    let r1 = dec.add_chunk(&buf[..10]);
    assert!(r1.success, "too few bytes to judge the header yet");
    let r2 = dec.add_chunk(&buf[10..22]);
    assert!(!r2.success, "rejected as soon as the header is readable");
    assert!(!r2.is_complete);
    assert!(matches!(r2.error, Some(DecodeError::UnsupportedVersion { version: 9 })));
    assert_eq!(r2.progress_permille, 0);
    assert_eq!(dec.get_expected_size(), None);
    assert_eq!(dec.get_progress(), 0);
    let r3 = dec.add_chunk(&buf[22..]);
    assert!(!r3.success, "the rejection is terminal until a reset");
    assert!(matches!(r3.error, Some(DecodeError::UnsupportedVersion { version: 9 })));
    assert_eq!(r3.progress_permille, 0);
}

#[test]
fn wrong_version_rejected_in_one_chunk() {
    let payload = b"{}";
    let buf = make_container(9, payload, 2);
    let mut dec = StreamDecoder::new();
    let r = dec.add_chunk(&buf);
    assert!(!r.success);
    assert!(!r.is_complete);
    assert!(matches!(r.error, Some(DecodeError::UnsupportedVersion { version: 9 })));
    assert_eq!(r.progress_permille, 0);
}

#[test]
fn length_mismatch_fails_at_completion() {
    let payload = b"{\"a\":1}";
    let buf = make_container(1, payload, 70);
    let one_shot = decode_fastdog_binary(&buf);
    let mut dec = StreamDecoder::new();
    let r = dec.add_chunk(&buf);
    assert!(!r.success);
    assert!(!r.is_complete);
    assert!(r.stats.is_none());
    match (r.error, one_shot.error) {
        (
            Some(DecodeError::LengthMismatch { expected: e1, actual: a1 }),
            Some(DecodeError::LengthMismatch { expected: e2, actual: a2 }),
        ) => {
            assert_eq!(e1, e2);
            assert_eq!(a1, a2);
        }
        _ => panic!("both delivery modes must report LengthMismatch"),
    }
}

#[test]
fn reset_allows_reuse() {
    let mut dec = StreamDecoder::new();
    let r = dec.add_chunk(&[9u8; 32]);
    assert!(!r.success);
    dec.reset();
    assert_eq!(dec.get_buffer_size(), 0);
    assert_eq!(dec.get_expected_size(), None);
    assert_eq!(dec.get_progress(), 0);
    let payload = b"{\"ok\":true}";
    let buf = make_container(1, payload, payload.len() as u32);
    let r2 = dec.add_chunk(&buf);
    assert!(r2.success);
    assert!(r2.is_complete);
    assert_eq!(r2.chunks_processed, 1, "reset zeroes the counters");
    assert_eq!(r2.total_received, buf.len() as u32);
}

#[test]
fn getters_track_header() {
    let payload = b"{\"k\":[1,2,3]}";
    let buf = make_container(1, payload, payload.len() as u32);
    let compressed_len = zlib_compress(payload).len() as u64;
    let mut dec = StreamDecoder::new();
    assert_eq!(dec.get_buffer_size(), 0);
    assert_eq!(dec.get_expected_size(), None);
    dec.add_chunk(&buf[..10]);
    assert_eq!(dec.get_buffer_size(), 10);
    assert_eq!(dec.get_expected_size(), None);
    dec.add_chunk(&buf[10..22]);
    assert_eq!(dec.get_buffer_size(), 22);
    assert_eq!(dec.get_expected_size(), Some(20 + compressed_len));
}

#[test]
fn empty_chunks_count_as_chunks() {
    let mut dec = StreamDecoder::new();
    let r = dec.add_chunk(&[]);
    assert!(r.success);
    assert_eq!(r.chunks_processed, 1);
    assert_eq!(r.total_received, 0);
    assert_eq!(r.progress_permille, 0);
}

#[test]
fn benchmark_zero_iterations_is_all_zero() {
    let payload = b"{\"a\":1}";
    let buf = make_container(1, payload, 7);
    let b = benchmark_decode(&buf, 0);
    assert_eq!(b.iterations, 0);
    assert_eq!(b.total_time_ms, 0);
    assert_eq!(b.avg_time_ms, 0);
    assert_eq!(b.min_time_ms, 0);
    assert_eq!(b.max_time_ms, 0);
    assert_eq!(b.successes, 0);
}

#[test]
fn benchmark_counts_deterministic_outcomes() {
    let payload = b"{\"a\":1}";
    let buf = make_container(1, payload, 7);
    let b = benchmark_decode(&buf, 5);
    assert_eq!(b.iterations, 5);
    assert_eq!(b.successes, 5);
    assert!(b.min_time_ms <= b.max_time_ms);
    assert_eq!(b.avg_time_ms, b.total_time_ms / 5);
    assert!(b.min_time_ms as u128 * 5 <= b.total_time_ms);
    assert!(b.total_time_ms <= b.max_time_ms as u128 * 5);
    assert!(b.min_time_ms as u128 <= b.avg_time_ms);
    assert!(b.avg_time_ms <= b.max_time_ms as u128);
    let bad = benchmark_decode(b"not a container", 4);
    assert_eq!(bad.iterations, 4);
    assert_eq!(bad.successes, 0);
}
