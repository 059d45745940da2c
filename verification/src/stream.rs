//! The streaming reassembly state machine: an accumulator that receives
//! arbitrary-sized chunks, defers header interpretation until 20 bytes exist,
//! reports progress once the declared total size is known, and hands the full
//! buffer to the codec as soon as it is complete.

use vstd::prelude::*;
use vstd::math::min;
use vstd::slice::slice_subrange;
use vstd::slice::slice_to_vec;

use vstd::arithmetic::div_mod::lemma_div_is_ordered;
use vstd::arithmetic::div_mod::lemma_div_multiples_vanish;
use vstd::arithmetic::div_mod::lemma_div_of0;

use crate::codec::check_magic;
use crate::codec::decode_binary_internal;
use crate::codec::decode_ok;
use crate::codec::decode_result_spec;
use crate::codec::decoded_text;
use crate::codec::err_of;
use crate::codec::header_compressed_len;
use crate::codec::header_version;
use crate::codec::lemma_err_of_functional;
use crate::codec::lemma_header_fields_stable;
use crate::codec::magic_ok;
use crate::codec::read_le32;
use crate::codec::same_error_kind;
use crate::codec::success_stats;
use crate::codec::version_supported;
use crate::codec::DecodeError;
use crate::codec::DecodeResult;
use crate::codec::DecodeStats;

verus! {

// ---------------------------------------------------------------------------
// The accumulator, its mathematical model, and its invariant.
// ---------------------------------------------------------------------------
/// Accumulates chunks of one container. Owned by a single logical session;
/// reset explicitly by the caller to reuse it for a new container.
pub struct StreamDecoder {
    buffer: Vec<u8>,
    header_parsed: bool,
    expected_size: Option<u64>,
    compressed_size: Option<u32>,
    version: Option<u32>,
    chunks_processed: u32,
    total_received: u32,
}

/// The accumulator's state as mathematical values.
pub struct StreamModel {
    pub buffer: Seq<u8>,
    pub header_parsed: bool,
    pub expected_size: Option<u64>,
    pub compressed_size: Option<u32>,
    pub version: Option<u32>,
    pub chunks_processed: u32,
    pub total_received: u32,
}

impl View for StreamDecoder {
    type V = StreamModel;

    closed spec fn view(&self) -> StreamModel {
        StreamModel {
            buffer: self.buffer@,
            header_parsed: self.header_parsed,
            expected_size: self.expected_size,
            compressed_size: self.compressed_size,
            version: self.version,
            chunks_processed: self.chunks_processed,
            total_received: self.total_received,
        }
    }
}

/// Enough bytes exist to read the header, the magic tag matches, and the
/// version is a recognized one: exactly the conditions under which the header
/// parse succeeds. Appending bytes never falsifies this, which is what keeps
/// the accumulator's derived fields stable once set.
pub open spec fn stream_header_ready(buf: Seq<u8>) -> bool {
    buf.len() >= 20 && magic_ok(buf) && version_supported(header_version(buf))
}

/// The declared total container size, meaningful once the header is readable.
pub open spec fn stream_expected(buf: Seq<u8>) -> int {
    20 + header_compressed_len(buf)
}

/// The buffer holds the whole declared container.
pub open spec fn stream_complete(buf: Seq<u8>) -> bool {
    stream_header_ready(buf) && buf.len() >= stream_expected(buf)
}

/// Progress in thousandths: 0 before the header is parsed, then received over
/// expected, capped at 1000.
pub open spec fn progress_permille(buf: Seq<u8>) -> int {
    if stream_header_ready(buf) {
        min(1000, (buf.len() as int) * 1000 / stream_expected(buf))
    } else {
        0
    }
}

/// The accumulator's invariant: the counters track the buffer, and every
/// derived field is exactly what the accumulated bytes determine. It is this
/// canonical shape that makes the final outcome depend on the accumulated
/// bytes alone, never on how they were split into chunks.
pub open spec fn stream_wf(m: StreamModel) -> bool {
    &&& m.buffer.len() <= u32::MAX
    &&& m.total_received == m.buffer.len()
    &&& m.header_parsed == stream_header_ready(m.buffer)
    &&& if m.header_parsed {
        &&& m.version == Some(header_version(m.buffer))
        &&& m.compressed_size == Some(header_compressed_len(m.buffer))
        &&& m.expected_size == Some((20 + header_compressed_len(m.buffer)) as u64)
    } else {
        &&& m.version is None
        &&& m.compressed_size is None
        &&& m.expected_size is None
    }
}

// ---------------------------------------------------------------------------
// Snapshots.
// ---------------------------------------------------------------------------
/// The complete snapshot that every `add_chunk` call returns, so the caller
/// can render full state from the latest response alone.
pub struct StreamDecodeResult {
    pub success: bool,
    pub data: Option<String>,
    pub error: Option<DecodeError>,
    /// Progress in thousandths (0 to 1000).
    pub progress_permille: u32,
    pub is_complete: bool,
    pub chunks_processed: u32,
    pub total_received: u32,
    pub stats: Option<DecodeStats>,
}

/// The snapshot while the container is still arriving: partial data is not an
/// error condition.
pub open spec fn snapshot_in_progress(buf: Seq<u8>, r: StreamDecodeResult) -> bool {
    &&& r.success
    &&& r.data is None
    &&& r.error is None
    &&& r.progress_permille == progress_permille(buf)
    &&& !r.is_complete
    &&& r.stats is None
}

/// The snapshot when 20 bytes exist but the header parse rejects them — a
/// wrong magic tag, or an unrecognized version: terminal, reported on this and
/// every later call until a reset.
pub open spec fn snapshot_header_failed(buf: Seq<u8>, r: StreamDecodeResult) -> bool {
    &&& !r.success
    &&& r.data is None
    &&& (r.error matches Some(e) && if !magic_ok(buf) {
        e matches DecodeError::BadMagic { observed } && observed@ == buf.subrange(0, 8)
    } else {
        e matches DecodeError::UnsupportedVersion { version } && version == header_version(buf)
    })
    &&& r.progress_permille == 0
    &&& !r.is_complete
    &&& r.stats is None
}

/// The snapshot once the buffer holds the whole declared container: the codec
/// ran on the accumulated bytes, and the snapshot carries its outcome — the
/// same outcome predicates that govern the one-shot decode.
pub open spec fn snapshot_complete(buf: Seq<u8>, r: StreamDecodeResult) -> bool {
    if decode_ok(buf) {
        &&& r.success
        &&& (r.data matches Some(text) && text@ == decoded_text(buf))
        &&& r.error is None
        &&& r.progress_permille == 1000
        &&& r.is_complete
        &&& (r.stats matches Some(st) && success_stats(buf, st))
    } else {
        &&& !r.success
        &&& r.data is None
        &&& (r.error matches Some(e) && err_of(buf, e))
        &&& r.progress_permille == progress_permille(buf)
        &&& !r.is_complete
        &&& r.stats is None
    }
}

// ---------------------------------------------------------------------------
// The state machine.
// ---------------------------------------------------------------------------
impl StreamDecoder {
    /// A fresh accumulator: empty buffer, nothing parsed, zeroed counters.
    pub fn new() -> (d: StreamDecoder)
        ensures
            stream_wf(d@),
            d@.buffer == Seq::<u8>::empty(),
            d@.chunks_processed == 0,
            d@.total_received == 0,
    {
        StreamDecoder {
            buffer: Vec::new(),
            header_parsed: false,
            expected_size: None,
            compressed_size: None,
            version: None,
            chunks_processed: 0,
            total_received: 0,
        }
    }

    /// Appends a chunk, parses the header once 20 bytes exist — rejecting a
    /// wrong magic tag or an unrecognized version immediately and terminally —
    /// and attempts the full decode once the buffer reaches the declared total
    /// size. The returned snapshot is pinned by the accumulated bytes alone.
    pub fn add_chunk(&mut self, chunk: &[u8]) -> (r: StreamDecodeResult)
        requires
            stream_wf(old(self)@),
            old(self)@.buffer.len() + chunk@.len() <= u32::MAX,
            old(self)@.chunks_processed < u32::MAX,
        ensures
            stream_wf(final(self)@),
            final(self)@.buffer == old(self)@.buffer + chunk@,
            final(self)@.chunks_processed == old(self)@.chunks_processed + 1,
            r.chunks_processed == final(self)@.chunks_processed,
            r.total_received == final(self)@.buffer.len(),
            ({
                let buf = old(self)@.buffer + chunk@;
                if buf.len() >= 20 && !(magic_ok(buf) && version_supported(header_version(buf))) {
                    snapshot_header_failed(buf, r)
                } else if stream_complete(buf) {
                    snapshot_complete(buf, r)
                } else {
                    snapshot_in_progress(buf, r)
                }
            }),
    {
        self.buffer.extend_from_slice(chunk);
        self.total_received = self.total_received + chunk.len() as u32;
        self.chunks_processed = self.chunks_processed + 1;
        let ghost buf = old(self)@.buffer + chunk@;
        proof {
            assert(self.buffer@ =~= buf);
            assert(buf.subrange(0, old(self)@.buffer.len() as int) =~= old(self)@.buffer);
            if old(self)@.header_parsed {
                lemma_header_fields_stable(old(self)@.buffer, buf);
            }
        }
        if !self.header_parsed && self.buffer.len() >= 20 {
            if !check_magic(self.buffer.as_slice()) {
                let observed = slice_to_vec(slice_subrange(self.buffer.as_slice(), 0, 8));
                return StreamDecodeResult {
                    success: false,
                    data: None,
                    error: Some(DecodeError::BadMagic { observed }),
                    progress_permille: 0,
                    is_complete: false,
                    chunks_processed: self.chunks_processed,
                    total_received: self.total_received,
                    stats: None,
                };
            }
            let version = read_le32(self.buffer.as_slice(), 8);
            if version != 1 && version != 2 {
                return StreamDecodeResult {
                    success: false,
                    data: None,
                    error: Some(DecodeError::UnsupportedVersion { version }),
                    progress_permille: 0,
                    is_complete: false,
                    chunks_processed: self.chunks_processed,
                    total_received: self.total_received,
                    stats: None,
                };
            }
            let clen = read_le32(self.buffer.as_slice(), 12);
            self.version = Some(version);
            self.compressed_size = Some(clen);
            self.expected_size = Some(20u64 + clen as u64);
            self.header_parsed = true;
        }
        proof {
            assert(stream_wf(self@));
        }
        let progress = self.progress_value();
        let can_decode = self.header_parsed && (match self.expected_size {
            Some(expected) => self.buffer.len() as u64 >= expected,
            None => false,
        });
        if can_decode {
            match decode_binary_internal(self.buffer.as_slice()) {
                Ok(res) => {
                    return StreamDecodeResult {
                        success: true,
                        data: res.data,
                        error: None,
                        progress_permille: 1000,
                        is_complete: true,
                        chunks_processed: self.chunks_processed,
                        total_received: self.total_received,
                        stats: Some(res.stats),
                    };
                },
                Err(e) => {
                    return StreamDecodeResult {
                        success: false,
                        data: None,
                        error: Some(e),
                        progress_permille: progress,
                        is_complete: false,
                        chunks_processed: self.chunks_processed,
                        total_received: self.total_received,
                        stats: None,
                    };
                },
            }
        }
        StreamDecodeResult {
            success: true,
            data: None,
            error: None,
            progress_permille: progress,
            is_complete: false,
            chunks_processed: self.chunks_processed,
            total_received: self.total_received,
            stats: None,
        }
    }

    /// Clears the buffer and every derived field back to the initial state;
    /// always the caller's explicit choice, never automatic.
    pub fn reset(&mut self)
        ensures
            stream_wf(final(self)@),
            final(self)@.buffer == Seq::<u8>::empty(),
            final(self)@.chunks_processed == 0,
            final(self)@.total_received == 0,
    {
        self.buffer.clear();
        self.header_parsed = false;
        self.expected_size = None;
        self.compressed_size = None;
        self.version = None;
        self.chunks_processed = 0;
        self.total_received = 0;
    }

    /// Progress in thousandths, as `progress_permille` states it.
    pub fn get_progress(&self) -> (p: u32)
        requires
            stream_wf(self@),
        ensures
            p == progress_permille(self@.buffer),
    {
        self.progress_value()
    }

    /// How many bytes have accumulated.
    pub fn get_buffer_size(&self) -> (n: u32)
        requires
            stream_wf(self@),
        ensures
            n == self@.buffer.len(),
    {
        self.buffer.len() as u32
    }

    /// The declared total container size, known only after the header parse.
    pub fn get_expected_size(&self) -> (n: Option<u64>)
        requires
            stream_wf(self@),
        ensures
            n == if stream_header_ready(self@.buffer) {
                Some((20 + header_compressed_len(self@.buffer)) as u64)
            } else {
                None::<u64>
            },
    {
        self.expected_size
    }

    /// Computes the capped permille quotient from the stored fields.
    fn progress_value(&self) -> (p: u32)
        requires
            stream_wf(self@),
        ensures
            p == progress_permille(self@.buffer),
    {
        match self.expected_size {
            Some(expected) => {
                let scaled = (self.buffer.len() as u64) * 1000;
                let q = scaled / expected;
                if q >= 1000 {
                    1000
                } else {
                    q as u32
                }
            },
            None => 0,
        }
    }
}

// ---------------------------------------------------------------------------
// Laws.
// ---------------------------------------------------------------------------
/// Progress lies between 0 and 1000, is exactly 0 before the header is
/// readable, and is exactly 1000 once the buffer holds the whole container.
pub proof fn lemma_progress_bounds(buf: Seq<u8>)
    ensures
        0 <= progress_permille(buf) <= 1000,
        !stream_header_ready(buf) ==> progress_permille(buf) == 0,
        stream_complete(buf) ==> progress_permille(buf) == 1000,
{
    if stream_header_ready(buf) {
        let exp = stream_expected(buf);
        let scaled = (buf.len() as int) * 1000;
        lemma_div_of0(exp);
        lemma_div_is_ordered(0, scaled, exp);
        if buf.len() >= exp {
            lemma_div_multiples_vanish(1000, exp);
            lemma_div_is_ordered(exp * 1000, scaled, exp);
        }
    }
}

/// Progress is monotone: a buffer extended by appended bytes never reports
/// less progress. With `add_chunk` only ever appending, progress never
/// decreases across successive calls on one accumulator.
pub proof fn lemma_progress_monotonic(b1: Seq<u8>, b2: Seq<u8>)
    requires
        b1.len() <= b2.len(),
        b2.subrange(0, b1.len() as int) == b1,
    ensures
        progress_permille(b1) <= progress_permille(b2),
{
    lemma_progress_bounds(b1);
    lemma_progress_bounds(b2);
    if stream_header_ready(b1) {
        lemma_header_fields_stable(b1, b2);
        let exp = stream_expected(b1);
        lemma_div_is_ordered((b1.len() as int) * 1000, (b2.len() as int) * 1000, exp);
    }
}

/// Streaming is observationally equivalent to one-shot decoding: once the
/// accumulated bytes hold the whole container, the completion snapshot of
/// `add_chunk` and the one-shot result of the same bytes agree — same success
/// flag, same text, same error report, same stats — however the bytes were
/// split into chunks.
pub proof fn lemma_streaming_matches_one_shot(
    buf: Seq<u8>,
    sr: StreamDecodeResult,
    dr: DecodeResult,
)
    requires
        stream_complete(buf),
        snapshot_complete(buf, sr),
        decode_result_spec(buf, dr),
    ensures
        sr.success == dr.success,
        sr.is_complete == dr.success,
        sr.data is Some <==> dr.data is Some,
        (sr.data matches Some(t1) ==> (dr.data matches Some(t2) && t1@ == t2@)),
        sr.error is Some <==> dr.error is Some,
        (sr.error matches Some(e1) ==> (dr.error matches Some(e2) && same_error_kind(e1, e2))),
        dr.success ==> (sr.stats matches Some(st) && st.original_size == dr.stats.original_size
            && st.compressed_size == dr.stats.compressed_size && st.compression_ratio_permille
            == dr.stats.compression_ratio_permille && st.format_version
            == dr.stats.format_version),
{
    if !decode_ok(buf) {
        let e1 = sr.error->Some_0;
        let e2 = dr.error->Some_0;
        lemma_err_of_functional(buf, e1, e2);
    }
}

/// The early header failure agrees with one-shot decoding too: when 20 bytes
/// exist and the header parse rejects them, the streaming report and the
/// one-shot result carry the same error — the same `BadMagic` observation, or
/// the same unrecognized version.
pub proof fn lemma_header_failure_matches_one_shot(
    buf: Seq<u8>,
    sr: StreamDecodeResult,
    dr: DecodeResult,
)
    requires
        buf.len() >= 20,
        !(magic_ok(buf) && version_supported(header_version(buf))),
        snapshot_header_failed(buf, sr),
        decode_result_spec(buf, dr),
    ensures
        !sr.success,
        !dr.success,
        (sr.error matches Some(e1) ==> (dr.error matches Some(e2) && same_error_kind(e1, e2))),
{
}

} // verus!
