//! The container format codec: validating the fixed-layout header of a
//! complete in-memory buffer, extracting and inflating the compressed region,
//! and cross-checking the declared original length.

use vstd::prelude::*;
use vstd::bytes::lemma_auto_spec_u32_to_from_le_bytes;
use vstd::bytes::spec_u32_from_le_bytes;
use vstd::bytes::spec_u32_to_le_bytes;
use vstd::bytes::u32_from_le_bytes;
use vstd::slice::slice_subrange;
use vstd::slice::slice_to_vec;
use vstd::utf8::decode_utf8;
use vstd::utf8::valid_utf8;

use crate::base64::base64_chars;
use crate::base64::base64_encode;
use crate::clock::clock_elapsed_ms;
use crate::clock::clock_now;
use crate::text::string_from_utf8;
use crate::text::string_from_utf8_lossy;
use crate::text::utf8_lossy;
use crate::zlib::zlib_decompress;
use crate::zlib::zlib_inflate;

verus! {

// ---------------------------------------------------------------------------
// The layout, stated over byte sequences.
// ---------------------------------------------------------------------------
/// The eight tag bytes `FASTDOG1` that open every container.
pub open spec fn magic_bytes() -> Seq<u8> {
    seq![70u8, 65u8, 83u8, 84u8, 68u8, 79u8, 71u8, 49u8]
}

/// The buffer opens with the magic tag.
pub open spec fn magic_ok(data: Seq<u8>) -> bool {
    data.len() >= 8 && data.subrange(0, 8) == magic_bytes()
}

/// The little-endian 32-bit field at byte offset `off`.
pub open spec fn le32_at(data: Seq<u8>, off: int) -> u32
    recommends
        0 <= off,
        off + 4 <= data.len(),
{
    spec_u32_from_le_bytes(data.subrange(off, off + 4))
}

/// The version field, at offset 8.
pub open spec fn header_version(data: Seq<u8>) -> u32 {
    le32_at(data, 8)
}

/// The compressed-length field, at offset 12.
pub open spec fn header_compressed_len(data: Seq<u8>) -> u32 {
    le32_at(data, 12)
}

/// Version 1 carries text; version 2 carries a binary blob.
pub open spec fn version_supported(v: u32) -> bool {
    v == 1 || v == 2
}

/// The compressed region: exactly `compressedLength` bytes from offset 16.
pub open spec fn compressed_region(data: Seq<u8>) -> Seq<u8> {
    data.subrange(16, 16 + header_compressed_len(data) as int)
}

/// The declared original length, in the four bytes after the compressed region.
pub open spec fn declared_original_len(data: Seq<u8>) -> u32 {
    le32_at(data, 16 + header_compressed_len(data) as int)
}

/// The fixed-offset part of decoding succeeds: tag, version and both regions
/// lie inside the buffer.
pub open spec fn container_parses(data: Seq<u8>) -> bool {
    &&& data.len() >= 20
    &&& magic_ok(data)
    &&& version_supported(header_version(data))
    &&& 16 + header_compressed_len(data) <= data.len()
    &&& 20 + header_compressed_len(data) <= data.len()
}

/// Parsing, inflation and the integrity check all succeed.
pub open spec fn raw_decode_ok(data: Seq<u8>) -> bool {
    &&& container_parses(data)
    &&& zlib_inflate(compressed_region(data)) is Some
    &&& zlib_inflate(compressed_region(data))->Some_0.len() == declared_original_len(data)
}

/// The inflated payload bytes of a container.
pub open spec fn raw_decoded(data: Seq<u8>) -> Seq<u8>
    recommends
        raw_decode_ok(data),
{
    zlib_inflate(compressed_region(data))->Some_0
}

/// A version-1 payload must moreover be valid UTF-8 text.
pub open spec fn decode_ok(data: Seq<u8>) -> bool {
    &&& raw_decode_ok(data)
    &&& header_version(data) == 1 ==> valid_utf8(raw_decoded(data))
}

/// The JSON envelope that carries a binary payload through the text channel.
pub open spec fn glb_envelope(payload: Seq<u8>) -> Seq<char> {
    "{\"type\":\"glb\",\"data\":\""@ + base64_chars(payload) + "\"}"@
}

/// The text a successful decode reports: the payload's UTF-8 characters for
/// version 1; for version 2, the base64 envelope.
pub open spec fn decoded_text(data: Seq<u8>) -> Seq<char>
    recommends
        decode_ok(data),
{
    if header_version(data) == 1 {
        decode_utf8(raw_decoded(data))
    } else {
        glb_envelope(raw_decoded(data))
    }
}

// ---------------------------------------------------------------------------
// Errors.
// ---------------------------------------------------------------------------
/// Why a buffer failed to parse or decode. Each variant carries the observed
/// values a caller needs for diagnostics.
#[derive(Debug)]
pub enum DecodeError {
    /// Fewer than the 20 bytes that even an empty container occupies.
    TooShort { actual: usize },
    /// The first eight bytes are not the magic tag; `observed` holds them.
    BadMagic { observed: Vec<u8> },
    /// The version field holds a value other than 1 or 2.
    UnsupportedVersion { version: u32 },
    /// The declared compressed length reaches past the end of the buffer.
    TruncatedPayload { declared: u32, available: usize },
    /// No room for the four-byte original-length field after the compressed
    /// region.
    MissingLengthField { available: usize },
    /// The zlib stream is malformed; `detail` wraps the decompressor's report.
    DecompressionFailed { detail: String },
    /// The payload inflated to a size other than the declared original length.
    LengthMismatch { expected: u32, actual: usize },
    /// A version-1 payload was not valid UTF-8 text.
    EncodingError,
}

/// Pins, for every buffer on which raw decoding fails, exactly which error is
/// reported and which diagnostic values it carries. The branches mirror the
/// order in which the checks run, so exactly one applies to a given buffer.
pub open spec fn raw_err_of(data: Seq<u8>, e: DecodeError) -> bool
    recommends
        !raw_decode_ok(data),
{
    if data.len() < 20 {
        e matches DecodeError::TooShort { actual } && actual == data.len()
    } else if !magic_ok(data) {
        e matches DecodeError::BadMagic { observed } && observed@ == data.subrange(0, 8)
    } else if !version_supported(header_version(data)) {
        e matches DecodeError::UnsupportedVersion { version } && version == header_version(data)
    } else if 16 + header_compressed_len(data) > data.len() {
        e matches DecodeError::TruncatedPayload { declared, available } && declared
            == header_compressed_len(data) && available == data.len()
    } else if 20 + header_compressed_len(data) > data.len() {
        e matches DecodeError::MissingLengthField { available } && available == data.len()
    } else if zlib_inflate(compressed_region(data)) is None {
        e is DecompressionFailed
    } else {
        e matches DecodeError::LengthMismatch { expected, actual } && expected
            == declared_original_len(data) && actual == raw_decoded(data).len()
    }
}

/// As `raw_err_of`, for the text-producing decode: one further failure when a
/// version-1 payload is not UTF-8.
pub open spec fn err_of(data: Seq<u8>, e: DecodeError) -> bool
    recommends
        !decode_ok(data),
{
    if !raw_decode_ok(data) {
        raw_err_of(data, e)
    } else {
        e is EncodingError
    }
}

// ---------------------------------------------------------------------------
// Results and stats.
// ---------------------------------------------------------------------------
/// Size and version metadata reported with every decode, success or failure.
pub struct DecodeStats {
    pub original_size: u32,
    pub compressed_size: u32,
    /// Wall-clock decode time in whole milliseconds; not pinned by contracts,
    /// since the clock decides it.
    pub decode_time_ms: u64,
    /// `compressedSize / originalSize` in thousandths; 0 when the original
    /// size is 0, rather than dividing by zero.
    pub compression_ratio_permille: u64,
    pub format_version: u32,
}

/// The compression ratio in thousandths, guarded against a zero denominator.
pub open spec fn ratio_permille(compressed: u32, original: u32) -> int {
    if original == 0 {
        0
    } else {
        (compressed as int) * 1000 / (original as int)
    }
}

/// The stats a successful decode carries: the true sizes and version.
pub open spec fn success_stats(data: Seq<u8>, s: DecodeStats) -> bool {
    &&& s.original_size == declared_original_len(data)
    &&& s.compressed_size == header_compressed_len(data)
    &&& s.compression_ratio_permille == ratio_permille(
        header_compressed_len(data),
        declared_original_len(data),
    )
    &&& s.format_version == header_version(data)
}

/// The best-effort stats a failed decode carries: the whole input length
/// stands in for the compressed size, everything else is zeroed.
pub open spec fn failure_stats(data: Seq<u8>, s: DecodeStats) -> bool {
    &&& s.original_size == 0
    &&& s.compressed_size == data.len()
    &&& s.compression_ratio_permille == 0
    &&& s.format_version == 0
}

/// The outcome of a one-shot decode: a complete snapshot, with stats populated
/// on failure as well.
pub struct DecodeResult {
    pub success: bool,
    pub data: Option<String>,
    pub error: Option<DecodeError>,
    pub stats: DecodeStats,
}

/// Everything `decode_fastdog_binary` promises of its result. The streaming
/// decoder's completion snapshot is pinned by the same predicates, which is
/// what makes the two delivery modes observationally equivalent.
pub open spec fn decode_result_spec(data: Seq<u8>, r: DecodeResult) -> bool {
    &&& r.success == decode_ok(data)
    &&& if decode_ok(data) {
        &&& (r.data matches Some(text) && text@ == decoded_text(data))
        &&& r.error is None
        &&& success_stats(data, r.stats)
    } else {
        &&& r.data is None
        &&& (r.error matches Some(e) && err_of(data, e))
        &&& failure_stats(data, r.stats)
    }
}

// ---------------------------------------------------------------------------
// Reading the fixed-offset fields.
// ---------------------------------------------------------------------------
/// Reads the little-endian 32-bit field at `off`.
pub(crate) fn read_le32(data: &[u8], off: usize) -> (x: u32)
    requires
        off + 4 <= data@.len(),
    ensures
        x == le32_at(data@, off as int),
{
    let n: usize = data.len();
    proof {
        assert(off + 4 <= n);
    }
    let field = slice_subrange(data, off, off + 4);
    u32_from_le_bytes(field)
}

/// Header fields are read from the first 16 bytes alone, so appending bytes to
/// a buffer never changes them once they exist.
pub proof fn lemma_header_fields_stable(b1: Seq<u8>, b2: Seq<u8>)
    requires
        b1.len() >= 16,
        b2.len() >= b1.len(),
        b2.subrange(0, b1.len() as int) == b1,
    ensures
        magic_ok(b2) == magic_ok(b1),
        header_version(b2) == header_version(b1),
        header_compressed_len(b2) == header_compressed_len(b1),
{
    assert(b2.subrange(0, 8) =~= b1.subrange(0, 8));
    assert(b2.subrange(8, 12) =~= b1.subrange(8, 12));
    assert(b2.subrange(12, 16) =~= b1.subrange(12, 16));
}

/// Compares the first eight bytes against the magic tag.
pub(crate) fn check_magic(data: &[u8]) -> (ok: bool)
    requires
        data@.len() >= 8,
    ensures
        ok == magic_ok(data@),
{
    let ok = data[0] == 70 && data[1] == 65 && data[2] == 83 && data[3] == 84 && data[4] == 68
        && data[5] == 79 && data[6] == 71 && data[7] == 49;
    proof {
        assert(forall|k: int| 0 <= k < 8 ==> data@.subrange(0, 8)[k] == data@[k]);
        if ok {
            assert(data@.subrange(0, 8) =~= magic_bytes());
        }
    }
    ok
}

/// Copies the first eight bytes out, for a `BadMagic` report.
fn observed_magic(data: &[u8]) -> (v: Vec<u8>)
    requires
        data@.len() >= 8,
    ensures
        v@ == data@.subrange(0, 8),
{
    slice_to_vec(slice_subrange(data, 0, 8))
}

// ---------------------------------------------------------------------------
// Decoding.
// ---------------------------------------------------------------------------
/// Parses and inflates a complete buffer, returning the raw payload bytes:
/// the representation-agnostic exit point, with no UTF-8 interpretation and no
/// envelope.
pub fn decode_binary_raw(data: &[u8]) -> (r: Result<Vec<u8>, DecodeError>)
    ensures
        r is Ok <==> raw_decode_ok(data@),
        (r matches Ok(v) ==> v@ == raw_decoded(data@)),
        (r matches Err(e) ==> raw_err_of(data@, e)),
{
    if data.len() < 20 {
        return Err(DecodeError::TooShort { actual: data.len() });
    }
    if !check_magic(data) {
        return Err(DecodeError::BadMagic { observed: observed_magic(data) });
    }
    let version = read_le32(data, 8);
    if version != 1 && version != 2 {
        return Err(DecodeError::UnsupportedVersion { version });
    }
    let compressed_len = read_le32(data, 12);
    let clen = compressed_len as usize;
    if clen > data.len() - 16 {
        return Err(
            DecodeError::TruncatedPayload { declared: compressed_len, available: data.len() },
        );
    }
    if data.len() - 16 - clen < 4 {
        return Err(DecodeError::MissingLengthField { available: data.len() });
    }
    let compressed = slice_subrange(data, 16, 16 + clen);
    let original_len = read_le32(data, 16 + clen);
    match zlib_decompress(compressed) {
        Ok(decompressed) => {
            if decompressed.len() != original_len as usize {
                Err(
                    DecodeError::LengthMismatch {
                        expected: original_len,
                        actual: decompressed.len(),
                    },
                )
            } else {
                Ok(decompressed)
            }
        },
        Err(detail) => Err(DecodeError::DecompressionFailed { detail }),
    }
}

/// Builds the version-2 result text: the payload base64-encoded inside a JSON
/// envelope.
fn glb_envelope_string(payload: &Vec<u8>) -> (r: String)
    ensures
        r@ == glb_envelope(payload@),
{
    let mut r = String::new();
    r.push_str("{\"type\":\"glb\",\"data\":\"");
    let encoded = base64_encode(payload.as_slice());
    r.push_str(encoded.as_str());
    r.push_str("\"}");
    proof {
        assert(r@ =~= glb_envelope(payload@));
    }
    r
}

/// Decodes a complete buffer to a success snapshot, or reports which check
/// failed. Shared by the one-shot entry point and the streaming decoder, so
/// that both delivery modes converge on the same logic.
pub fn decode_binary_internal(data: &[u8]) -> (r: Result<DecodeResult, DecodeError>)
    requires
        data@.len() <= u32::MAX,
    ensures
        r is Ok <==> decode_ok(data@),
        (r matches Ok(res) ==> {
            &&& res.success
            &&& (res.data matches Some(text) && text@ == decoded_text(data@))
            &&& res.error is None
            &&& success_stats(data@, res.stats)
        }),
        (r matches Err(e) ==> err_of(data@, e)),
{
    let start = clock_now();
    let decompressed = match decode_binary_raw(data) {
        Ok(v) => v,
        Err(e) => { return Err(e) },
    };
    let version = read_le32(data, 8);
    let compressed_len = read_le32(data, 12);
    let original_len = read_le32(data, 16 + compressed_len as usize);
    let text: String;
    if version == 1 {
        match string_from_utf8(decompressed) {
            Some(s) => { text = s },
            None => { return Err(DecodeError::EncodingError) },
        }
    } else {
        text = glb_envelope_string(&decompressed);
    }
    let decode_time_ms = clock_elapsed_ms(&start);
    let compression_ratio_permille: u64 = if original_len == 0 {
        0
    } else {
        (compressed_len as u64) * 1000 / (original_len as u64)
    };
    Ok(
        DecodeResult {
            success: true,
            data: Some(text),
            error: None,
            stats: DecodeStats {
                original_size: original_len,
                compressed_size: compressed_len,
                decode_time_ms,
                compression_ratio_permille,
                format_version: version,
            },
        },
    )
}

/// Decodes a complete buffer to a full snapshot; on failure the snapshot
/// carries the error and best-effort stats instead of a payload.
pub fn decode_fastdog_binary(data: &[u8]) -> (r: DecodeResult)
    requires
        data@.len() <= u32::MAX,
    ensures
        decode_result_spec(data@, r),
{
    let start = clock_now();
    match decode_binary_internal(data) {
        Ok(res) => res,
        Err(e) => DecodeResult {
            success: false,
            data: None,
            error: Some(e),
            stats: DecodeStats {
                original_size: 0,
                compressed_size: data.len() as u32,
                decode_time_ms: clock_elapsed_ms(&start),
                compression_ratio_permille: 0,
                format_version: 0,
            },
        },
    }
}

/// Decodes a complete buffer to the raw payload bytes; empty on any failure.
pub fn decode_fastdog_to_binary(data: &[u8]) -> (r: Vec<u8>)
    ensures
        raw_decode_ok(data@) ==> r@ == raw_decoded(data@),
        !raw_decode_ok(data@) ==> r@ == Seq::<u8>::empty(),
{
    match decode_binary_raw(data) {
        Ok(v) => v,
        Err(_) => Vec::new(),
    }
}

/// Runs the same decode path and reports the stats alone.
pub fn get_decode_stats(data: &[u8]) -> (s: DecodeStats)
    requires
        data@.len() <= u32::MAX,
    ensures
        decode_ok(data@) ==> success_stats(data@, s),
        !decode_ok(data@) ==> failure_stats(data@, s),
{
    decode_fastdog_binary(data).stats
}

/// Confirms length, magic tag and a recognized version; a cheap check before
/// committing to a full decode. Does not touch the compressed region.
pub fn validate_fastdog_format(data: &[u8]) -> (r: bool)
    ensures
        r == (data@.len() >= 12 && magic_ok(data@) && version_supported(le32_at(data@, 8))),
{
    if data.len() < 12 {
        return false;
    }
    if !check_magic(data) {
        return false;
    }
    let version = read_le32(data, 8);
    version == 1 || version == 2
}

/// Reads the three metadata fields — declared original length, compressed
/// length, version — without decoding anything. Fails when the buffer cannot
/// hold a header, or cannot hold the trailing length field the header implies.
pub fn get_format_metadata(data: &[u8]) -> (r: Result<(u32, u32, u32), DecodeError>)
    ensures
        r is Ok <==> (data@.len() >= 20 && 20 + header_compressed_len(data@) <= data@.len()),
        (r matches Ok(t) ==> t.0 == declared_original_len(data@) && t.1 == header_compressed_len(
            data@,
        ) && t.2 == header_version(data@)),
        (r matches Err(e) ==> if data@.len() < 20 {
            e matches DecodeError::TooShort { actual } && actual == data@.len()
        } else {
            e matches DecodeError::MissingLengthField { available } && available == data@.len()
        }),
{
    if data.len() < 20 {
        return Err(DecodeError::TooShort { actual: data.len() });
    }
    let version = read_le32(data, 8);
    let compressed_len = read_le32(data, 12);
    let clen = compressed_len as usize;
    if clen > data.len() - 16 || data.len() - 16 - clen < 4 {
        return Err(DecodeError::MissingLengthField { available: data.len() });
    }
    let original_len = read_le32(data, 16 + clen);
    Ok((original_len, compressed_len, version))
}

/// Best-effort format metadata, for diagnostic tooling.
pub struct FormatInfo {
    pub valid: bool,
    /// The tag bytes as text (lossily converted, so this never fails).
    pub magic: String,
    pub version: u32,
    pub compressed_size: u32,
    pub original_size: u32,
    pub total_size: u32,
}

/// What `get_format_info` reports: zeroed placeholder fields when the buffer
/// cannot hold a header, the observed field values otherwise.
pub open spec fn format_info_spec(data: Seq<u8>, info: FormatInfo) -> bool {
    &&& info.total_size == data.len()
    &&& if data.len() < 20 {
        &&& !info.valid
        &&& info.magic@ == "N/A"@
        &&& info.version == 0
        &&& info.compressed_size == 0
        &&& info.original_size == 0
    } else {
        &&& info.valid == (magic_ok(data) && header_version(data) == 1)
        &&& info.magic@ == utf8_lossy(data.subrange(0, 8))
        &&& info.version == header_version(data)
        &&& info.compressed_size == header_compressed_len(data)
        &&& info.original_size == if 20 + header_compressed_len(data) <= data.len() {
            declared_original_len(data) as int
        } else {
            0
        }
    }
}

/// Extracts format metadata without decoding; never fails, degrading to
/// placeholder fields where the buffer is too short.
pub fn get_format_info(data: &[u8]) -> (info: FormatInfo)
    requires
        data@.len() <= u32::MAX,
    ensures
        format_info_spec(data@, info),
{
    if data.len() < 20 {
        let mut magic = String::new();
        magic.push_str("N/A");
        proof {
            assert(magic@ =~= "N/A"@);
        }
        return FormatInfo {
            valid: false,
            magic,
            version: 0,
            compressed_size: 0,
            original_size: 0,
            total_size: data.len() as u32,
        };
    }
    let magic_matches = check_magic(data);
    let magic = string_from_utf8_lossy(slice_subrange(data, 0, 8));
    let version = read_le32(data, 8);
    let compressed_size = read_le32(data, 12);
    let clen = compressed_size as usize;
    let original_size = if clen <= data.len() - 20 {
        read_le32(data, 16 + clen)
    } else {
        0
    };
    FormatInfo {
        valid: magic_matches && version == 1,
        magic,
        version,
        compressed_size,
        original_size,
        total_size: data.len() as u32,
    }
}

// ---------------------------------------------------------------------------
// Laws.
// ---------------------------------------------------------------------------
/// A container laid out by the wire format: tag, version, compressed length,
/// compressed region, declared original length.
pub open spec fn container_bytes(version: u32, compressed: Seq<u8>, original_len: u32) -> Seq<
    u8,
> {
    magic_bytes() + spec_u32_to_le_bytes(version) + spec_u32_to_le_bytes(compressed.len() as u32)
        + compressed + spec_u32_to_le_bytes(original_len)
}

/// Reading the fixed-offset fields of a freshly laid-out container gives back
/// exactly the values it was built from.
pub proof fn lemma_container_bytes_fields(version: u32, compressed: Seq<u8>, original_len: u32)
    requires
        compressed.len() <= u32::MAX,
    ensures
        ({
            let data = container_bytes(version, compressed, original_len);
            &&& data.len() == 20 + compressed.len()
            &&& magic_ok(data)
            &&& header_version(data) == version
            &&& header_compressed_len(data) == compressed.len()
            &&& compressed_region(data) == compressed
            &&& declared_original_len(data) == original_len
            &&& version_supported(version) ==> container_parses(data)
        }),
{
    let data = container_bytes(version, compressed, original_len);
    lemma_auto_spec_u32_to_from_le_bytes();
    assert(data.len() == 20 + compressed.len());
    assert(data.subrange(0, 8) =~= magic_bytes());
    assert(data.subrange(8, 12) =~= spec_u32_to_le_bytes(version));
    assert(data.subrange(12, 16) =~= spec_u32_to_le_bytes(compressed.len() as u32));
    assert(header_compressed_len(data) == compressed.len());
    assert(data.subrange(16, 16 + compressed.len() as int) =~= compressed);
    assert(data.subrange(
        16 + compressed.len() as int,
        20 + compressed.len() as int,
    ) =~= spec_u32_to_le_bytes(original_len));
}

/// A buffer shorter than the 20 bytes of an empty container always fails, and
/// the failure is a `TooShort` report carrying the observed length.
pub proof fn lemma_too_short(data: Seq<u8>)
    requires
        data.len() < 20,
    ensures
        !raw_decode_ok(data),
        !decode_ok(data),
        forall|e: DecodeError|
            err_of(data, e) ==> (e matches DecodeError::TooShort { actual } && actual
                == data.len()),
{
}

/// Round trip: a container built as tag-and-header, a compressed region that
/// inflates back to `payload`, and the true payload length decodes
/// successfully and returns `payload` unchanged; the declared original length
/// that the stats report equals the payload's length. Version 1 moreover
/// yields the payload's text whenever the payload is UTF-8, and version 2
/// yields the base64 envelope.
pub proof fn lemma_round_trip(version: u32, compressed: Seq<u8>, payload: Seq<u8>)
    requires
        version_supported(version),
        compressed.len() <= u32::MAX,
        payload.len() <= u32::MAX,
        zlib_inflate(compressed) == Some(payload),
    ensures
        ({
            let data = container_bytes(version, compressed, payload.len() as u32);
            &&& raw_decode_ok(data)
            &&& raw_decoded(data) == payload
            &&& declared_original_len(data) == payload.len()
            &&& header_version(data) == version
            &&& version == 1 && valid_utf8(payload) ==> decode_ok(data) && decoded_text(data)
                == decode_utf8(payload)
            &&& version == 2 ==> decode_ok(data) && decoded_text(data) == glb_envelope(payload)
        }),
{
    lemma_container_bytes_fields(version, compressed, payload.len() as u32);
}

/// Corrupting any single byte of the magic field makes decoding fail, and the
/// failure is a `BadMagic` report — so no payload is ever returned for it.
pub proof fn lemma_corrupt_magic(data: Seq<u8>, i: int, b: u8)
    requires
        data.len() >= 20,
        magic_ok(data),
        0 <= i < 8,
        b != data[i],
    ensures
        ({
            let corrupted = data.update(i, b);
            &&& !magic_ok(corrupted)
            &&& !raw_decode_ok(corrupted)
            &&& !decode_ok(corrupted)
            &&& forall|e: DecodeError| raw_err_of(corrupted, e) ==> e is BadMagic
            &&& forall|e: DecodeError| err_of(corrupted, e) ==> e is BadMagic
        }),
{
    let corrupted = data.update(i, b);
    assert(data.subrange(0, 8)[i] == data[i]);
    if magic_ok(corrupted) {
        assert(corrupted.subrange(0, 8)[i] == corrupted[i]);
        assert(false);
    }
}

/// Declaring an original length other than the true inflated length makes
/// decoding fail with `LengthMismatch`, even though decompression itself
/// succeeds: mismatched data is never returned.
pub proof fn lemma_length_mismatch(
    version: u32,
    compressed: Seq<u8>,
    payload: Seq<u8>,
    declared: u32,
)
    requires
        version_supported(version),
        compressed.len() <= u32::MAX,
        zlib_inflate(compressed) == Some(payload),
        declared != payload.len(),
    ensures
        ({
            let data = container_bytes(version, compressed, declared);
            &&& container_parses(data)
            &&& !raw_decode_ok(data)
            &&& !decode_ok(data)
            &&& forall|e: DecodeError|
                raw_err_of(data, e) ==> (e matches DecodeError::LengthMismatch {
                    expected,
                    actual,
                } && expected == declared && actual == payload.len())
            &&& forall|e: DecodeError|
                err_of(data, e) ==> (e matches DecodeError::LengthMismatch { expected, actual }
                    && expected == declared && actual == payload.len())
        }),
{
    lemma_container_bytes_fields(version, compressed, declared);
}

/// Two error reports agree: the same variant, carrying the same diagnostic
/// values (the decompressor's free-text detail aside).
pub open spec fn same_error_kind(e1: DecodeError, e2: DecodeError) -> bool {
    match (e1, e2) {
        (
            DecodeError::TooShort { actual: a1 },
            DecodeError::TooShort { actual: a2 },
        ) => a1 == a2,
        (
            DecodeError::BadMagic { observed: o1 },
            DecodeError::BadMagic { observed: o2 },
        ) => o1@ == o2@,
        (
            DecodeError::UnsupportedVersion { version: v1 },
            DecodeError::UnsupportedVersion { version: v2 },
        ) => v1 == v2,
        (
            DecodeError::TruncatedPayload { declared: d1, available: a1 },
            DecodeError::TruncatedPayload { declared: d2, available: a2 },
        ) => d1 == d2 && a1 == a2,
        (
            DecodeError::MissingLengthField { available: a1 },
            DecodeError::MissingLengthField { available: a2 },
        ) => a1 == a2,
        (DecodeError::DecompressionFailed { .. }, DecodeError::DecompressionFailed { .. }) => true,
        (
            DecodeError::LengthMismatch { expected: x1, actual: a1 },
            DecodeError::LengthMismatch { expected: x2, actual: a2 },
        ) => x1 == x2 && a1 == a2,
        (DecodeError::EncodingError {  }, DecodeError::EncodingError {  }) => true,
        _ => false,
    }
}

/// The error report for a given buffer is unique up to `same_error_kind`: the
/// branches of `err_of` pin the variant and its diagnostic values.
pub proof fn lemma_err_of_functional(data: Seq<u8>, e1: DecodeError, e2: DecodeError)
    requires
        err_of(data, e1),
        err_of(data, e2),
    ensures
        same_error_kind(e1, e2),
{
}

} // verus!
