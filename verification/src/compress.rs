//! Page compression: LZMA1-alone streams with a definite size in their header.

use liblzma::stream::Error as CodecError;
use liblzma::stream::{LzmaOptions, Stream};
use vstd::prelude::*;

use crate::buffer;
use crate::buffer::{BufferModel, PRINT_BUF_SIZE};
use crate::error::{Error, ErrorModel};
use crate::text;
use crate::text::{decimal_text, join2, join3};
use crate::wire::append;

verus! {

/// Compression level that the other parameters start from.
pub const LZMA_PRESET: u32 = 6;

/// Literal context bits (lc).
pub const LZMA_LC: u32 = 3;

/// Literal position bits (lp).
pub const LZMA_LP: u32 = 0;

/// Position bits (pb).
pub const LZMA_PB: u32 = 2;

/// Match length at which the encoder stops searching.
pub const LZMA_NICE_LEN: u32 = 128;

/// Dictionary size of the T50, whose firmware has little memory.
pub const T50_DICT_SIZE: u32 = 8192;

/// Dictionary size of the E-series.
pub const ESERIES_DICT_SIZE: u32 = 0x0020_0000;

/// Length of the LZMA1-alone header: properties, dictionary size, data size.
pub const LZMA_HEADER_LEN: usize = 13;

/// Smallest dictionary that the encoder takes.
pub const LZMA_DICT_MIN: u32 = 4096;

/// Largest dictionary that the encoder takes: 1.5 GiB.
pub const LZMA_DICT_MAX: u32 = 0x6000_0000;

/// Where the codec gave up, with its own words.
#[derive(Debug, PartialEq, Eq)]
pub enum LzmaFault {
    /// The preset is unknown.
    Preset(String),
    /// No encoder for these parameters, or no memory for one.
    Encoder {
        /// There is no memory.
        memory: bool,
        /// The codec's words.
        words: String,
    },
    /// The encoder refused data.
    Write(String),
    /// The encoder could not end the stream.
    Finish(String),
    /// No decoder, or no memory for one.
    Decoder {
        /// There is no memory.
        memory: bool,
        /// The codec's words.
        words: String,
    },
    /// The decoder refused the stream, or ran out of memory.
    Read {
        /// There is no memory.
        memory: bool,
        /// The codec's words.
        words: String,
    },
}

/// The codec gave up for want of memory.
pub open spec fn out_of_memory(f: LzmaFault) -> bool {
    match f {
        LzmaFault::Encoder { memory, .. } => memory,
        LzmaFault::Decoder { memory, .. } => memory,
        LzmaFault::Read { memory, .. } => memory,
        _ => false,
    }
}

/// The text of a codec fault.
pub open spec fn fault_text(f: LzmaFault) -> Seq<char> {
    match f {
        LzmaFault::Preset(s) => "preset: "@ + s@,
        LzmaFault::Encoder { words, .. } => "encoder: "@ + words@,
        LzmaFault::Write(s) => "write: "@ + s@,
        LzmaFault::Finish(s) => "finish: "@ + s@,
        LzmaFault::Decoder { words, .. } => "decoder: "@ + words@,
        LzmaFault::Read { words, .. } => "decompress: "@ + words@,
    }
}

/// `e` tells of some codec fault.
pub open spec fn is_codec_error(e: ErrorModel) -> bool {
    exists|f: LzmaFault| e == ErrorModel::Compression(#[trigger] fault_text(f))
}

/// `e` tells that the codec ran out of memory.
pub open spec fn is_memory_error(e: ErrorModel) -> bool {
    exists|f: LzmaFault| out_of_memory(f) && e == ErrorModel::Compression(#[trigger] fault_text(f))
}

/// A codec fault as an error.
fn fault_error(f: LzmaFault) -> (e: Error)
    ensures
        e@ == ErrorModel::Compression(fault_text(f)),
{
    Error::Compression(
        match f {
            LzmaFault::Preset(s) => join2("preset: ", s.as_str()),
            LzmaFault::Encoder { words, .. } => join2("encoder: ", words.as_str()),
            LzmaFault::Write(s) => join2("write: ", s.as_str()),
            LzmaFault::Finish(s) => join2("finish: ", s.as_str()),
            LzmaFault::Decoder { words, .. } => join2("decoder: ", words.as_str()),
            LzmaFault::Read { words, .. } => join2("decompress: ", words.as_str()),
        },
    )
}

/// The eight bytes of a 64-bit value, least significant first.
pub open spec fn le64(v: u64) -> Seq<u8> {
    seq![
        (v % 256) as u8,
        (v / 0x100 % 256) as u8,
        (v / 0x1_0000 % 256) as u8,
        (v / 0x100_0000 % 256) as u8,
        (v / 0x1_0000_0000 % 256) as u8,
        (v / 0x100_0000_0000 % 256) as u8,
        (v / 0x1_0000_0000_0000 % 256) as u8,
        (v / 0x100_0000_0000_0000 % 256) as u8,
    ]
}

/// The four bytes of a 32-bit value, least significant first.
pub open spec fn le32(v: u32) -> Seq<u8> {
    seq![
        (v % 256) as u8,
        (v / 0x100 % 256) as u8,
        (v / 0x1_0000 % 256) as u8,
        (v / 0x100_0000 % 256) as u8,
    ]
}

/// `v` has exactly one bit set.
pub open spec fn is_power_of_two(v: u32) -> bool {
    v > 0 && v & (v - 1) as u32 == 0
}

/// The first byte of an LZMA1-alone stream.
pub open spec fn lzma_properties(lc: u32, lp: u32, pb: u32) -> int {
    (pb * 5 + lp) * 9 + lc
}

/// The size field of a stream whose size is not declared.
pub open spec fn unknown_size() -> Seq<u8> {
    le64(u64::MAX)
}

/// Parameters that the encoder takes, for a preset without flags.
pub open spec fn lzma_accepts(
    preset: u32,
    dict_size: u32,
    lc: u32,
    lp: u32,
    pb: u32,
    nice_len: u32,
) -> bool {
    &&& preset <= 9
    &&& LZMA_DICT_MIN <= dict_size <= LZMA_DICT_MAX
    &&& lc + lp <= 4
    &&& pb <= 4
    &&& 2 <= nice_len <= 273
}

/// What the LZMA1-alone encoder of liblzma makes of `data` under these parameters.
pub uninterp spec fn lzma_alone_encoded(data: Seq<u8>, preset: u32, dict_size: u32, lc: u32, lp: u32, pb: u32, nice_len: u32) -> Seq<u8>;

/// What the LZMA1-alone decoder of liblzma makes of `stream`, given the memory it
/// needs; `None` if the stream is none of its format, corrupt or cut off.
pub uninterp spec fn lzma_alone_decoded(stream: Seq<u8>) -> Option<Seq<u8>>;

/// LZMA1-alone encoding by liblzma: `LzmaOptions::new_preset` with the given
/// parameters set, `Stream::new_lzma_encoder`, and `write::XzEncoder` around it
/// (`write_all`, then `finish`).
///
/// Where it succeeds, the result depends on the arguments alone. It starts with
/// the 13-byte header that `alone_encoder_init` writes: the properties byte, the
/// dictionary size (which that function rounds up, so it is stated for powers of
/// two only) and an unknown size. At least the five bytes of `rc_flush` follow, and
/// the decoder of the same library gives back `data`. With parameters that the
/// encoder takes it fails only for want of memory, all of which it gets when it is
/// set up; with others, for a preset without flags, it fails. The words of a fault
/// are the library's.
#[verifier::external_body]
fn lzma_alone_encode(
    data: &[u8],
    preset: u32,
    dict_size: u32,
    lc: u32,
    lp: u32,
    pb: u32,
    nice_len: u32,
) -> (r: Result<Vec<u8>, LzmaFault>)
    ensures
        r matches Ok(v) ==> v@ == lzma_alone_encoded(
            data@,
            preset,
            dict_size,
            lc,
            lp,
            pb,
            nice_len,
        ),
        r matches Ok(v) ==> v@.len() >= 18 && v@[0] == lzma_properties(lc, lp, pb),
        r matches Ok(v) ==> (is_power_of_two(dict_size) ==> v@.subrange(1, 5) == le32(
            dict_size,
        )),
        r matches Ok(v) ==> v@.subrange(5, 13) == unknown_size(),
        r matches Ok(v) ==> lzma_alone_decoded(v@) == Some(data@),
        r matches Err(f) ==> (lzma_accepts(preset, dict_size, lc, lp, pb, nice_len)
            ==> out_of_memory(f)),
        r is Ok && preset <= 9 ==> lzma_accepts(preset, dict_size, lc, lp, pb, nice_len),
{
    let mut opts = LzmaOptions::new_preset(preset).map_err(
        |e| LzmaFault::Preset(format!("{e}")),
    )?;
    opts.dict_size(dict_size).literal_context_bits(lc).literal_position_bits(lp);
    opts.position_bits(pb).nice_len(nice_len);
    let stream = Stream::new_lzma_encoder(&opts).map_err(
        |e| LzmaFault::Encoder { memory: e == CodecError::Mem, words: format!("{e}") },
    )?;
    let mut encoder = liblzma::write::XzEncoder::new_stream(Vec::new(), stream);
    match std::io::Write::write_all(&mut encoder, data) {
        Ok(()) => encoder.finish().map_err(|e| LzmaFault::Finish(format!("{e}"))),
        Err(e) => Err(LzmaFault::Write(format!("{e}"))),
    }
}

/// LZMA1-alone decoding by liblzma: `Stream::new_lzma_decoder` without a memory
/// limit, and `read::XzDecoder` around it (`read_to_end`).
///
/// Success and result depend on the stream alone, but for want of memory: the
/// library's own `Mem`, which the reader wraps in an I/O error, or that of the
/// standard library. The words of a fault are the library's.
#[verifier::external_body]
fn lzma_alone_decode(stream: &[u8], memlimit: u64) -> (r: Result<Vec<u8>, LzmaFault>)
    requires
        memlimit == u64::MAX,
    ensures
        r matches Ok(v) ==> lzma_alone_decoded(stream@) == Some(v@),
        r matches Err(f) ==> out_of_memory(f) || lzma_alone_decoded(stream@) is None,
{
    let raw = Stream::new_lzma_decoder(memlimit).map_err(
        |e| LzmaFault::Decoder { memory: e == CodecError::Mem, words: format!("{e}") },
    )?;
    let mut decoder = liblzma::read::XzDecoder::new_stream(stream, raw);
    let mut out = Vec::new();
    match std::io::Read::read_to_end(&mut decoder, &mut out) {
        Ok(_) => Ok(out),
        Err(e) => Err(LzmaFault::Read {
            memory: e.kind() == std::io::ErrorKind::OutOfMemory || e.get_ref().and_then(
                |inner| inner.downcast_ref::<CodecError>(),
            ) == Some(&CodecError::Mem),
            words: format!("{e}"),
        }),
    }
}

/// A stream with its size field replaced. A stream too short for a header stays
/// as it is.
pub open spec fn with_size(stream: Seq<u8>, size: u64) -> Seq<u8> {
    if stream.len() >= 13 {
        stream.take(5) + le64(size) + stream.skip(13)
    } else {
        stream
    }
}

/// Replace the size field of a stream.
pub fn patch_size(stream: &mut Vec<u8>, size: u64)
    ensures
        final(stream)@ == with_size(old(stream)@, size),
{
    if stream.len() >= LZMA_HEADER_LEN {
        stream[5] = (size % 256) as u8;
        stream[6] = (size / 0x100 % 256) as u8;
        stream[7] = (size / 0x1_0000 % 256) as u8;
        stream[8] = (size / 0x100_0000 % 256) as u8;
        stream[9] = (size / 0x1_0000_0000 % 256) as u8;
        stream[10] = (size / 0x100_0000_0000 % 256) as u8;
        stream[11] = (size / 0x1_0000_0000_0000 % 256) as u8;
        stream[12] = (size / 0x100_0000_0000_0000 % 256) as u8;
        assert(stream@ =~= with_size(old(stream)@, size));
    }
}

/// Turn what the encoder returned for `size` bytes of data into a stream for the
/// printer: the size is declared in the header.
pub fn finish_stream(encoded: Result<Vec<u8>, LzmaFault>, size: usize) -> (r: Result<
    Vec<u8>,
    Error,
>)
    ensures
        match (encoded, r) {
            (Ok(v), Ok(s)) => s@ == with_size(v@, size as u64),
            (Err(f), Err(e)) => e@ == ErrorModel::Compression(fault_text(f)),
            _ => false,
        },
{
    match encoded {
        Ok(mut stream) => {
            patch_size(&mut stream, size as u64);
            Ok(stream)
        },
        Err(f) => Err(fault_error(f)),
    }
}

/// Turn what the decoder returned into the data of a stream.
pub fn finish_data(decoded: Result<Vec<u8>, LzmaFault>) -> (r: Result<Vec<u8>, Error>)
    ensures
        match (decoded, r) {
            (Ok(v), Ok(data)) => data == v,
            (Err(f), Err(e)) => e@ == ErrorModel::Compression(fault_text(f)),
            _ => false,
        },
{
    match decoded {
        Ok(v) => Ok(v),
        Err(f) => Err(fault_error(f)),
    }
}

/// The stream the printer gets for `data` with this dictionary size.
pub open spec fn page_stream(data: Seq<u8>, dict_size: u32) -> Seq<u8> {
    with_size(
        lzma_alone_encoded(
            data,
            LZMA_PRESET,
            dict_size,
            LZMA_LC,
            LZMA_LP,
            LZMA_PB,
            LZMA_NICE_LEN,
        ),
        data.len() as u64,
    )
}

/// `stream` is a printer stream of `data`: its header declares the parameters and
/// the size, and behind an undeclared size the decoder finds the data.
pub open spec fn is_stream_of(stream: Seq<u8>, data: Seq<u8>, dict_size: u32) -> bool {
    &&& stream == page_stream(data, dict_size)
    &&& stream.len() >= 18
    &&& stream[0] == 0x5D
    &&& (is_power_of_two(dict_size) ==> stream.subrange(1, 5) == le32(dict_size))
    &&& stream.subrange(5, 13) == le64(data.len() as u64)
    &&& lzma_alone_decoded(with_size(stream, u64::MAX)) == Some(data)
}

/// Replacing the size field twice is replacing it once.
proof fn lemma_with_size_twice(stream: Seq<u8>, a: u64, b: u64)
    ensures
        with_size(with_size(stream, a), b) == with_size(stream, b),
{
    assert(with_size(with_size(stream, a), b) =~= with_size(stream, b));
}

/// Writing the size that a stream declares already changes nothing.
proof fn lemma_with_same_size(stream: Seq<u8>, size: u64)
    requires
        stream.len() >= 13,
        stream.subrange(5, 13) == le64(size),
    ensures
        with_size(stream, size) == stream,
{
    assert forall|i: int| 0 <= i < stream.len() implies with_size(stream, size)[i] == stream[i] by {
        if 5 <= i < 13 {
            assert(stream.subrange(5, 13)[i - 5] == stream[i]);
        }
    }
    assert(with_size(stream, size) =~= stream);
}

/// Both dictionary sizes are powers of two.
proof fn lemma_dict_sizes()
    ensures
        is_power_of_two(T50_DICT_SIZE),
        is_power_of_two(ESERIES_DICT_SIZE),
{
    assert(8192u32 & 8191u32 == 0) by (bit_vector);
    assert(0x0020_0000u32 & 0x001F_FFFFu32 == 0) by (bit_vector);
}

/// Compress data as the T50 expects it.
pub fn compress_lzma(data: &[u8]) -> (r: Result<Vec<u8>, Error>)
    ensures
        match r {
            Ok(s) => is_stream_of(s@, data@, T50_DICT_SIZE) && s@.subrange(1, 5) == le32(
                T50_DICT_SIZE,
            ),
            Err(e) => is_memory_error(e@),
        },
{
    proof {
        lemma_dict_sizes();
    }
    compress_lzma_dict(data, T50_DICT_SIZE)
}

/// Compress data as an LZMA1-alone stream with the given dictionary size and the
/// exact data size in the header. A dictionary out of the encoder's range is
/// refused.
pub fn compress_lzma_dict(data: &[u8], dict_size: u32) -> (r: Result<Vec<u8>, Error>)
    ensures
        if LZMA_DICT_MIN <= dict_size <= LZMA_DICT_MAX {
            match r {
                Ok(s) => is_stream_of(s@, data@, dict_size),
                Err(e) => is_memory_error(e@),
            }
        } else {
            r matches Err(e) && is_codec_error(e@)
        },
{
    let encoded = lzma_alone_encode(
        data,
        LZMA_PRESET,
        dict_size,
        LZMA_LC,
        LZMA_LP,
        LZMA_PB,
        LZMA_NICE_LEN,
    );
    let size: usize = data.len();
    let ghost outcome = encoded;
    let r = finish_stream(encoded, size);
    proof {
        if let Ok(v) = outcome {
            let s = with_size(v@, size as u64);
            lemma_with_size_twice(v@, size as u64, u64::MAX);
            lemma_with_same_size(v@, u64::MAX);
            assert(s.subrange(1, 5) =~= v@.subrange(1, 5));
            assert(s.subrange(5, 13) =~= le64(size as u64));
        }
    }
    r
}

/// `r` is the outcome of decompressing `stream`: one too short for a header is
/// refused as such; else it is what the decoder finds behind an undeclared size,
/// or a codec fault where the decoder finds nothing or there is no memory.
pub open spec fn decompresses(stream: Seq<u8>, r: Result<Vec<u8>, Error>) -> bool {
    if stream.len() < 13 {
        r matches Err(e) && e@ == ErrorModel::Compression(
            "lzma stream too short: "@ + text::decimal(stream.len()) + " bytes"@,
        )
    } else {
        match r {
            Ok(v) => lzma_alone_decoded(with_size(stream, u64::MAX)) == Some(v@),
            Err(e) => is_memory_error(e@) || (is_codec_error(e@) && lzma_alone_decoded(
                with_size(stream, u64::MAX),
            ) is None),
        }
    }
}

/// Decompress a stream made by [`compress_lzma`] or [`compress_lzma_dict`]: the
/// size is undeclared first, so that the decoder goes by the end marker.
pub fn decompress_lzma(data: &[u8]) -> (r: Result<Vec<u8>, Error>)
    ensures
        decompresses(data@, r),
{
    if data.len() < LZMA_HEADER_LEN {
        let n = decimal_text(data.len() as u64);
        return Err(
            Error::Compression(join3("lzma stream too short: ", n.as_str(), " bytes")),
        );
    }
    let mut stream = vstd::slice::slice_to_vec(data);
    patch_size(&mut stream, u64::MAX);
    finish_data(lzma_alone_decode(stream.as_slice(), u64::MAX))
}

/// The bytes of some print buffers, one behind the other.
pub open spec fn concat_buffers(buffers: Seq<[u8; PRINT_BUF_SIZE]>) -> Seq<u8>
    decreases buffers.len(),
{
    if buffers.len() == 0 {
        Seq::empty()
    } else {
        concat_buffers(buffers.drop_last()) + buffers.last()@
    }
}

/// The buffers of a page are joined into the bytes of the page.
pub proof fn lemma_page_bytes(buffers: Seq<[u8; PRINT_BUF_SIZE]>, models: Seq<BufferModel>)
    requires
        buffer::are_buffers(buffers, models),
    ensures
        concat_buffers(buffers) == buffer::page_bytes(models),
    decreases buffers.len(),
{
    if buffers.len() > 0 {
        assert forall|k: int| 0 <= k < buffers.len() - 1 implies (
        #[trigger] buffers.drop_last()[k])@ == buffer::print_buffer(models.drop_last()[k]) by {
            assert(buffers[k]@ == buffer::print_buffer(models[k]));
        }
        lemma_page_bytes(buffers.drop_last(), models.drop_last());
    }
}

/// Join print buffers into one run of bytes.
fn join_buffers(buffers: &[[u8; PRINT_BUF_SIZE]]) -> (joined: Vec<u8>)
    ensures
        joined@ == concat_buffers(buffers@),
{
    let mut joined: Vec<u8> = Vec::new();
    let mut i: usize = 0;
    while i < buffers.len()
        invariant
            i <= buffers@.len(),
            joined@ == concat_buffers(buffers@.take(i as int)),
        decreases buffers@.len() - i,
    {
        append(&mut joined, buffers[i].as_slice());
        assert(buffers@.take(i + 1).drop_last() =~= buffers@.take(i as int));
        i += 1;
    }
    assert(buffers@.take(i as int) =~= buffers@);
    joined
}

/// Add the average number of stream bytes per buffer to the stream of `count`
/// buffers.
pub fn with_average(stream: Result<Vec<u8>, Error>, count: usize) -> (r: Result<
    (Vec<u8>, usize),
    Error,
>)
    requires
        count > 0,
    ensures
        match (stream, r) {
            (Ok(s), Ok((t, avg))) => t == s && avg == s@.len() / count as nat,
            (Err(e), Err(f)) => f == e,
            _ => false,
        },
{
    match stream {
        Ok(s) => {
            let avg: usize = s.len() / count;
            Ok((s, avg))
        },
        Err(e) => Err(e),
    }
}

/// Compress the print buffers of a T50 page into one stream. Returns the stream
/// and the average number of stream bytes per buffer.
pub fn compress_buffers(buffers: &[[u8; PRINT_BUF_SIZE]]) -> (r: Result<(Vec<u8>, usize), Error>)
    ensures
        buffers@.len() == 0 ==> (r matches Err(e) && e@ == ErrorModel::InvalidParam(
            "no buffers to compress"@,
        )),
        buffers@.len() > 0 ==> match r {
            Ok((s, avg)) => {
                &&& is_stream_of(s@, concat_buffers(buffers@), T50_DICT_SIZE)
                &&& avg == s@.len() / buffers@.len()
            },
            Err(e) => is_memory_error(e@),
        },
{
    if buffers.len() == 0 {
        return Err(Error::InvalidParam("no buffers to compress".to_owned()));
    }
    let joined = join_buffers(buffers);
    with_average(compress_lzma(joined.as_slice()), buffers.len())
}

/// Compress the print buffers of one E-series page into one stream.
pub fn compress_page_e(buffers: &[[u8; PRINT_BUF_SIZE]]) -> (r: Result<Vec<u8>, Error>)
    ensures
        buffers@.len() == 0 ==> (r matches Err(e) && e@ == ErrorModel::InvalidParam(
            "no buffers to compress"@,
        )),
        buffers@.len() > 0 ==> match r {
            Ok(s) => is_stream_of(s@, concat_buffers(buffers@), ESERIES_DICT_SIZE) && s@.subrange(
                1,
                5,
            ) == le32(ESERIES_DICT_SIZE),
            Err(e) => is_memory_error(e@),
        },
{
    if buffers.len() == 0 {
        return Err(Error::InvalidParam("no buffers to compress".to_owned()));
    }
    let joined = join_buffers(buffers);
    proof {
        lemma_dict_sizes();
    }
    compress_lzma_dict(joined.as_slice(), ESERIES_DICT_SIZE)
}

/// Every 4096th byte of a joined page starts a print buffer: the firmware finds
/// buffer `k` at offset `k * 4096`.
pub proof fn law_joined_buffers_stay_aligned(buffers: Seq<[u8; PRINT_BUF_SIZE]>)
    ensures
        concat_buffers(buffers).len() == buffers.len() * 4096,
        forall|k: int, j: int|
            0 <= k < buffers.len() && 0 <= j < 4096 ==> concat_buffers(buffers)[k * 4096 + j]
                == #[trigger] buffers[k]@[j],
    decreases buffers.len(),
{
    if buffers.len() > 0 {
        law_joined_buffers_stay_aligned(buffers.drop_last());
        let head = concat_buffers(buffers.drop_last());
        assert forall|k: int, j: int| 0 <= k < buffers.len() && 0 <= j < 4096 implies concat_buffers(buffers)[k * 4096 + j] == #[trigger] buffers[k]@[j] by {
            if k < buffers.len() - 1 {
                assert(buffers.drop_last()[k]@[j] == buffers[k]@[j]);
            }
        }
    }
}

/// `a` and `b` differ in the size that they declare, if at all.
pub open spec fn same_but_for_size(a: Seq<u8>, b: Seq<u8>) -> bool {
    &&& a.len() == b.len() >= 13
    &&& a.take(5) == b.take(5)
    &&& a.skip(13) == b.skip(13)
}

/// Decompression undoes compression, whatever size the header declares: from a
/// stream that compression returned for `data` it gives back `data`, unless there
/// is no memory.
pub proof fn law_decompress_undoes_compress(
    data: Seq<u8>,
    dict_size: u32,
    stream: Seq<u8>,
    other: Seq<u8>,
    r: Result<Vec<u8>, Error>,
)
    requires
        is_stream_of(stream, data, dict_size),
        same_but_for_size(stream, other),
        decompresses(other, r),
    ensures
        match r {
            Ok(v) => v@ == data,
            Err(e) => is_memory_error(e@),
        },
{
    assert(with_size(other, u64::MAX) =~= with_size(stream, u64::MAX));
}

/// A joined page can be read back: decompressing the stream of some buffers gives
/// their bytes, 4096 to a buffer, in order, unless there is no memory.
pub proof fn law_decompress_gives_back_buffers(
    buffers: Seq<[u8; PRINT_BUF_SIZE]>,
    dict_size: u32,
    stream: Seq<u8>,
    r: Result<Vec<u8>, Error>,
)
    requires
        is_stream_of(stream, concat_buffers(buffers), dict_size),
        decompresses(stream, r),
    ensures
        match r {
            Ok(v) => {
                &&& v@.len() == 4096 * buffers.len()
                &&& forall|k: int, j: int|
                    0 <= k < buffers.len() && 0 <= j < 4096 ==> v@[4096 * k + j]
                        == #[trigger] buffers[k]@[j]
            },
            Err(e) => is_memory_error(e@),
        },
{
    law_joined_buffers_stay_aligned(buffers);
    law_decompress_undoes_compress(concat_buffers(buffers), dict_size, stream, stream, r);
}

proof fn lemma_page_bytes_aligned(models: Seq<BufferModel>)
    ensures
        buffer::page_bytes(models).len() == 4096 * models.len(),
        forall|k: int|
            0 <= k < models.len() ==> buffer::page_bytes(models).subrange(
                4096 * k,
                4096 * k + 4096,
            ) == buffer::print_buffer(#[trigger] models[k]),
    decreases models.len(),
{
    if models.len() > 0 {
        let past = models.drop_last();
        let head = buffer::page_bytes(past);
        lemma_page_bytes_aligned(past);
        assert(buffer::print_buffer(models.last()).len() == 4096);
        assert forall|k: int| 0 <= k < models.len() implies buffer::page_bytes(models).subrange(
            4096 * k,
            4096 * k + 4096,
        ) == buffer::print_buffer(#[trigger] models[k]) by {
            let whole = buffer::page_bytes(models);
            if k < past.len() {
                assert(past[k] == models[k]);
                assert(whole.subrange(4096 * k, 4096 * k + 4096) =~= head.subrange(
                    4096 * k,
                    4096 * k + 4096,
                ));
            } else {
                assert(whole.subrange(4096 * k, 4096 * k + 4096) =~= buffer::print_buffer(
                    models[k],
                ));
            }
        }
    }
}

/// The printer recovers the page: what the decoder makes of the stream of a page
/// holds the page's buffers, in order, each at a multiple of 4096 bytes.
pub proof fn law_stream_holds_the_buffers(
    stream: Seq<u8>,
    models: Seq<BufferModel>,
    dict_size: u32,
)
    requires
        is_stream_of(stream, buffer::page_bytes(models), dict_size),
    ensures
        ({
            &&& lzma_alone_decoded(with_size(stream, u64::MAX)) matches Some(page)
            &&& page.len() == 4096 * models.len()
            &&& forall|k: int|
                0 <= k < models.len() ==> page.subrange(4096 * k, 4096 * k + 4096)
                    == buffer::print_buffer(#[trigger] models[k])
        }),
{
    lemma_page_bytes_aligned(models);
}

/// The size field of a stream is eight bytes from byte 5 on, least significant first;
/// writing it leaves every other byte alone.
pub proof fn law_size_field_is_written_in_place(stream: Seq<u8>, size: u64, i: int)
    ensures
        with_size(stream, size).len() == stream.len(),
        0 <= i < stream.len() && (i < 5 || i >= 13 || stream.len() < 13) ==> with_size(
            stream,
            size,
        )[i] == stream[i],
        stream.len() >= 13 ==> ({
            let s = with_size(stream, size);
            s[5] + 0x100 * s[6] + 0x1_0000 * s[7] + 0x100_0000 * s[8] + 0x1_0000_0000 * s[9]
                + 0x100_0000_0000 * s[10] + 0x1_0000_0000_0000 * s[11] + 0x100_0000_0000_0000
                * s[12] == size
        }),
{
    lemma_le64_value(size);
}

proof fn lemma_next_digit(v: int, unit: int)
    requires
        0 <= v,
        0 < unit,
    ensures
        v / unit == v / unit % 256 + 256 * (v / (unit * 256)),
{
    assert(v / (unit * 256) == v / unit / 256) by (nonlinear_arith)
        requires
            0 <= v,
            0 < unit,
    ;
}

proof fn lemma_le64_value(size: u64)
    ensures
        ({
            let s = le64(size);
            s[0] + 0x100 * s[1] + 0x1_0000 * s[2] + 0x100_0000 * s[3] + 0x1_0000_0000 * s[4]
                + 0x100_0000_0000 * s[5] + 0x1_0000_0000_0000 * s[6] + 0x100_0000_0000_0000 * s[7]
                == size
        }),
{
    let v = size as int;
    lemma_next_digit(v, 1);
    lemma_next_digit(v, 0x100);
    lemma_next_digit(v, 0x1_0000);
    lemma_next_digit(v, 0x100_0000);
    lemma_next_digit(v, 0x1_0000_0000);
    lemma_next_digit(v, 0x100_0000_0000);
    lemma_next_digit(v, 0x1_0000_0000_0000);
    assert(v / 0x100_0000_0000_0000 < 256);
}

/// The stream of a page declares, in its first 13 bytes, the properties, the dictionary
/// size (where that is a power of two) and the length of the data, each low byte first,
/// and is made at level 6 with a match length of 128.
pub proof fn law_stream_declares_its_data(stream: Seq<u8>, data: Seq<u8>, dict_size: u32)
    requires
        is_stream_of(stream, data, dict_size),
        data.len() <= u64::MAX,
    ensures
        stream[0] == 3 + 9 * 0 + 45 * 2,
        is_power_of_two(dict_size) ==> stream[1] + 0x100 * stream[2] + 0x1_0000 * stream[3]
            + 0x100_0000 * stream[4] == dict_size,
        stream[5] + 0x100 * stream[6] + 0x1_0000 * stream[7] + 0x100_0000 * stream[8]
            + 0x1_0000_0000 * stream[9] + 0x100_0000_0000 * stream[10] + 0x1_0000_0000_0000
            * stream[11] + 0x100_0000_0000_0000 * stream[12] == data.len(),
        forall|i: int|
            0 <= i < stream.len() && !(5 <= i < 13) ==> #[trigger] stream[i] == lzma_alone_encoded(
                data,
                6,
                dict_size,
                3,
                0,
                2,
                128,
            )[i],
        lzma_alone_decoded(with_size(stream, u64::MAX)) == Some(data),
{
    let e = lzma_alone_encoded(data, 6, dict_size, 3, 0, 2, 128);
    assert(stream == with_size(e, data.len() as u64));
    law_size_field_is_written_in_place(e, data.len() as u64, 0);
    assert forall|i: int| 0 <= i < stream.len() && !(5 <= i < 13) implies #[trigger] stream[i]
        == e[i] by {
        law_size_field_is_written_in_place(e, data.len() as u64, i);
    }
    lemma_le32_value(dict_size);
    let d = stream.subrange(1, 5);
    assert(d[0] == stream[1] && d[1] == stream[2] && d[2] == stream[3] && d[3] == stream[4]);
}

proof fn lemma_le32_value(size: u32)
    ensures
        ({
            let s = le32(size);
            s[0] + 0x100 * s[1] + 0x1_0000 * s[2] + 0x100_0000 * s[3] == size
        }),
{
    let v = size as int;
    lemma_next_digit(v, 1);
    lemma_next_digit(v, 0x100);
    lemma_next_digit(v, 0x1_0000);
    assert(v / 0x100_0000 < 256);
}

/// The two dictionary sizes: 8 KiB for the T50 and 2 MiB for the E-series.
pub proof fn law_dictionaries()
    ensures
        T50_DICT_SIZE == 8 * 1024,
        ESERIES_DICT_SIZE == 2 * 1024 * 1024,
        is_power_of_two(T50_DICT_SIZE),
        is_power_of_two(ESERIES_DICT_SIZE),
{
    lemma_dict_sizes();
}

/// The dictionary size as four bytes of the header.
pub proof fn lemma_dict_field(stream: Seq<u8>, data: Seq<u8>, dict_size: u32)
    requires
        is_stream_of(stream, data, dict_size),
        is_power_of_two(dict_size),
    ensures
        stream[1] + 0x100 * stream[2] + 0x1_0000 * stream[3] + 0x100_0000 * stream[4] == dict_size,
{
    lemma_le32_value(dict_size);
    let d = stream.subrange(1, 5);
    assert(d[0] == stream[1] && d[1] == stream[2] && d[2] == stream[3] && d[3] == stream[4]);
}

} // verus!
