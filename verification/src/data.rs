//! Bulk data: packets, transfer frames and E-series page frames.

use vstd::prelude::*;

use crate::cmd::{DATA_TYPE, MAGIC1, MAGIC2, MARKER_AA, PROTO_ID};
use crate::wire;
use crate::wire::{hi, lo, piece_count, sum16};

verus! {

/// First data-packet magic byte.
pub const DATA_MAGIC1: u8 = 0xAA;

/// Second data-packet magic byte.
pub const DATA_MAGIC2: u8 = 0xBB;

/// Stream bytes carried by one packet or frame.
pub const DATA_PAYLOAD_SIZE: usize = 500;

/// Declared payload length of a transfer frame.
const DATA_FRAME_PAYLOAD_LEN: u16 = 508;

/// What every chunk checksum covers: index, total and the zero-padded payload.
pub open spec fn chunk_body(chunk: Seq<u8>, idx: u8, total: u8) -> Seq<u8> {
    seq![idx, total] + wire::padded(chunk, 500)
}

/// A data packet: magic, checksum of the body, body.
pub open spec fn data_packet(chunk: Seq<u8>, idx: u8, total: u8) -> Seq<u8> {
    seq![DATA_MAGIC1, DATA_MAGIC2] + wire::checksum(chunk_body(chunk, idx, total)) + chunk_body(
        chunk,
        idx,
        total,
    )
}

/// The envelope of every 512-byte transfer frame.
pub open spec fn frame_envelope() -> Seq<u8> {
    seq![MAGIC1, MAGIC2, 0xFC, 0x01, PROTO_ID, DATA_TYPE]
}

/// An E-series page frame: envelope, marker, command, checksum of the body, body.
pub open spec fn eseries_frame(cmd: u8, chunk: Seq<u8>, idx: u8, total: u8) -> Seq<u8> {
    frame_envelope() + seq![MARKER_AA, cmd] + wire::checksum(chunk_body(chunk, idx, total))
        + chunk_body(chunk, idx, total)
}

/// The `i`-th 500-byte chunk of a stream (the last one may be shorter).
pub open spec fn chunk_at(stream: Seq<u8>, i: int) -> Seq<u8> {
    stream.subrange(
        i * 500,
        if (i + 1) * 500 <= stream.len() {
            (i + 1) * 500
        } else {
            stream.len() as int
        },
    )
}

/// The transfer frames of a compressed stream. Index and total are carried
/// modulo 256.
pub open spec fn data_frames(stream: Seq<u8>) -> Seq<Seq<u8>> {
    let n = wire::pieces(stream.len() as int, 500);
    Seq::new(
        n as nat,
        |i: int| frame_envelope() + data_packet(chunk_at(stream, i), (i % 256) as u8, (n % 256) as u8),
    )
}

/// The number of page frames an E-series stream takes: at least one.
pub open spec fn eseries_frame_count(len: int) -> int {
    if len == 0 {
        1
    } else {
        wire::pieces(len, 500)
    }
}

/// The page frames of an E-series stream. Index and total are carried modulo 256.
pub open spec fn eseries_frames(cmd: u8, stream: Seq<u8>) -> Seq<Seq<u8>> {
    let n = eseries_frame_count(stream.len() as int);
    Seq::new(n as nat, |i: int| eseries_frame(cmd, chunk_at(stream, i), (i % 256) as u8, (n % 256) as u8))
}

/// Build a 506-byte data packet (`AA BB` format).
pub fn make_data_packet(data_chunk: &[u8], pkt_idx: u8, pkt_total: u8) -> (pkt: [u8; 506])
    ensures
        pkt@ == data_packet(data_chunk@, pkt_idx, pkt_total),
{
    let mut pkt: [u8; 506] = [0u8; 506];
    pkt[0] = DATA_MAGIC1;
    pkt[1] = DATA_MAGIC2;
    pkt[4] = pkt_idx;
    pkt[5] = pkt_total;
    let mut i: usize = 0;
    while i < DATA_PAYLOAD_SIZE && i < data_chunk.len()
        invariant
            i <= 500,
            i <= data_chunk@.len(),
            pkt@[0] == DATA_MAGIC1,
            pkt@[1] == DATA_MAGIC2,
            pkt@[4] == pkt_idx,
            pkt@[5] == pkt_total,
            forall|k: int|
                6 <= k < 506 ==> #[trigger] pkt@[k] == if k - 6 < i {
                    data_chunk@[k - 6]
                } else {
                    0u8
                },
        decreases 500 - i,
    {
        pkt[6 + i] = data_chunk[i];
        i += 1;
    }
    let chk: u16 = sum16(pkt.as_slice(), 4);
    proof {
        assert(pkt@.skip(4) =~= chunk_body(data_chunk@, pkt_idx, pkt_total));
        wire::lemma_le16_mod(wire::byte_sum(pkt@.skip(4)) as int);
    }
    pkt[2] = lo(chk);
    pkt[3] = hi(chk);
    assert(pkt@ =~= data_packet(data_chunk@, pkt_idx, pkt_total));
    pkt
}

/// Wrap a 506-byte data packet in a 512-byte transfer frame.
pub fn wrap_data_frame(payload: &[u8; 506]) -> (frame: [u8; 512])
    ensures
        frame@ == frame_envelope() + payload@,
{
    let mut frame: [u8; 512] = [0u8; 512];
    frame[0] = MAGIC1;
    frame[1] = MAGIC2;
    frame[2] = lo(DATA_FRAME_PAYLOAD_LEN);
    frame[3] = hi(DATA_FRAME_PAYLOAD_LEN);
    frame[4] = PROTO_ID;
    frame[5] = DATA_TYPE;
    assert(frame@.take(6) =~= frame_envelope());
    let mut i: usize = 0;
    while i < 506
        invariant
            i <= 506,
            frame@.take(6) == frame_envelope(),
            forall|k: int| 6 <= k < 6 + i ==> #[trigger] frame@[k] == payload@[k - 6],
        decreases 506 - i,
    {
        let ghost before = frame@;
        frame[6 + i] = payload[i];
        assert(frame@.take(6) =~= before.take(6));
        i += 1;
    }
    assert(frame@ =~= frame@.take(6) + payload@);
    frame
}

/// Split a compressed stream into 512-byte transfer frames.
pub fn build_data_frames(compressed: &[u8]) -> (frames: Vec<[u8; 512]>)
    ensures
        frames@.len() == data_frames(compressed@).len(),
        forall|i: int|
            0 <= i < frames@.len() ==> (#[trigger] frames@[i])@ == data_frames(compressed@)[i],
{
    let num_packets: usize = piece_count(compressed.len(), DATA_PAYLOAD_SIZE);
    let pkt_total: u8 = (num_packets % 256) as u8;
    let mut frames: Vec<[u8; 512]> = Vec::new();
    let mut i: usize = 0;
    while i < num_packets
        invariant
            num_packets == wire::pieces(compressed@.len() as int, 500),
            pkt_total == (num_packets % 256) as u8,
            i <= num_packets,
            frames@.len() == i,
            forall|k: int|
                0 <= k < i ==> (#[trigger] frames@[k])@ == data_frames(compressed@)[k],
        decreases num_packets - i,
    {
        assert(i * 500 <= compressed.len());
        let offset: usize = i * DATA_PAYLOAD_SIZE;
        let end: usize = if compressed.len() - offset >= DATA_PAYLOAD_SIZE {
            offset + DATA_PAYLOAD_SIZE
        } else {
            compressed.len()
        };
        let chunk = vstd::slice::slice_subrange(compressed, offset, end);
        let pkt = make_data_packet(chunk, (i % 256) as u8, pkt_total);
        frames.push(wrap_data_frame(&pkt));
        i += 1;
    }
    frames
}

/// Build a single 512-byte E-series page frame (`0xD1` / `0xBB`).
pub fn make_eseries_bulk_frame(cmd: u8, payload: &[u8], idx: u8, total: u8) -> (frame: [u8; 512])
    ensures
        frame@ == eseries_frame(cmd, payload@, idx, total),
{
    let mut frame: [u8; 512] = [0u8; 512];
    frame[0] = MAGIC1;
    frame[1] = MAGIC2;
    frame[2] = lo(DATA_FRAME_PAYLOAD_LEN);
    frame[3] = hi(DATA_FRAME_PAYLOAD_LEN);
    frame[4] = PROTO_ID;
    frame[5] = DATA_TYPE;
    frame[6] = MARKER_AA;
    frame[7] = cmd;
    frame[10] = idx;
    frame[11] = total;
    let ghost head = frame_envelope() + seq![MARKER_AA, cmd];
    assert(frame@.take(8) =~= head);
    let mut i: usize = 0;
    while i < DATA_PAYLOAD_SIZE && i < payload.len()
        invariant
            i <= 500,
            i <= payload@.len(),
            head.len() == 8,
            frame@.take(8) == head,
            frame@[10] == idx,
            frame@[11] == total,
            forall|k: int|
                12 <= k < 512 ==> #[trigger] frame@[k] == if k - 12 < i {
                    payload@[k - 12]
                } else {
                    0u8
                },
        decreases 500 - i,
    {
        let ghost before = frame@;
        frame[12 + i] = payload[i];
        assert(frame@.take(8) =~= before.take(8));
        i += 1;
    }
    let chk: u16 = sum16(frame.as_slice(), 10);
    proof {
        assert(frame@.skip(10) =~= chunk_body(payload@, idx, total));
        wire::lemma_le16_mod(wire::byte_sum(frame@.skip(10)) as int);
    }
    let ghost before = frame@;
    frame[8] = lo(chk);
    frame[9] = hi(chk);
    assert(frame@.take(8) =~= before.take(8));
    assert(frame@ =~= frame@.take(8) + wire::checksum(chunk_body(payload@, idx, total))
        + chunk_body(payload@, idx, total));
    frame
}

/// Split an LZMA stream into the page frames of one E-series page command.
pub fn build_eseries_bulk_frames(cmd: u8, lzma: &[u8]) -> (frames: Vec<[u8; 512]>)
    ensures
        frames@.len() == eseries_frames(cmd, lzma@).len(),
        forall|i: int|
            0 <= i < frames@.len() ==> (#[trigger] frames@[i])@ == eseries_frames(cmd, lzma@)[i],
{
    let whole: usize = piece_count(lzma.len(), DATA_PAYLOAD_SIZE);
    let num: usize = if whole == 0 {
        1
    } else {
        whole
    };
    let total: u8 = (num % 256) as u8;
    let mut frames: Vec<[u8; 512]> = Vec::new();
    let mut i: usize = 0;
    while i < num
        invariant
            num == eseries_frame_count(lzma@.len() as int),
            total == (num % 256) as u8,
            i <= num,
            frames@.len() == i,
            forall|k: int|
                0 <= k < i ==> (#[trigger] frames@[k])@ == eseries_frames(cmd, lzma@)[k],
        decreases num - i,
    {
        assert(i * 500 <= lzma.len());
        let off: usize = i * DATA_PAYLOAD_SIZE;
        let end: usize = if lzma.len() - off >= DATA_PAYLOAD_SIZE {
            off + DATA_PAYLOAD_SIZE
        } else {
            lzma.len()
        };
        let chunk = vstd::slice::slice_subrange(lzma, off, end);
        frames.push(make_eseries_bulk_frame(cmd, chunk, (i % 256) as u8, total));
        i += 1;
    }
    frames
}

/// The receiver's view of a transfer frame: where its payload starts.
pub open spec fn payload_offset() -> int {
    12
}

/// The transfer frames carry the stream: byte `j` stands at offset `j % 500` in
/// the payload of frame `j / 500`, there is no frame without a stream byte, and
/// what follows the stream in the last frame is zero.
pub proof fn law_data_frames_carry_stream(stream: Seq<u8>)
    ensures
        500 * data_frames(stream).len() < stream.len() + 500,
        stream.len() <= 500 * data_frames(stream).len(),
        forall|i: int|
            0 <= i < data_frames(stream).len() ==> (#[trigger] data_frames(stream)[i]).len() == 512,
        forall|i: int, k: int|
            0 <= i < data_frames(stream).len() && 0 <= k < 500
                ==> #[trigger] data_frames(stream)[i][payload_offset() + k] == if i * 500 + k
                < stream.len() {
                stream[i * 500 + k]
            } else {
                0u8
            },
{
    assert forall|i: int| 0 <= i < data_frames(stream).len() implies (#[trigger] data_frames(
        stream,
    )[i]).len() == 512 by {}
    assert forall|i: int, k: int| 0 <= i < data_frames(stream).len() && 0 <= k < 500 implies #[trigger] data_frames(stream)[i][payload_offset() + k] == if i * 500 + k < stream.len() {
        stream[i * 500 + k]
    } else {
        0u8
    } by {
        let n = wire::pieces(stream.len() as int, 500);
        let body = chunk_body(chunk_at(stream, i), (i % 256) as u8, (n % 256) as u8);
        assert(data_frames(stream)[i][12 + k] == body[2 + k]);
    }
}

/// The E-series page frames carry the stream in the same way, except that an
/// empty stream still takes one (blank) frame.
pub proof fn law_eseries_frames_carry_stream(cmd: u8, stream: Seq<u8>)
    ensures
        eseries_frames(cmd, stream).len() >= 1,
        stream.len() > 0 ==> 500 * eseries_frames(cmd, stream).len() < stream.len() + 500,
        stream.len() <= 500 * eseries_frames(cmd, stream).len(),
        forall|i: int|
            0 <= i < eseries_frames(cmd, stream).len() ==> {
                &&& (#[trigger] eseries_frames(cmd, stream)[i]).len() == 512
                &&& eseries_frames(cmd, stream)[i][7] == cmd
            },
        forall|i: int, k: int|
            0 <= i < eseries_frames(cmd, stream).len() && 0 <= k < 500
                ==> #[trigger] eseries_frames(cmd, stream)[i][payload_offset() + k] == if i * 500
                + k < stream.len() {
                stream[i * 500 + k]
            } else {
                0u8
            },
{
    assert forall|i: int, k: int| 0 <= i < eseries_frames(cmd, stream).len() && 0 <= k < 500 implies #[trigger] eseries_frames(cmd, stream)[i][payload_offset() + k] == if i * 500 + k
        < stream.len() {
        stream[i * 500 + k]
    } else {
        0u8
    } by {
        let n = eseries_frame_count(stream.len() as int);
        let body = chunk_body(chunk_at(stream, i), (i % 256) as u8, (n % 256) as u8);
        assert(eseries_frames(cmd, stream)[i][12 + k] == body[2 + k]);
    }
}

/// Both frame formats pass the receiver's checksum test, and both declare the
/// number of bytes after their length field.
pub proof fn law_chunk_frames_check(cmd: u8, chunk: Seq<u8>, idx: u8, total: u8)
    ensures
        ({
            let t = frame_envelope() + data_packet(chunk, idx, total);
            let e = eseries_frame(cmd, chunk, idx, total);
            &&& wire::le16_value(t[8], t[9]) == wire::byte_sum(t.skip(10)) % 65536
            &&& wire::le16_value(e[8], e[9]) == wire::byte_sum(e.skip(10)) % 65536
            &&& wire::le16_value(t[2], t[3]) == t.len() - 4
            &&& wire::le16_value(e[2], e[3]) == e.len() - 4
            &&& t[10] == idx && e[10] == idx
            &&& t[11] == total && e[11] == total
        }),
{
    let body = chunk_body(chunk, idx, total);
    let t = frame_envelope() + data_packet(chunk, idx, total);
    let e = eseries_frame(cmd, chunk, idx, total);
    assert(t.skip(10) =~= body);
    assert(e.skip(10) =~= body);
    wire::lemma_le16_value(wire::byte_sum(body) as int);
}

/// The E-series page frame for command `0xBB` is the transfer frame of the same
/// chunk, byte for byte.
pub proof fn law_frame_formats_meet_at_bb(chunk: Seq<u8>, idx: u8, total: u8)
    ensures
        eseries_frame(DATA_MAGIC2, chunk, idx, total) == frame_envelope() + data_packet(
            chunk,
            idx,
            total,
        ),
{
    assert(eseries_frame(DATA_MAGIC2, chunk, idx, total) =~= frame_envelope() + data_packet(
        chunk,
        idx,
        total,
    ));
}

/// How a frame is laid out on the wire, for both formats: `7E 5A FC 01 10 02 AA`, the
/// command (0xBB for plain data), the checksum of all that follows it, the number of
/// the frame, the number of frames, and 500 bytes of the stream.
pub proof fn law_frames_are_laid_out_and_numbered(cmd: u8, stream: Seq<u8>, i: int)
    ensures
        0 <= i < data_frames(stream).len() ==> is_laid_out(
            data_frames(stream)[i],
            0xBB,
            i,
            data_frames(stream).len() as int,
        ),
        0 <= i < eseries_frames(cmd, stream).len() ==> is_laid_out(
            eseries_frames(cmd, stream)[i],
            cmd,
            i,
            eseries_frames(cmd, stream).len() as int,
        ),
        stream.len() > 0 ==> eseries_frames(cmd, stream).len() == data_frames(stream).len(),
{
    let n = wire::pieces(stream.len() as int, 500);
    law_data_frames_carry_stream(stream);
    law_eseries_frames_carry_stream(cmd, stream);
    if 0 <= i < data_frames(stream).len() {
        law_chunk_frames_check(cmd, chunk_at(stream, i), (i % 256) as u8, (n % 256) as u8);
    }
    if 0 <= i < eseries_frames(cmd, stream).len() {
        let e = eseries_frame_count(stream.len() as int);
        law_chunk_frames_check(cmd, chunk_at(stream, i), (i % 256) as u8, (e % 256) as u8);
    }
}

/// `f` is frame `i` of `n`, for this command, with a valid checksum.
pub open spec fn is_laid_out(f: Seq<u8>, cmd: u8, i: int, n: int) -> bool {
    &&& f.len() == 512
    &&& f[0] == 0x7E && f[1] == 0x5A
    &&& f[2] == 0xFC && f[3] == 0x01
    &&& f[4] == 0x10 && f[5] == 0x02 && f[6] == 0xAA
    &&& f[7] == cmd
    &&& f[8] + 256 * f[9] == wire::byte_sum(f.skip(10)) % 65536
    &&& f[10] == i % 256
    &&& f[11] == n % 256
}

/// Frame `i` holds the stream from byte `500 * i` on, at its offset 12, and zeros
/// where the stream has ended; together the frames hold the whole stream, and no
/// frame is sent in vain.
pub proof fn law_frames_hold_500_bytes_each(cmd: u8, stream: Seq<u8>, j: int)
    ensures
        500 * data_frames(stream).len() < stream.len() + 500,
        0 <= j < 500 * data_frames(stream).len() ==> data_frames(stream)[j / 500][12 + j % 500]
            == if j < stream.len() {
            stream[j]
        } else {
            0u8
        },
        0 <= j < stream.len() ==> j / 500 < data_frames(stream).len(),
        0 <= j < 500 * eseries_frames(cmd, stream).len() ==> eseries_frames(cmd, stream)[j
            / 500][12 + j % 500] == if j < stream.len() {
            stream[j]
        } else {
            0u8
        },
        0 <= j < stream.len() ==> j / 500 < eseries_frames(cmd, stream).len(),
{
    law_data_frames_carry_stream(stream);
    law_eseries_frames_carry_stream(cmd, stream);
    let i = j / 500;
    let k = j % 500;
    assert(i * 500 + k == j);
    if 0 <= j < 500 * data_frames(stream).len() {
        assert(data_frames(stream)[i][payload_offset() + k] == data_frames(stream)[i][12 + k]);
    }
    if 0 <= j < 500 * eseries_frames(cmd, stream).len() {
        assert(eseries_frames(cmd, stream)[i][payload_offset() + k] == eseries_frames(
            cmd,
            stream,
        )[i][12 + k]);
    }
}

} // verus!
