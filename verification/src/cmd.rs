//! Command frames (`7E 5A` format).

use vstd::prelude::*;

use crate::wire;
use crate::wire::{append, hi, lo, sum16};

verus! {

/// First frame magic byte.
pub const MAGIC1: u8 = 0x7E;

/// Second frame magic byte.
pub const MAGIC2: u8 = 0x5A;

/// Protocol identifier.
pub const PROTO_ID: u8 = 0x10;

/// Protocol version carried by command frames.
pub const PROTO_VER: u8 = 0x01;

/// Marker in front of the command byte.
pub const MARKER_AA: u8 = 0xAA;

/// Frame type carried by data-transfer frames.
pub const DATA_TYPE: u8 = 0x02;

/// End of a transfer: the buffer is complete.
pub const CMD_BUF_FULL: u8 = 0x10;

/// Status query.
pub const CMD_INQUIRY_STA: u8 = 0x11;

/// Presence check.
pub const CMD_CHECK_DEVICE: u8 = 0x12;

/// Start of a print job.
pub const CMD_START_PRINT: u8 = 0x13;

/// Abort of a print job.
pub const CMD_STOP_PRINT: u8 = 0x14;

/// Device-name query.
pub const CMD_RD_DEV_NAME: u8 = 0x16;

/// Protocol-version query.
pub const CMD_READ_REV: u8 = 0x17;

/// Query of the loaded material's resolution.
pub const CMD_RD_LAB_DPI: u8 = 0x22;

/// Feed of one blank label.
pub const CMD_PAPER_SKIP: u8 = 0x2E;

/// Material query.
pub const CMD_RETURN_MAT: u8 = 0x30;

/// Announcement of a compressed bulk transfer.
pub const CMD_NEXT_ZIPPEDBULK: u8 = 0x5C;

/// Firmware-version query.
pub const CMD_READ_FWVER: u8 = 0xC5;

/// Declared payload length of a standard command frame.
pub const CMD_PAYLOAD_LEN: u8 = 0x0C;

/// A command frame: the envelope with its declared length, the command byte and
/// the checksum of the body, followed by the body `00 01 <params>`.
pub open spec fn command_frame(cmd: u8, params: Seq<u8>) -> Seq<u8> {
    let body = seq![0x00u8, 0x01u8] + params;
    seq![MAGIC1, MAGIC2] + wire::le16(params.len() as int + 8) + seq![
        PROTO_ID,
        PROTO_VER,
        MARKER_AA,
        cmd,
    ] + wire::checksum(body) + body
}

/// The parameter block of a standard command: two little-endian words.
pub open spec fn two_words(first: u16, second: u16) -> Seq<u8> {
    wire::le16(first as int) + wire::le16(second as int)
}

/// Build a standard 16-byte command frame with one parameter word.
pub fn make_cmd(cmd: u8, param: u16) -> (pkt: [u8; 16])
    ensures
        pkt@ == command_frame(cmd, two_words(param, 0)),
{
    make_cmd_start_trans(cmd, param, 0)
}

/// Build a 16-byte start-transfer command: a standard command frame whose two
/// parameter words are `block_size` and `block_count`.
pub fn make_cmd_start_trans(cmd: u8, block_size: u16, block_count: u16) -> (pkt: [u8; 16])
    ensures
        pkt@ == command_frame(cmd, two_words(block_size, block_count)),
{
    let mut pkt: [u8; 16] = [0u8; 16];
    pkt[0] = MAGIC1;
    pkt[1] = MAGIC2;
    pkt[2] = CMD_PAYLOAD_LEN;
    pkt[4] = PROTO_ID;
    pkt[5] = PROTO_VER;
    pkt[6] = MARKER_AA;
    pkt[7] = cmd;
    pkt[11] = 0x01;
    pkt[12] = lo(block_size);
    pkt[13] = hi(block_size);
    pkt[14] = lo(block_count);
    pkt[15] = hi(block_count);
    let chk: u16 = sum16(pkt.as_slice(), 10);
    proof {
        assert(pkt@.skip(10) =~= seq![0x00u8, 0x01u8] + two_words(block_size, block_count));
        wire::lemma_byte_sum_bound(pkt@.skip(10));
    }
    pkt[8] = lo(chk);
    pkt[9] = hi(chk);
    assert(pkt@ =~= command_frame(cmd, two_words(block_size, block_count)));
    pkt
}

/// Declared payload length of a command frame with this parameter block.
fn declared_len(params: &[u8]) -> (plen: u16)
    ensures
        wire::le16(plen as int) == wire::le16(params@.len() as int + 8),
{
    proof {
        wire::lemma_le16_mod(params.len() + 8);
    }
    ((params.len() % 65536 + 8) % 65536) as u16
}

/// Build a command frame whose parameter block has any length.
pub fn make_cmd_ext(cmd: u8, params: &[u8]) -> (pkt: Vec<u8>)
    ensures
        pkt@ == command_frame(cmd, params@),
{
    let plen: u16 = declared_len(params);
    let mut body: Vec<u8> = vec![0x00, 0x01];
    append(&mut body, params);
    let chk: u16 = sum16(body.as_slice(), 0);
    proof {
        assert(body@ =~= seq![0x00u8, 0x01u8] + params@);
        assert(body@.skip(0) =~= body@);
        wire::lemma_le16_mod(wire::byte_sum(body@) as int);
    }
    let mut pkt: Vec<u8> = vec![
        MAGIC1,
        MAGIC2,
        lo(plen),
        hi(plen),
        PROTO_ID,
        PROTO_VER,
        MARKER_AA,
        cmd,
        lo(chk),
        hi(chk),
    ];
    assert(pkt@ =~= seq![MAGIC1, MAGIC2] + wire::le16(params@.len() as int + 8) + seq![
        PROTO_ID,
        PROTO_VER,
        MARKER_AA,
        cmd,
    ] + wire::checksum(body@));
    append(&mut pkt, body.as_slice());
    pkt
}

/// A command frame can be read back: its declared length counts the bytes after
/// the length field, its checksum field holds the sum of the bytes after it, and
/// the command byte and the parameter block stand where the receiver looks.
pub proof fn law_command_frame_reads_back(cmd: u8, params: Seq<u8>)
    ensures
        ({
            let f = command_frame(cmd, params);
            &&& f.len() == params.len() + 12
            &&& f[7] == cmd
            &&& f.skip(12) == params
            &&& wire::le16_value(f[2], f[3]) == (f.len() - 4) % 65536
            &&& wire::le16_value(f[8], f[9]) == wire::byte_sum(f.skip(10)) % 65536
        }),
{
    let f = command_frame(cmd, params);
    let body = seq![0x00u8, 0x01u8] + params;
    assert(f.skip(10) =~= body);
    assert(f.skip(12) =~= params);
    wire::lemma_le16_value(params.len() as int + 8);
    wire::lemma_le16_value(wire::byte_sum(body) as int);
}

/// A standard command frame is 16 bytes long and declares 12.
pub proof fn law_standard_frame_is_sixteen_bytes(cmd: u8, first: u16, second: u16)
    ensures
        command_frame(cmd, two_words(first, second)).len() == 16,
        command_frame(cmd, two_words(first, second))[2] == CMD_PAYLOAD_LEN,
        command_frame(cmd, two_words(first, second))[3] == 0,
{
}

/// Every command frame starts alike: `7E 5A`, then behind the length `10 01 AA` and the
/// command, and behind the checksum `00 01`; the parameters follow as they are.
pub proof fn law_command_frame_layout(cmd: u8, params: Seq<u8>)
    ensures
        ({
            let f = command_frame(cmd, params);
            &&& f[0] == 0x7E && f[1] == 0x5A
            &&& f[2] + 256 * f[3] == (params.len() + 8) % 65536
            &&& f[4] == 0x10 && f[5] == 0x01 && f[6] == 0xAA && f[7] == cmd
            &&& f[8] + 256 * f[9] == (1 + wire::byte_sum(params)) % 65536
            &&& f[10] == 0x00 && f[11] == 0x01
            &&& f.skip(12) == params
        }),
{
    let head = seq![0x00u8, 0x01u8];
    let body = head + params;
    let f = command_frame(cmd, params);
    assert(wire::byte_sum(body) == 1 + wire::byte_sum(params)) by {
        wire::law_byte_sum_adds_up(head, params, 0);
        wire::law_byte_sum_adds_up(seq![0x00u8], seq![0x01u8], 0);
        wire::law_byte_sum_adds_up(seq![0x00u8], seq![0x01u8], 1);
        assert(head =~= seq![0x00u8] + seq![0x01u8]);
    }
    let size = wire::le16(params.len() as int + 8);
    let sum = wire::checksum(body);
    wire::lemma_le16_value(params.len() as int + 8);
    wire::lemma_le16_value(wire::byte_sum(body) as int);
    assert(f[2] == size[0] && f[3] == size[1]);
    assert(f[8] == sum[0] && f[9] == sum[1]);
    assert(f.skip(12) =~= params);
}

/// Two parameters stand behind the first twelve bytes of a frame, each low byte first.
pub proof fn law_two_parameters_lie_in_place(cmd: u8, first: u16, second: u16)
    ensures
        ({
            let f = command_frame(cmd, two_words(first, second));
            &&& f.len() == 16
            &&& f[12] + 256 * f[13] == first
            &&& f[14] + 256 * f[15] == second
        }),
{
    let words = two_words(first, second);
    let f = command_frame(cmd, words);
    law_command_frame_reads_back(cmd, words);
    wire::lemma_le16_value(first as int);
    wire::lemma_le16_value(second as int);
    assert(f[12] == words[0] && f[13] == words[1] && f[14] == words[2] && f[15] == words[3]);
}

/// The commands, byte by byte; no two share a byte.
pub proof fn law_commands_are_told_apart()
    ensures
        ({
            let all = seq![
                CMD_BUF_FULL,
                CMD_INQUIRY_STA,
                CMD_CHECK_DEVICE,
                CMD_START_PRINT,
                CMD_STOP_PRINT,
                CMD_RD_DEV_NAME,
                CMD_READ_REV,
                CMD_RD_LAB_DPI,
                CMD_PAPER_SKIP,
                CMD_RETURN_MAT,
                CMD_NEXT_ZIPPEDBULK,
                CMD_READ_FWVER,
            ];
            &&& all == seq![
                0x10u8,
                0x11,
                0x12,
                0x13,
                0x14,
                0x16,
                0x17,
                0x22,
                0x2E,
                0x30,
                0x5C,
                0xC5,
            ]
            &&& all.no_duplicates()
        }),
{
}

} // verus!
