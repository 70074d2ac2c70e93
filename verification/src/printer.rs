//! What the printer is sent: single commands, the scripts of the print flows, and
//! the pages of test and calibration prints.

use vstd::prelude::*;

use crate::buffer;
use crate::buffer::{
    split_into_buffers, split_into_buffers_e, BufferModel, ESeriesBufOpts, PRINT_BUF_SIZE,
};
use crate::cmd;
use crate::cmd::{
    make_cmd_ext, CMD_BUF_FULL, CMD_CHECK_DEVICE, CMD_INQUIRY_STA, CMD_NEXT_ZIPPEDBULK,
    CMD_PAPER_SKIP, CMD_RD_DEV_NAME, CMD_RD_LAB_DPI, CMD_READ_FWVER, CMD_READ_REV, CMD_RETURN_MAT,
    CMD_START_PRINT, CMD_STOP_PRINT,
};
use crate::compress;
use crate::compress::{compress_buffers, compress_page_e, ESERIES_DICT_SIZE, T50_DICT_SIZE};
use crate::data;
use crate::data::DATA_PAYLOAD_SIZE;
use crate::date;
use crate::date::current_date_yyyymmdd;
use crate::error::{Error, ErrorModel};
use crate::flow;
use crate::flow::{Event, Op, OpModel, Wait, WaitKind, WaitStep};
use crate::raster;
use crate::raster::calibration_raster;
use crate::status;
use crate::status::MaterialInfo;
use crate::text;
use crate::text::{digit_bytes, starts_with};
use crate::wire;
use crate::wire::{append, hi, lo, piece_count};

verus! {

/// Job setup of the E-series.
pub const CMD_ESERIES_SETUP: u8 = 0xD0;

/// Bulk frames of the first E-series page.
pub const CMD_ESERIES_FIRST_PAGE: u8 = 0xD1;

/// Bulk frames of the later E-series pages.
pub const CMD_ESERIES_NEXT_PAGE: u8 = 0xBB;

/// Date of the E-series job.
pub const CMD_ESERIES_DATE: u8 = 0xB0;

/// Fixed command before the E-series starts to print.
pub const CMD_ESERIES_BEFORE_START: u8 = 0xC9;

/// Parameter of [`CMD_ESERIES_BEFORE_START`].
pub const BEFORE_START_PARAM: u16 = 0x006e;

/// Fixed command after the E-series started to print.
pub const CMD_ESERIES_AFTER_START: u8 = 0xBA;

/// Parameter of [`CMD_ESERIES_AFTER_START`].
pub const AFTER_START_PARAM: u16 = 0x0019;

/// Block size announced before each later E-series page.
pub const BULK_BLOCK_SIZE: u16 = 512;

/// Pause behind the last data frame of a job.
pub const TRANSFER_PAUSE_MS: u64 = 20;

/// Margin of a test print, in dots.
pub const TEST_MARGIN_DOTS: u16 = 8;

/// Distance from the printhead to the cutter, in dots: what a print feeds before
/// its first column, and so a part of every leading margin.
pub const HEAD_CUTTER_GAP_DOTS: u32 = 24;

/// The printer behind a transport.
pub struct Printer<T> {
    /// How the printer is reached.
    pub transport: T,
}

/// A command with one parameter.
#[derive(Debug, Clone, Copy, PartialEq, Eq, Structural)]
pub struct Command {
    /// Command byte.
    pub cmd: u8,
    /// Parameter.
    pub param: u16,
}

/// How a target is reached.
#[derive(Debug, Clone, Copy, PartialEq, Eq, Structural)]
pub enum Target {
    /// A hidraw device.
    Usb,
    /// A Bluetooth address.
    Bluetooth,
}

/// How to reach a target: a hidraw path is a USB device, anything else a
/// Bluetooth address.
pub fn open_target(target: &str) -> (t: Target)
    ensures
        t == if "/dev/hidraw"@.is_prefix_of(target@) {
            Target::Usb
        } else {
            Target::Bluetooth
        },
{
    if starts_with(target, "/dev/hidraw") {
        Target::Usb
    } else {
        Target::Bluetooth
    }
}

/// Whether an answer counts: it is there (else `None`) and echoes the command.
pub fn echoes(answer: Option<bool>) -> (b: bool)
    ensures
        b == (answer == Some(true)),
{
    match answer {
        Some(valid) => valid,
        None => false,
    }
}

/// What the answer to a blank-label feed means: without an echo it failed.
pub fn paper_skip_reply(answer: Option<bool>) -> (r: Result<(), Error>)
    ensures
        match r {
            Ok(()) => answer == Some(true),
            Err(e) => answer != Some(true) && e@ == ErrorModel::InvalidResponse(
                "PAPER_SKIP: no ack"@,
            ),
        },
{
    if echoes(answer) {
        Ok(())
    } else {
        Err(Error::InvalidResponse("PAPER_SKIP: no ack".to_owned()))
    }
}

/// The size of a test print in millimetres: the label's width as far as the head
/// reaches, and its height, or a default one where none is reported.
pub fn test_label_size(mat: &MaterialInfo, head_mm: u32, default_height_mm: u8) -> (size: (
    u32,
    u32,
))
    ensures
        size.0 == if mat.width_mm < head_mm {
            mat.width_mm as u32
        } else {
            head_mm
        },
        size.1 == if mat.height_mm == 0 {
            default_height_mm
        } else {
            mat.height_mm
        },
{
    let label: u32 = mat.width_mm as u32;
    let width: u32 = if label < head_mm {
        label
    } else {
        head_mm
    };
    let height: u8 = if mat.height_mm == 0 {
        default_height_mm
    } else {
        mat.height_mm
    };
    (width, height as u32)
}

/// Steps that every print starts with.
pub open spec fn preamble() -> Seq<OpModel> {
    seq![OpModel::CheckDevice, OpModel::Await(WaitKind::Ready)]
}

/// The transfer of a compressed T50 page.
pub open spec fn transfer_script(stream: Seq<u8>, speed: u16) -> Seq<OpModel> {
    let len = (stream.len() % 65536) as u16;
    seq![
        OpModel::BulkHeader(len, wire::pieces(stream.len() as int, 500)),
        OpModel::BulkData(stream),
        OpModel::Pause(TRANSFER_PAUSE_MS),
        OpModel::CmdTwo(CMD_BUF_FULL, len, speed),
    ]
}

/// The print of a compressed T50 page.
pub open spec fn compressed_script(stream: Seq<u8>, speed: u16, start_param: u16) -> Seq<OpModel> {
    preamble() + seq![
        OpModel::Cmd(CMD_START_PRINT, start_param),
        OpModel::Await(WaitKind::Printing),
        OpModel::Await(WaitKind::Buffer),
    ] + transfer_script(stream, speed) + seq![OpModel::Await(WaitKind::Completion)]
}

/// Parameters of the E-series job setup.
pub open spec fn setup_params(total_feed_cols: u16) -> Seq<u8> {
    seq![0x02u8, 0x00, 0x00, 0x02, 0x00, 0x00] + wire::le16(total_feed_cols as int) + seq![
        0x03u8,
        0x00,
        0x00,
        0x00,
        0x00,
    ]
}

/// Parameters of the E-series job date.
pub open spec fn date_params(date: Seq<char>) -> Seq<u8> {
    text::ascii(date) + wire::zeros(6)
}

/// Number of bulk frames announced for a stream.
pub open spec fn announced_frames(stream: Seq<u8>) -> u16 {
    let n = wire::pieces(stream.len() as int, 500);
    ((if n < 1 {
        1
    } else {
        n
    }) % 65536) as u16
}

/// Announcement and transfer of each of some E-series pages.
pub open spec fn later_pages(streams: Seq<Seq<u8>>) -> Seq<OpModel>
    decreases streams.len(),
{
    if streams.len() == 0 {
        Seq::empty()
    } else {
        later_pages(streams.drop_last()) + seq![
            OpModel::CmdTwo(
                CMD_NEXT_ZIPPEDBULK,
                BULK_BLOCK_SIZE,
                announced_frames(streams.last()),
            ),
            OpModel::Await(WaitKind::Buffer),
            OpModel::ESeriesBulk(CMD_ESERIES_NEXT_PAGE, streams.last()),
        ]
    }
}

/// The pages that are sent after the start of the print: all but the first; of a
/// single page that page once more.
pub open spec fn resent(streams: Seq<Seq<u8>>) -> Seq<Seq<u8>> {
    if streams.len() == 1 {
        streams
    } else {
        streams.skip(1)
    }
}

/// Setup, first page and start of an E-series print.
pub open spec fn body_head(first: Seq<u8>, total_feed_cols: u16) -> Seq<OpModel> {
    seq![
        OpModel::Frame(cmd::command_frame(CMD_ESERIES_SETUP, setup_params(total_feed_cols))),
        OpModel::ESeriesBulk(CMD_ESERIES_FIRST_PAGE, first),
        OpModel::DateFrame,
        OpModel::Cmd(CMD_ESERIES_BEFORE_START, BEFORE_START_PARAM),
        OpModel::Cmd(CMD_START_PRINT, 0),
        OpModel::Await(WaitKind::Printing),
        OpModel::Cmd(CMD_ESERIES_AFTER_START, AFTER_START_PARAM),
    ]
}

/// End of an E-series print.
pub open spec fn body_tail() -> Seq<OpModel> {
    seq![
        OpModel::Pause(TRANSFER_PAUSE_MS),
        OpModel::CmdTwo(CMD_BUF_FULL, 0, 0),
        OpModel::Await(WaitKind::Completion),
    ]
}

/// The print of compressed E-series pages, once the device is ready.
pub open spec fn eseries_body(streams: Seq<Seq<u8>>, total_feed_cols: u16) -> Seq<OpModel> {
    body_head(streams[0], total_feed_cols) + later_pages(resent(streams)) + body_tail()
}

/// The whole print of compressed E-series pages.
pub open spec fn eseries_script(streams: Seq<Seq<u8>>, total_feed_cols: u16) -> Seq<OpModel> {
    preamble() + eseries_body(streams, total_feed_cols)
}

/// The contents of some streams.
pub open spec fn contents(streams: Seq<Vec<u8>>) -> Seq<Seq<u8>> {
    Seq::new(streams.len(), |i: int| streams[i]@)
}

/// The bytes of each of some pages.
pub open spec fn page_contents(pages: Seq<Vec<[u8; PRINT_BUF_SIZE]>>) -> Seq<Seq<u8>> {
    Seq::new(pages.len(), |i: int| compress::concat_buffers(pages[i]@))
}

/// The streams of some E-series pages.
pub open spec fn page_streams(pages: Seq<Seq<u8>>) -> Seq<Seq<u8>> {
    Seq::new(pages.len(), |i: int| compress::page_stream(pages[i], ESERIES_DICT_SIZE))
}

/// Compressing the pages in order stops at page `k` with `e`: an empty page cannot
/// be compressed, and the codec can run out of memory on any other.
pub open spec fn compression_stops(pages: Seq<Seq<u8>>, k: int, e: ErrorModel) -> bool {
    &&& 0 <= k < pages.len()
    &&& forall|j: int| 0 <= j < k ==> (#[trigger] pages[j]).len() > 0
    &&& if pages[k].len() == 0 {
        e == ErrorModel::InvalidParam("no buffers to compress"@)
    } else {
        compress::is_memory_error(e)
    }
}

/// `script` prints these E-series pages: it is the whole print if they can be
/// compressed, and else gives up once the device is ready.
pub open spec fn prints_eseries(
    script: Seq<OpModel>,
    pages: Seq<Seq<u8>>,
    total_feed_cols: u16,
) -> bool {
    ||| {
        &&& forall|i: int| 0 <= i < pages.len() ==> (#[trigger] pages[i]).len() > 0
        &&& forall|i: int|
            0 <= i < pages.len() ==> compress::is_stream_of(
                #[trigger] page_streams(pages)[i],
                pages[i],
                ESERIES_DICT_SIZE,
            )
        &&& script == eseries_script(page_streams(pages), total_feed_cols)
    }
    ||| exists|k: int, e: ErrorModel| #[trigger]
        compression_stops(pages, k, e) && script == preamble() + seq![OpModel::Abort(e)]
}

/// Compress E-series pages in order, up to the first that fails.
fn compress_pages(pages: &[Vec<[u8; PRINT_BUF_SIZE]>]) -> (r: Result<Vec<Vec<u8>>, Error>)
    ensures
        match r {
            Ok(streams) => {
                &&& contents(streams@) == page_streams(page_contents(pages@))
                &&& forall|i: int|
                    0 <= i < pages@.len() ==> compress::is_stream_of(
                        #[trigger] page_streams(page_contents(pages@))[i],
                        page_contents(pages@)[i],
                        ESERIES_DICT_SIZE,
                    )
                &&& forall|i: int|
                    0 <= i < pages@.len() ==> (#[trigger] page_contents(pages@)[i]).len() > 0
            },
            Err(e) => exists|k: int| compression_stops(page_contents(pages@), k, e@),
        },
{
    let mut streams: Vec<Vec<u8>> = Vec::new();
    let ghost bytes = page_contents(pages@);
    let mut i: usize = 0;
    while i < pages.len()
        invariant
            bytes == page_contents(pages@),
            i <= pages@.len(),
            streams@.len() == i,
            forall|j: int| 0 <= j < i ==> (#[trigger] bytes[j]).len() > 0,
            forall|j: int|
                0 <= j < i ==> compress::is_stream_of(
                    (#[trigger] streams@[j])@,
                    bytes[j],
                    ESERIES_DICT_SIZE,
                ),
        decreases pages@.len() - i,
    {
        proof {
            compress::law_joined_buffers_stay_aligned(pages@[i as int]@);
        }
        match compress_page_e(pages[i].as_slice()) {
            Ok(s) => {
                streams.push(s);
            },
            Err(e) => {
                assert(compression_stops(bytes, i as int, e@));
                return Err(e);
            },
        }
        i += 1;
    }
    assert(contents(streams@) =~= page_streams(bytes));
    assert forall|j: int| 0 <= j < bytes.len() implies compress::is_stream_of(
        #[trigger] page_streams(bytes)[j],
        bytes[j],
        ESERIES_DICT_SIZE,
    ) by {
        assert(contents(streams@)[j] == streams@[j]@);
    }
    Ok(streams)
}

/// A copy of some bytes.
fn copied(bytes: &[u8]) -> (v: Vec<u8>)
    ensures
        v@ == bytes@,
{
    vstd::slice::slice_to_vec(bytes)
}

/// `frame` is the E-series job date of the moment `secs` seconds of local time after
/// the start of 1970.
pub open spec fn is_date_frame(frame: Seq<u8>, secs: u64) -> bool {
    exists|day: Seq<char>| #[trigger]
        date::is_date_text(day, secs as int / 86_400) && frame == cmd::command_frame(
            CMD_ESERIES_DATE,
            date_params(day),
        )
}

/// The frame of [`Op::DateFrame`], sent `secs` seconds of local time after the start
/// of 1970.
pub fn date_frame(secs: u64) -> (frame: Vec<u8>)
    ensures
        is_date_frame(frame@, secs),
{
    let day = current_date_yyyymmdd(secs);
    proof {
        let (y, m, d) = choose|y: nat, m: nat, d: nat|
            {
                &&& date::is_date(y as int, m as int, d as int)
                &&& date::day_number(y as int, m as int, d as int) == secs as int / 86_400
                &&& day@ == #[trigger] date::date_text(y, m, d)
            };
        date::law_date_text_is_digits(day@, y, m, d);
    }
    let mut params: Vec<u8> = digit_bytes(day.as_str());
    let zeros: [u8; 6] = [0, 0, 0, 0, 0, 0];
    append(&mut params, zeros.as_slice());
    assert(params@ =~= date_params(day@));
    make_cmd_ext(CMD_ESERIES_DATE, params.as_slice())
}

/// Add the announcement and transfer of a later E-series page to a script.
fn push_later_page(ops: &mut Vec<Op>, stream: &[u8])
    ensures
        flow::script_of(final(ops)@) == flow::script_of(old(ops)@) + later_pages(
            seq![stream@],
        ),
{
    let pieces: usize = piece_count(stream.len(), DATA_PAYLOAD_SIZE);
    let frames: usize = if pieces < 1 {
        1
    } else {
        pieces
    };
    ops.push(
        Op::CmdTwo {
            cmd: CMD_NEXT_ZIPPEDBULK,
            first: BULK_BLOCK_SIZE,
            second: (frames % 65536) as u16,
        },
    );
    ops.push(Op::Await(WaitKind::Buffer));
    ops.push(Op::ESeriesBulk { cmd: CMD_ESERIES_NEXT_PAGE, stream: copied(stream) });
    proof {
        let one = seq![stream@];
        assert(one.drop_last() =~= Seq::empty());
        assert(later_pages(one.drop_last()) =~= Seq::empty());
        assert(flow::script_of(ops@) =~= flow::script_of(old(ops)@) + later_pages(one));
    }
}

/// The steps of an E-series print once the device is ready, for streams that are
/// there already.
pub fn eseries_ops(streams: &Vec<Vec<u8>>, total_feed_cols: u16) -> (ops: Vec<Op>)
    requires
        streams@.len() > 0,
    ensures
        flow::script_of(ops@) == eseries_body(contents(streams@), total_feed_cols),
{
    let setup: [u8; 13] = [
        0x02,
        0x00,
        0x00,
        0x02,
        0x00,
        0x00,
        lo(total_feed_cols),
        hi(total_feed_cols),
        0x03,
        0x00,
        0x00,
        0x00,
        0x00,
    ];
    assert(setup@ =~= setup_params(total_feed_cols));
    let mut ops: Vec<Op> = Vec::new();
    ops.push(Op::Frame(make_cmd_ext(CMD_ESERIES_SETUP, setup.as_slice())));
    ops.push(
        Op::ESeriesBulk { cmd: CMD_ESERIES_FIRST_PAGE, stream: copied(streams[0].as_slice()) },
    );
    ops.push(Op::DateFrame);
    ops.push(Op::Cmd { cmd: CMD_ESERIES_BEFORE_START, param: BEFORE_START_PARAM });
    ops.push(Op::Cmd { cmd: CMD_START_PRINT, param: 0 });
    ops.push(Op::Await(WaitKind::Printing));
    ops.push(Op::Cmd { cmd: CMD_ESERIES_AFTER_START, param: AFTER_START_PARAM });
    let ghost all = contents(streams@);
    let ghost head = flow::script_of(ops@);
    assert(head =~= body_head(all[0], total_feed_cols));
    let first: usize = if streams.len() == 1 {
        0
    } else {
        1
    };
    assert(resent(all) =~= all.skip(first as int));
    let mut i: usize = first;
    assert(all.subrange(first as int, i as int) =~= Seq::empty());
    assert(flow::script_of(ops@) =~= head + later_pages(
        all.subrange(first as int, i as int),
    ));
    while i < streams.len()
        invariant
            first <= i <= streams@.len(),
            all == contents(streams@),
            flow::script_of(ops@) == head + later_pages(all.subrange(first as int, i as int)),
        decreases streams@.len() - i,
    {
        let ghost before = flow::script_of(ops@);
        push_later_page(&mut ops, streams[i].as_slice());
        proof {
            let next = all.subrange(first as int, i + 1);
            assert(next.drop_last() =~= all.subrange(first as int, i as int));
            let one = seq![streams@[i as int]@];
            assert(one.drop_last() =~= Seq::empty());
            assert(later_pages(one.drop_last()) =~= Seq::empty());
            assert(flow::script_of(ops@) =~= head + later_pages(next));
        }
        i += 1;
    }
    assert(all.subrange(first as int, i as int) =~= resent(all));
    ops.push(Op::Pause(TRANSFER_PAUSE_MS));
    ops.push(Op::CmdTwo { cmd: CMD_BUF_FULL, first: 0, second: 0 });
    ops.push(Op::Await(WaitKind::Completion));
    assert(flow::script_of(ops@) =~= head + later_pages(resent(all)) + body_tail());
    ops
}

/// Turn what compression returned for the pages of an E-series job into the steps of
/// the job: the whole print, or, where a page could not be compressed, giving up once
/// the device is ready.
pub fn eseries_plan(compressed: Result<Vec<Vec<u8>>, Error>, total_feed_cols: u16) -> (ops: Vec<
    Op,
>)
    requires
        compressed matches Ok(streams) ==> streams@.len() > 0,
    ensures
        match compressed {
            Ok(streams) => flow::script_of(ops@) == eseries_script(
                contents(streams@),
                total_feed_cols,
            ),
            Err(e) => flow::script_of(ops@) == preamble() + seq![OpModel::Abort(e@)],
        },
{
    let mut ops: Vec<Op> = Vec::new();
    ops.push(Op::CheckDevice);
    ops.push(Op::Await(WaitKind::Ready));
    let ghost head = flow::script_of(ops@);
    assert(head =~= preamble());
    match compressed {
        Ok(streams) => {
            let mut body = eseries_ops(&streams, total_feed_cols);
            let ghost moved = body@;
            ops.append(&mut body);
            assert(flow::script_of(ops@) =~= head + flow::script_of(moved));
        },
        Err(e) => {
            let ghost fault = e@;
            ops.push(Op::Abort(e));
            assert(flow::script_of(ops@) =~= preamble() + seq![OpModel::Abort(fault)]);
        },
    }
    ops
}

/// `script` prints a T50 page of these buffers: the stream of the buffers, at the
/// speed that `calc_speed` finds for the average stream length per buffer.
pub open spec fn prints_page<F: Fn(usize) -> u16>(
    script: Seq<OpModel>,
    parts: Seq<BufferModel>,
    calc_speed: F,
    start_param: u16,
) -> bool {
    let stream = compress::page_stream(buffer::page_bytes(parts), T50_DICT_SIZE);
    &&& compress::is_stream_of(stream, buffer::page_bytes(parts), T50_DICT_SIZE)
    &&& prints_stream(
        script,
        stream,
        (stream.len() / parts.len()) as usize,
        calc_speed,
        start_param,
    )
}

/// `script` prints this T50 stream at a speed that `calc_speed` finds for `avg`.
pub open spec fn prints_stream<F: Fn(usize) -> u16>(
    script: Seq<OpModel>,
    stream: Seq<u8>,
    avg: usize,
    calc_speed: F,
    start_param: u16,
) -> bool {
    exists|speed: u16| #[trigger]
        call_ensures(calc_speed, (avg,), speed) && script == compressed_script(
            stream,
            speed,
            start_param,
        )
}

/// Turn what compression returned for the buffers of a T50 page (the stream and the
/// average number of its bytes per buffer) into the steps of its print.
pub fn plan_compressed<F: Fn(usize) -> u16>(
    compressed: Result<(Vec<u8>, usize), Error>,
    calc_speed: F,
    start_param: u16,
) -> (r: Result<Vec<Op>, Error>)
    requires
        forall|avg: usize| call_requires(calc_speed, (avg,)),
    ensures
        match (compressed, r) {
            (Ok((s, avg)), Ok(ops)) => prints_stream(
                flow::script_of(ops@),
                s@,
                avg,
                calc_speed,
                start_param,
            ),
            (Err(e), Err(f)) => f == e,
            _ => false,
        },
{
    match compressed {
        Ok((s, avg)) => {
            let speed: u16 = calc_speed(avg);
            Ok(compressed_ops(s.as_slice(), speed, start_param))
        },
        Err(e) => Err(e),
    }
}

/// Compress the buffers of a T50 page and plan their print.
pub(crate) fn plan_page<F: Fn(usize) -> u16>(
    buffers: &Vec<[u8; PRINT_BUF_SIZE]>,
    calc_speed: F,
    start_param: u16,
    Ghost(parts): Ghost<Seq<BufferModel>>,
) -> (r: Result<Vec<Op>, Error>)
    requires
        buffer::are_buffers(buffers@, parts),
        forall|avg: usize| call_requires(calc_speed, (avg,)),
    ensures
        plans_page(r, parts, calc_speed, start_param),
{
    proof {
        compress::lemma_page_bytes(buffers@, parts);
    }
    plan_compressed(compress_buffers(buffers.as_slice()), calc_speed, start_param)
}

/// The steps of the transfer of a compressed T50 page.
fn transfer_ops(stream: &[u8], speed: u16) -> (ops: Vec<Op>)
    ensures
        flow::script_of(ops@) == transfer_script(stream@, speed),
{
    let len: u16 = (stream.len() % 65536) as u16;
    let packets: usize = piece_count(stream.len(), DATA_PAYLOAD_SIZE);
    let mut ops: Vec<Op> = Vec::new();
    ops.push(Op::BulkHeader { len, packets });
    ops.push(Op::BulkData(copied(stream)));
    ops.push(Op::Pause(TRANSFER_PAUSE_MS));
    ops.push(Op::CmdTwo { cmd: CMD_BUF_FULL, first: len, second: speed });
    assert(flow::script_of(ops@) =~= transfer_script(stream@, speed));
    ops
}

/// The steps of the print of a compressed T50 page.
fn compressed_ops(stream: &[u8], speed: u16, start_param: u16) -> (ops: Vec<Op>)
    ensures
        flow::script_of(ops@) == compressed_script(stream@, speed, start_param),
{
    let mut ops: Vec<Op> = Vec::new();
    ops.push(Op::CheckDevice);
    ops.push(Op::Await(WaitKind::Ready));
    ops.push(Op::Cmd { cmd: CMD_START_PRINT, param: start_param });
    ops.push(Op::Await(WaitKind::Printing));
    ops.push(Op::Await(WaitKind::Buffer));
    let ghost head = flow::script_of(ops@);
    assert(head =~= preamble() + seq![
        OpModel::Cmd(CMD_START_PRINT, start_param),
        OpModel::Await(WaitKind::Printing),
        OpModel::Await(WaitKind::Buffer),
    ]);
    let mut transfer = transfer_ops(stream, speed);
    let ghost moved = transfer@;
    ops.append(&mut transfer);
    assert(flow::script_of(ops@) =~= head + flow::script_of(moved));
    ops.push(Op::Await(WaitKind::Completion));
    assert(flow::script_of(ops@) =~= compressed_script(stream@, speed, start_param));
    ops
}

/// The outcome of planning the print of a T50 page of these buffers: a page
/// without buffers is refused, and the codec can run out of memory on any other.
pub open spec fn plans_page<F: Fn(usize) -> u16>(
    r: Result<Vec<Op>, Error>,
    parts: Seq<BufferModel>,
    calc_speed: F,
    start_param: u16,
) -> bool {
    if parts.len() == 0 {
        r matches Err(e) && e@ == ErrorModel::InvalidParam("no buffers to compress"@)
    } else {
        match r {
            Ok(ops) => prints_page(flow::script_of(ops@), parts, calc_speed, start_param),
            Err(e) => compress::is_memory_error(e@),
        }
    }
}

/// The outcome of planning the print of a single E-series page of these buffers: a
/// page without buffers is refused.
pub open spec fn plans_page_e(
    r: Result<Vec<Op>, Error>,
    parts: Seq<BufferModel>,
    cols: u16,
) -> bool {
    if parts.len() == 0 {
        r matches Err(e) && e@ == ErrorModel::InvalidParam("no pages/buffers"@)
    } else {
        r matches Ok(ops) && prints_eseries(
            flow::script_of(ops@),
            seq![buffer::page_bytes(parts)],
            cols,
        )
    }
}

/// The outcome of planning the print of a calibration pattern.
pub open spec fn plans_calibration<F: Fn(usize) -> u16>(
    r: Result<Vec<Op>, Error>,
    width_dots: u32,
    length_dots: u32,
    density: u8,
    mat: u8,
    solid: bool,
    start_param: u16,
    calc_speed: F,
) -> bool {
    exists|image: Seq<u8>| #[trigger]
        raster::is_calibration(
            image,
            width_dots as int,
            length_dots as int,
            solid,
            0,
            0,
        ) && plans_page(
            r,
            buffer::page_parts(
                image,
                (raster::dot_bytes(width_dots as int) % 256) as u8,
                0,
                length_dots as int % 65536,
                buffer::t50_style(0, 0, density, mat),
            ),
            calc_speed,
            start_param,
        )
}

/// Blank columns that a leading margin takes, besides the gap between head and
/// cutter.
pub open spec fn lead_pad(lead_feed: int) -> int {
    if lead_feed < HEAD_CUTTER_GAP_DOTS {
        0
    } else {
        lead_feed - HEAD_CUTTER_GAP_DOTS
    }
}

/// A raster stays large enough when its sizes are cut to the header fields.
proof fn lemma_cut_image(bpl: u32, length: u32, plb: u8, cols: u16)
    requires
        plb == bpl % 256,
        cols == length % 65536,
    ensures
        (0 + cols) * plb <= bpl * length,
{
    assert(cols * plb <= bpl * length) by (nonlinear_arith)
        requires
            0 <= plb <= bpl,
            0 <= cols <= length,
    ;
}

impl<T> Printer<T> {
    /// A printer behind this transport.
    pub fn new(transport: T) -> (p: Printer<T>)
        ensures
            p.transport == transport,
    {
        Printer { transport }
    }

    /// Presence check; the answer must echo the command.
    pub fn check_device(&self) -> (c: Command)
        ensures
            c == (Command { cmd: CMD_CHECK_DEVICE, param: 0 }),
    {
        Command { cmd: CMD_CHECK_DEVICE, param: 0 }
    }

    /// Status query.
    pub fn query_status(&self) -> (c: Command)
        ensures
            c == (Command { cmd: CMD_INQUIRY_STA, param: 0 }),
    {
        Command { cmd: CMD_INQUIRY_STA, param: 0 }
    }

    /// Material query.
    pub fn query_material(&self) -> (c: Command)
        ensures
            c == (Command { cmd: CMD_RETURN_MAT, param: 0 }),
    {
        Command { cmd: CMD_RETURN_MAT, param: 0 }
    }

    /// Device-name query.
    pub fn read_device_name(&self) -> (c: Command)
        ensures
            c == (Command { cmd: CMD_RD_DEV_NAME, param: 0 }),
    {
        Command { cmd: CMD_RD_DEV_NAME, param: 0 }
    }

    /// Firmware-version query.
    pub fn read_firmware_version(&self) -> (c: Command)
        ensures
            c == (Command { cmd: CMD_READ_FWVER, param: 0 }),
    {
        Command { cmd: CMD_READ_FWVER, param: 0 }
    }

    /// Protocol-version query.
    pub fn read_version(&self) -> (c: Command)
        ensures
            c == (Command { cmd: CMD_READ_REV, param: 0 }),
    {
        Command { cmd: CMD_READ_REV, param: 0 }
    }

    /// Query of the loaded material's resolution; only an answer that echoes the
    /// command counts.
    pub fn read_label_dpi_raw(&self) -> (c: Command)
        ensures
            c == (Command { cmd: CMD_RD_LAB_DPI, param: 0 }),
    {
        Command { cmd: CMD_RD_LAB_DPI, param: 0 }
    }

    /// Any command with one parameter; every answer counts.
    pub fn send_raw_cmd(&self, cmd: u8, param: u16) -> (c: Command)
        ensures
            c == (Command { cmd, param }),
    {
        Command { cmd, param }
    }

    /// Start of a print job. The parameter is the material type on tape printers
    /// (1 continuous, 2 die-cut, 3 plate), and 0 on the T50.
    pub fn start_print(&self, param: u16) -> (c: Command)
        ensures
            c == (Command { cmd: CMD_START_PRINT, param }),
    {
        Command { cmd: CMD_START_PRINT, param }
    }

    /// Abort of a print job.
    pub fn stop_print(&self) -> (c: Command)
        ensures
            c == (Command { cmd: CMD_STOP_PRINT, param: 0 }),
    {
        Command { cmd: CMD_STOP_PRINT, param: 0 }
    }

    /// Feed of one blank label; the answer is judged by [`paper_skip_reply`].
    pub fn paper_skip(&self) -> (c: Command)
        ensures
            c == (Command { cmd: CMD_PAPER_SKIP, param: 0 }),
    {
        Command { cmd: CMD_PAPER_SKIP, param: 0 }
    }

    /// Wait for the device to be idle.
    pub fn wait_ready(&self, max_attempts: usize) -> (begun: (Wait, WaitStep))
        ensures
            begun.0 == Wait::started(WaitKind::Ready, max_attempts),
            max_attempts == 0 ==> begun.1 is GaveUp,
            max_attempts > 0 ==> begun.0.wf() && begun.0.asks(begun.1),
    {
        Wait::start(WaitKind::Ready, max_attempts)
    }

    /// Wait for the printing station to become active.
    pub fn wait_printing(&self, max_attempts: usize) -> (begun: (Wait, WaitStep))
        ensures
            begun.0 == Wait::started(WaitKind::Printing, max_attempts),
            max_attempts == 0 ==> begun.1 is GaveUp,
            max_attempts > 0 ==> begun.0.wf() && begun.0.asks(begun.1),
    {
        Wait::start(WaitKind::Printing, max_attempts)
    }

    /// Wait for buffer space.
    pub fn wait_buffer_ready(&self, max_attempts: usize) -> (begun: (Wait, WaitStep))
        ensures
            begun.0 == Wait::started(WaitKind::Buffer, max_attempts),
            max_attempts == 0 ==> begun.1 is GaveUp,
            max_attempts > 0 ==> begun.0.wf() && begun.0.asks(begun.1),
    {
        Wait::start(WaitKind::Buffer, max_attempts)
    }

    /// The transfer of a compressed T50 page: announcement, data, end of buffer.
    pub fn transfer_compressed(&self, compressed: &[u8], speed: u16) -> (ops: Vec<Op>)
        ensures
            flow::script_of(ops@) == transfer_script(compressed@, speed),
    {
        transfer_ops(compressed, speed)
    }

    /// The print of a compressed T50 page.
    pub fn print_compressed(
        &self,
        compressed: &[u8],
        speed: u16,
        start_param: u16,
    ) -> (ops: Vec<Op>)
        ensures
            flow::script_of(ops@) == compressed_script(compressed@, speed, start_param),
    {
        compressed_ops(compressed, speed, start_param)
    }

    /// The print of E-series pages.
    pub fn print_eseries(
        &self,
        pages: &[Vec<[u8; PRINT_BUF_SIZE]>],
        total_feed_cols: u16,
    ) -> (r: Result<Vec<Op>, Error>)
        ensures
            pages@.len() == 0 || pages@[0]@.len() == 0 ==> (r matches Err(e) && e@
                == ErrorModel::InvalidParam("no pages/buffers"@)),
            pages@.len() > 0 && pages@[0]@.len() > 0 ==> (r matches Ok(ops) && prints_eseries(
                flow::script_of(ops@),
                page_contents(pages@),
                total_feed_cols,
            )),
    {
        if pages.len() == 0 || pages[0].len() == 0 {
            return Err(Error::InvalidParam("no pages/buffers".to_owned()));
        }
        let compressed = compress_pages(pages);
        let ghost outcome = compressed;
        proof {
            if let Ok(streams) = outcome {
                assert(contents(streams@).len() == streams@.len());
            }
        }
        Ok(eseries_plan(compressed, total_feed_cols))
    }

    /// The print of a test pattern, drawn as `h` columns of `bpl` bytes.
    pub fn test_print<F: Fn(usize) -> u16>(
        &self,
        image_data: &[u8],
        bpl: u32,
        h: u32,
        density: u8,
        calc_speed: F,
    ) -> (r: Result<Vec<Op>, Error>)
        requires
            bpl % 256 > 0,
            2 * TEST_MARGIN_DOTS <= h % 65536,
            buffer::image_reaches(
                image_data@.len() as int,
                (bpl % 256) as u8,
                TEST_MARGIN_DOTS as int,
                h % 65536 - 2 * TEST_MARGIN_DOTS,
            ),
            forall|avg: usize| call_requires(calc_speed, (avg,)),
        ensures
            ({
                let parts = buffer::page_parts(
                    image_data@,
                    (bpl % 256) as u8,
                    TEST_MARGIN_DOTS as int,
                    h % 65536 - 2 * TEST_MARGIN_DOTS,
                    buffer::t50_style(TEST_MARGIN_DOTS, TEST_MARGIN_DOTS, density, 1),
                );
                plans_page(r, parts, calc_speed, 0)
            }),
    {
        let plb: u8 = (bpl % 256) as u8;
        let cols: u16 = (h % 65536) as u16;
        let buffers = split_into_buffers(
            image_data,
            plb,
            cols,
            TEST_MARGIN_DOTS,
            TEST_MARGIN_DOTS,
            density,
            1,
        );
        let ghost parts = buffer::page_parts(
            image_data@,
            plb,
            TEST_MARGIN_DOTS as int,
            cols - 2 * TEST_MARGIN_DOTS,
            buffer::t50_style(TEST_MARGIN_DOTS, TEST_MARGIN_DOTS, density, 1),
        );
        plan_page(&buffers, calc_speed, 0, Ghost(parts))
    }

    /// The print of a calibration pattern: see
    /// [`calibrate_print_opts`](Printer::calibrate_print_opts).
    pub fn calibrate_print<F: Fn(usize) -> u16>(
        &self,
        width_dots: u32,
        length_dots: u32,
        density: u8,
        mat: u8,
        calc_speed: F,
    ) -> (r: Result<Vec<Op>, Error>)
        requires
            raster::calibration_fits(width_dots as int, length_dots as int, 0, 0),
            raster::dot_bytes(width_dots as int) % 256 > 0,
            forall|avg: usize| call_requires(calc_speed, (avg,)),
        ensures
            plans_calibration(r, width_dots, length_dots, density, mat, false, 1, calc_speed),
    {
        self.calibrate_print_opts(width_dots, length_dots, density, mat, false, 1, calc_speed)
    }

    /// The print of a calibration pattern that is exactly `width_dots` across and
    /// `length_dots` along the feed, without margins; `solid` fills it.
    pub fn calibrate_print_opts<F: Fn(usize) -> u16>(
        &self,
        width_dots: u32,
        length_dots: u32,
        density: u8,
        mat: u8,
        solid: bool,
        start_param: u16,
        calc_speed: F,
    ) -> (r: Result<Vec<Op>, Error>)
        requires
            raster::calibration_fits(width_dots as int, length_dots as int, 0, 0),
            raster::dot_bytes(width_dots as int) % 256 > 0,
            forall|avg: usize| call_requires(calc_speed, (avg,)),
        ensures
            plans_calibration(
                r,
                width_dots,
                length_dots,
                density,
                mat,
                solid,
                start_param,
                calc_speed,
            ),
    {
        let (image, bpl) = calibration_raster(width_dots, length_dots, solid, 0, 0);
        let plb: u8 = (bpl % 256) as u8;
        let cols: u16 = (length_dots % 65536) as u16;
        proof {
            lemma_cut_image(bpl, length_dots, plb, cols);
            buffer::lemma_image_reaches(image@.len() as int, plb, 0, cols as int);
        }
        let buffers = split_into_buffers(image.as_slice(), plb, cols, 0, 0, density, mat);
        let ghost parts = buffer::page_parts(
            image@,
            plb,
            0,
            cols as int,
            buffer::t50_style(0, 0, density, mat),
        );
        let r = plan_page(&buffers, calc_speed, start_param, Ghost(parts));
        assert(plans_page(r, parts, calc_speed, start_param));
        r
    }

    /// The print of a calibration pattern on the E-series. `lead_feed` and `trail_feed` are the blank margins in
    /// dots; the gap between head and cutter is a part of the leading one.
    pub fn calibrate_print_e(
        &self,
        width_dots: u32,
        length_dots: u32,
        energy: u8,
        solid: bool,
        lead_feed: u32,
        trail_feed: u32,
        opts: ESeriesBufOpts,
    ) -> (r: Result<Vec<Op>, Error>)
        requires
            raster::calibration_fits(
                width_dots as int,
                length_dots as int,
                lead_pad(lead_feed as int),
                trail_feed as int,
            ),
            raster::dot_bytes(width_dots as int) % 256 > 0,
        ensures
            ({
                let total = lead_pad(lead_feed as int) + length_dots + trail_feed;
                exists|image: Seq<u8>| #[trigger]
                    raster::is_calibration(
                        image,
                        width_dots as int,
                        length_dots as int,
                        solid,
                        lead_pad(lead_feed as int),
                        trail_feed as int,
                    ) && plans_page_e(
                        r,
                        buffer::page_parts(
                            image,
                            (raster::dot_bytes(width_dots as int) % 256) as u8,
                            0,
                            total % 65536,
                            buffer::eseries_style(ESeriesBufOpts { energy, ..opts }),
                        ),
                        (total % 65536) as u16,
                    )
            }),
    {
        let lead: u32 = if lead_feed < HEAD_CUTTER_GAP_DOTS {
            0
        } else {
            lead_feed - HEAD_CUTTER_GAP_DOTS
        };
        let (image, bpl) = calibration_raster(width_dots, length_dots, solid, lead, trail_feed);
        let total: u32 = lead + length_dots + trail_feed;
        let plb: u8 = (bpl % 256) as u8;
        let cols: u16 = (total % 65536) as u16;
        proof {
            lemma_cut_image(bpl, total, plb, cols);
            buffer::lemma_image_reaches(image@.len() as int, plb, 0, cols as int);
        }
        let styled = ESeriesBufOpts { energy, ..opts };
        let r = self.print_page_e(image.as_slice(), plb, cols, styled);
        assert(raster::is_calibration(
            image@,
            width_dots as int,
            length_dots as int,
            solid,
            lead as int,
            trail_feed as int,
        ));
        r
    }

    /// The print of a single E-series page, drawn as `cols` columns of
    /// `per_line_byte` bytes.
    pub fn print_page_e(
        &self,
        image_data: &[u8],
        per_line_byte: u8,
        cols: u16,
        opts: ESeriesBufOpts,
    ) -> (r: Result<Vec<Op>, Error>)
        requires
            per_line_byte > 0,
            buffer::image_reaches(image_data@.len() as int, per_line_byte, 0, cols as int),
        ensures
            plans_page_e(
                r,
                buffer::page_parts(
                    image_data@,
                    per_line_byte,
                    0,
                    cols as int,
                    buffer::eseries_style(opts),
                ),
                cols,
            ),
    {
        let buffers = split_into_buffers_e(image_data, per_line_byte, cols, opts);
        let ghost parts = buffer::page_parts(
            image_data@,
            per_line_byte,
            0,
            cols as int,
            buffer::eseries_style(opts),
        );
        proof {
            compress::lemma_page_bytes(buffers@, parts);
        }
        let ghost bufs = buffers@;
        let pages: Vec<Vec<[u8; PRINT_BUF_SIZE]>> = vec![buffers];
        assert(pages@.len() == 1 && pages@[0]@ == bufs);
        assert(page_contents(pages@) =~= seq![buffer::page_bytes(parts)]);
        self.print_eseries(pages.as_slice(), cols)
    }
}

/// An E-series print hands over the pages in order: the first before the start of
/// the print, each further one (of a single page that page again) behind its own
/// announcement and wait.
pub proof fn law_eseries_pages_come_in_order(streams: Seq<Seq<u8>>, total_feed_cols: u16)
    requires
        streams.len() > 0,
    ensures
        ({
            let script = eseries_script(streams, total_feed_cols);
            let again = resent(streams);
            &&& script.len() == 12 + 3 * again.len()
            &&& script[3] == OpModel::ESeriesBulk(CMD_ESERIES_FIRST_PAGE, streams[0])
            &&& script[6] == OpModel::Cmd(CMD_START_PRINT, 0)
            &&& forall|k: int|
                0 <= k < again.len() ==> {
                    &&& script[9 + 3 * k] == OpModel::CmdTwo(
                        CMD_NEXT_ZIPPEDBULK,
                        BULK_BLOCK_SIZE,
                        announced_frames(#[trigger] again[k]),
                    )
                    &&& script[10 + 3 * k] == OpModel::Await(WaitKind::Buffer)
                    &&& script[11 + 3 * k] == OpModel::ESeriesBulk(
                        CMD_ESERIES_NEXT_PAGE,
                        again[k],
                    )
                }
        }),
{
    let again = resent(streams);
    lemma_later_pages(again);
    let script = eseries_script(streams, total_feed_cols);
    assert forall|i: int| 0 <= i < later_pages(again).len() implies script[9 + i] == later_pages(
        again,
    )[i] by {}
    assert forall|k: int| 0 <= k < again.len() implies {
        &&& script[9 + 3 * k] == OpModel::CmdTwo(
            CMD_NEXT_ZIPPEDBULK,
            BULK_BLOCK_SIZE,
            announced_frames(#[trigger] again[k]),
        )
        &&& script[10 + 3 * k] == OpModel::Await(WaitKind::Buffer)
        &&& script[11 + 3 * k] == OpModel::ESeriesBulk(CMD_ESERIES_NEXT_PAGE, again[k])
    } by {
        assert(script[9 + (3 * k)] == later_pages(again)[3 * k]);
        assert(script[9 + (3 * k + 1)] == later_pages(again)[3 * k + 1]);
        assert(script[9 + (3 * k + 2)] == later_pages(again)[3 * k + 2]);
    }
}

proof fn lemma_later_pages(streams: Seq<Seq<u8>>)
    ensures
        later_pages(streams).len() == 3 * streams.len(),
        forall|k: int|
            0 <= k < streams.len() ==> {
                &&& later_pages(streams)[3 * k] == OpModel::CmdTwo(
                    CMD_NEXT_ZIPPEDBULK,
                    BULK_BLOCK_SIZE,
                    announced_frames(#[trigger] streams[k]),
                )
                &&& later_pages(streams)[3 * k + 1] == OpModel::Await(WaitKind::Buffer)
                &&& later_pages(streams)[3 * k + 2] == OpModel::ESeriesBulk(
                    CMD_ESERIES_NEXT_PAGE,
                    streams[k],
                )
            },
    decreases streams.len(),
{
    if streams.len() > 0 {
        let past = streams.drop_last();
        lemma_later_pages(past);
        assert forall|k: int| 0 <= k < streams.len() implies {
            &&& later_pages(streams)[3 * k] == OpModel::CmdTwo(
                CMD_NEXT_ZIPPEDBULK,
                BULK_BLOCK_SIZE,
                announced_frames(#[trigger] streams[k]),
            )
            &&& later_pages(streams)[3 * k + 1] == OpModel::Await(WaitKind::Buffer)
            &&& later_pages(streams)[3 * k + 2] == OpModel::ESeriesBulk(
                CMD_ESERIES_NEXT_PAGE,
                streams[k],
            )
        } by {
            if k < past.len() {
                assert(past[k] == streams[k]);
            }
        }
    }
}

/// The print starts only on a device that is there and ready: before anything
/// behind the first two steps of a print gets through, the device echoed the
/// check and, later, reported to be idle and without a fault.
pub proof fn law_print_starts_on_a_ready_device(script: Seq<OpModel>, events: Seq<Event>)
    requires
        preamble().is_prefix_of(script),
        flow::follows(flow::begun(script).0, events),
        flow::run(flow::begun(script).0, events).pos >= 2,
    ensures
        exists|i: int, j: int|
            {
                &&& 0 <= i < j < events.len()
                &&& #[trigger] events[i] == Event::Answered(Some(true))
                &&& #[trigger] events[j] matches Event::Status(Some(s))
                &&& status::is_idle(s)
                &&& !s.has_error
            },
{
    assert(script[0] == preamble()[0] && script[1] == preamble()[1]);
    flow::law_passed_steps_were_accepted(script, events, 0);
    flow::law_passed_steps_were_accepted(script, events, 1);
    let i = choose|i: int| #[trigger]
        flow::passes_at(script, events, 0, i) && flow::accepts(script[0], events[i]);
    let j = choose|j: int| #[trigger]
        flow::passes_at(script, events, 1, j) && flow::accepts(script[1], events[j]);
    flow::law_steps_pass_in_order(script, events, 0, i, 1, j);
    assert(events[i] == Event::Answered(Some(true)));
}

/// Every print begins with the device check and the wait for a ready device, and
/// has its start command behind them.
pub proof fn law_prints_begin_with_checks(
    stream: Seq<u8>,
    speed: u16,
    start_param: u16,
    streams: Seq<Seq<u8>>,
    total_feed_cols: u16,
)
    ensures
        preamble().is_prefix_of(compressed_script(stream, speed, start_param)),
        compressed_script(stream, speed, start_param)[2] == OpModel::Cmd(
            CMD_START_PRINT,
            start_param,
        ),
        preamble().is_prefix_of(eseries_script(streams, total_feed_cols)),
        eseries_script(streams, total_feed_cols)[6] == OpModel::Cmd(CMD_START_PRINT, 0),
{
    let a = compressed_script(stream, speed, start_param);
    let b = eseries_script(streams, total_feed_cols);
    assert(preamble() =~= a.subrange(0, 2));
    assert(preamble() =~= b.subrange(0, 2));
}

/// Equal feeds give equal margins: with the same feed on both ends (and no less
/// than the gap between head and cutter), the blank columns before the first
/// printed one, together with the gap, are as many as those behind the last.
pub proof fn law_equal_feeds_give_equal_margins(
    image: Seq<u8>,
    width: int,
    length: int,
    solid: bool,
    feed: int,
)
    requires
        0 < width,
        0 < length,
        HEAD_CUTTER_GAP_DOTS <= feed,
        raster::is_calibration(image, width, length, solid, lead_pad(feed), feed),
    ensures
        ({
            let w = raster::dot_bytes(width);
            let first = feed - HEAD_CUTTER_GAP_DOTS;
            let last = first + length - 1;
            let total = first + length + feed;
            &&& image.len() == w * total
            &&& raster::dot(image, w, first, 0)
            &&& raster::dot(image, w, last, 0)
            &&& total - 1 - last == first + HEAD_CUTTER_GAP_DOTS
            &&& forall|c: int, x: int|
                0 <= c < total && 0 <= x < 8 * w && (c < first || c > last) ==> !(
                #[trigger] raster::dot(image, w, c, x))
        }),
{
    let w = raster::dot_bytes(width);
    let first = feed - HEAD_CUTTER_GAP_DOTS;
    let last = first + length - 1;
    assert(raster::dot(image, w, first, 0) == raster::calibration_dot(
        width,
        length,
        solid,
        first,
        first,
        0,
    ));
    assert(raster::dot(image, w, last, 0) == raster::calibration_dot(
        width,
        length,
        solid,
        first,
        last,
        0,
    ));
}

/// What is announced is what is sent: the count before each E-series page is the
/// number of bulk frames that the page takes (modulo 2^16), and the count before a T50
/// page the number of its data frames.
pub proof fn law_announcements_count_the_frames(stream: Seq<u8>, speed: u16)
    ensures
        announced_frames(stream) == data::eseries_frames(CMD_ESERIES_NEXT_PAGE, stream).len()
            % 65536,
        transfer_script(stream, speed)[0] == OpModel::BulkHeader(
            (stream.len() % 65536) as u16,
            data::data_frames(stream).len() as int,
        ),
{
    data::law_eseries_frames_carry_stream(CMD_ESERIES_NEXT_PAGE, stream);
    data::law_data_frames_carry_stream(stream);
    wire::law_pieces_are_just_enough(stream.len() as int, 500);
}

/// In the script of an E-series print, each announcement counts the frames of the bulk
/// step behind it.
pub proof fn law_each_page_is_announced(
    streams: Seq<Seq<u8>>,
    total_feed_cols: u16,
    k: int,
)
    requires
        streams.len() > 0,
        0 <= k < streams.len(),
        k > 0 || streams.len() == 1,
    ensures
        ({
            let script = eseries_script(streams, total_feed_cols);
            let at = if streams.len() == 1 {
                9
            } else {
                6 + 3 * k
            };
            &&& at + 2 < script.len()
            &&& script[at] == OpModel::CmdTwo(
                0x5C,
                512,
                (data::eseries_frames(0xBB, streams[k]).len() % 65536) as u16,
            )
            &&& script[at + 1] == OpModel::Await(WaitKind::Buffer)
            &&& script[at + 2] == OpModel::ESeriesBulk(0xBB, streams[k])
        }),
{
    law_eseries_pages_come_in_order(streams, total_feed_cols);
    let again = resent(streams);
    let i = if streams.len() == 1 {
        0
    } else {
        k - 1
    };
    assert(again[i] == streams[k]);
    law_announcements_count_the_frames(again[i], 0);
}

/// A T50 print, step by step: check, ready, start, printing, room, then the
/// announcement, the stream, a pause and the end of the buffer with the stream's length
/// and the speed, and completion.
pub proof fn law_t50_print_step_by_step(stream: Seq<u8>, speed: u16, start_param: u16)
    ensures
        ({
            let s = compressed_script(stream, speed, start_param);
            &&& s.len() == 10
            &&& s[0] == OpModel::CheckDevice
            &&& s[1] == OpModel::Await(WaitKind::Ready)
            &&& s[2] == OpModel::Cmd(0x13, start_param)
            &&& s[3] == OpModel::Await(WaitKind::Printing)
            &&& s[4] == OpModel::Await(WaitKind::Buffer)
            &&& s[5] == OpModel::BulkHeader(
                (stream.len() % 65536) as u16,
                data::data_frames(stream).len() as int,
            )
            &&& s[6] == OpModel::BulkData(stream)
            &&& s[7] == OpModel::Pause(20)
            &&& s[8] == OpModel::CmdTwo(0x10, (stream.len() % 65536) as u16, speed)
            &&& s[9] == OpModel::Await(WaitKind::Completion)
        }),
        transfer_script(stream, speed) == compressed_script(stream, speed, start_param).subrange(
            5,
            9,
        ),
{
    law_announcements_count_the_frames(stream, speed);
    assert(transfer_script(stream, speed) =~= compressed_script(
        stream,
        speed,
        start_param,
    ).subrange(5, 9));
}

/// An E-series print, step by step: check and ready; setup, first page, date, the fixed
/// command and the start; printing, the other fixed command; the pages that follow; and
/// at the end a pause, an empty end of buffer, and completion.
pub proof fn law_eseries_print_step_by_step(streams: Seq<Seq<u8>>, total_feed_cols: u16)
    requires
        streams.len() > 0,
    ensures
        ({
            let s = eseries_script(streams, total_feed_cols);
            let n = s.len() as int;
            &&& n == 12 + 3 * (if streams.len() == 1 { 1int } else { streams.len() - 1 })
            &&& s[0] == OpModel::CheckDevice
            &&& s[1] == OpModel::Await(WaitKind::Ready)
            &&& s[2] matches OpModel::Frame(f) && f.len() == 25 && f[7] == 0xD0 && f.skip(12)
                == seq![
                0x02u8,
                0,
                0,
                0x02,
                0,
                0,
                (total_feed_cols % 256) as u8,
                (total_feed_cols / 256) as u8,
                0x03,
                0,
                0,
                0,
                0,
            ]
            &&& s[3] == OpModel::ESeriesBulk(0xD1, streams[0])
            &&& s[4] == OpModel::DateFrame
            &&& s[5] == OpModel::Cmd(0xC9, 0x6E)
            &&& s[6] == OpModel::Cmd(0x13, 0)
            &&& s[7] == OpModel::Await(WaitKind::Printing)
            &&& s[8] == OpModel::Cmd(0xBA, 0x19)
            &&& s[n - 3] == OpModel::Pause(20)
            &&& s[n - 2] == OpModel::CmdTwo(0x10, 0, 0)
            &&& s[n - 1] == OpModel::Await(WaitKind::Completion)
        }),
{
    let s = eseries_script(streams, total_feed_cols);
    let again = resent(streams);
    law_eseries_pages_come_in_order(streams, total_feed_cols);
    cmd::law_command_frame_reads_back(CMD_ESERIES_SETUP, setup_params(total_feed_cols));
    assert(setup_params(total_feed_cols) =~= seq![
        0x02u8,
        0,
        0,
        0x02,
        0,
        0,
        (total_feed_cols % 256) as u8,
        (total_feed_cols / 256) as u8,
        0x03,
        0,
        0,
        0,
        0,
    ]);
    lemma_later_pages(again);
    let n = s.len() as int;
    assert(s[n - 3] == body_tail()[0] && s[n - 2] == body_tail()[1] && s[n - 1] == body_tail()[2]);
}

/// The date frame of a day up to the year 9999 carries eight digits and six zero bytes,
/// and the digits read as that day: the year in the first four, then month and day.
pub proof fn law_date_frame_reads_as_the_day(frame: Seq<u8>, secs: u64, y: nat, m: nat, d: nat)
    requires
        is_date_frame(frame, secs),
        date::is_date(y as int, m as int, d as int),
        y <= 9999,
        date::day_number(y as int, m as int, d as int) == secs as int / 86_400,
    ensures
        frame.len() == 26,
        frame[7] == 0xB0,
        ({
            let digit = |i: int| frame[12 + i] - 48;
            &&& forall|i: int| 0 <= i < 8 ==> 48 <= #[trigger] frame[12 + i] <= 57
            &&& 1000 * digit(0) + 100 * digit(1) + 10 * digit(2) + digit(3) == y
            &&& 10 * digit(4) + digit(5) == m
            &&& 10 * digit(6) + digit(7) == d
        }),
        forall|i: int| 20 <= i < 26 ==> #[trigger] frame[i] == 0,
{
    let day = choose|day: Seq<char>| #[trigger]
        date::is_date_text(day, secs as int / 86_400) && frame == cmd::command_frame(
            CMD_ESERIES_DATE,
            date_params(day),
        );
    date::law_date_text_reads_back(day, y, m, d);
    cmd::law_command_frame_reads_back(CMD_ESERIES_DATE, date_params(day));
    assert forall|i: int| 0 <= i < 14 implies frame[12 + i] == date_params(day)[i] by {
        assert(frame.skip(12)[i] == frame[12 + i]);
    }
    assert forall|i: int| 20 <= i < 26 implies #[trigger] frame[i] == 0 by {
        assert(frame[12 + (i - 12)] == date_params(day)[i - 12]);
    }
}

/// A leading margin of at least 24 dots takes 24 blank columns less than its length; a
/// shorter one takes none.
pub proof fn law_leading_margin_holds_the_gap(lead_feed: int)
    ensures
        lead_feed >= 24 ==> lead_pad(lead_feed) + 24 == lead_feed,
        lead_feed <= 24 ==> lead_pad(lead_feed) == 0,
{
}

/// A planned T50 page prints that page: the stream that is sent decodes to the buffers,
/// in order and 4096 bytes each, is announced with its length and its frames, and runs
/// at a speed found for the whole number of its bytes per buffer.
pub proof fn law_t50_plan_prints_the_page<F: Fn(usize) -> u16>(
    r: Result<Vec<Op>, Error>,
    parts: Seq<BufferModel>,
    calc_speed: F,
    start_param: u16,
) -> (sent: (Seq<u8>, usize, u16))
    requires
        plans_page(r, parts, calc_speed, start_param),
        r is Ok,
        compress::page_stream(buffer::page_bytes(parts), T50_DICT_SIZE).len() <= usize::MAX,
    ensures
        parts.len() > 0,
        ({
            let s = flow::script_of(r->Ok_0@);
            let (stream, avg, speed) = sent;
            &&& compress::lzma_alone_decoded(compress::with_size(stream, u64::MAX)) matches Some(
                page,
            )
            &&& page.len() == 4096 * parts.len()
            &&& forall|k: int|
                0 <= k < parts.len() ==> page.subrange(4096 * k, 4096 * k + 4096)
                    == buffer::print_buffer(#[trigger] parts[k])
            &&& stream[1] + 0x100 * stream[2] + 0x1_0000 * stream[3] + 0x100_0000 * stream[4]
                == 8192
            &&& avg * parts.len() <= stream.len() < (avg + 1) * parts.len()
            &&& call_ensures(calc_speed, (avg,), speed)
            &&& s.len() == 10
            &&& s[2] == OpModel::Cmd(0x13, start_param)
            &&& s[5] == OpModel::BulkHeader(
                (stream.len() % 65536) as u16,
                data::data_frames(stream).len() as int,
            )
            &&& s[6] == OpModel::BulkData(stream)
            &&& s[8] == OpModel::CmdTwo(0x10, (stream.len() % 65536) as u16, speed)
        }),
{
    let script = flow::script_of(r->Ok_0@);
    let bytes = buffer::page_bytes(parts);
    let stream = compress::page_stream(bytes, T50_DICT_SIZE);
    let n = stream.len() as int;
    let p = parts.len() as int;
    assert(prints_page(script, parts, calc_speed, start_param));
    assert(0 <= n / p <= n && n / p * p <= n < (n / p + 1) * p) by (nonlinear_arith)
        requires
            0 <= n,
            0 < p,
    ;
    let avg = (n / p) as usize;
    let speed = choose|speed: u16| #[trigger]
        call_ensures(calc_speed, (avg,), speed) && script == compressed_script(
            stream,
            speed,
            start_param,
        );
    law_t50_print_step_by_step(stream, speed, start_param);
    compress::law_stream_holds_the_buffers(stream, parts, T50_DICT_SIZE);
    compress::law_dictionaries();
    compress::lemma_dict_field(stream, bytes, T50_DICT_SIZE);
    (stream, avg, speed)
}

/// A planned E-series print sends the pages, each as a stream that decodes to it, or
/// gives up right after the first two steps: for certain if a page is empty, and
/// otherwise only for want of memory.
pub proof fn law_eseries_plan_sends_the_pages(
    script: Seq<OpModel>,
    pages: Seq<Seq<u8>>,
    total_feed_cols: u16,
    i: int,
)
    requires
        prints_eseries(script, pages, total_feed_cols),
        0 <= i < pages.len(),
    ensures
        script[0] == OpModel::CheckDevice,
        script[1] == OpModel::Await(WaitKind::Ready),
        pages[i].len() == 0 ==> script[2] is Abort,
        script[2] is Abort ==> script.len() == 3,
        script[2] matches OpModel::Abort(e) ==> compress::is_memory_error(e) || e
            == ErrorModel::InvalidParam("no buffers to compress"@),
        (forall|j: int| 0 <= j < pages.len() ==> (#[trigger] pages[j]).len() > 0) ==> (
        script[2] matches OpModel::Abort(e) ==> compress::is_memory_error(e)),
        !(script[2] is Abort) ==> ({
            let at = if i == 0 {
                3
            } else {
                8 + 3 * i
            };
            let cmd: u8 = if i == 0 {
                0xD1
            } else {
                0xBB
            };
            &&& script[at] matches OpModel::ESeriesBulk(c, stream)
            &&& c == cmd
            &&& compress::lzma_alone_decoded(compress::with_size(stream, u64::MAX)) == Some(
                pages[i],
            )
            &&& stream[1] + 0x100 * stream[2] + 0x1_0000 * stream[3] + 0x100_0000 * stream[4]
                == 0x20_0000
        }),
{
    let streams = page_streams(pages);
    if script == eseries_script(streams, total_feed_cols) && (forall|j: int|
        0 <= j < pages.len() ==> (#[trigger] pages[j]).len() > 0) && (forall|j: int|
        0 <= j < pages.len() ==> compress::is_stream_of(
            #[trigger] streams[j],
            pages[j],
            ESERIES_DICT_SIZE,
        )) {
        law_eseries_print_step_by_step(streams, total_feed_cols);
        assert(compress::is_stream_of(streams[i], pages[i], ESERIES_DICT_SIZE));
        compress::law_dictionaries();
        compress::lemma_dict_field(streams[i], pages[i], ESERIES_DICT_SIZE);
        if i > 0 {
            law_each_page_is_announced(streams, total_feed_cols, i);
        }
    } else {
        let (k, e) = choose|k: int, e: ErrorModel| #[trigger]
            compression_stops(pages, k, e) && script == preamble() + seq![OpModel::Abort(e)];
        assert(compression_stops(pages, k, e));
        assert(pages[k].len() == 0 || compress::is_memory_error(e));
    }
}

/// The buffers of a whole image: how many there are, what they carry, and where its
/// columns went.
#[verifier::spinoff_prover]
#[verifier::rlimit(40)]
proof fn lemma_whole_image(
    image: Seq<u8>,
    plb: u8,
    cols: int,
    density: u8,
    mat: u8,
    k: int,
    c: int,
    j: int,
)
    requires
        0 < plb,
        0 < cols <= 65535,
        image.len() == plb * cols,
    ensures
        ({
            let parts = buffer::page_parts(
                image,
                plb,
                0,
                cols,
                buffer::t50_style(0, 0, density, mat),
            );
            let fit = 4074int / (plb as int);
            let b = buffer::print_buffer(parts[k]);
            &&& (parts.len() - 1) * fit < cols <= parts.len() * fit
            &&& 0 <= k < parts.len() ==> {
                &&& b[3] == 4 * (density % 16) + 64 * (mat % 4)
                &&& b[6] == plb
                &&& b[8] == 1 && b[9] == 0 && b[10] == 1 && b[11] == 0
                &&& b[12] == if density <= 15 { density } else { 15u8 }
            }
            &&& 0 <= k < parts.len() && 0 <= c < parts[k].cols && 0 <= j < plb
                ==> parts[k].image[c * plb + j] == image[(k * fit + c) * plb + j]
        }),
{
    let style = buffer::t50_style(0, 0, density, mat);
    let parts = buffer::page_parts(image, plb, 0, cols, style);
    assert((0 + cols) * plb == plb * cols) by (nonlinear_arith);
    buffer::lemma_part_count(plb, cols);
    if 0 <= k < parts.len() {
        buffer::law_t50_headers(image, plb, 0, cols, 0, 0, density, mat, k);
        buffer::law_buffers_are_filled_up(image, plb, 0, cols, style, k, c, j);
    }
}

/// A planned calibration print shows the pattern, from edge to edge: the buffers hold
/// its columns from the first to the last, with the least margins, and carry the given
/// density and material.
#[verifier::spinoff_prover]
#[verifier::rlimit(40)]
pub proof fn law_calibration_plan_shows_the_pattern<F: Fn(usize) -> u16>(
    r: Result<Vec<Op>, Error>,
    width_dots: u32,
    length_dots: u32,
    density: u8,
    mat: u8,
    solid: bool,
    start_param: u16,
    calc_speed: F,
    k: int,
    c: int,
    j: int,
) -> (shown: (Seq<u8>, Seq<BufferModel>))
    requires
        plans_calibration(r, width_dots, length_dots, density, mat, solid, start_param, calc_speed),
        0 < width_dots <= 2040,
        0 < length_dots <= 65535,
    ensures
        ({
            let (image, parts) = shown;
            let w = raster::dot_bytes(width_dots as int);
            let fit = 4074int / w;
            &&& plans_page(r, parts, calc_speed, start_param)
            &&& raster::is_calibration(
                image,
                width_dots as int,
                length_dots as int,
                solid,
                0,
                0,
            )
            &&& (parts.len() - 1) * fit < length_dots <= parts.len() * fit
            &&& 0 <= k < parts.len() ==> ({
                let b = buffer::print_buffer(parts[k]);
                &&& b[3] == 4 * (density % 16) + 64 * (mat % 4)
                &&& b[6] == w
                &&& b[8] == 1 && b[9] == 0 && b[10] == 1 && b[11] == 0
                &&& b[12] == if density <= 15 { density } else { 15u8 }
            })
            &&& 0 <= k < parts.len() && 0 <= c < parts[k].cols && 0 <= j < w
                ==> parts[k].image[c * w + j] == image[(k * fit + c) * w + j]
        }),
{
    let image = choose|image: Seq<u8>| #[trigger]
        raster::is_calibration(
            image,
            width_dots as int,
            length_dots as int,
            solid,
            0,
            0,
        ) && plans_page(
            r,
            buffer::page_parts(
                image,
                (raster::dot_bytes(width_dots as int) % 256) as u8,
                0,
                length_dots as int % 65536,
                buffer::t50_style(0, 0, density, mat),
            ),
            calc_speed,
            start_param,
        );
    let w = raster::dot_bytes(width_dots as int);
    raster::law_dots_fill_bytes(width_dots as int);
    assert(0 < w <= 255);
    let plb = w as u8;
    let parts = buffer::page_parts(
        image,
        plb,
        0,
        length_dots as int,
        buffer::t50_style(0, 0, density, mat),
    );
    lemma_whole_image(image, plb, length_dots as int, density, mat, k, c, j);
    (image, parts)
}

/// A planned single E-series page is sent twice, before the start and after it, as one
/// stream that decodes to the page's buffers, in order and 4096 bytes each; the setup
/// tells its columns. Without buffers there is no plan, and with them there is one.
pub proof fn law_single_eseries_page_plan(
    r: Result<Vec<Op>, Error>,
    parts: Seq<BufferModel>,
    cols: u16,
)
    requires
        plans_page_e(r, parts, cols),
    ensures
        r is Ok <==> parts.len() > 0,
        r matches Ok(ops) ==> ({
            let s = flow::script_of(ops@);
            s[2] is Abort || {
                &&& s.len() == 15
                &&& s[2] matches OpModel::Frame(f) && f[18] + 256 * f[19] == cols
                &&& s[3] matches OpModel::ESeriesBulk(c, stream)
                &&& c == 0xD1
                &&& s[11] == OpModel::ESeriesBulk(0xBB, stream)
                &&& compress::lzma_alone_decoded(compress::with_size(stream, u64::MAX)) matches Some(
                    page,
                )
                &&& page.len() == 4096 * parts.len()
                &&& forall|k: int|
                    0 <= k < parts.len() ==> page.subrange(4096 * k, 4096 * k + 4096)
                        == buffer::print_buffer(#[trigger] parts[k])
            }
        }),
{
    if let Ok(ops) = r {
        let s = flow::script_of(ops@);
        let bytes = buffer::page_bytes(parts);
        let pages = seq![bytes];
        let streams = page_streams(pages);
        law_eseries_plan_sends_the_pages(s, pages, cols, 0);
        if !(s[2] is Abort) {
            assert(s == eseries_script(streams, cols));
            assert(compress::is_stream_of(streams[0], pages[0], ESERIES_DICT_SIZE));
            law_eseries_print_step_by_step(streams, cols);
            law_each_page_is_announced(streams, cols, 0);
            compress::law_stream_holds_the_buffers(streams[0], parts, ESERIES_DICT_SIZE);
            let f = s[2]->Frame_0;
            assert(f.skip(12)[6] == f[18] && f.skip(12)[7] == f[19]);
        }
    }
}

} // verus!
