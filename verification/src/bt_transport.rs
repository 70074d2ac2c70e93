//! The Bluetooth transport: what goes over the socket, and which frames are
//! answered.

use vstd::prelude::*;

use crate::cmd;
use crate::cmd::{make_cmd, make_cmd_start_trans, CMD_NEXT_ZIPPEDBULK};
use crate::data;
use crate::data::{build_data_frames, build_eseries_bulk_frames};
use crate::printer::BULK_BLOCK_SIZE;

verus! {

/// The Bluetooth transport over a socket.
pub struct BtTransport<S> {
    /// The socket.
    pub sock: S,
}

/// One frame of a bulk transfer.
#[derive(Debug, PartialEq, Eq)]
pub struct BulkFrame {
    /// The bytes to send.
    pub bytes: [u8; 512],
    /// Whether to read the printer's answer to it.
    pub read_response: bool,
    /// Whether that answer is the answer to the whole transfer.
    pub is_last: bool,
}

/// `plan` sends these frames in order; each but the last is answered, and the last
/// if `final_response` asks for it.
pub open spec fn is_bulk_plan(
    plan: Seq<BulkFrame>,
    frames: Seq<Seq<u8>>,
    final_response: bool,
) -> bool {
    &&& plan.len() == frames.len()
    &&& forall|i: int|
        0 <= i < plan.len() ==> {
            &&& (#[trigger] plan[i]).bytes@ == frames[i]
            &&& plan[i].is_last == (i == plan.len() - 1)
            &&& plan[i].read_response == (plan[i].is_last ==> final_response)
        }
}

/// The contents of some frames.
pub open spec fn frame_bytes(frames: Seq<[u8; 512]>) -> Seq<Seq<u8>> {
    Seq::new(frames.len(), |i: int| frames[i]@)
}

/// Plan the transfer of some frames.
fn plan_frames(frames: Vec<[u8; 512]>, final_response: bool) -> (plan: Vec<BulkFrame>)
    ensures
        is_bulk_plan(plan@, frame_bytes(frames@), final_response),
{
    let mut plan: Vec<BulkFrame> = Vec::new();
    let mut i: usize = 0;
    while i < frames.len()
        invariant
            i <= frames@.len(),
            plan@.len() == i,
            forall|k: int|
                0 <= k < i ==> {
                    &&& (#[trigger] plan@[k]).bytes@ == frame_bytes(frames@)[k]
                    &&& plan@[k].is_last == (k == frames@.len() - 1)
                    &&& plan@[k].read_response == (plan@[k].is_last ==> final_response)
                },
        decreases frames@.len() - i,
    {
        let is_last: bool = i == frames.len() - 1;
        plan.push(
            BulkFrame { bytes: frames[i], read_response: !is_last || final_response, is_last },
        );
        i += 1;
    }
    plan
}

impl<S> BtTransport<S> {
    /// The transport over this socket.
    pub fn new(sock: S) -> (t: BtTransport<S>)
        ensures
            t.sock == sock,
    {
        BtTransport { sock }
    }

    /// The frame of a command with one parameter.
    pub fn send_cmd(&self, cmd: u8, param: u16) -> (frame: [u8; 16])
        ensures
            frame@ == cmd::command_frame(cmd, cmd::two_words(param, 0)),
    {
        make_cmd(cmd, param)
    }

    /// The frame of a command with two parameters.
    pub fn send_cmd_two(&self, cmd: u8, param1: u16, param2: u16) -> (frame: [u8; 16])
        ensures
            frame@ == cmd::command_frame(cmd, cmd::two_words(param1, param2)),
    {
        make_cmd_start_trans(cmd, param1, param2)
    }

    /// The frame that announces a bulk transfer: the size of its frames and their
    /// number, modulo 2^16. The length of the stream is not sent.
    pub fn send_bulk_header(&self, len: u16, packets: usize) -> (frame: [u8; 16])
        ensures
            frame@ == cmd::command_frame(
                CMD_NEXT_ZIPPEDBULK,
                cmd::two_words(BULK_BLOCK_SIZE, (packets % 65536) as u16),
            ),
    {
        make_cmd_start_trans(CMD_NEXT_ZIPPEDBULK, BULK_BLOCK_SIZE, (packets % 65536) as u16)
    }

    /// The frames of a bulk transfer. The printer acknowledges every frame, and an
    /// acknowledgement left unread would be taken for the next answer; only that of
    /// the last frame may be left to the command that follows.
    pub fn send_bulk_data(&self, data: &[u8], read_final_response: bool) -> (plan: Vec<BulkFrame>)
        ensures
            is_bulk_plan(plan@, data::data_frames(data@), read_final_response),
    {
        let frames = build_data_frames(data);
        assert(frame_bytes(frames@) =~= data::data_frames(data@));
        plan_frames(frames, read_final_response)
    }

    /// The frames of an E-series bulk transfer, all of them answered.
    pub fn send_eseries_bulk(&self, cmd: u8, lzma: &[u8]) -> (plan: Vec<BulkFrame>)
        ensures
            is_bulk_plan(plan@, data::eseries_frames(cmd, lzma@), true),
    {
        let frames = build_eseries_bulk_frames(cmd, lzma);
        assert(frame_bytes(frames@) =~= data::eseries_frames(cmd, lzma@));
        plan_frames(frames, true)
    }

    /// Whether the transport is a socket.
    pub fn use_socket_io(&self) -> (b: bool)
        ensures
            b,
    {
        true
    }
}

/// Every acknowledgement of a bulk transfer but the last is read, whatever is asked
/// of the last: at most one is left to the command that follows.
pub proof fn law_acknowledgements_are_drained(
    plan: Seq<BulkFrame>,
    frames: Seq<Seq<u8>>,
    final_response: bool,
)
    requires
        is_bulk_plan(plan, frames, final_response),
    ensures
        forall|i: int| 0 <= i < plan.len() - 1 ==> (#[trigger] plan[i]).read_response,
        final_response ==> forall|i: int| 0 <= i < plan.len() ==> (#[trigger] plan[i]).read_response,
        plan.len() > 0 ==> plan[plan.len() - 1].read_response == final_response,
{
}

/// A bulk transfer sends every frame once and in order, and marks the last one alone as
/// the one whose answer counts.
pub proof fn law_bulk_plan_sends_the_frames(
    plan: Seq<BulkFrame>,
    frames: Seq<Seq<u8>>,
    final_response: bool,
    i: int,
)
    requires
        is_bulk_plan(plan, frames, final_response),
    ensures
        frame_bytes(Seq::new(plan.len(), |k: int| plan[k].bytes)) == frames,
        0 <= i < plan.len() - 1 ==> !plan[i].is_last,
        plan.len() > 0 ==> plan[plan.len() - 1].is_last,
{
    let sent = Seq::new(plan.len(), |k: int| plan[k].bytes);
    assert forall|k: int| 0 <= k < plan.len() implies #[trigger] frame_bytes(sent)[k]
        == frames[k] by {
        assert(plan[k].bytes@ == frames[k]);
    }
    assert(frame_bytes(sent) =~= frames);
}

} // verus!
