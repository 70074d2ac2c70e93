use supvan::buffer::ESeriesBufOpts;
use supvan::cmd::{make_cmd_ext, CMD_BUF_FULL, CMD_NEXT_ZIPPEDBULK, CMD_START_PRINT};
use supvan::compress::decompress_lzma;
use supvan::error::Error;
use supvan::flow::{Action, Event, Flow, Op, Wait, WaitKind, WaitStep};
use supvan::printer::{
    date_frame, echoes, eseries_ops, eseries_plan, open_target, paper_skip_reply,
    plan_compressed, test_label_size, Command, Printer, Target,
};
use supvan::status::{MaterialInfo, PrinterStatus};

/// A status with nothing set.
fn idle() -> PrinterStatus {
    PrinterStatus::default()
}

fn printing() -> PrinterStatus {
    PrinterStatus { printing: true, ..PrinterStatus::default() }
}

fn faulty(words: &str) -> PrinterStatus {
    PrinterStatus {
        has_error: true,
        error_description: Some(words.to_string()),
        ..PrinterStatus::default()
    }
}

/// Run a script on a printer that behaves; returns what was sent, in short.
fn run_well(ops: Vec<Op>) -> (Vec<String>, Option<Error>) {
    let (mut flow, mut action) = Flow::new(ops);
    let mut sent = Vec::new();
    loop {
        action = match action {
            Action::Perform => {
                sent.push(short(flow.op()));
                flow.step(Event::Answered(Some(true)))
            }
            Action::Query => {
                let s = match flow.op() {
                    Op::Await(WaitKind::Printing) => printing(),
                    _ => idle(),
                };
                sent.push("query".to_string());
                flow.step(Event::Status(Some(s)))
            }
            Action::Sleep(ms) => {
                sent.push(format!("sleep {ms}"));
                flow.step(Event::Slept)
            }
            Action::Done => return (sent, None),
            Action::Fail(e) => return (sent, Some(e)),
        };
    }
}

fn short(op: &Op) -> String {
    match op {
        Op::CheckDevice => "check".to_string(),
        Op::Cmd { cmd, param } => format!("cmd {cmd:02x} {param}"),
        Op::CmdTwo { cmd, first, second } => format!("cmd {cmd:02x} {first} {second}"),
        Op::Frame(f) => format!("frame {:02x}", f[7]),
        Op::DateFrame => "date".to_string(),
        Op::BulkHeader { len, packets } => format!("header {len} {packets}"),
        Op::BulkData(d) => format!("data {}", d.len()),
        Op::ESeriesBulk { cmd, stream } => format!("bulk {cmd:02x} {}", stream.len()),
        Op::Await(kind) => format!("await {kind:?}"),
        Op::Pause(ms) => format!("pause {ms}"),
        Op::Abort(e) => format!("abort {e:?}"),
    }
}

#[test]
fn a_compressed_page_is_printed_in_order() {
    let p = Printer::new(());
    let (sent, end) = run_well(p.print_compressed(&[9; 1100], 45, 2));
    assert_eq!(end, None);
    assert_eq!(
        sent,
        vec![
            "check",
            "query",
            "cmd 13 2",
            "query",
            "sleep 20",
            "query",
            "header 1100 3",
            "data 1100",
            "sleep 20",
            "cmd 10 1100 45",
            "sleep 100",
            "query",
        ]
    );
}

#[test]
fn a_long_stream_announces_its_length_modulo_two_bytes() {
    let p = Printer::new(());
    let ops = p.transfer_compressed(&vec![1u8; 65536 + 7], 9);
    assert_eq!(ops[0], Op::BulkHeader { len: 7, packets: 132 });
    assert_eq!(ops[3], Op::CmdTwo { cmd: CMD_BUF_FULL, first: 7, second: 9 });
}

#[test]
fn an_absent_device_gets_nothing_more() {
    let p = Printer::new(());
    for answer in [None, Some(false)] {
        let (mut flow, action) = Flow::new(p.print_compressed(&[1], 1, 0));
        assert_eq!(action, Action::Perform);
        assert_eq!(flow.op(), &Op::CheckDevice);
        assert_eq!(
            flow.step(Event::Answered(answer)),
            Action::Fail(Error::InvalidResponse("CHECK_DEVICE failed".to_string()))
        );
        assert!(flow.is_over());
    }
}

#[test]
fn a_faulty_device_is_not_started() {
    let p = Printer::new(());
    let (mut flow, _) = Flow::new(p.print_compressed(&[1], 1, 0));
    assert_eq!(flow.step(Event::Answered(Some(true))), Action::Query);
    assert_eq!(
        flow.step(Event::Status(Some(faulty("cover open")))),
        Action::Fail(Error::InvalidResponse("printer error: cover open".to_string()))
    );
}

#[test]
fn a_busy_device_is_asked_sixty_times() {
    let p = Printer::new(());
    let (mut flow, _) = Flow::new(p.print_compressed(&[1], 1, 0));
    let mut action = flow.step(Event::Answered(Some(true)));
    let mut queries = 0;
    loop {
        action = match action {
            Action::Query => {
                queries += 1;
                let busy = PrinterStatus { device_busy: true, ..PrinterStatus::default() };
                flow.step(Event::Status(Some(busy)))
            }
            Action::Sleep(ms) => {
                assert_eq!(ms, 100);
                flow.step(Event::Slept)
            }
            other => {
                action = other;
                break;
            }
        };
    }
    assert_eq!(queries, 60);
    assert_eq!(
        action,
        Action::Fail(Error::InvalidResponse(
            "timeout waiting for device ready".to_string()
        ))
    );
}

/// A flow of one wait, fed with the same answer until it ends.
fn starve(kind: WaitKind) -> (usize, Action) {
    let (mut flow, mut action) = Flow::new(vec![Op::Await(kind)]);
    let mut queries = 0;
    loop {
        action = match action {
            Action::Query => {
                queries += 1;
                flow.step(Event::Status(None))
            }
            Action::Sleep(_) => flow.step(Event::Slept),
            other => return (queries, other),
        };
    }
}

#[test]
fn every_wait_gives_up() {
    let refused = |s: &str| Action::Fail(Error::InvalidResponse(s.to_string()));
    assert_eq!(starve(WaitKind::Ready), (60, refused("timeout waiting for device ready")));
    assert_eq!(starve(WaitKind::Printing), (60, refused("timeout waiting for printing station")));
    assert_eq!(starve(WaitKind::Buffer), (200, refused("timeout waiting for buffer space")));
    assert_eq!(
        starve(WaitKind::Completion),
        (300, Action::Fail(Error::Timeout("print completion".to_string())))
    );
}

#[test]
fn a_fault_breaks_a_wait() {
    let (mut flow, action) = Flow::new(vec![Op::Await(WaitKind::Printing)]);
    assert_eq!(action, Action::Query);
    assert_eq!(
        flow.step(Event::Status(Some(faulty("label end")))),
        Action::Fail(Error::InvalidResponse(
            "printer error after START_PRINT: label end".to_string()
        ))
    );
    let (mut flow, action) = Flow::new(vec![Op::Await(WaitKind::Buffer)]);
    assert_eq!(action, Action::Sleep(20));
    assert_eq!(flow.step(Event::Slept), Action::Query);
    let unnamed = PrinterStatus { has_error: true, ..PrinterStatus::default() };
    assert_eq!(
        flow.step(Event::Status(Some(unnamed))),
        Action::Fail(Error::InvalidResponse(
            "printer error while waiting for buffer: ".to_string()
        ))
    );
}

#[test]
fn a_fault_does_not_hold_up_completion() {
    let (mut flow, action) = Flow::new(vec![Op::Await(WaitKind::Completion)]);
    assert_eq!(action, Action::Sleep(100));
    assert_eq!(flow.step(Event::Slept), Action::Query);
    assert_eq!(flow.step(Event::Status(Some(faulty("label end")))), Action::Done);
}

#[test]
fn an_unanswered_announcement_ends_the_print() {
    let p = Printer::new(());
    let (mut flow, action) = Flow::new(p.transfer_compressed(&[1, 2], 3));
    assert_eq!(action, Action::Perform);
    assert_eq!(
        flow.step(Event::Answered(None)),
        Action::Fail(Error::InvalidResponse(
            "no response to NEXT_ZIPPEDBULK".to_string()
        ))
    );
    let (mut flow, _) = Flow::new(p.transfer_compressed(&[1, 2], 3));
    assert_eq!(flow.step(Event::Answered(Some(false))), Action::Perform);
    assert_eq!(flow.op(), &Op::BulkData(vec![1, 2]));
}

#[test]
fn a_transport_failure_ends_the_flow() {
    let p = Printer::new(());
    let (mut flow, _) = Flow::new(p.print_compressed(&[1], 1, 0));
    let gone = || Error::Io("gone".to_string());
    assert_eq!(flow.step(Event::Failed(gone())), Action::Fail(gone()));
    assert!(flow.is_over());
}

#[test]
fn an_empty_script_is_done_at_once() {
    let (flow, action) = Flow::new(Vec::new());
    assert_eq!(action, Action::Done);
    assert!(flow.is_over());
}

#[test]
fn two_pages_of_the_e_series_are_sent_in_order() {
    let p = Printer::new(());
    let pages = vec![vec![[1u8; 4096]; 2], vec![[2u8; 4096]]];
    let ops = p.print_eseries(&pages, 504).unwrap();
    assert_eq!(ops[0], Op::CheckDevice);
    assert_eq!(ops[1], Op::Await(WaitKind::Ready));
    let setup = [0x02, 0, 0, 0x02, 0, 0, 0xf8, 0x01, 0x03, 0, 0, 0, 0];
    assert_eq!(ops[2], Op::Frame(make_cmd_ext(0xD0, &setup)));
    match &ops[3] {
        Op::ESeriesBulk { cmd, stream } => {
            assert_eq!(*cmd, 0xD1);
            assert_eq!(decompress_lzma(stream).unwrap(), vec![1u8; 8192]);
        }
        other => panic!("unexpected {other:?}"),
    }
    assert_eq!(ops[4], Op::DateFrame);
    assert_eq!(ops[5], Op::Cmd { cmd: 0xC9, param: 0x6e });
    assert_eq!(ops[6], Op::Cmd { cmd: CMD_START_PRINT, param: 0 });
    assert_eq!(ops[7], Op::Await(WaitKind::Printing));
    assert_eq!(ops[8], Op::Cmd { cmd: 0xBA, param: 0x19 });
    assert_eq!(ops[9], Op::CmdTwo { cmd: CMD_NEXT_ZIPPEDBULK, first: 512, second: 1 });
    assert_eq!(ops[10], Op::Await(WaitKind::Buffer));
    match &ops[11] {
        Op::ESeriesBulk { cmd, stream } => {
            assert_eq!(*cmd, 0xBB);
            assert_eq!(decompress_lzma(stream).unwrap(), vec![2u8; 4096]);
        }
        other => panic!("unexpected {other:?}"),
    }
    assert_eq!(ops[12], Op::Pause(20));
    assert_eq!(ops[13], Op::CmdTwo { cmd: CMD_BUF_FULL, first: 0, second: 0 });
    assert_eq!(ops[14], Op::Await(WaitKind::Completion));
    assert_eq!(ops.len(), 15);
}

#[test]
fn a_single_page_of_the_e_series_is_sent_twice() {
    let p = Printer::new(());
    let ops = p.print_eseries(&[vec![[3u8; 4096]]], 10).unwrap();
    assert_eq!(ops.len(), 15);
    match (&ops[3], &ops[11]) {
        (Op::ESeriesBulk { cmd: a, stream: s }, Op::ESeriesBulk { cmd: b, stream: t }) => {
            assert_eq!((*a, *b), (0xD1, 0xBB));
            assert_eq!(s, t);
        }
        other => panic!("unexpected {other:?}"),
    }
}

#[test]
fn later_pages_announce_their_frames() {
    let streams = vec![vec![0u8; 10], vec![1u8; 1001], Vec::new()];
    let ops = eseries_ops(&streams, 1);
    assert_eq!(ops[7], Op::CmdTwo { cmd: 0x5C, first: 512, second: 3 });
    assert_eq!(ops[9], Op::ESeriesBulk { cmd: 0xBB, stream: vec![1u8; 1001] });
    assert_eq!(ops[10], Op::CmdTwo { cmd: 0x5C, first: 512, second: 1 });
    assert_eq!(ops.len(), 16);
}

#[test]
fn nothing_to_print_is_refused() {
    let p = Printer::new(());
    let refused = Error::InvalidParam("no pages/buffers".to_string());
    assert_eq!(p.print_eseries(&[], 1).unwrap_err(), refused);
    assert_eq!(p.print_eseries(&[Vec::new()], 1).unwrap_err(), refused);
}

#[test]
fn an_empty_later_page_fails_once_the_device_is_ready() {
    let p = Printer::new(());
    let pages = vec![vec![[1u8; 4096]], Vec::new()];
    let (sent, end) = run_well(p.print_eseries(&pages, 1).unwrap());
    assert_eq!(sent, vec!["check", "query"]);
    assert_eq!(end, Some(Error::InvalidParam("no buffers to compress".to_string())));
}

#[test]
fn a_calibration_print_goes_out_without_margins() {
    let p = Printer::new(());
    let ops = p.calibrate_print(16, 20, 4, 0, |avg| avg as u16 + 1).unwrap();
    assert_eq!(ops[2], Op::Cmd { cmd: CMD_START_PRINT, param: 1 });
    let stream = match &ops[6] {
        Op::BulkData(s) => s.clone(),
        other => panic!("unexpected {other:?}"),
    };
    let speed = stream.len() as u16 + 1;
    let len = stream.len() as u16;
    assert_eq!(ops[8], Op::CmdTwo { cmd: CMD_BUF_FULL, first: len, second: speed });
    let page = decompress_lzma(&stream).unwrap();
    assert_eq!(page.len(), 4096);
    assert_eq!(&page[4..7], &[20, 0, 2]);
    assert_eq!(&page[14..18], &[0xFF, 0xFF, 0xFF, 0xFF]);
    let solid = p.calibrate_print_opts(16, 20, 4, 0, true, 3, |_| 7).unwrap();
    assert_eq!(solid[2], Op::Cmd { cmd: CMD_START_PRINT, param: 3 });
    match &solid[6] {
        Op::BulkData(s) => {
            let page = decompress_lzma(s).unwrap();
            assert!(page[14..54].iter().all(|&b| b == 0xFF));
        }
        other => panic!("unexpected {other:?}"),
    }
}

#[test]
fn equal_feeds_give_equal_margins() {
    let p = Printer::new(());
    let opts = ESeriesBufOpts::default();
    let ops = p.calibrate_print_e(8, 10, 40, true, 34, 34, opts).unwrap();
    let stream = match &ops[3] {
        Op::ESeriesBulk { stream, .. } => stream.clone(),
        other => panic!("unexpected {other:?}"),
    };
    let page = decompress_lzma(&stream).unwrap();
    // 34 - 24 blank columns, the pattern, 34 blank columns
    assert_eq!(&page[4..7], &[54, 0, 1]);
    assert!(page[14..24].iter().all(|&b| b == 0));
    assert!(page[24..34].iter().all(|&b| b == 0xFF));
    assert!(page[34..68].iter().all(|&b| b == 0));
    // a single buffer is the last one: its energy is off
    assert_eq!(page[12], 0);
    let ops = p.calibrate_print_e(8, 10, 40, true, 5, 0, opts).unwrap();
    match &ops[3] {
        Op::ESeriesBulk { stream, .. } => assert_eq!(decompress_lzma(stream).unwrap()[4], 10),
        other => panic!("unexpected {other:?}"),
    }
}

#[test]
fn a_test_print_gives_eight_columns_to_each_margin() {
    let p = Printer::new(());
    let image = vec![0x55u8; 48 * 100];
    let ops = p.test_print(&image, 48, 100, 6, |_| 20).unwrap();
    assert_eq!(ops[2], Op::Cmd { cmd: CMD_START_PRINT, param: 0 });
    match &ops[6] {
        Op::BulkData(s) => {
            let page = decompress_lzma(s).unwrap();
            assert_eq!(&page[4..13], &[84, 0, 48, 0, 8, 0, 8, 0, 6]);
        }
        other => panic!("unexpected {other:?}"),
    }
    let refused = p.test_print(&image, 48, 16, 6, |_| 20).unwrap_err();
    assert_eq!(refused, Error::InvalidParam("no buffers to compress".to_string()));
}

#[test]
fn test_labels_fit_the_head() {
    let mat = MaterialInfo { width_mm: 60, height_mm: 0, ..MaterialInfo::default() };
    assert_eq!(test_label_size(&mat, 48, 30), (48, 30));
    let mat = MaterialInfo { width_mm: 40, height_mm: 25, ..MaterialInfo::default() };
    assert_eq!(test_label_size(&mat, 48, 30), (40, 25));
}

#[test]
fn single_commands() {
    let p = Printer::new(());
    let cmd = |cmd: u8| Command { cmd, param: 0 };
    assert_eq!(p.check_device(), cmd(0x12));
    assert_eq!(p.query_status(), cmd(0x11));
    assert_eq!(p.query_material(), cmd(0x30));
    assert_eq!(p.read_device_name(), cmd(0x16));
    assert_eq!(p.read_firmware_version(), cmd(0xC5));
    assert_eq!(p.read_version(), cmd(0x17));
    assert_eq!(p.read_label_dpi_raw(), cmd(0x22));
    assert_eq!(p.stop_print(), cmd(0x14));
    assert_eq!(p.paper_skip(), cmd(0x2E));
    assert_eq!(p.start_print(3), Command { cmd: 0x13, param: 3 });
    assert_eq!(p.send_raw_cmd(0x24, 5), Command { cmd: 0x24, param: 5 });
}

#[test]
fn a_blank_label_feed_needs_an_echo() {
    assert_eq!(paper_skip_reply(Some(true)), Ok(()));
    for answer in [None, Some(false)] {
        assert!(!echoes(answer));
        assert_eq!(
            paper_skip_reply(answer),
            Err(Error::InvalidResponse("PAPER_SKIP: no ack".to_string()))
        );
    }
}

#[test]
fn targets_are_told_apart() {
    assert_eq!(open_target("/dev/hidraw3"), Target::Usb);
    assert_eq!(open_target("/dev/hidra"), Target::Bluetooth);
    assert_eq!(open_target("AA:BB:CC:DD:EE:FF"), Target::Bluetooth);
}

#[test]
fn waits_on_their_own() {
    let p = Printer::new(());
    assert_eq!(p.wait_ready(0).1, WaitStep::GaveUp);
    let (mut w, step) = p.wait_ready(2);
    assert_eq!(step, WaitStep::Query);
    assert_eq!(w.on_status(Some(printing())), WaitStep::Sleep(100));
    assert_eq!(w.on_slept(), WaitStep::Query);
    // a fault does not keep a device from being ready
    assert_eq!(w.on_status(Some(faulty("x"))), WaitStep::Settled(faulty("x")));

    let (mut w, step) = p.wait_printing(1);
    assert_eq!(step, WaitStep::Query);
    assert_eq!(w.on_status(Some(idle())), WaitStep::Sleep(100));
    assert_eq!(w.on_slept(), WaitStep::GaveUp);

    let (mut w, step) = p.wait_buffer_ready(1);
    assert_eq!(step, WaitStep::Sleep(20));
    assert_eq!(w.on_slept(), WaitStep::Query);
    let full = PrinterStatus { buf_full: true, ..PrinterStatus::default() };
    assert_eq!(w.on_status(Some(full)), WaitStep::GaveUp);

    let (mut w, _) = Wait::start(WaitKind::Printing, 5);
    assert_eq!(w.on_status(Some(printing())), WaitStep::Settled(printing()));
}

#[test]
fn the_date_is_that_of_the_moment() {
    let mut date = b"20260625".to_vec();
    date.extend_from_slice(&[0; 6]);
    assert_eq!(date_frame(1_782_345_600), make_cmd_ext(0xB0, &date));
    let mut eve = b"20260624".to_vec();
    eve.extend_from_slice(&[0; 6]);
    assert_eq!(date_frame(1_782_345_599), make_cmd_ext(0xB0, &eve));
}

#[test]
fn compressed_pages_become_a_job() {
    let ops = eseries_plan(Ok(vec![vec![1, 2], vec![3]]), 9);
    assert_eq!(ops.len(), 15);
    assert_eq!(ops[0], Op::CheckDevice);
    assert_eq!(ops[3], Op::ESeriesBulk { cmd: 0xD1, stream: vec![1, 2] });
    assert_eq!(ops[11], Op::ESeriesBulk { cmd: 0xBB, stream: vec![3] });
    let refused = || Error::Compression("x".to_string());
    assert_eq!(
        eseries_plan(Err(refused()), 9),
        vec![Op::CheckDevice, Op::Await(WaitKind::Ready), Op::Abort(refused())]
    );
}

#[test]
fn a_compressed_page_becomes_a_print() {
    let p = Printer::new(());
    let ops = plan_compressed(Ok((vec![5; 12], 6)), |avg| avg as u16 * 2, 3).unwrap();
    assert_eq!(ops, p.print_compressed(&[5; 12], 12, 3));
    let refused = || Error::Compression("x".to_string());
    assert_eq!(plan_compressed(Err(refused()), |_| 0, 3), Err(refused()));
}
