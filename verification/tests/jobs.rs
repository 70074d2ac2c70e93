use supvan::compress::decompress_lzma;
use supvan::error::Error;
use supvan::flow::{Op, WaitStep};
use supvan::job::{
    density_for, end_poll, energy_for, failure_from_proto, failure_from_status, outcome_text,
    other_failure, page_failure, reasons_from_status, refusal_failure, wants_status, EndStep, Failure, KsJob,
    PageRefusal, Reasons,
};
use supvan::printer::Printer;
use supvan::status::PrinterStatus;

const NONE: Reasons = Reasons {
    cover_open: false,
    media_empty: false,
    media_jam: false,
    media_needed: false,
    offline: false,
    other: false,
};

#[test]
fn each_flag_has_its_reason() {
    let quiet = PrinterStatus::default;
    assert_eq!(reasons_from_status(&quiet()), NONE);
    let s = PrinterStatus { cover_open: true, ..quiet() };
    assert_eq!(reasons_from_status(&s), Reasons { cover_open: true, ..NONE });
    let empty = Reasons { media_empty: true, ..NONE };
    let s = PrinterStatus { label_end: true, ..quiet() };
    assert_eq!(reasons_from_status(&s), empty);
    let s = PrinterStatus { label_not_installed: true, ..quiet() };
    assert_eq!(reasons_from_status(&s), empty);
    let jam = Reasons { media_jam: true, ..NONE };
    let s = PrinterStatus { label_rw_error: true, ..quiet() };
    assert_eq!(reasons_from_status(&s), jam);
    let s = PrinterStatus { label_mode_error: true, ..quiet() };
    assert_eq!(reasons_from_status(&s), jam);
    let s = PrinterStatus { ribbon_rw_error: true, ..quiet() };
    assert_eq!(reasons_from_status(&s), jam);
    let s = PrinterStatus { ribbon_end: true, ..quiet() };
    assert_eq!(reasons_from_status(&s), Reasons { media_needed: true, ..NONE });
    let s = PrinterStatus { head_temp_high: true, ..quiet() };
    assert_eq!(reasons_from_status(&s), Reasons { other: true, ..NONE });
}

#[test]
fn failures_have_a_reason_and_words() {
    let other = Reasons { other: true, ..NONE };
    let f = failure_from_status(&PrinterStatus::default(), "print");
    assert_eq!(f, Failure { reasons: other, message: "print: unknown".to_string() });
    let s = PrinterStatus {
        cover_open: true,
        error_description: Some("cover open".to_string()),
        ..PrinterStatus::default()
    };
    let f = failure_from_status(&s, "poll");
    assert_eq!(f.reasons, Reasons { cover_open: true, ..NONE });
    assert_eq!(f.message, "poll: cover open");
    let f = failure_from_proto(&Error::Io("x".to_string()), "io error: x", "print");
    assert_eq!(f.reasons, Reasons { offline: true, ..NONE });
    assert_eq!(f.message, "print: io error: x");
    let f = failure_from_proto(&Error::Timeout("x".to_string()), "timeout", "print");
    assert_eq!(f.reasons, other);
}

#[test]
fn an_unexpected_answer_is_explained_by_the_status() {
    let unexpected = || Error::InvalidResponse("no answer".to_string());
    assert!(wants_status(&unexpected()));
    assert!(!wants_status(&Error::Compression("x".to_string())));
    let faulty = PrinterStatus {
        has_error: true,
        label_end: true,
        error_description: Some("label end".to_string()),
        ..PrinterStatus::default()
    };
    let f = page_failure(unexpected(), "shown", Some(faulty));
    assert_eq!(f.reasons, Reasons { media_empty: true, ..NONE });
    assert_eq!(f.message, "print: label end");
    let f = page_failure(unexpected(), "shown", Some(PrinterStatus::default()));
    assert_eq!(f, other_failure("no answer".to_string()));
    let f = page_failure(unexpected(), "shown", None);
    assert_eq!(f, other_failure("no answer".to_string()));
    let f = page_failure(Error::Io("x".to_string()), "shown", None);
    assert_eq!(f.reasons, Reasons { offline: true, ..NONE });
    assert_eq!(f.message, "print: shown");
}

#[test]
fn a_refused_page_in_words() {
    assert_eq!(refusal_failure("no memory"), other_failure("compression: no memory".to_string()));
}

#[test]
fn outcomes_in_words() {
    assert_eq!(outcome_text(&Ok(())), "completed");
    let f = other_failure("print: label end".to_string());
    assert_eq!(outcome_text(&Err(f)), "aborted: print: label end");
}

#[test]
fn lines_are_independent() {
    let mut job = KsJob::start(20, 3, 3, 4, 384, None).unwrap();
    assert_eq!(job.raster_data, vec![0; 9]);
    assert!(job.append_line(1, &[1, 2, 3, 4]));
    assert!(job.append_line(2, &[5]));
    assert!(job.append_line(1, &[9]));
    assert!(!job.append_line(3, &[7]));
    assert_eq!(job.raster_data, vec![0, 0, 0, 9, 2, 3, 5, 0, 0]);
    assert_eq!(job.lines_received, 3);
    job.clear_page();
    assert_eq!(job, KsJob::start(20, 3, 3, 4, 384, None).unwrap());
}

#[test]
fn a_line_past_the_page_is_refused() {
    let mut job = KsJob::start(8, 2, 1, 4, 384, None).unwrap();
    assert_eq!(job.write_line(1, &[3]), Ok(()));
    let f = job.write_line(12, &[3]).unwrap_err();
    assert_eq!(f, other_failure("write_line: y=12 out of bounds".to_string()));
    assert_eq!(job.lines_received, 1);
}

#[test]
fn a_page_is_cleared_after_its_last_copy() {
    let mut job = KsJob::start(8, 1, 1, 4, 384, None).unwrap();
    assert!(job.append_line(0, &[3]));
    assert!(job.end_page(2, 0));
    assert!(job.end_page(2, 1));
    assert_eq!(job.raster_data, vec![3]);
    assert!(!job.end_page(2, 2));
    assert_eq!(job.raster_data, vec![0]);
    assert_eq!(job.lines_received, 0);
}

#[test]
fn darkness_is_scaled() {
    assert_eq!(density_for(0), 0);
    assert_eq!(density_for(50), 8);
    assert_eq!(density_for(100), 15);
    assert_eq!(density_for(-10), 255);
    assert_eq!(energy_for(0), 0);
    assert_eq!(energy_for(75), 23);
    assert_eq!(energy_for(100), 31);
    assert_eq!(energy_for(200), 31);
    assert_eq!(energy_for(-50), 0);
}

#[test]
fn jobs_start_as_their_options_say() {
    let job = KsJob::start_job(90, 2, 8, 90, 50, 96, "supvan_e10pro").unwrap();
    assert_eq!(job.bytes_per_line, 12);
    assert_eq!(job.density, 8);
    assert_eq!(job.eseries_energy, Some(16));
    let job = KsJob::start_job(90, 2, 1, 16, 50, 384, "supvan_t50").unwrap();
    assert_eq!(job.bytes_per_line, 16);
    assert_eq!(job.raster_data.len(), 32);
    assert_eq!(job.eseries_energy, None);
}

#[test]
fn an_e_series_page_is_packed_and_sent_as_it_is() {
    let p = Printer::new(());
    let job = KsJob::start(8, 3, 1, 4, 16, Some(30)).unwrap();
    let (canvas, bpl) = job.eseries_canvas(&[0xFF, 0x0F, 0x01], 3);
    assert_eq!(bpl, 2);
    assert_eq!(canvas, vec![0xFF, 0, 0x0F, 0, 0x01, 0]);
    let ops = job.transfer_page(&p, &canvas, bpl, 3, 8, |_| 1).unwrap();
    match &ops[3] {
        Op::ESeriesBulk { cmd, stream } => {
            assert_eq!(*cmd, 0xD1);
            let page = decompress_lzma(stream).unwrap();
            assert_eq!(&page[2..12], &[0x1E, 0x10, 3, 0, 2, 0, 1, 0, 1, 0]);
            assert_eq!(&page[14..20], &[0xFF, 0, 0x0F, 0, 0x01, 0]);
        }
        other => panic!("unexpected {other:?}"),
    }
    assert_eq!(
        job.transfer_page(&p, &[], 2, 0, 8, |_| 1),
        Err(PageRefusal::Print(Error::InvalidParam("no pages/buffers".to_string())))
    );
}

#[test]
fn a_t50_page_gives_columns_to_its_margins() {
    let p = Printer::new(());
    let job = KsJob::start(16, 10, 2, 7, 384, None).unwrap();
    let canvas: Vec<u8> = (0..20).collect();
    let ops = job.transfer_page(&p, &canvas, 2, 10, 3, |avg| avg as u16).unwrap();
    assert_eq!(ops[2], Op::Cmd { cmd: 0x13, param: 0 });
    match (&ops[6], &ops[8]) {
        (Op::BulkData(stream), Op::CmdTwo { second, .. }) => {
            assert_eq!(*second as usize, stream.len());
            let page = decompress_lzma(stream).unwrap();
            assert_eq!(&page[2..13], &[0x0E, 0x5C, 4, 0, 2, 0, 3, 0, 3, 0, 7]);
            assert_eq!(&page[14..22], &[6, 7, 8, 9, 10, 11, 12, 13]);
        }
        other => panic!("unexpected {other:?}"),
    }
    assert_eq!(
        job.transfer_page(&p, &canvas, 2, 6, 3, |_| 1),
        Err(PageRefusal::Compression(Error::InvalidParam(
            "no buffers to compress".to_string()
        )))
    );
}

#[test]
fn the_end_of_a_job_is_awaited() {
    let job = KsJob::start(8, 1, 1, 4, 384, None).unwrap();
    let (mut w, step) = job.end();
    assert_eq!(step, WaitStep::Sleep(100));
    let busy = || PrinterStatus { device_busy: true, ..PrinterStatus::default() };
    for _ in 0..299 {
        assert_eq!(w.on_slept(), WaitStep::Query);
        assert_eq!(end_poll(&mut w, Ok(Some(busy()))), EndStep::Sleep(100));
    }
    assert_eq!(w.on_slept(), WaitStep::Query);
    assert_eq!(end_poll(&mut w, Ok(None)), EndStep::TimedOut);

    let job = KsJob::start(8, 1, 1, 4, 384, None).unwrap();
    let (mut w, _) = job.end();
    assert_eq!(w.on_slept(), WaitStep::Query);
    assert_eq!(end_poll(&mut w, Err(Error::Io("gone".to_string()))), EndStep::Settled);

    let job = KsJob::start(8, 1, 1, 4, 384, None).unwrap();
    let (mut w, _) = job.end();
    assert_eq!(w.on_slept(), WaitStep::Query);
    assert_eq!(end_poll(&mut w, Ok(Some(PrinterStatus::default()))), EndStep::Settled);
}
