use supvan::cli::{
    calibration_lines, calibration_path, check_calibration, closing_lines, default_material,
    dpi_candidates, dpi_queries, material_lines, measuring_lines, no_answer_line,
    probe_material_lines, query_lines, raw_lines, status_lines, Calibration, CalibrationPath,
    DpiCandidate,
};
use supvan::date::{civil_date, current_date_yyyymmdd, local_secs, now_iso, utc_offset};
use supvan::error::Error;
use supvan::status::{MaterialInfo, PrinterStatus};
use supvan::text::{decimal_text, hex_dump, padded_decimal_text, same_text, starts_with, strip_prefix};

fn label() -> MaterialInfo {
    MaterialInfo {
        width_mm: 40,
        height_mm: 30,
        gap_mm: 3,
        label_type: 1,
        sn: "S1".to_string(),
        uuid: "U1".to_string(),
        code: "C1".to_string(),
        remaining: Some(120),
        device_sn: Some("D1".to_string()),
    }
}

#[test]
fn a_status_in_lines() {
    let s = PrinterStatus {
        printing: true,
        print_count: 42,
        error_description: Some("label end".to_string()),
        ..PrinterStatus::default()
    };
    assert_eq!(
        status_lines(&s),
        vec![
            "Status:",
            "  printing:     true",
            "  device_busy:  false",
            "  buf_full:     false",
            "  low_battery:  false",
            "  cover_open:   false",
            "  print_count:  42",
            "  ERRORS:       label end",
        ]
    );
    assert_eq!(status_lines(&PrinterStatus::default()).len(), 7);
}

#[test]
fn a_material_in_lines() {
    assert_eq!(
        probe_material_lines(&label()),
        vec![
            "Material:",
            "  Label:     40mm x 30mm",
            "  Type:      1",
            "  Gap:       3mm",
            "  SN:        S1",
            "  UUID:      U1",
            "  Code:      C1",
            "  Remaining: 120 labels",
            "  Device SN: D1",
        ]
    );
    assert_eq!(
        material_lines(&label()),
        vec![
            "Label:     40mm x 30mm  (type=1, gap=3mm)",
            "Label SN:  S1",
            "RFID UID:  U1",
            "RFID code: C1",
            "Remaining: 120 labels",
            "Device SN: D1",
        ]
    );
    let sparse = MaterialInfo { remaining: None, device_sn: None, ..label() };
    assert_eq!(probe_material_lines(&sparse).len(), 7);
    let lines = material_lines(&sparse);
    assert_eq!(lines[4], "Remaining: (not reported)");
    assert_eq!(lines[5], "Device SN: (not in this response)");
}

#[test]
fn a_default_material() {
    let m = default_material(48, 30, 3);
    let expected = MaterialInfo {
        width_mm: 48,
        height_mm: 30,
        gap_mm: 3,
        ..MaterialInfo::default()
    };
    assert_eq!(m, expected);
}

#[test]
fn resolutions_are_found_at_every_offset() {
    let at = |offset: usize, value: u16| DpiCandidate { offset, value };
    // 0x044C = 1100, 0x0500 = 1280
    assert_eq!(dpi_candidates(&[0x4C, 0x04, 0x00, 0x05]), vec![at(0, 1100), at(2, 1280)]);
    assert_eq!(dpi_candidates(&[0x4B, 0x04]), vec![]);
    assert_eq!(dpi_candidates(&[0x01, 0x05]), vec![]);
    assert_eq!(dpi_candidates(&[0x05]), vec![]);
    assert_eq!(dpi_candidates(&[]), vec![]);
    assert_eq!(dpi_candidates(&[4, 4, 5, 0]), vec![]);
    assert_eq!(dpi_candidates(&[0x9C, 0x04, 0x04]), vec![at(0, 1180)]);
}

#[test]
fn a_raw_answer_in_lines() {
    let resp = [0x7E, 0x5A, 0, 0, 0, 0, 0, 0x22, 1];
    assert_eq!(
        raw_lines(0x22, &resp),
        vec![
            "  raw (9 bytes): 7E 5A 00 00 00 00 00 22 01",
            "  echo byte[7]: 0x22 (matches command)",
        ]
    );
    assert_eq!(raw_lines(0x24, &resp)[1], "  echo byte[7]: 0x22 (differs)");
    assert_eq!(raw_lines(0x24, &[1, 2]), vec!["  raw (2 bytes): 01 02"]);
}

#[test]
fn small_patterns_are_refused() {
    assert_eq!(check_calibration(8, 8), Ok(()));
    let refused = Error::InvalidParam("width_dots and length_dots must be at least 8".to_string());
    assert_eq!(check_calibration(7, 8), Err(refused));
    assert!(check_calibration(8, 7).is_err());
}

#[test]
fn how_to_measure_a_pattern() {
    assert_eq!(
        measuring_lines(96, 240, false),
        vec![
            "After it prints, measure the OUTER border with a ruler:",
            "  dots/mm (across) = 96 / measured_width_mm",
            "  dots/mm (feed)   = 240 / measured_length_mm",
        ]
    );
    assert!(measuring_lines(96, 240, true).is_empty());
}

#[test]
fn dates_are_civil() {
    assert_eq!(civil_date(0), (1970, 1, 1));
    assert_eq!(current_date_yyyymmdd(0), "19700101");
    assert_eq!(current_date_yyyymmdd(951_782_400), "20000229");
    assert_eq!(current_date_yyyymmdd(951_782_399), "20000228");
    assert_eq!(current_date_yyyymmdd(1_782_345_600), "20260625");
    assert_eq!(current_date_yyyymmdd(4_107_542_399), "21000228");
    assert_eq!(current_date_yyyymmdd(4_107_542_400), "21000301");
    assert_eq!(now_iso(1_782_345_600), "unix:1782345600");
}

#[test]
fn numbers_and_bytes_in_text() {
    assert_eq!(decimal_text(0), "0");
    assert_eq!(decimal_text(u64::MAX), "18446744073709551615");
    assert_eq!(padded_decimal_text(7, 2), "07");
    assert_eq!(padded_decimal_text(123, 2), "123");
    assert_eq!(hex_dump(&[0x00, 0xAB, 0xFF]), "00 AB FF");
    assert_eq!(hex_dump(&[]), "");
}

#[test]
fn texts_are_compared() {
    assert!(same_text("abc", "abc") && !same_text("abc", "abd") && !same_text("ab", "abc"));
    assert!(starts_with("abc", "") && starts_with("abc", "ab") && !starts_with("a", "ab"));
    assert_eq!(strip_prefix("supvan://x", "supvan://"), Some("x"));
    assert_eq!(strip_prefix("mock://x", "supvan://"), None);
}

#[test]
fn local_time_is_off_by_its_zone() {
    assert_eq!(utc_offset("+0000"), Some(0));
    assert_eq!(utc_offset("+0530"), Some(19_800));
    assert_eq!(utc_offset("-0330"), Some(-12_600));
    for bad in ["", "0200", "+02:0", "+020", "+02000", "+02a0"] {
        assert_eq!(utc_offset(bad), None);
    }
    assert_eq!(local_secs(1000, 500), 1500);
    assert_eq!(local_secs(1000, -2000), 0);
    assert_eq!(local_secs(u64::MAX, 1), u64::MAX);
    // one hour before midnight in UTC is the next day two hours to the east
    let evening = 1_782_345_600 - 3600;
    assert_eq!(current_date_yyyymmdd(evening), "20260624");
    assert_eq!(current_date_yyyymmdd(local_secs(evening, 7200)), "20260625");
}

#[test]
fn three_queries_for_the_resolution() {
    let queries = dpi_queries();
    let codes: Vec<u8> = queries.iter().map(|q| q.cmd).collect();
    assert_eq!(codes, vec![0x22, 0x24, 0x25]);
    assert_eq!(query_lines(&queries[1]), vec!["", "=== RD_LAB_DPI24 (0x24) ==="]);
    assert_eq!(
        no_answer_line(),
        "  (no response \u{2014} printer does not recognize this command)"
    );
    assert_eq!(
        closing_lines(true),
        vec!["", "For comparison, the T50 family the driver hardcodes is 8.0 dots/mm (203 DPI)."]
    );
    let lines = closing_lines(false);
    assert_eq!(lines.len(), 4);
    assert!(lines[1].starts_with("No DPI command answered. Re-run with RUST_LOG=debug"));
    assert!(lines[1].ends_with("raw TX/RX, and the value may need to be read mid-print-flow instead."));
}

fn settings() -> Calibration {
    Calibration {
        width_dots: 96,
        length_dots: 240,
        density: 4,
        mat: 2,
        solid: false,
        start_param: 1,
        e_series: false,
        energy: 23,
        nodu: 5,
        cut: 3,
        lead_feed: 30,
        trail_feed: 40,
    }
}

#[test]
fn a_calibration_takes_its_path() {
    assert!(matches!(calibration_path(&settings()), Ok(CalibrationPath::T50)));
    let c = Calibration { e_series: true, ..settings() };
    match calibration_path(&c) {
        Ok(CalibrationPath::ESeries(opts)) => {
            assert_eq!((opts.nodu, opts.energy, opts.cut, opts.mat), (5, 23, 3, 2));
            assert_eq!((opts.margin_top, opts.margin_bottom), (1, 1));
        }
        other => panic!("unexpected {other:?}"),
    }
    let small = Calibration { width_dots: 7, ..settings() };
    assert!(matches!(calibration_path(&small), Err(Error::InvalidParam(_))));
}

#[test]
fn a_calibration_is_announced() {
    let lines = calibration_lines(&settings());
    assert_eq!(
        lines[0],
        "Calibration print: 96 x 240 dots (density=4, mat=2, solid=false, start_param=1)."
    );
    assert_eq!(lines[1..], measuring_lines(96, 240, false)[..]);
    let c = Calibration { e_series: true, solid: true, ..settings() };
    assert_eq!(
        calibration_lines(&c),
        vec![
            "E-series calibration print: 96 x 240 dots (energy=23, nodu=5, cut=3, mat=2, lead_feed=30, trail_feed=40, solid=true)."
        ]
    );
}
