use supvan::raster::{calibration_raster, can_calibrate, eseries_pack};

#[test]
fn eseries_pack_left_aligns_into_head_width() {
    // 2 columns, input 8 dots wide (1 byte/col), all set; head = 16 dots
    // (2 bytes/col). Content left-aligns into the low byte, high byte is 0
    // (NOT centered, unlike the T50 path).
    let input = vec![0xFF, 0xFF];
    let (out, bpl) = eseries_pack(&input, 2, 8, 16);
    assert_eq!(bpl, 2);
    assert_eq!(out, vec![0xFF, 0x00, 0xFF, 0x00]);
}

#[test]
fn eseries_pack_truncates_width_past_head() {
    // Input 16 dots wide (2 bytes/col), all set; head = 8 dots (1 byte/col).
    // Dots past the 8-dot head are dropped.
    let input = vec![0xFF, 0xFF];
    let (out, bpl) = eseries_pack(&input, 1, 16, 8);
    assert_eq!(bpl, 1);
    assert_eq!(out, vec![0xFF]);
}

#[test]
fn eseries_pack_preserves_lsb_first_bit_order() {
    // Single column, dot 0 set only (LSB-first). 96-dot head = 12 bytes/col.
    let input = vec![0x01];
    let (out, bpl) = eseries_pack(&input, 1, 8, 96);
    assert_eq!(bpl, 12);
    assert_eq!(out[0], 0x01, "dot 0 stays in the LSB");
    assert!(out[1..].iter().all(|&b| b == 0));
}

#[test]
fn a_short_input_leaves_blank_columns() {
    let (out, bpl) = eseries_pack(&[0xAA], 3, 8, 8);
    assert_eq!(bpl, 1);
    assert_eq!(out, vec![0xAA, 0, 0]);
}

#[test]
fn dots_past_the_input_width_are_dropped() {
    // Four dots wide: the high nibble of the input byte is no content.
    let (out, _) = eseries_pack(&[0xFF], 1, 4, 8);
    assert_eq!(out, vec![0x0F]);
}

#[test]
fn a_calibration_pattern_has_border_diagonal_and_ticks() {
    let (raster, bpl) = calibration_raster(16, 20, false, 0, 0);
    assert_eq!(bpl, 2);
    assert_eq!(raster.len(), 40);
    let on = |x: usize, y: usize| (raster[y * 2 + x / 8] >> (x % 8)) & 1 == 1;
    assert!(on(0, 7) && on(1, 7) && on(14, 7) && on(15, 7));
    assert!(on(7, 0) && on(7, 1) && on(7, 18) && on(7, 19));
    // 6 * 19 / 16 == 7
    assert!(on(6, 7));
    assert!(!on(7, 7) && !on(5, 7));
    assert!(on(5, 10) && !on(6, 10));
    assert!(on(10, 5) && !on(10, 6));
}

#[test]
fn a_solid_pattern_keeps_its_feeds_blank() {
    let (raster, bpl) = calibration_raster(9, 8, true, 2, 3);
    assert_eq!(bpl, 2);
    assert_eq!(raster.len(), 26);
    assert!(raster[..4].iter().all(|&b| b == 0));
    assert!(raster[20..].iter().all(|&b| b == 0));
    for col in 2..10 {
        assert_eq!(&raster[2 * col..2 * col + 2], &[0xFF, 0x01]);
    }
}

#[test]
fn patterns_have_a_largest_size() {
    assert!(can_calibrate(120, 240, 0, 0));
    assert!(can_calibrate(0, 0, 0, 0));
    assert!(can_calibrate(65536, 65536, 0, 0));
    assert!(!can_calibrate(65538, 65538, 0, 0));
    assert!(!can_calibrate(8, u32::MAX, 1, 0));
}
