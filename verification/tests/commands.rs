use supvan::cmd::{
    make_cmd, make_cmd_ext, make_cmd_start_trans, CMD_CHECK_DEVICE, CMD_INQUIRY_STA,
    CMD_NEXT_ZIPPEDBULK, MAGIC1, MAGIC2,
};

#[test]
fn test_make_cmd_check_device() {
    let pkt = make_cmd(CMD_CHECK_DEVICE, 0);
    assert_eq!(pkt[0], MAGIC1);
    assert_eq!(pkt[1], MAGIC2);
    assert_eq!(pkt[2], 0x0C);
    assert_eq!(pkt[3], 0x00);
    assert_eq!(pkt[7], CMD_CHECK_DEVICE);
    assert_eq!(pkt[10], 0x00);
    assert_eq!(pkt[11], 0x01);
    assert_eq!(pkt[12], 0x00);
    assert_eq!(pkt[13], 0x00);
    assert_eq!(pkt[14], 0x00);
    assert_eq!(pkt[15], 0x00);
    // checksum: sum of bytes 10..16 = 0+1+0+0+0+0 = 1
    assert_eq!(pkt[8], 0x01);
    assert_eq!(pkt[9], 0x00);
}

#[test]
fn test_make_cmd_with_param() {
    let pkt = make_cmd(CMD_INQUIRY_STA, 0x1234);
    assert_eq!(pkt[12], 0x34);
    assert_eq!(pkt[13], 0x12);
    let chk: u16 = pkt[10..16].iter().map(|&b| b as u16).sum();
    assert_eq!(pkt[8], (chk & 0xFF) as u8);
    assert_eq!(pkt[9], (chk >> 8) as u8);
}

#[test]
fn test_make_cmd_start_trans() {
    let pkt = make_cmd_start_trans(CMD_NEXT_ZIPPEDBULK, 512, 3);
    assert_eq!(pkt[7], CMD_NEXT_ZIPPEDBULK);
    assert_eq!(pkt[12], 0x00); // 512 & 0xFF
    assert_eq!(pkt[13], 0x02); // 512 >> 8
    assert_eq!(pkt[14], 0x03);
    assert_eq!(pkt[15], 0x00);
    let chk: u16 = pkt[10..16].iter().map(|&b| b as u16).sum();
    assert_eq!(pkt[8], (chk & 0xFF) as u8);
    assert_eq!(pkt[9], (chk >> 8) as u8);
}

#[test]
fn test_make_cmd_ext_matches_captured_d0() {
    // D0 setup frame of an E10pro:
    // 7e5a15001001aad0 0101 0001 02 0000 02 0000 f801 03 0000 0000
    let params = [
        0x02, 0x00, 0x00, 0x02, 0x00, 0x00, 0xf8, 0x01, 0x03, 0x00, 0x00, 0x00, 0x00,
    ];
    let frame = make_cmd_ext(0xD0, &params);
    let expected =
        hex_to_vec("7e5a15001001aad00101000102000002 0000f8010300000000");
    assert_eq!(frame, expected);
}

#[test]
fn test_make_cmd_ext_matches_captured_b0() {
    // Captured B0 frame carrying the ASCII date "20260625".
    let mut params = b"20260625".to_vec();
    params.extend_from_slice(&[0, 0, 0, 0, 0, 0]); // trailing zeros from capture
    let frame = make_cmd_ext(0xB0, &params);
    let expected = hex_to_vec("7e5a16001001aab0980100013230323630363235000000000000");
    assert_eq!(frame, expected);
}

fn hex_to_vec(s: &str) -> Vec<u8> {
    let s: String = s.chars().filter(|c| !c.is_whitespace()).collect();
    (0..s.len())
        .step_by(2)
        .map(|i| u8::from_str_radix(&s[i..i + 2], 16).unwrap())
        .collect()
}

#[test]
fn an_extended_command_with_two_words_is_a_standard_one() {
    let frame = make_cmd_ext(0x5C, &[0x00, 0x02, 0x03, 0x00]);
    assert_eq!(frame, make_cmd_start_trans(CMD_NEXT_ZIPPEDBULK, 512, 3).to_vec());
}

#[test]
fn command_checksums_add_up() {
    let pkt = make_cmd_start_trans(0x10, 0xFFFF, 0xFFFF);
    // 1 + 4 * 255
    assert_eq!(u16::from_le_bytes([pkt[8], pkt[9]]), 1021);
    let long = vec![0xFFu8; 300];
    let frame = make_cmd_ext(0xD0, &long);
    // 300 * 255 + 1 modulo 2^16
    assert_eq!(u16::from_le_bytes([frame[8], frame[9]]), 10965);
    assert_eq!(u16::from_le_bytes([frame[2], frame[3]]), 308);
    assert_eq!(frame.len(), 312);
}
