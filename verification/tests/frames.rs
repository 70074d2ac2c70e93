use supvan::cmd::{DATA_TYPE, MAGIC1, MAGIC2, PROTO_ID};
use supvan::data::{
    build_data_frames, build_eseries_bulk_frames, make_data_packet, make_eseries_bulk_frame,
    wrap_data_frame, DATA_MAGIC1,
    DATA_MAGIC2,
};

#[test]
fn test_make_data_packet() {
    let data = [0x42u8; 500];
    let pkt = make_data_packet(&data, 0, 3);
    assert_eq!(pkt[0], DATA_MAGIC1);
    assert_eq!(pkt[1], DATA_MAGIC2);
    assert_eq!(pkt[4], 0);
    assert_eq!(pkt[5], 3);
    assert_eq!(&pkt[6..506], &data[..]);
    let chk: u16 = pkt[4..506].iter().map(|&b| b as u16).sum();
    assert_eq!(pkt[2], (chk & 0xFF) as u8);
    assert_eq!(pkt[3], (chk >> 8) as u8);
}

#[test]
fn test_make_data_packet_short() {
    let data = [0xFFu8; 100];
    let pkt = make_data_packet(&data, 2, 5);
    assert_eq!(pkt[4], 2);
    assert_eq!(pkt[5], 5);
    // First 100 bytes should be 0xFF, rest 0x00
    assert_eq!(&pkt[6..106], &[0xFF; 100]);
    assert_eq!(&pkt[106..506], &[0x00; 400]);
}

#[test]
fn test_wrap_data_frame() {
    let pkt = [0xAA; 506];
    let frame = wrap_data_frame(&pkt);
    assert_eq!(frame[0], MAGIC1);
    assert_eq!(frame[1], MAGIC2);
    assert_eq!(frame[2], 0xFC);
    assert_eq!(frame[3], 0x01);
    assert_eq!(frame[4], PROTO_ID);
    assert_eq!(frame[5], DATA_TYPE);
    assert_eq!(&frame[6..512], &pkt[..]);
}

#[test]
fn test_build_data_frames() {
    // 1100 bytes -> 3 packets (500+500+100)
    let data = vec![0x42u8; 1100];
    let frames = build_data_frames(&data);
    assert_eq!(frames.len(), 3);
    // Check packet indices
    assert_eq!(frames[0][6 + 4], 0); // pkt_idx
    assert_eq!(frames[0][6 + 5], 3); // pkt_total
    assert_eq!(frames[1][6 + 4], 1);
    assert_eq!(frames[2][6 + 4], 2);
}

#[test]
fn test_eseries_bulk_frame_layout() {
    // Verify against the captured D1 chunk shape:
    // 7E 5A FC 01 10 02 AA <cmd> [chk LE][idx][tot] <500 LZMA>.
    let lzma = vec![0x5du8; 600]; // 2 chunks (500 + 100 padded)
    let frames = build_eseries_bulk_frames(0xD1, &lzma);
    assert_eq!(frames.len(), 2);
    let f = &frames[0];
    assert_eq!(&f[0..7], &[0x7e, 0x5a, 0xfc, 0x01, 0x10, 0x02, 0xaa]);
    assert_eq!(f[7], 0xD1, "command byte");
    assert_eq!(f[10], 0, "idx");
    assert_eq!(f[11], 2, "total");
    // checksum = LE u16 sum over [idx][tot] + 500 payload bytes (frame[10..])
    let chk: u16 = f[10..].iter().map(|&b| b as u16).sum();
    assert_eq!(u16::from_le_bytes([f[8], f[9]]), chk);
    assert_eq!(f.len(), 512);
    // last chunk: 100 real bytes, rest zero-padded to 500
    let g = &frames[1];
    assert_eq!(g[7], 0xD1);
    assert_eq!(g[10], 1);
    assert_eq!(g[11], 2);
    assert!(g[12..112].iter().all(|&b| b == 0x5d));
    assert!(g[112..512].iter().all(|&b| b == 0));
}

#[test]
fn chunk_checksums_wrap() {
    let pkt = make_data_packet(&[0xFF; 500], 1, 2);
    // 500 * 255 + 1 + 2 modulo 2^16
    assert_eq!(u16::from_le_bytes([pkt[2], pkt[3]]), 61967);
    let frame = make_eseries_bulk_frame(0xBB, &[0xFF; 500], 1, 2);
    assert_eq!(u16::from_le_bytes([frame[8], frame[9]]), 61967);
}

#[test]
fn frames_carry_the_stream() {
    let stream: Vec<u8> = (0..1234usize).map(|i| (i % 253) as u8).collect();
    let mut plain = Vec::new();
    for f in build_data_frames(&stream) {
        plain.extend_from_slice(&f[12..]);
    }
    plain.truncate(stream.len());
    assert_eq!(plain, stream);
    let mut paged = Vec::new();
    for f in build_eseries_bulk_frames(0xD1, &stream) {
        paged.extend_from_slice(&f[12..]);
    }
    paged.truncate(stream.len());
    assert_eq!(paged, stream);
}

#[test]
fn both_formats_meet_at_one_command() {
    let stream = [0x11u8; 700];
    assert_eq!(build_data_frames(&stream), build_eseries_bulk_frames(0xBB, &stream));
}

#[test]
fn an_empty_stream_takes_no_packet_but_one_page_frame() {
    assert!(build_data_frames(&[]).is_empty());
    let frames = build_eseries_bulk_frames(0xD1, &[]);
    assert_eq!(frames.len(), 1);
    assert_eq!(&frames[0][7..12], &[0xD1, 1, 0, 0, 1]);
    assert!(frames[0][12..].iter().all(|&b| b == 0));
}

#[test]
fn long_chunks_are_cut() {
    let pkt = make_data_packet(&[5; 600], 0, 1);
    assert!(pkt[6..].iter().all(|&b| b == 5));
    let frame = make_eseries_bulk_frame(0xD1, &[5; 600], 0, 1);
    assert!(frame[12..].iter().all(|&b| b == 5));
}
