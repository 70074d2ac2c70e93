use supvan::bt_transport::BtTransport;
use supvan::cmd::{make_cmd, make_cmd_start_trans};
use supvan::data::{build_data_frames, build_eseries_bulk_frames};

#[test]
fn commands_go_out_as_frames() {
    let t = BtTransport::new(7u8);
    assert_eq!(t.sock, 7);
    assert!(t.use_socket_io());
    assert_eq!(t.send_cmd(0x12, 5), make_cmd(0x12, 5));
    assert_eq!(t.send_cmd_two(0x10, 5, 6), make_cmd_start_trans(0x10, 5, 6));
    assert_eq!(t.send_bulk_header(1100, 3), make_cmd_start_trans(0x5C, 512, 3));
    assert_eq!(t.send_bulk_header(0, 65537), make_cmd_start_trans(0x5C, 512, 1));
}

#[test]
fn every_acknowledgement_but_the_last_is_read() {
    let t = BtTransport::new(());
    let data = [3u8; 1100];
    let frames = build_data_frames(&data);
    for final_response in [false, true] {
        let plan = t.send_bulk_data(&data, final_response);
        assert_eq!(plan.len(), 3);
        for (i, f) in plan.iter().enumerate() {
            assert_eq!(f.bytes, frames[i]);
            assert_eq!(f.is_last, i == 2);
            assert_eq!(f.read_response, i < 2 || final_response);
        }
    }
    assert!(t.send_bulk_data(&[], true).is_empty());
}

#[test]
fn every_page_frame_is_answered() {
    let t = BtTransport::new(());
    let plan = t.send_eseries_bulk(0xD1, &[1u8; 501]);
    let frames = build_eseries_bulk_frames(0xD1, &[1u8; 501]);
    assert_eq!(plan.len(), 2);
    assert!(plan.iter().all(|f| f.read_response));
    assert!(plan[1].is_last && !plan[0].is_last);
    assert_eq!(plan[1].bytes, frames[1]);
}
