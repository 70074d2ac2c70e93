use supvan::buffer::{
    build_page_reg_bits, build_print_buffer, reaches_image, split_into_buffers,
    split_into_buffers_e, ESeriesBufOpts, PageRegBits, PrintBufferParams,
};

#[test]
fn test_build_page_reg_bits_defaults() {
    let bits = build_page_reg_bits(&PageRegBits {
        nodu: 4,
        mat: 1,
        ..Default::default()
    });
    // b0: no flags, cut=0, savepaper=0 -> 0x00
    assert_eq!(bits[0], 0x00);
    // b1: first_cut=0, nodu=4 (<<2 = 0x10), mat=1 (<<6 = 0x40) -> 0x50
    assert_eq!(bits[1], 0x50);
}

#[test]
fn test_build_page_reg_bits_first_last() {
    let bits = build_page_reg_bits(&PageRegBits {
        page_st: true,
        page_end: true,
        prt_end: true,
        nodu: 4,
        mat: 1,
        ..Default::default()
    });
    // b0: PageSt=0x02, PageEnd=0x04, PrtEnd=0x08 = 0x0E
    assert_eq!(bits[0], 0x0E);
    assert_eq!(bits[1], 0x50);
}

#[test]
fn test_build_print_buffer_checksum() {
    let data = vec![0u8; 84 * 48]; // 84 cols * 48 bytes/line
    let buf = build_print_buffer(&PrintBufferParams {
        image_data: &data,
        per_line_byte: 48,
        cols_in_buf: 84,
        page_st: true,
        page_end: true,
        prt_end: true,
        margin_top: 8,
        margin_bottom: 8,
        nodu: 4,
        energy: None,
        cut: 0,
        mat: 1,
    });
    // Verify buffer structure
    assert_eq!(buf[6], 48); // bytes per line
    assert_eq!(buf[4], 84); // cols low
    assert_eq!(buf[5], 0); // cols high
    assert_eq!(buf[8], 8); // margin top
    assert_eq!(buf[12], 4); // density
    // Checksum should be non-zero (at least header bytes contribute)
    let chk = buf[0] as u16 | ((buf[1] as u16) << 8);
    assert!(chk > 0);
}

#[test]
fn test_split_into_buffers() {
    // 48 bytes/line, total 240 cols, margins 8+8 = 224 image cols
    // max_cols = 4074/48 = 84
    // 224 / 84 = 2 full + 56 remainder = 3 buffers
    let per_line_byte = 48u8;
    let total_cols = 240u16;
    let image_data = vec![0u8; total_cols as usize * per_line_byte as usize];
    let bufs = split_into_buffers(&image_data, per_line_byte, total_cols, 8, 8, 4, 1);
    assert_eq!(bufs.len(), 3);
}

#[test]
fn test_eseries_buffer_header_matches_capture() {
    // Reproduce the byte-verified E10pro D1 page header:
    // nodu=4, energy=23, cut=1, mat=0, margins 1/1; energy zeroed on page-end.
    let per_line_byte = 12u8;
    // 377 raster cols -> max_cols = 4074/12 = 339, so 339 + 38 = 2 buffers.
    let total_cols = 377u16;
    let image_data = vec![0u8; total_cols as usize * per_line_byte as usize];
    let bufs = split_into_buffers_e(
        &image_data,
        per_line_byte,
        total_cols,
        ESeriesBufOpts::default(),
    );
    assert_eq!(bufs.len(), 2);

    // buf1 (first, not last): PageSt + cut=1 -> b0=0x12, b1=0x10
    assert_eq!(bufs[0][2], 0x12, "buf1 PAGE_REG b0");
    assert_eq!(bufs[0][3], 0x10, "buf1 PAGE_REG b1 (nodu=4, mat=0)");
    assert_eq!(bufs[0][6], 12, "buf1 bytes/line");
    assert_eq!(bufs[0][8], 1, "buf1 margin_top");
    assert_eq!(bufs[0][10], 1, "buf1 margin_bottom");
    assert_eq!(bufs[0][12], 23, "buf1 energy (unclamped)");

    // buf2 (last/page-end): PageEnd + PrtEnd + cut=1 -> b0=0x1c, energy zeroed
    assert_eq!(bufs[1][2], 0x1c, "buf2 PAGE_REG b0");
    assert_eq!(bufs[1][3], 0x10, "buf2 PAGE_REG b1");
    assert_eq!(bufs[1][12], 0, "buf2 energy zeroed on page-end");
}

#[test]
fn test_eseries_single_buffer_page() {
    // Single-buffer page (like the captured BB page): PageSt+PageEnd+PrtEnd, cut=0.
    let per_line_byte = 12u8;
    let total_cols = 137u16;
    let image_data = vec![0u8; total_cols as usize * per_line_byte as usize];
    let bufs = split_into_buffers_e(
        &image_data,
        per_line_byte,
        total_cols,
        ESeriesBufOpts {
            cut: 0,
            ..ESeriesBufOpts::default()
        },
    );
    assert_eq!(bufs.len(), 1);
    // PageSt|PageEnd|PrtEnd = 0x02|0x04|0x08 = 0x0e, cut=0
    assert_eq!(bufs[0][2], 0x0e, "single-buffer PAGE_REG b0");
    assert_eq!(bufs[0][4], 137, "single-buffer cols low");
}

#[test]
fn page_register_fields_keep_to_their_bits() {
    let bits = build_page_reg_bits(&PageRegBits {
        page_st: false,
        page_end: false,
        prt_end: true,
        cut: 0xFF,
        savepaper: true,
        first_cut: 0xFF,
        nodu: 0x15,
        mat: 0x06,
    });
    // cut 7, savepaper; first cut 3, density 5, material 2
    assert_eq!(bits, [0xF8, 0x97]);
}

#[test]
fn print_buffer_checksum_is_exact() {
    let mut data = vec![0u8; 84 * 48];
    // The last byte before a stride boundary counts, its neighbour does not.
    data[255 - 14] = 3;
    data[256 - 14] = 100;
    let buf = build_print_buffer(&PrintBufferParams {
        image_data: &data,
        per_line_byte: 48,
        cols_in_buf: 84,
        page_st: true,
        page_end: true,
        prt_end: true,
        margin_top: 8,
        margin_bottom: 8,
        nodu: 4,
        energy: None,
        cut: 0,
        mat: 1,
    });
    // 0x0E + 0x50 + 84 + 48 + 8 + 8 + 4, and the sampled 3
    assert_eq!(u16::from_le_bytes([buf[0], buf[1]]), 249);
    assert_eq!(buf[14 + 255 - 14], 3);
    assert_eq!(buf[14 + 256 - 14], 100);
}

#[test]
fn margins_and_density_are_brought_into_range() {
    let buf = build_print_buffer(&PrintBufferParams {
        image_data: &[],
        per_line_byte: 1,
        cols_in_buf: 0,
        page_st: false,
        page_end: false,
        prt_end: false,
        margin_top: 0,
        margin_bottom: 901,
        nodu: 16,
        energy: None,
        cut: 0,
        mat: 0,
    });
    assert_eq!(&buf[8..12], &[1, 0, 0x84, 0x03]);
    assert_eq!(buf[12], 15);
    assert_eq!(buf[3], 0);
}

#[test]
fn energy_is_written_as_it_is() {
    let buf = build_print_buffer(&PrintBufferParams {
        image_data: &[],
        per_line_byte: 1,
        cols_in_buf: 0,
        page_st: false,
        page_end: false,
        prt_end: false,
        margin_top: 1,
        margin_bottom: 1,
        nodu: 4,
        energy: Some(200),
        cut: 0,
        mat: 0,
    });
    assert_eq!(buf[12], 200);
    assert_eq!(buf[3], 0x10);
}

#[test]
fn buffers_show_every_column_once() {
    let plb = 48usize;
    let image: Vec<u8> = (0..240 * plb).map(|i| (i % 251) as u8).collect();
    let bufs = split_into_buffers(&image, 48, 240, 8, 8, 4, 1);
    let mut shown = Vec::new();
    for b in &bufs {
        let cols = u16::from_le_bytes([b[4], b[5]]) as usize;
        shown.extend_from_slice(&b[14..14 + cols * plb]);
    }
    assert_eq!(shown, image[8 * plb..232 * plb]);
    let counts: Vec<u8> = bufs.iter().map(|b| b[4]).collect();
    assert_eq!(counts, vec![84, 84, 56]);
    let flags: Vec<u8> = bufs.iter().map(|b| b[2]).collect();
    assert_eq!(flags, vec![0x02, 0x00, 0x0C]);
}

#[test]
fn a_page_without_columns_has_no_buffers() {
    assert!(split_into_buffers(&[0; 96], 12, 8, 4, 4, 4, 1).is_empty());
    assert!(split_into_buffers_e(&[], 12, 0, ESeriesBufOpts::default()).is_empty());
}

#[test]
fn an_image_that_ends_early_is_padded() {
    let bufs = split_into_buffers_e(&[0xFF; 30], 12, 3, ESeriesBufOpts::default());
    assert_eq!(bufs.len(), 1);
    assert!(bufs[0][14..44].iter().all(|&b| b == 0xFF));
    assert!(bufs[0][44..].iter().all(|&b| b == 0));
}

#[test]
fn an_image_must_reach_the_last_buffer() {
    // 339 columns of 12 bytes fit a buffer, so the second one starts at 4068.
    assert!(reaches_image(4068, 12, 0, 340));
    assert!(!reaches_image(4067, 12, 0, 340));
    assert!(reaches_image(0, 12, 0, 339));
    assert!(!reaches_image(0, 12, 1, 1));
    assert!(reaches_image(0, 12, 9, 0));
}

#[test]
fn both_splitters_agree_without_margins() {
    let image: Vec<u8> = (0..12 * 400usize).map(|i| (i % 249) as u8).collect();
    let t50 = split_into_buffers(&image, 12, 400, 0, 0, 6, 1);
    let opts = ESeriesBufOpts { nodu: 6, energy: 40, cut: 0, mat: 1, margin_top: 1, margin_bottom: 0 };
    let eseries = split_into_buffers_e(&image, 12, 400, opts);
    assert_eq!(t50.len(), 2);
    assert_eq!(eseries.len(), 2);
    for (a, b) in t50.iter().zip(&eseries) {
        assert_eq!(a[2..12], b[2..12]);
        assert_eq!(a[13..], b[13..]);
    }
    assert_eq!((t50[0][12], eseries[0][12], eseries[1][12]), (6, 40, 0));
    let other = split_into_buffers_e(&image, 12, 400, ESeriesBufOpts::default());
    assert_eq!(t50[1][4..8], other[1][4..8]);
    assert_eq!(t50[1][14..], other[1][14..]);
}
