use supvan::compress::{
    compress_buffers, compress_lzma, compress_lzma_dict, compress_page_e, decompress_lzma,
    finish_data, finish_stream, patch_size, with_average, LzmaFault,
};
use supvan::error::Error;

#[test]
fn test_compress_lzma_header() {
    let data = vec![0u8; 4096];
    let compressed = compress_lzma(&data).unwrap();

    // Check header
    assert!(
        compressed.len() >= 13,
        "compressed too short: {}",
        compressed.len()
    );
    // Properties byte: lc=3, lp=0, pb=2 -> 0x5D
    assert_eq!(compressed[0], 0x5D, "wrong properties byte");
    // Dict size: 8192 LE
    assert_eq!(&compressed[1..5], &8192u32.to_le_bytes(), "wrong dict size");
    // Uncompressed size: 4096 LE
    assert_eq!(
        &compressed[5..13],
        &4096u64.to_le_bytes(),
        "wrong uncompressed size"
    );
}

#[test]
fn test_compress_roundtrip() {
    let data = vec![0x42u8; 1024];
    let compressed = compress_lzma(&data).unwrap();

    // Verifies the LZMA payload round-trips via the shared decoder. The
    // patched header bytes are checked separately by `test_compress_lzma_header`.
    let decompressed = decompress_lzma(&compressed).unwrap();
    assert_eq!(decompressed, data);
}

#[test]
fn test_compress_buffers() {
    let buf = [0u8; 4096];
    let buffers = vec![buf; 3];
    let (compressed, avg) = compress_buffers(&buffers).unwrap();
    assert!(compressed.len() > 13); // at least header
    assert!(avg > 0);
}

#[test]
fn a_page_of_the_e_series_declares_its_dictionary() {
    let buffers = vec![[7u8; 4096]; 2];
    let stream = compress_page_e(&buffers).unwrap();
    assert_eq!(stream[0], 0x5D);
    assert_eq!(&stream[1..5], &0x0020_0000u32.to_le_bytes());
    assert_eq!(&stream[5..13], &8192u64.to_le_bytes());
    assert_eq!(decompress_lzma(&stream).unwrap(), vec![7u8; 8192]);
}

#[test]
fn joined_buffers_keep_their_order() {
    let buffers = vec![[1u8; 4096], [2u8; 4096], [3u8; 4096]];
    let (stream, avg) = compress_buffers(&buffers).unwrap();
    assert_eq!(avg, stream.len() / 3);
    let bytes = decompress_lzma(&stream).unwrap();
    assert_eq!(bytes.len(), 3 * 4096);
    assert_eq!((bytes[4095], bytes[4096], bytes[8192]), (1, 2, 3));
}

#[test]
fn nothing_cannot_be_compressed() {
    let refusal = Error::InvalidParam("no buffers to compress".to_string());
    assert_eq!(compress_buffers(&[]).unwrap_err(), refusal);
    assert_eq!(compress_page_e(&[]).unwrap_err(), refusal);
}

#[test]
fn a_short_stream_is_refused() {
    assert_eq!(
        decompress_lzma(&[0x5D; 12]).unwrap_err(),
        Error::Compression("lzma stream too short: 12 bytes".to_string())
    );
}

#[test]
fn a_garbled_stream_is_refused() {
    match decompress_lzma(&[0xFF; 40]) {
        Err(Error::Compression(words)) => assert!(words.starts_with("decompress: ")),
        other => panic!("unexpected {other:?}"),
    }
}

#[test]
fn a_tiny_dictionary_is_refused() {
    match compress_lzma_dict(&[1, 2, 3], 4095) {
        Err(Error::Compression(words)) => assert!(words.starts_with("encoder: ")),
        other => panic!("unexpected {other:?}"),
    }
}

#[test]
fn a_huge_dictionary_is_refused() {
    match compress_lzma_dict(&[1, 2, 3], 0x6000_0001) {
        Err(Error::Compression(words)) => assert!(words.starts_with("encoder: ")),
        other => panic!("unexpected {other:?}"),
    }
}

#[test]
fn the_declared_size_does_not_matter_to_decompression() {
    let data: Vec<u8> = (0..20_000usize).map(|i| (i * 7 % 251) as u8).collect();
    let mut stream = compress_lzma_dict(&data, 4096).unwrap();
    for size in [0, 1, 20_000, u64::MAX] {
        patch_size(&mut stream, size);
        assert_eq!(decompress_lzma(&stream).unwrap(), data);
    }
}

#[test]
fn a_cut_stream_is_refused() {
    let stream = compress_lzma(&[9; 5000]).unwrap();
    match decompress_lzma(&stream[..stream.len() - 6]) {
        Err(Error::Compression(words)) => assert!(words.starts_with("decompress: ")),
        other => panic!("unexpected {other:?}"),
    }
}

#[test]
fn an_empty_input_round_trips() {
    let stream = compress_lzma(&[]).unwrap();
    assert!(stream.len() >= 18);
    assert_eq!(&stream[5..13], &0u64.to_le_bytes());
    assert_eq!(decompress_lzma(&stream).unwrap(), Vec::<u8>::new());
}

#[test]
fn the_size_field_is_patched_in_place() {
    let mut stream: Vec<u8> = (0u8..16).collect();
    patch_size(&mut stream, 0x0102_0304_0506_0708);
    assert_eq!(
        stream,
        vec![0, 1, 2, 3, 4, 8, 7, 6, 5, 4, 3, 2, 1, 13, 14, 15]
    );
    let mut short = vec![9u8; 12];
    patch_size(&mut short, 1);
    assert_eq!(short, vec![9u8; 12]);
}

#[test]
fn codec_faults_keep_their_words() {
    let shown = |f: LzmaFault| finish_stream(Err(f), 3).unwrap_err();
    let said = |s: &str| Error::Compression(s.to_string());
    assert_eq!(shown(LzmaFault::Preset("a".into())), said("preset: a"));
    assert_eq!(shown(LzmaFault::Encoder { memory: true, words: "b".into() }), said("encoder: b"));
    assert_eq!(shown(LzmaFault::Write("c".into())), said("write: c"));
    assert_eq!(shown(LzmaFault::Finish("d".into())), said("finish: d"));
    assert_eq!(shown(LzmaFault::Decoder { memory: false, words: "e".into() }), said("decoder: e"));
    assert_eq!(shown(LzmaFault::Read { memory: true, words: "f".into() }), said("decompress: f"));
}

#[test]
fn decoded_data_is_handed_on() {
    assert_eq!(finish_data(Ok(vec![1, 2])), Ok(vec![1, 2]));
    assert_eq!(
        finish_data(Err(LzmaFault::Read { memory: false, words: "x".into() })),
        Err(Error::Compression("decompress: x".to_string()))
    );
}

#[test]
fn the_average_is_rounded_down() {
    assert_eq!(with_average(Ok(vec![0; 11]), 3), Ok((vec![0; 11], 3)));
    let refused = || Error::Compression("x".to_string());
    assert_eq!(with_average(Err(refused()), 3), Err(refused()));
}
