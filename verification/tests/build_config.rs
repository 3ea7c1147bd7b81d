use guest_runtime::config::{decode_build_configuration, extract_config_path};
use guest_runtime::layout::BuildConfiguration;

#[test]
fn extracts_the_path_after_the_marker() {
    let flags = b"--cfg foo\x1fcompile_config_dir=\"/tmp/jolt/config.bin\"\x1f-C opt";
    let path = extract_config_path(flags).unwrap();
    assert_eq!(path, b"/tmp/jolt/config.bin".to_vec());
}

#[test]
fn missing_marker_means_no_path() {
    assert_eq!(extract_config_path(b""), None);
    assert_eq!(extract_config_path(b"--cfg compile_config=\"x\""), None);
    assert_eq!(extract_config_path(b"compile_config_dir"), None);
}

#[test]
fn unterminated_path_runs_to_the_end() {
    let flags = b"compile_config_dir=\"/no/closing/quote";
    let path = extract_config_path(flags).unwrap();
    assert_eq!(path, b"/no/closing/quote".to_vec());
}

#[test]
fn empty_path_is_extracted() {
    let flags = b"compile_config_dir=\"\" tail";
    assert_eq!(extract_config_path(flags), Some(Vec::new()));
}

#[test]
fn first_marker_wins() {
    let flags = b"compile_config_dir=\"first\" compile_config_dir=\"second\"";
    assert_eq!(extract_config_path(flags), Some(b"first".to_vec()));
}

#[test]
fn decodes_single_byte_sizes() {
    let decoded = decode_build_configuration(&[64, 32, 16]).unwrap();
    assert_eq!(
        decoded,
        BuildConfiguration { max_input_size: 64, max_output_size: 32, max_log_size: 16 }
    );
}

#[test]
fn decodes_multi_byte_sizes() {
    // 300 = 0xAC 0x02 in the varint encoding
    let decoded = decode_build_configuration(&[0xAC, 0x02, 1, 2]).unwrap();
    assert_eq!(decoded.max_input_size, 300);
    assert_eq!(decoded.max_output_size, 1);
    assert_eq!(decoded.max_log_size, 2);
}

#[test]
fn trailing_bytes_are_ignored() {
    let decoded = decode_build_configuration(&[1, 2, 3, 0xFF, 0xFF]).unwrap();
    assert_eq!(
        decoded,
        BuildConfiguration { max_input_size: 1, max_output_size: 2, max_log_size: 3 }
    );
}

#[test]
fn malformed_artifacts_are_rejected() {
    // too short
    assert_eq!(decode_build_configuration(&[]), None);
    assert_eq!(decode_build_configuration(&[1, 2]), None);
    // a varint cut off by the end of the artifact
    assert_eq!(decode_build_configuration(&[0x80]), None);
    // a varint whose continuation runs past five bytes
    assert_eq!(decode_build_configuration(&[0x80, 0x80, 0x80, 0x80, 0x80, 1, 1, 1]), None);
    // a five-byte varint whose last byte pushes the value past 32 bits
    assert_eq!(decode_build_configuration(&[0xFF, 0xFF, 0xFF, 0xFF, 0x10, 1, 1]), None);
}

#[test]
fn largest_size_round_trips() {
    // u32::MAX = 0xFF 0xFF 0xFF 0xFF 0x0F
    let decoded =
        decode_build_configuration(&[0xFF, 0xFF, 0xFF, 0xFF, 0x0F, 0, 0]).unwrap();
    assert_eq!(decoded.max_input_size, u32::MAX);
}

#[test]
fn decoding_matches_the_postcard_encoding() {
    let artifact = postcard::to_stdvec(&(64u32, 32u32, 16u32)).unwrap();
    let decoded = decode_build_configuration(&artifact).unwrap();
    assert_eq!(
        decoded,
        BuildConfiguration { max_input_size: 64, max_output_size: 32, max_log_size: 16 }
    );

    let artifact = postcard::to_stdvec(&(u32::MAX, 0u32, 300u32)).unwrap();
    let decoded = decode_build_configuration(&artifact).unwrap();
    assert_eq!(
        decoded,
        BuildConfiguration { max_input_size: u32::MAX, max_output_size: 0, max_log_size: 300 }
    );

    // the original artifact shape: a size pair, then the log size
    let artifact = postcard::to_stdvec(&((1024u32, 2048u32), 4096u32)).unwrap();
    let decoded = decode_build_configuration(&artifact).unwrap();
    assert_eq!(
        decoded,
        BuildConfiguration { max_input_size: 1024, max_output_size: 2048, max_log_size: 4096 }
    );
}
