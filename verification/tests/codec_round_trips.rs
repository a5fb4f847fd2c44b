//! Round trips and error behavior of the persisted text documents.

use mocap_for_one::codec::{
    parse_config, parse_params, parse_registry, serialize_config, serialize_params,
    serialize_registry,
};
use mocap_for_one::source::VideoSourceConfig;

#[test]
fn device_config_exact_text() {
    let c = VideoSourceConfig::DeviceCapture { index: 3 };
    let text = serialize_config(&c);
    assert_eq!(text, "{\"kind\":\"device\",\"index\":3}");
}

#[test]
fn device_config_round_trip() {
    let c = VideoSourceConfig::DeviceCapture { index: 3 };
    let text = serialize_config(&c);
    match parse_config(&text) {
        Some(VideoSourceConfig::DeviceCapture { index }) => assert_eq!(index, 3),
        _ => panic!("device config did not round trip"),
    }
}

#[test]
fn negative_device_index_round_trip() {
    let c = VideoSourceConfig::DeviceCapture { index: -12 };
    let text = serialize_config(&c);
    assert_eq!(text, "{\"kind\":\"device\",\"index\":-12}");
    match parse_config(&text) {
        Some(VideoSourceConfig::DeviceCapture { index }) => assert_eq!(index, -12),
        _ => panic!("negative device config did not round trip"),
    }
}

#[test]
fn extreme_device_indices_round_trip() {
    for index in [i32::MIN, i32::MAX, 0, -1] {
        let c = VideoSourceConfig::DeviceCapture { index };
        let text = serialize_config(&c);
        match parse_config(&text) {
            Some(VideoSourceConfig::DeviceCapture { index: parsed }) => {
                assert_eq!(parsed, index)
            },
            _ => panic!("extreme device config did not round trip"),
        }
    }
}

#[test]
fn memory_mapped_config_exact_text() {
    let c = VideoSourceConfig::MemoryMappedFeed { path: String::from("/tmp/feed.png") };
    let text = serialize_config(&c);
    assert_eq!(text, "{\"kind\":\"memory_mapped\",\"path\":\"/tmp/feed.png\"}");
}

#[test]
fn memory_mapped_config_round_trip() {
    let c = VideoSourceConfig::MemoryMappedFeed { path: String::from("/tmp/feed.png") };
    let text = serialize_config(&c);
    match parse_config(&text) {
        Some(VideoSourceConfig::MemoryMappedFeed { path }) => {
            assert_eq!(path, "/tmp/feed.png")
        },
        _ => panic!("memory-mapped config did not round trip"),
    }
}

#[test]
fn awkward_path_round_trip() {
    let awkward = "C:\\shots\\\"best\"\nframe\t\u{1}-\u{1F9ea}.png";
    let c = VideoSourceConfig::MemoryMappedFeed { path: String::from(awkward) };
    let text = serialize_config(&c);
    match parse_config(&text) {
        Some(VideoSourceConfig::MemoryMappedFeed { path }) => assert_eq!(path, awkward),
        _ => panic!("awkward path did not round trip"),
    }
}

#[test]
fn config_rejects_malformed_text() {
    assert!(parse_config("").is_none());
    assert!(parse_config("{}").is_none());
    assert!(parse_config("{\"kind\":\"device\",\"index\":}").is_none());
    assert!(parse_config("{\"kind\":\"device\",\"index\":1").is_none());
    assert!(parse_config("{\"kind\":\"device\",\"index\":1}x").is_none());
    assert!(parse_config("{\"kind\":\"memory_mapped\",\"path\":\"a}").is_none());
    assert!(parse_config("{\"kind\":\"webcam\",\"index\":1}").is_none());
    // The canonical form never writes a signed zero.
    assert!(parse_config("{\"kind\":\"device\",\"index\":-0}").is_none());
}

#[test]
fn config_rejects_out_of_range_index() {
    assert!(parse_config("{\"kind\":\"device\",\"index\":2147483647}").is_some());
    assert!(parse_config("{\"kind\":\"device\",\"index\":2147483648}").is_none());
    assert!(parse_config("{\"kind\":\"device\",\"index\":-2147483648}").is_some());
    assert!(parse_config("{\"kind\":\"device\",\"index\":-2147483649}").is_none());
}

#[test]
fn params_exact_text_for_zeros() {
    let matrix = vec![0u64; 9];
    let dist = vec![0u64; 5];
    let text = serialize_params(&matrix, &dist);
    assert_eq!(
        text,
        "{\"camera_matrix\":{\"dtype\":\"f64-bits\",\"rows\":3,\"cols\":3,\"data\":[0,0,0,0,0,0,0,0,0]},\"dist_coeffs\":{\"dtype\":\"f64-bits\",\"rows\":1,\"cols\":5,\"data\":[0,0,0,0,0]}}"
    );
}

#[test]
fn params_round_trip_is_bit_identical() {
    let values: [f64; 9] = [
        800.25, 0.0, 320.5, 0.0, -800.25, 240.125, 0.0, 0.0, 1.0,
    ];
    let coeffs: [f64; 5] = [0.1, -0.25, 1e-8, f64::MIN_POSITIVE, -0.0];
    let matrix: Vec<u64> = values.iter().map(|f| f.to_bits()).collect();
    let dist: Vec<u64> = coeffs.iter().map(|f| f.to_bits()).collect();
    let text = serialize_params(&matrix, &dist);
    let (mat2, dist2) = parse_params(&text).expect("params did not parse back");
    assert_eq!(mat2, matrix);
    assert_eq!(dist2, dist);
    for (orig, bits) in values.iter().zip(mat2.iter()) {
        assert_eq!(orig.to_bits(), *bits);
    }
}

#[test]
fn params_round_trip_extreme_bits() {
    let matrix: Vec<u64> = vec![u64::MAX, 0, 1, u64::MAX - 1, 42, 7, 9, 11, 13];
    let dist: Vec<u64> = vec![u64::MAX, 1, 0, 3, 5];
    let text = serialize_params(&matrix, &dist);
    let (mat2, dist2) = parse_params(&text).expect("extreme params did not parse back");
    assert_eq!(mat2, matrix);
    assert_eq!(dist2, dist);
}

#[test]
fn params_reject_malformed_text() {
    assert!(parse_params("").is_none());
    assert!(parse_params("{\"camera_matrix\":{}}").is_none());
    let matrix = vec![0u64; 9];
    let dist = vec![0u64; 5];
    let good = serialize_params(&matrix, &dist);
    let mut truncated = good.clone();
    truncated.pop();
    assert!(parse_params(&truncated).is_none());
    let trailing = format!("{} ", good);
    assert!(parse_params(&trailing).is_none());
    let too_few = good.replace("[0,0,0,0,0]", "[0,0,0,0]");
    assert!(parse_params(&too_few).is_none());
    let too_big = good.replace("[0,0,0,0,0]", "[0,0,0,0,99999999999999999999]");
    assert!(parse_params(&too_big).is_none());
}

#[test]
fn registry_round_trip_empty() {
    let entries: Vec<(String, VideoSourceConfig)> = Vec::new();
    let text = serialize_registry(&entries);
    assert_eq!(text, "{\"cameras\":[]}");
    let parsed = parse_registry(&text).expect("empty registry did not parse back");
    assert!(parsed.is_empty());
}

#[test]
fn registry_round_trip_two_cameras() {
    let entries = vec![
        (
            String::from("desk cam"),
            VideoSourceConfig::DeviceCapture { index: 0 },
        ),
        (
            String::from("unity \"feed\""),
            VideoSourceConfig::MemoryMappedFeed { path: String::from("/dev/shm/u.png") },
        ),
    ];
    let text = serialize_registry(&entries);
    let parsed = parse_registry(&text).expect("registry did not parse back");
    assert_eq!(parsed.len(), 2);
    assert_eq!(parsed[0].0, "desk cam");
    match &parsed[0].1 {
        VideoSourceConfig::DeviceCapture { index } => assert_eq!(*index, 0),
        _ => panic!("first entry changed kind"),
    }
    assert_eq!(parsed[1].0, "unity \"feed\"");
    match &parsed[1].1 {
        VideoSourceConfig::MemoryMappedFeed { path } => assert_eq!(path, "/dev/shm/u.png"),
        _ => panic!("second entry changed kind"),
    }
}

#[test]
fn registry_rejects_malformed_text() {
    assert!(parse_registry("").is_none());
    assert!(parse_registry("{\"cameras\":[").is_none());
    assert!(parse_registry("{\"cameras\":[]}}").is_none());
    assert!(parse_registry("{\"cameras\":[{\"name\":\"a\"}]}").is_none());
}
