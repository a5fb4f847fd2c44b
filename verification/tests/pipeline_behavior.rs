//! Behavior of the broadcast slot, the detection stage, the
//! calibration session and the pipeline registry.

use mocap_for_one::calib::{CalibrationSession, CameraParameter, CameraParameterNum};
use mocap_for_one::detect::{
    BoardGeometry, DetectionResult, MarkerDetector, MarkerQuad, Point2,
    BOARD_MARKER_LENGTH_BITS, BOARD_SQUARE_LENGTH_BITS,
};
use mocap_for_one::errors::{
    CalibrationError, DetectionError, FrameReadError, IndexError, PersistenceError,
};
use mocap_for_one::frame::Frame;
use mocap_for_one::registry::{Pipeline, PipelineRegistry};
use mocap_for_one::slot::Latest;
use mocap_for_one::source::{VideoSource, VideoSourceConfig};
use mocap_for_one::stream::CameraStream;

fn test_frame() -> Frame {
    Frame::from_rgb(2, 2, vec![7u8; 12]).expect("test frame must build")
}

fn point(x: f32, y: f32) -> Point2 {
    Point2 { x_bits: x.to_bits(), y_bits: y.to_bits() }
}

fn quad() -> MarkerQuad {
    MarkerQuad {
        p0: point(0.0, 0.0),
        p1: point(10.0, 0.25),
        p2: point(10.5, 10.0),
        p3: point(0.0, 9.75),
    }
}

fn detection_with_corners() -> DetectionResult {
    DetectionResult::from_parts(
        vec![quad()],
        vec![17],
        vec![point(5.0, 5.0), point(6.0, 5.5), point(5.5, 6.25), point(6.5, 6.5)],
        vec![0, 1, 2, 3],
    )
    .expect("consistent detection must assemble")
}

fn detection_without_corners() -> DetectionResult {
    DetectionResult::from_parts(vec![quad()], vec![17], Vec::new(), Vec::new())
        .expect("markers without corners must assemble")
}

// The board geometry constant matches the fixed board: a 3x3 grid of
// 0.3-unit squares with 0.15-unit markers.
#[test]
fn board_geometry_constants() {
    let b = BoardGeometry::standard();
    assert_eq!(b.squares_x, 3);
    assert_eq!(b.squares_y, 3);
    assert_eq!(f32::from_bits(BOARD_SQUARE_LENGTH_BITS), 0.3f32);
    assert_eq!(f32::from_bits(BOARD_MARKER_LENGTH_BITS), 0.15f32);
    assert_eq!(f32::from_bits(b.square_length_bits), 0.3f32);
    assert_eq!(f32::from_bits(b.marker_length_bits), 0.15f32);
}

// A reader that polls before any publish sees nothing, without
// blocking or panicking.
#[test]
fn latest_before_any_publish_is_none() {
    let slot: Latest<u32> = Latest::empty();
    assert!(slot.latest().is_none());
    let stream = CameraStream::new(
        String::from("cam"),
        VideoSource::open(VideoSourceConfig::DeviceCapture { index: 0 }),
    );
    assert!(stream.latest().is_none());
    let detector = MarkerDetector::new(BoardGeometry::standard());
    assert!(detector.latest().is_none());
}

// After a run of publishes with no intervening reads, the slot holds
// exactly the last published value.
#[test]
fn latest_wins_over_sequential_publishes() {
    let mut slot: Latest<u32> = Latest::empty();
    for value in 1..=5u32 {
        slot.publish(value);
    }
    assert_eq!(slot.latest().copied(), Some(5));
    slot.publish(99);
    assert_eq!(slot.latest().copied(), Some(99));
    // Reading twice with nothing new published sees the same value.
    assert_eq!(slot.latest().copied(), Some(99));
}

#[test]
fn frame_construction_and_errors() {
    assert!(matches!(Frame::from_rgb(0, 4, vec![0u8; 0]), Err(FrameReadError::EmptyFrame)));
    assert!(matches!(Frame::from_rgb(4, 0, vec![0u8; 0]), Err(FrameReadError::EmptyFrame)));
    assert!(matches!(
        Frame::from_rgb(2, 2, vec![0u8; 11]),
        Err(FrameReadError::DecodeFailure),
    ));
    let f = Frame::from_rgb(2, 2, vec![9u8; 12]).expect("valid frame");
    assert_eq!(f.width, 2);
    assert_eq!(f.height, 2);
    let copy = f.duplicate();
    assert_eq!(copy.width, f.width);
    assert_eq!(copy.height, f.height);
    assert_eq!(copy.data, f.data);
}

#[test]
fn detection_shape_rules() {
    // Identifier counts must pair up with what they identify.
    assert!(matches!(
        DetectionResult::from_parts(vec![quad()], Vec::new(), Vec::new(), Vec::new()),
        Err(DetectionError::ShapeMismatch),
    ));
    assert!(matches!(
        DetectionResult::from_parts(
            Vec::new(),
            Vec::new(),
            vec![point(1.0, 1.0)],
            vec![0, 1],
        ),
        Err(DetectionError::ShapeMismatch),
    ));
    // Board corners without markers would be a partially populated
    // result.
    assert!(matches!(
        DetectionResult::from_parts(
            Vec::new(),
            Vec::new(),
            vec![point(1.0, 1.0)],
            vec![0],
        ),
        Err(DetectionError::ShapeMismatch),
    ));
    let empty = DetectionResult::empty();
    assert!(empty.marker_ids.is_empty());
    let copy = detection_with_corners().duplicate();
    assert_eq!(copy.marker_ids, vec![17]);
    assert_eq!(copy.board_corner_ids, vec![0, 1, 2, 3]);
}

// The published pair is atomic: the frame and the result a reader
// sees always belong together.
#[test]
fn detector_publishes_frame_and_result_together() {
    let mut detector = MarkerDetector::new(BoardGeometry::standard());
    detector.publish(test_frame(), detection_with_corners());
    let pair = detector.latest().expect("a pair was published");
    assert_eq!(pair.0.width, 2);
    assert_eq!(pair.1.marker_ids, vec![17]);
}

fn fresh_pipeline() -> Pipeline {
    Pipeline::new(
        String::from("cam"),
        VideoSource::open(VideoSourceConfig::DeviceCapture { index: 0 }),
        BoardGeometry::standard(),
    )
}

// Capturing with no current board-corner detection is a no-op.
#[test]
fn capture_without_detection_is_a_no_op() {
    let mut p = fresh_pipeline();
    p.capture();
    assert_eq!(p.session.samples.len(), 0);
    p.detector.publish(test_frame(), detection_without_corners());
    p.capture();
    assert_eq!(p.session.samples.len(), 0);
}

#[test]
fn capture_with_board_corners_appends_a_sample() {
    let mut p = fresh_pipeline();
    p.detector.publish(test_frame(), detection_with_corners());
    p.capture();
    p.capture();
    assert_eq!(p.session.samples.len(), 2);
    assert_eq!(p.session.samples[0].corners.len(), 4);
    assert_eq!(p.session.samples[0].ids, vec![0, 1, 2, 3]);
}

// Clearing returns the session to zero samples from any state, and
// never touches stored parameters.
#[test]
fn clear_always_returns_to_zero_samples() {
    let mut p = fresh_pipeline();
    p.session.clear();
    assert_eq!(p.session.samples.len(), 0);
    p.detector.publish(test_frame(), detection_with_corners());
    for _ in 0..3 {
        p.capture();
    }
    assert_eq!(p.session.samples.len(), 3);
    let params = test_parameters();
    p.session.store_parameters(params);
    p.session.clear();
    assert_eq!(p.session.samples.len(), 0);
    assert!(p.session.parameters.is_some());
}

fn test_parameters() -> CameraParameter {
    let m: [f64; 9] = [812.5, 0.0, 321.0, 0.0, 811.75, 239.5, 0.0, 0.0, 1.0];
    let d: [f64; 5] = [0.01, -0.02, 0.0003, -0.00004, 0.5];
    CameraParameter {
        camera_matrix: [
            m[0].to_bits(), m[1].to_bits(), m[2].to_bits(),
            m[3].to_bits(), m[4].to_bits(), m[5].to_bits(),
            m[6].to_bits(), m[7].to_bits(), m[8].to_bits(),
        ],
        dist_coeffs: [
            d[0].to_bits(), d[1].to_bits(), d[2].to_bits(), d[3].to_bits(), d[4].to_bits(),
        ],
    }
}

// Solving with zero samples fails and leaves prior parameters
// untouched.
#[test]
fn calibrate_on_zero_samples_fails_and_keeps_parameters() {
    let mut session = CalibrationSession::new();
    let board = BoardGeometry::standard();
    assert!(matches!(
        session.solve_request(&board, 640, 480),
        Err(CalibrationError::NoSamples),
    ));
    let params = test_parameters();
    session.store_parameters(params);
    assert!(matches!(
        session.solve_request(&board, 640, 480),
        Err(CalibrationError::NoSamples),
    ));
    assert_eq!(session.parameters.as_ref().unwrap().camera_matrix, params.camera_matrix);
}

// Six captured samples from the same still detection produce a full
// solver request, and a stored solve result has strictly positive,
// finite focal entries.
#[test]
fn six_samples_make_a_solve_request() {
    let mut p = fresh_pipeline();
    p.detector.publish(test_frame(), detection_with_corners());
    for _ in 0..6 {
        p.capture();
    }
    assert_eq!(p.session.samples.len(), 6);
    let req = p
        .session
        .solve_request(&p.detector.board, 640, 480)
        .expect("six samples must make a request");
    assert_eq!(req.samples.len(), 6);
    assert_eq!(req.image_width, 640);
    assert_eq!(req.image_height, 480);
    // Samples stay for the operator to clear separately.
    assert_eq!(p.session.samples.len(), 6);
    let params = test_parameters();
    p.session.store_parameters(params);
    let stored = p.session.parameters.as_ref().unwrap();
    let fx = f64::from_bits(stored.camera_matrix[0]);
    let fy = f64::from_bits(stored.camera_matrix[4]);
    assert!(fx > 0.0 && fx.is_finite());
    assert!(fy > 0.0 && fy.is_finite());
    assert_eq!(p.session.samples.len(), 6);
}

#[test]
fn save_and_load_reproduce_parameters() {
    let mut session = CalibrationSession::new();
    assert_eq!(session.save().unwrap_err(), PersistenceError::NoParameters);
    let params = test_parameters();
    session.store_parameters(params);
    let text = session.save().expect("stored parameters must save");
    let mut other = CalibrationSession::new();
    assert_eq!(other.load("not a document").unwrap_err(), PersistenceError::Malformed);
    assert!(other.parameters.is_none());
    other.load(&text).expect("saved text must load");
    let loaded = other.parameters.as_ref().unwrap();
    assert_eq!(loaded.camera_matrix, params.camera_matrix);
    assert_eq!(loaded.dist_coeffs, params.dist_coeffs);
}

#[test]
fn parameter_num_conversions_check_shape() {
    let params = test_parameters();
    let num = params.to_num();
    assert_eq!(num.camera_matrix.len(), 9);
    assert_eq!(num.dist_coeffs.len(), 5);
    let back = CameraParameter::from_num(&num).expect("well-shaped flat form");
    assert_eq!(back.camera_matrix, params.camera_matrix);
    assert_eq!(back.dist_coeffs, params.dist_coeffs);
    let bad = CameraParameterNum { camera_matrix: vec![0u64; 8], dist_coeffs: vec![0u64; 5] };
    assert!(CameraParameter::from_num(&bad).is_none());
}

// Removing an out-of-range index fails with IndexError and leaves the
// registry unchanged.
#[test]
fn remove_out_of_range_fails_and_changes_nothing() {
    let mut registry = PipelineRegistry::new();
    registry.add(
        String::from("cam"),
        VideoSource::open(VideoSourceConfig::DeviceCapture { index: 0 }),
        BoardGeometry::standard(),
    );
    assert!(matches!(registry.remove(1), Err(IndexError::OutOfRange)));
    assert!(matches!(registry.remove(usize::MAX), Err(IndexError::OutOfRange)));
    assert_eq!(registry.len(), 1);
    assert_eq!(registry.pipelines[0].stream.name, "cam");
    assert!(!registry.pipelines[0].stream.source.is_released());
}

// Adding then removing a pipeline releases its source exactly once:
// it was unreleased while registered, and released on the value the
// registry hands back.
#[test]
fn remove_releases_the_source_exactly_once() {
    let mut registry = PipelineRegistry::new();
    let source = VideoSource::open(VideoSourceConfig::MemoryMappedFeed {
        path: String::from("/dev/shm/u.png"),
    });
    assert!(!source.is_released());
    let index = registry.add(String::from("unity"), source, BoardGeometry::standard());
    assert_eq!(index, 0);
    assert!(!registry.pipelines[0].stream.source.is_released());
    let removed = registry.remove(0).expect("index zero is present");
    assert!(removed.stream.source.is_released());
    assert_eq!(registry.len(), 0);
    assert!(matches!(registry.remove(0), Err(IndexError::OutOfRange)));
}

#[test]
fn registry_list_names_and_configs_in_order() {
    let mut registry = PipelineRegistry::new();
    registry.add(
        String::from("a"),
        VideoSource::open(VideoSourceConfig::DeviceCapture { index: 2 }),
        BoardGeometry::standard(),
    );
    registry.add(
        String::from("b"),
        VideoSource::open(VideoSourceConfig::MemoryMappedFeed { path: String::from("/f") }),
        BoardGeometry::standard(),
    );
    let listed = registry.list();
    assert_eq!(listed.len(), 2);
    assert_eq!(listed[0].0, "a");
    match &listed[0].1 {
        VideoSourceConfig::DeviceCapture { index } => assert_eq!(*index, 2),
        _ => panic!("first listed entry changed kind"),
    }
    assert_eq!(listed[1].0, "b");
}

// A memory-mapped source hands out the mapped region's current bytes;
// releasing it drops the mapping and further reads fail.
#[test]
fn mapped_source_reads_region_bytes() {
    let mut anon = memmap2::MmapMut::map_anon(6).expect("anonymous mapping");
    anon.copy_from_slice(b"abcdef");
    let map = anon.make_read_only().expect("read-only mapping");
    let mut source = VideoSource::open_mapped(String::from("/dev/shm/u.png"), map);
    let bytes = source.read_mapped().expect("open mapped source must read");
    assert_eq!(bytes, b"abcdef");
    source.release();
    assert!(source.is_released());
    assert_eq!(source.read_mapped().unwrap_err(), FrameReadError::EndOfStream);
}

#[test]
fn source_without_mapping_cannot_read() {
    let source = VideoSource::open(VideoSourceConfig::DeviceCapture { index: 0 });
    assert_eq!(source.read_mapped().unwrap_err(), FrameReadError::EndOfStream);
}

#[test]
fn stream_offers_the_newest_frame() {
    let mut stream = CameraStream::new(
        String::from("cam"),
        VideoSource::open(VideoSourceConfig::DeviceCapture { index: 1 }),
    );
    stream.publish_frame(test_frame());
    let bigger = Frame::from_rgb(3, 1, vec![1u8; 9]).expect("second frame");
    stream.publish_frame(bigger);
    let seen = stream.latest().expect("a frame was published");
    assert_eq!(seen.width, 3);
    assert_eq!(seen.height, 1);
}
