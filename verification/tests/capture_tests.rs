use niri_capture::adaptive::CaptureMethod;
use niri_capture::client::{
    CaptureBuffer, NiriScreencopyClient, OutputInfo, ProtocolEvent, SessionPhase,
    DRM_FORMAT_XRGB8888,
};
use niri_capture::config::NiriCapturePlugin;
use niri_capture::convert::DmaBufferConverter;
use niri_capture::error::{CaptureError, ConversionError};
use niri_capture::pipeline::NiriCaptureState;

fn output(name: &str, width: u32, height: u32) -> OutputInfo {
    OutputInfo {
        name: name.to_string(),
        width,
        height,
        refresh_rate: 60,
        scale_millis: 1000,
    }
}

#[test]
fn test_capture_buffer_creation() {
    let output_info = output("test-output", 1920, 1080);

    let client = NiriScreencopyClient::new();
    let buffer = client.create_shm_buffer(&output_info);
    assert!(buffer.is_ok());

    if let Ok(CaptureBuffer::Shm { width, height, stride, .. }) = buffer {
        assert_eq!(width, 1920);
        assert_eq!(height, 1080);
        assert_eq!(stride, 1920 * 4);
    }
}

#[test]
fn test_converter_creation() {
    let converter = DmaBufferConverter::new();
    assert!(!converter.supports_dmabuf());
}

#[test]
fn test_shm_conversion() {
    let converter = DmaBufferConverter::new();

    let mut data = Vec::new();
    for _ in 0..1920 * 1080 {
        data.extend_from_slice(&[255, 0, 0, 255]);
    }
    let shm_buffer = CaptureBuffer::Shm {
        data,
        stride: 1920 * 4,
        width: 1920,
        height: 1080,
        format: 0x34325258,
    };

    let result = converter.convert_shm_buffer(&shm_buffer);
    assert!(result.is_ok());
}

#[test]
fn version_negotiation_binds_highest_common() {
    assert_eq!(NiriScreencopyClient::negotiate_screencopy_version(0), None);
    assert_eq!(NiriScreencopyClient::negotiate_screencopy_version(1), Some(1));
    assert_eq!(NiriScreencopyClient::negotiate_screencopy_version(2), Some(2));
    assert_eq!(NiriScreencopyClient::negotiate_screencopy_version(3), Some(3));
    assert_eq!(NiriScreencopyClient::negotiate_screencopy_version(7), Some(3));
    assert_eq!(NiriScreencopyClient::negotiate_shm_version(0), None);
    assert_eq!(NiriScreencopyClient::negotiate_shm_version(5), Some(1));
}

#[test]
fn connection_requires_both_capabilities() {
    let mut client = NiriScreencopyClient::new();
    let r = client.complete_connection(0, 1);
    assert!(matches!(r, Err(CaptureError::Protocol(_))));
    assert!(!client.is_connected());

    let r = client.complete_connection(3, 0);
    assert!(matches!(r, Err(CaptureError::Protocol(_))));
    assert!(!client.is_connected());

    let r = client.complete_connection(4, 2);
    assert!(r.is_ok());
    assert!(client.is_connected());
    assert_eq!(client.screencopy_version, 3);
    assert_eq!(client.shm_version, 1);
}

#[test]
fn capture_without_connection_is_a_protocol_error() {
    let mut client = NiriScreencopyClient::new();
    let r = client.capture_output("DP-1");
    match r {
        Err(CaptureError::Protocol(m)) => assert_eq!(m, "No screencopy manager"),
        other => panic!("expected a protocol error, got {:?}", other),
    }
}

#[test]
fn capture_of_unknown_output_is_not_found() {
    let mut client = NiriScreencopyClient::new();
    client.complete_connection(3, 1).unwrap();
    let r = client.capture_output("DP-9");
    match r {
        Err(CaptureError::OutputNotFound(m)) => assert_eq!(m, "DP-9"),
        other => panic!("expected output-not-found, got {:?}", other),
    }
}

#[test]
fn session_moves_to_exactly_one_terminal_state() {
    let mut client = NiriScreencopyClient::new();
    client.complete_connection(3, 1).unwrap();
    client.register_output(output("DP-1", 64, 64));

    assert_eq!(client.session_phase("DP-1"), None);
    client.capture_output("DP-1").unwrap();
    assert_eq!(client.session_phase("DP-1"), Some(SessionPhase::Pending));

    client.handle_event(ProtocolEvent::FrameReady("DP-1".to_string()));
    assert_eq!(client.session_phase("DP-1"), Some(SessionPhase::Ready));

    // A later failure signal cannot leave the terminal state.
    client.handle_event(ProtocolEvent::FrameFailed("DP-1".to_string()));
    assert_eq!(client.session_phase("DP-1"), Some(SessionPhase::Ready));

    client.clear_session("DP-1");
    assert_eq!(client.session_phase("DP-1"), None);
}

#[test]
fn failed_frame_marks_session_failed() {
    let mut client = NiriScreencopyClient::new();
    client.complete_connection(1, 1).unwrap();
    client.register_output(output("DP-1", 64, 64));
    client.capture_output("DP-1").unwrap();
    client.handle_event(ProtocolEvent::FrameFailed("DP-1".to_string()));
    assert_eq!(client.session_phase("DP-1"), Some(SessionPhase::Failed));
}

#[test]
fn second_request_overwrites_pending_session() {
    let mut client = NiriScreencopyClient::new();
    client.complete_connection(3, 1).unwrap();
    client.register_output(output("DP-1", 64, 64));
    client.capture_output("DP-1").unwrap();
    client.handle_event(ProtocolEvent::FrameReady("DP-1".to_string()));
    assert_eq!(client.session_phase("DP-1"), Some(SessionPhase::Ready));

    // A new request for the same output replaces the tracking entry.
    client.capture_output("DP-1").unwrap();
    assert_eq!(client.session_phase("DP-1"), Some(SessionPhase::Pending));
}

#[test]
fn reconfigured_output_is_replaced_wholesale() {
    let mut client = NiriScreencopyClient::new();
    client.register_output(output("DP-1", 1920, 1080));
    client.register_output(output("HDMI-A-1", 1280, 720));
    client.register_output(output("DP-1", 2560, 1440));

    let outputs = client.get_outputs();
    assert_eq!(outputs.len(), 2);
    let dp = outputs.iter().find(|o| o.name == "DP-1").unwrap();
    assert_eq!((dp.width, dp.height), (2560, 1440));
}

#[test]
fn shm_conversion_is_byte_exact() {
    let converter = DmaBufferConverter::new();
    // Two by two pure-red pixels: source bytes are (B, G, R, A) = (0, 0, 255, 255).
    let mut data = Vec::new();
    for _ in 0..4 {
        data.extend_from_slice(&[0, 0, 255, 255]);
    }
    let buffer = CaptureBuffer::Shm {
        data,
        stride: 8,
        width: 2,
        height: 2,
        format: DRM_FORMAT_XRGB8888,
    };
    let img = converter.convert_shm_buffer(&buffer).unwrap();
    assert_eq!((img.width, img.height), (2, 2));
    let expected: Vec<u8> = vec![
        255, 0, 0, 255, 255, 0, 0, 255, 255, 0, 0, 255, 255, 0, 0, 255,
    ];
    assert_eq!(img.data, expected);
}

#[test]
fn stride_padding_is_skipped() {
    let converter = DmaBufferConverter::new();
    // One row of two pixels with four padding bytes of row pitch after them.
    let data = vec![
        1, 2, 3, 4, 5, 6, 7, 8, 9, 9, 9, 9, // row 0: two pixels, then padding
        11, 12, 13, 14, 15, 16, 17, 18, 9, 9, 9, 9, // row 1
    ];
    let buffer = CaptureBuffer::Shm {
        data,
        stride: 12,
        width: 2,
        height: 2,
        format: DRM_FORMAT_XRGB8888,
    };
    let img = converter.convert_shm_buffer(&buffer).unwrap();
    let expected: Vec<u8> = vec![
        3, 2, 1, 255, 7, 6, 5, 255, // row 0, BGRA reordered to RGBA, opaque
        13, 12, 11, 255, 17, 16, 15, 255, // row 1
    ];
    assert_eq!(img.data, expected);
}

#[test]
fn out_of_bounds_rows_become_opaque_black() {
    let converter = DmaBufferConverter::new();
    // The declared height of three rows exceeds the single row of data.
    let buffer = CaptureBuffer::Shm {
        data: vec![1, 2, 3, 4, 5, 6, 7, 8],
        stride: 8,
        width: 2,
        height: 3,
        format: DRM_FORMAT_XRGB8888,
    };
    let img = converter.convert_shm_buffer(&buffer).unwrap();
    assert_eq!(img.data.len(), 2 * 3 * 4);
    let expected: Vec<u8> = vec![
        3, 2, 1, 255, 7, 6, 5, 255, // the row the data supports
        0, 0, 0, 255, 0, 0, 0, 255, // affected rows: opaque black
        0, 0, 0, 255, 0, 0, 0, 255,
    ];
    assert_eq!(img.data, expected);
}

#[test]
fn wrong_variant_is_unsupported() {
    let converter = DmaBufferConverter::new();
    let dmabuf = CaptureBuffer::Dmabuf {
        width: 8,
        height: 8,
        format: DRM_FORMAT_XRGB8888,
        modifier: 0,
        num_planes: 1,
        fds: vec![],
        offsets: vec![0],
        strides: vec![32],
    };
    match converter.convert_shm_buffer(&dmabuf) {
        Err(ConversionError::UnsupportedFormat(m)) => assert_eq!(m, "Expected SHM buffer"),
        other => panic!("expected unsupported format, got {:?}", other),
    }

    let shm = CaptureBuffer::Shm {
        data: vec![0; 16],
        stride: 8,
        width: 2,
        height: 2,
        format: DRM_FORMAT_XRGB8888,
    };
    match converter.convert_dmabuf_buffer(&shm) {
        Err(ConversionError::UnsupportedFormat(m)) => assert_eq!(m, "Expected DMA buffer"),
        other => panic!("expected unsupported format, got {:?}", other),
    }
}

#[test]
fn unrecognized_dmabuf_format_is_unsupported() {
    let converter = DmaBufferConverter::new();
    let dmabuf = CaptureBuffer::Dmabuf {
        width: 8,
        height: 8,
        format: 0x1234_5678,
        modifier: 0,
        num_planes: 1,
        fds: vec![],
        offsets: vec![0],
        strides: vec![32],
    };
    assert!(matches!(
        converter.convert_dmabuf_buffer(&dmabuf),
        Err(ConversionError::UnsupportedFormat(_))
    ));
}

#[test]
fn recognized_dmabuf_yields_placeholder_image() {
    let converter = DmaBufferConverter::new();
    let dmabuf = CaptureBuffer::Dmabuf {
        width: 2,
        height: 2,
        format: DRM_FORMAT_XRGB8888,
        modifier: 0,
        num_planes: 1,
        fds: vec![],
        offsets: vec![0],
        strides: vec![8],
    };
    let img = converter.convert_dmabuf_buffer(&dmabuf).unwrap();
    assert_eq!((img.width, img.height), (2, 2));
    let expected: Vec<u8> = vec![
        0, 0, 0, 255, 0, 0, 0, 255, 0, 0, 0, 255, 0, 0, 0, 255,
    ];
    assert_eq!(img.data, expected);
}

#[test]
fn end_to_end_capture_and_convert() {
    // Connect, enumerate one output, request a capture, convert the
    // shared-memory result, and read the canonical size back.
    let mut state = NiriCaptureState::new(&NiriCapturePlugin::default());
    state.client.complete_connection(3, 1).unwrap();
    state
        .client
        .handle_event(ProtocolEvent::OutputAdded(output("DP-1", 1920, 1080)));

    let outputs = state.client.get_outputs();
    assert_eq!(outputs.len(), 1);
    assert_eq!(outputs[0].name, "DP-1");

    let buffer = state.client.capture_output("DP-1").unwrap();
    match &buffer {
        CaptureBuffer::Shm { data, width, height, .. } => {
            assert_eq!(data.len(), 1920 * 1080 * 4);
            assert_eq!((*width, *height), (1920, 1080));
        }
        other => panic!("expected a shared-memory buffer, got {:?}", other),
    }

    state
        .client
        .handle_event(ProtocolEvent::FrameReady("DP-1".to_string()));
    assert_eq!(state.client.session_phase("DP-1"), Some(SessionPhase::Ready));

    let img = state
        .finish_frame("DP-1", CaptureMethod::Shm, &buffer, 2500)
        .unwrap();
    assert_eq!(img.size(), (1920, 1080));
    assert_eq!(state.client.session_phase("DP-1"), None);
    // The observed result fed back into the selector.
    let stats = state.adaptive.stats_snapshot("DP-1");
    assert_eq!(stats.shm_latency, (10000 * 9 + 2500) / 10);
}

#[test]
fn acquire_frame_counts_captures_and_drops() {
    let mut state = NiriCaptureState::new(&NiriCapturePlugin::default());
    // Not connected: the request fails and counts a dropped frame.
    assert!(state.acquire_frame("DP-1").is_err());
    assert_eq!(state.performance_stats.frames_dropped, 1);
    assert_eq!(state.performance_stats.frames_captured, 0);

    state.client.complete_connection(3, 1).unwrap();
    state
        .client
        .handle_event(ProtocolEvent::OutputAdded(output("DP-1", 64, 64)));
    let (method, buffer) = state.acquire_frame("DP-1").unwrap();
    match method {
        CaptureMethod::Dmabuf | CaptureMethod::Shm => {}
    }
    assert!(matches!(buffer, CaptureBuffer::Shm { .. }));
    assert_eq!(state.performance_stats.frames_captured, 1);
}

#[test]
fn capture_tick_obeys_target_interval() {
    let mut state = NiriCaptureState::new(&NiriCapturePlugin::default());
    // 60 frames per second give a 16666-microsecond budget.
    assert_eq!(state.target_frame_time, 16666);
    assert!(!state.should_capture(0));
    assert!(state.should_capture(16666));
    state.mark_capture_time(100_000);
    assert!(!state.should_capture(100_000));
    assert!(!state.should_capture(116_665));
    assert!(state.should_capture(116_666));
}
