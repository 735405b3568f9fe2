use niri_capture::client::CaptureBuffer;
use niri_capture::error::{CaptureError, ConversionError};
use niri_capture::utils::{
    calculate_texture_memory_usage, format_buffer_info, format_memory_size,
};

#[test]
fn test_memory_calculation() {
    let usage = calculate_texture_memory_usage(1920, 1080, 4);
    assert_eq!(usage, 1920 * 1080 * 4);
}

#[test]
fn test_memory_formatting() {
    assert_eq!(format_memory_size(1024), "1.00 KB");
    assert_eq!(format_memory_size(1024 * 1024), "1.00 MB");
    assert_eq!(format_memory_size(1024 * 1024 * 1024), "1.00 GB");
}

#[test]
fn memory_formatting_fractions_truncate() {
    assert_eq!(format_memory_size(0), "0 bytes");
    assert_eq!(format_memory_size(1023), "1023 bytes");
    assert_eq!(format_memory_size(1536), "1.50 KB");
    assert_eq!(format_memory_size(1024 + 102), "1.09 KB");
    assert_eq!(format_memory_size(5 * 1024 * 1024 + 256 * 1024), "5.25 MB");
}

#[test]
fn buffer_info_strings_are_exact() {
    let shm = CaptureBuffer::Shm {
        data: vec![0; 16],
        stride: 7680,
        width: 1920,
        height: 1080,
        format: 0x34325258,
    };
    assert_eq!(
        format_buffer_info(&shm),
        "SHM Buffer: 1920x1080, stride: 7680, format: 0x34325258"
    );

    let dmabuf = CaptureBuffer::Dmabuf {
        width: 1280,
        height: 720,
        format: 0x34325241,
        modifier: 0x00ff_0000_0000_0001,
        num_planes: 2,
        fds: vec![],
        offsets: vec![0, 16],
        strides: vec![5120, 5120],
    };
    assert_eq!(
        format_buffer_info(&dmabuf),
        "DMA Buffer: 1280x720, format: 0x34325241, modifier: 0xff000000000001, planes: 2"
    );
}

#[test]
fn capture_error_messages_are_exact() {
    assert_eq!(
        CaptureError::WaylandConnection("socket gone".to_string()).message(),
        "Wayland connection failed: socket gone"
    );
    assert_eq!(
        CaptureError::OutputNotFound("DP-3".to_string()).message(),
        "Output not found: DP-3"
    );
    assert_eq!(
        CaptureError::BufferAllocation("pool full".to_string()).message(),
        "Buffer allocation failed: pool full"
    );
    assert_eq!(CaptureError::Timeout.message(), "Capture timeout");
    assert_eq!(
        CaptureError::Protocol("bad opcode".to_string()).message(),
        "Protocol error: bad opcode"
    );
}

#[test]
fn conversion_error_messages_are_exact() {
    assert_eq!(
        ConversionError::UnsupportedFormat("nv12".to_string()).message(),
        "Unsupported format: nv12"
    );
    assert_eq!(
        ConversionError::GpuImport("no device".to_string()).message(),
        "GPU import failed: no device"
    );
    assert_eq!(
        ConversionError::MemoryMapping("mmap".to_string()).message(),
        "Memory mapping failed: mmap"
    );
    assert_eq!(
        ConversionError::TextureCreation("exhausted".to_string()).message(),
        "Texture creation failed: exhausted"
    );
}
