//! Shared result and error vocabulary for the capture pipeline.
//!
//! Acquisition errors come from the protocol client; conversion errors come
//! from buffer normalization.  All of them are reported as results and are
//! non-fatal per request, except a connection error, which disables the
//! client instance for the rest of the session.

use vstd::prelude::*;

verus! {

/// Errors raised while acquiring a raw frame from the compositor.
#[derive(Debug, Clone, PartialEq, Eq)]
pub enum CaptureError {
    /// The compositor socket is unreachable; fatal for the client instance.
    WaylandConnection(String),
    /// The caller asked for an output name that is not registered.
    OutputNotFound(String),
    /// The destination buffer could not be allocated; counts as a dropped frame.
    BufferAllocation(String),
    /// No completion signal arrived within the bounded wait.
    Timeout,
    /// A protocol-level failure signal; non-fatal unless it recurs.
    Protocol(String),
}

/// Errors raised while normalizing a captured buffer into canonical RGBA.
#[derive(Debug, Clone, PartialEq, Eq)]
pub enum ConversionError {
    /// The pixel format or buffer variant is not one the converter recognizes.
    UnsupportedFormat(String),
    /// The GPU-resident buffer could not be imported.
    GpuImport(String),
    /// The shared-memory region could not be mapped.
    MemoryMapping(String),
    /// The destination texture could not be created.
    TextureCreation(String),
}

impl CaptureError {
    /// The characters of the human-readable description of this error.
    pub open spec fn message_spec(self) -> Seq<char> {
        match self {
            CaptureError::WaylandConnection(m) => "Wayland connection failed: "@ + m@,
            CaptureError::OutputNotFound(m) => "Output not found: "@ + m@,
            CaptureError::BufferAllocation(m) => "Buffer allocation failed: "@ + m@,
            CaptureError::Timeout => "Capture timeout"@,
            CaptureError::Protocol(m) => "Protocol error: "@ + m@,
        }
    }

    /// A human-readable description of the error.
    pub fn message(&self) -> (r: String)
        ensures
            r@ == self.message_spec(),
    {
        match self {
            CaptureError::WaylandConnection(m) => {
                let mut s = "Wayland connection failed: ".to_owned();
                s.append(m.as_str());
                s
            },
            CaptureError::OutputNotFound(m) => {
                let mut s = "Output not found: ".to_owned();
                s.append(m.as_str());
                s
            },
            CaptureError::BufferAllocation(m) => {
                let mut s = "Buffer allocation failed: ".to_owned();
                s.append(m.as_str());
                s
            },
            CaptureError::Timeout => "Capture timeout".to_owned(),
            CaptureError::Protocol(m) => {
                let mut s = "Protocol error: ".to_owned();
                s.append(m.as_str());
                s
            },
        }
    }
}

impl ConversionError {
    /// The characters of the human-readable description of this error.
    pub open spec fn message_spec(self) -> Seq<char> {
        match self {
            ConversionError::UnsupportedFormat(m) => "Unsupported format: "@ + m@,
            ConversionError::GpuImport(m) => "GPU import failed: "@ + m@,
            ConversionError::MemoryMapping(m) => "Memory mapping failed: "@ + m@,
            ConversionError::TextureCreation(m) => "Texture creation failed: "@ + m@,
        }
    }

    /// A human-readable description of the error.
    pub fn message(&self) -> (r: String)
        ensures
            r@ == self.message_spec(),
    {
        match self {
            ConversionError::UnsupportedFormat(m) => {
                let mut s = "Unsupported format: ".to_owned();
                s.append(m.as_str());
                s
            },
            ConversionError::GpuImport(m) => {
                let mut s = "GPU import failed: ".to_owned();
                s.append(m.as_str());
                s
            },
            ConversionError::MemoryMapping(m) => {
                let mut s = "Memory mapping failed: ".to_owned();
                s.append(m.as_str());
                s
            },
            ConversionError::TextureCreation(m) => {
                let mut s = "Texture creation failed: ".to_owned();
                s.append(m.as_str());
                s
            },
        }
    }
}

} // verus!
