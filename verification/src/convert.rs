//! Normalization of captured buffers into canonical RGBA images.
//!
//! Whatever raw pixel layout was captured, the converter produces the same
//! canonical form: tightly packed RGBA, four bytes per pixel, alpha forced
//! fully opaque.  The shared-memory path is exact down to the byte: rows
//! are walked with the source stride as pitch, BGRA-ordered source bytes
//! are reordered to RGBA, and any pixel whose source offset falls outside
//! the buffer becomes opaque black instead of failing the conversion.
//!
//! A real zero-copy import of a GPU-resident buffer needs a graphics
//! device, which this crate does not hold; the GPU path therefore checks
//! the pixel format and produces an opaque-black canonical image of the
//! right dimensions, leaving the actual import to the embedding graphics
//! stack.

use crate::client::{CaptureBuffer, DRM_FORMAT_ARGB8888, DRM_FORMAT_XRGB8888};
use crate::error::ConversionError;
use vstd::arithmetic::div_mod::lemma_fundamental_div_mod;
use vstd::prelude::*;

verus! {

/// The canonical image all capture methods converge to: tightly packed
/// RGBA pixels, four bytes per pixel.
#[derive(Debug, Clone)]
pub struct CanonicalImage {
    /// RGBA bytes, `width * height * 4` of them.
    pub data: Vec<u8>,
    /// Width in pixels.
    pub width: u32,
    /// Height in pixels.
    pub height: u32,
}

impl CanonicalImage {
    /// The byte count matches the dimensions exactly.
    pub open spec fn wf(self) -> bool {
        self.data@.len() == self.width * self.height * 4
    }

    /// The dimensions of the image, in pixels.
    pub fn size(&self) -> (r: (u32, u32))
        ensures
            r.0 == self.width,
            r.1 == self.height,
    {
        (self.width, self.height)
    }
}

/// The canonical bytes of the pixel at column `x` of row `y` are correct
/// in `out` for a shared-memory source `data` with row pitch `stride`:
/// the BGRA source bytes reordered to RGBA with opaque alpha when the
/// whole source pixel lies inside the buffer, opaque black otherwise.
pub open spec fn pixel_ok(
    data: Seq<u8>,
    stride: int,
    w: int,
    y: int,
    x: int,
    out: Seq<u8>,
) -> bool {
    let o = (y * w + x) * 4;
    let src = y * stride + x * 4;
    if src + 3 < data.len() {
        out[o] == data[src + 2] && out[o + 1] == data[src + 1] && out[o + 2] == data[src] && out[o
            + 3] == 255u8
    } else {
        out[o] == 0u8 && out[o + 1] == 0u8 && out[o + 2] == 0u8 && out[o + 3] == 255u8
    }
}

/// `out` is the exact canonical form of the `w` by `h` shared-memory
/// source `data` with row pitch `stride`.
pub open spec fn shm_converted(
    data: Seq<u8>,
    stride: int,
    w: int,
    h: int,
    out: Seq<u8>,
) -> bool {
    &&& out.len() == w * h * 4
    &&& forall|y: int, x: int|
        0 <= y < h && 0 <= x < w ==> pixel_ok(data, stride, w, y, x, out)
}

/// `out` is the opaque-black placeholder of `w * h` pixels.
pub open spec fn opaque_black(w: int, h: int, out: Seq<u8>) -> bool {
    &&& out.len() == w * h * 4
    &&& forall|i: int|
        0 <= i < out.len() ==> out[i] == (if i % 4 == 3 {
            255u8
        } else {
            0u8
        })
}

impl CaptureBuffer {
    /// The canonical image of this buffer fits the machine's memory.
    pub open spec fn area_fits(self) -> bool {
        match self {
            CaptureBuffer::Shm { width, height, .. } => width * height * 4 <= usize::MAX,
            CaptureBuffer::Dmabuf { width, height, .. } => width * height * 4 <= usize::MAX,
        }
    }
}

/// Turns raw captured buffers into canonical RGBA images.
///
/// `gpu_import_available` records whether the embedding graphics stack
/// offered a device for zero-copy import.
#[derive(Debug, Clone)]
pub struct DmaBufferConverter {
    /// Whether a graphics device was made available for GPU import.
    pub gpu_import_available: bool,
}

impl DmaBufferConverter {
    /// A converter with no graphics device attached.
    pub fn new() -> (r: DmaBufferConverter)
        ensures
            !r.gpu_import_available,
    {
        DmaBufferConverter { gpu_import_available: false }
    }

    /// Records that the embedding graphics stack offered a device for
    /// zero-copy import.
    pub fn initialize(&mut self)
        ensures
            final(self).gpu_import_available,
    {
        self.gpu_import_available = true;
    }

    /// Whether GPU-buffer import is available.
    pub fn supports_dmabuf(&self) -> (r: bool)
        ensures
            r == self.gpu_import_available,
    {
        self.gpu_import_available
    }

    /// Normalizes a shared-memory buffer into the canonical RGBA form.
    ///
    /// Succeeds exactly on the shared-memory variant, whatever its format
    /// field; the result is the byte-exact stride-aware BGRA-to-RGBA
    /// reordering with opaque alpha, with out-of-bounds pixels filled
    /// opaque black.  The other variant is rejected as unsupported.
    pub fn convert_shm_buffer(&self, shm_buffer: &CaptureBuffer) -> (r: Result<
        CanonicalImage,
        ConversionError,
    >)
        requires
            shm_buffer.area_fits(),
        ensures
            r is Ok <==> shm_buffer is Shm,
            match *shm_buffer {
                CaptureBuffer::Shm { ref data, stride, width, height, format } => r matches Ok(img)
                    && img.width == width && img.height == height && img.wf() && shm_converted(
                    data@,
                    stride as int,
                    width as int,
                    height as int,
                    img.data@,
                ),
                CaptureBuffer::Dmabuf { .. } => r matches Err(ConversionError::UnsupportedFormat(m))
                    && m@ == "Expected SHM buffer"@,
            },
    {
        match shm_buffer {
            CaptureBuffer::Shm { data, stride, width, height, format: _ } => {
                let w: u32 = *width;
                let h: u32 = *height;
                let pitch: u32 = *stride;
                let mut rgba: Vec<u8> = Vec::new();
                let mut y: u32 = 0;
                while y < h
                    invariant
                        0 <= y <= h,
                        w * h * 4 <= usize::MAX,
                        rgba@.len() == y * (w * 4),
                        forall|yy: int, xx: int|
                            0 <= yy < y && 0 <= xx < w ==> pixel_ok(
                                data@,
                                pitch as int,
                                w as int,
                                yy,
                                xx,
                                rgba@,
                            ),
                    decreases h - y,
                {
                    let mut x: u32 = 0;
                    while x < w
                        invariant
                            0 <= y < h,
                            0 <= x <= w,
                            w * h * 4 <= usize::MAX,
                            rgba@.len() == y * (w * 4) + x * 4,
                            forall|yy: int, xx: int|
                                0 <= yy < y && 0 <= xx < w ==> pixel_ok(
                                    data@,
                                    pitch as int,
                                    w as int,
                                    yy,
                                    xx,
                                    rgba@,
                                ),
                            forall|xx: int|
                                0 <= xx < x ==> pixel_ok(
                                    data@,
                                    pitch as int,
                                    w as int,
                                    y as int,
                                    xx,
                                    rgba@,
                                ),
                        decreases w - x,
                    {
                        let ghost before = rgba@;
                        proof {
                            assert((y as int) * (pitch as int) < 0x1_0000_0000_0000_0000)
                                by (nonlinear_arith)
                                requires
                                    0 <= (y as int) && (y as int) < 0x1_0000_0000,
                                    0 <= (pitch as int) && (pitch as int) < 0x1_0000_0000,
                            ;
                        }
                        let src: u128 = (y as u128) * (pitch as u128) + (x as u128) * 4;
                        proof {
                            assert((y as int) * (w as int) + (x as int) < (w as int) * (h as int))
                                by (nonlinear_arith)
                                requires
                                    0 <= (y as int) && (y as int) < (h as int),
                                    0 <= (x as int) && (x as int) < (w as int),
                            ;
                            assert(before.len() == ((y as int) * (w as int) + (x as int)) * 4)
                                by (nonlinear_arith)
                                requires
                                    before.len() == (y as int) * ((w as int) * 4) + (x as int) * 4,
                            ;
                        }
                        if src + 3 < (data.len() as u128) {
                            let s: usize = src as usize;
                            rgba.push(data[s + 2]);
                            rgba.push(data[s + 1]);
                            rgba.push(data[s]);
                            rgba.push(255);
                        } else {
                            rgba.push(0);
                            rgba.push(0);
                            rgba.push(0);
                            rgba.push(255);
                        }
                        proof {
                            assert(pixel_ok(data@, pitch as int, w as int, y as int, x as int, rgba@));
                            assert forall|yy: int, xx: int|
                                0 <= yy < y && 0 <= xx < w implies pixel_ok(
                                data@,
                                pitch as int,
                                w as int,
                                yy,
                                xx,
                                rgba@,
                            ) by {
                                assert(pixel_ok(data@, pitch as int, w as int, yy, xx, before));
                                assert(((yy * (w as int) + xx) * 4) + 3 < before.len())
                                    by (nonlinear_arith)
                                    requires
                                        0 <= yy && yy < (y as int),
                                        0 <= xx && xx < (w as int),
                                        before.len() == (y as int) * ((w as int) * 4) + (x as int)
                                            * 4,
                                ;
                            }
                            assert forall|xx: int| 0 <= xx < x implies pixel_ok(
                                data@,
                                pitch as int,
                                w as int,
                                y as int,
                                xx,
                                rgba@,
                            ) by {
                                assert(pixel_ok(data@, pitch as int, w as int, y as int, xx, before));
                                assert((((y as int) * (w as int) + xx) * 4) + 3 < before.len())
                                    by (nonlinear_arith)
                                    requires
                                        0 <= xx && xx < (x as int),
                                        before.len() == (y as int) * ((w as int) * 4) + (x as int)
                                            * 4,
                                ;
                            }
                        }
                        x += 1;
                    }
                    proof {
                        assert((y as int + 1) * ((w as int) * 4) == (y as int) * ((w as int) * 4)
                            + (w as int) * 4) by (nonlinear_arith);
                    }
                    y += 1;
                }
                proof {
                    assert((h as int) * ((w as int) * 4) == (w as int) * (h as int) * 4)
                        by (nonlinear_arith);
                }
                Ok(CanonicalImage { data: rgba, width: w, height: h })
            },
            CaptureBuffer::Dmabuf { .. } => {
                Err(ConversionError::UnsupportedFormat("Expected SHM buffer".to_owned()))
            },
        }
    }

    /// Normalizes a GPU-resident buffer description.
    ///
    /// Succeeds exactly on the GPU variant when its fourcc is one the
    /// fallback path recognizes (XRGB8888 or ARGB8888); the result is an
    /// opaque-black canonical image of the buffer's dimensions, standing
    /// in until the embedding graphics stack imports the planes.  An
    /// unrecognized fourcc and the shared-memory variant are rejected as
    /// unsupported.
    pub fn convert_dmabuf_buffer(&self, dmabuf_buffer: &CaptureBuffer) -> (r: Result<
        CanonicalImage,
        ConversionError,
    >)
        requires
            dmabuf_buffer.area_fits(),
        ensures
            match *dmabuf_buffer {
                CaptureBuffer::Dmabuf { width, height, format, .. } => {
                    if format == DRM_FORMAT_XRGB8888 || format == DRM_FORMAT_ARGB8888 {
                        r matches Ok(img) && img.width == width && img.height == height
                            && img.wf() && opaque_black(width as int, height as int, img.data@)
                    } else {
                        r matches Err(ConversionError::UnsupportedFormat(m)) && m@
                            == "unrecognized pixel format"@
                    }
                },
                CaptureBuffer::Shm { .. } => r matches Err(ConversionError::UnsupportedFormat(m))
                    && m@ == "Expected DMA buffer"@,
            },
    {
        match dmabuf_buffer {
            CaptureBuffer::Dmabuf { width, height, format, .. } => {
                if !(*format == DRM_FORMAT_XRGB8888 || *format == DRM_FORMAT_ARGB8888) {
                    return Err(
                        ConversionError::UnsupportedFormat("unrecognized pixel format".to_owned()),
                    );
                }
                let w: u32 = *width;
                let h: u32 = *height;
                let pixels: u64 = (w as u64) * (h as u64);
                let mut rgba: Vec<u8> = Vec::new();
                let mut p: u64 = 0;
                while p < pixels
                    invariant
                        0 <= p <= pixels,
                        pixels == (w as int) * (h as int),
                        (w as int) * (h as int) * 4 <= usize::MAX,
                        rgba@.len() == p * 4,
                        forall|i: int|
                            0 <= i < rgba@.len() ==> rgba@[i] == (if i % 4 == 3 {
                                255u8
                            } else {
                                0u8
                            }),
                    decreases pixels - p,
                {
                    rgba.push(0);
                    rgba.push(0);
                    rgba.push(0);
                    rgba.push(255);
                    p += 1;
                }
                proof {
                    assert(rgba@.len() == (w as int) * (h as int) * 4);
                }
                Ok(CanonicalImage { data: rgba, width: w, height: h })
            },
            CaptureBuffer::Shm { .. } => {
                Err(ConversionError::UnsupportedFormat("Expected DMA buffer".to_owned()))
            },
        }
    }
}

impl Default for DmaBufferConverter {
    /// Same as [`DmaBufferConverter::new`].
    fn default() -> (r: DmaBufferConverter)
        ensures
            !r.gpu_import_available,
    {
        DmaBufferConverter::new()
    }
}

/// Round trip of a pure-red source: a buffer of width `w`, height `h` and
/// row pitch exactly `w * 4`, holding (B, G, R, A) = (0, 0, 255, 255) in
/// every pixel, normalizes to a canonical buffer in which every pixel is
/// (R, G, B, A) = (255, 0, 0, 255), byte for byte, of size `w * h * 4`.
pub proof fn lemma_pure_red_converts_to_red(data: Seq<u8>, w: int, h: int, out: Seq<u8>)
    requires
        0 <= w,
        0 <= h,
        data.len() == w * h * 4,
        forall|i: int|
            0 <= i < data.len() ==> data[i] == (if i % 4 == 2 || i % 4 == 3 {
                255u8
            } else {
                0u8
            }),
        shm_converted(data, w * 4, w, h, out),
    ensures
        out.len() == w * h * 4,
        forall|i: int|
            0 <= i < out.len() ==> out[i] == (if i % 4 == 0 || i % 4 == 3 {
                255u8
            } else {
                0u8
            }),
{
    assert forall|i: int| 0 <= i < out.len() implies out[i] == (if i % 4 == 0 || i % 4 == 3 {
        255u8
    } else {
        0u8
    }) by {
        assert(w * h * 4 > 0);
        assert(w > 0 && h > 0) by (nonlinear_arith)
            requires
                0 <= w,
                0 <= h,
                w * h * 4 > 0,
        ;
        let p = i / 4;
        let k = i % 4;
        lemma_fundamental_div_mod(i, 4);
        assert(i == 4 * p + k && 0 <= k < 4);
        assert(p < w * h) by (nonlinear_arith)
            requires
                i < w * h * 4,
                i == 4 * p + k,
                0 <= k < 4,
        ;
        assert(p >= 0);
        let y = p / w;
        let x = p % w;
        lemma_fundamental_div_mod(p, w);
        assert(p == w * y + x && 0 <= x < w);
        assert(0 <= y && y < h) by (nonlinear_arith)
            requires
                p == w * y + x,
                0 <= x < w,
                0 <= p < w * h,
                w > 0,
        ;
        assert(pixel_ok(data, w * 4, w, y, x, out));
        let o = (y * w + x) * 4;
        let src = y * (w * 4) + x * 4;
        assert(o == 4 * p && src == 4 * p) by (nonlinear_arith)
            requires
                p == w * y + x,
                o == (y * w + x) * 4,
                src == y * (w * 4) + x * 4,
        ;
        assert(src + 3 < data.len());
        assert((4 * p) % 4 == 0 && (4 * p + 1) % 4 == 1 && (4 * p + 2) % 4 == 2 && (4 * p + 3) % 4
            == 3) by (nonlinear_arith);
        assert(out[o] == data[src + 2] && out[o + 1] == data[src + 1] && out[o + 2] == data[src]
            && out[o + 3] == 255u8);
        assert(out[i] == out[o + k]);
    }
}

} // verus!
