//! Diagnostic helpers: buffer descriptions and memory-size arithmetic.

use crate::client::CaptureBuffer;
use crate::numfmt::{dec_chars, frac2_chars, hex_chars, push_dec, push_frac2, push_hex};
use vstd::arithmetic::div_mod::lemma_div_is_ordered;
use vstd::prelude::*;

verus! {

/// One kibibyte.
pub const KB: u64 = 1024;

/// One mebibyte.
pub const MB: u64 = 1024 * 1024;

/// One gibibyte.
pub const GB: u64 = 1024 * 1024 * 1024;

/// The characters describing a captured buffer: dimensions, layout and
/// format, with fourcc and modifier in hexadecimal.
pub open spec fn buffer_info_chars(buffer: CaptureBuffer) -> Seq<char> {
    match buffer {
        CaptureBuffer::Shm { stride, width, height, format, .. } => "SHM Buffer: "@ + dec_chars(
            width as nat,
        ) + "x"@ + dec_chars(height as nat) + ", stride: "@ + dec_chars(stride as nat)
            + ", format: 0x"@ + hex_chars(format as nat),
        CaptureBuffer::Dmabuf { width, height, format, modifier, num_planes, .. } => "DMA Buffer: "@
            + dec_chars(width as nat) + "x"@ + dec_chars(height as nat) + ", format: 0x"@
            + hex_chars(format as nat) + ", modifier: 0x"@ + hex_chars(modifier as nat)
            + ", planes: "@ + dec_chars(num_planes as nat),
    }
}

/// Describes a captured buffer for diagnostics.
pub fn format_buffer_info(buffer: &CaptureBuffer) -> (r: String)
    ensures
        r@ == buffer_info_chars(*buffer),
{
    match buffer {
        CaptureBuffer::Shm { stride, width, height, format, .. } => {
            let mut s = "SHM Buffer: ".to_owned();
            push_dec(&mut s, *width as u64);
            s.append("x");
            push_dec(&mut s, *height as u64);
            s.append(", stride: ");
            push_dec(&mut s, *stride as u64);
            s.append(", format: 0x");
            push_hex(&mut s, *format as u64);
            proof {
                assert(s@ =~= buffer_info_chars(*buffer));
            }
            s
        },
        CaptureBuffer::Dmabuf { width, height, format, modifier, num_planes, .. } => {
            let mut s = "DMA Buffer: ".to_owned();
            push_dec(&mut s, *width as u64);
            s.append("x");
            push_dec(&mut s, *height as u64);
            s.append(", format: 0x");
            push_hex(&mut s, *format as u64);
            s.append(", modifier: 0x");
            push_hex(&mut s, *modifier);
            s.append(", planes: ");
            push_dec(&mut s, *num_planes as u64);
            proof {
                assert(s@ =~= buffer_info_chars(*buffer));
            }
            s
        },
    }
}

/// The bytes a texture of the given dimensions occupies.
pub fn calculate_texture_memory_usage(width: u32, height: u32, bytes_per_pixel: u32) -> (r: u64)
    requires
        width * height * bytes_per_pixel <= u64::MAX,
    ensures
        r == width * height * bytes_per_pixel,
{
    proof {
        assert((width as int) * (height as int) < 0x1_0000_0000_0000_0000) by (nonlinear_arith)
            requires
                0 <= (width as int) && (width as int) < 0x1_0000_0000,
                0 <= (height as int) && (height as int) < 0x1_0000_0000,
        ;
    }
    (width as u64) * (height as u64) * (bytes_per_pixel as u64)
}

/// The characters of a byte count rendered with its largest binary unit
/// and two fraction digits (rounded toward zero), or as plain bytes below
/// one kibibyte.
pub open spec fn memory_size_chars(bytes: nat) -> Seq<char> {
    if bytes >= GB {
        dec_chars(bytes / (GB as nat)) + "."@ + frac2_chars(
            (bytes % (GB as nat)) * 100 / (GB as nat),
        ) + " GB"@
    } else if bytes >= MB {
        dec_chars(bytes / (MB as nat)) + "."@ + frac2_chars(
            (bytes % (MB as nat)) * 100 / (MB as nat),
        ) + " MB"@
    } else if bytes >= KB {
        dec_chars(bytes / (KB as nat)) + "."@ + frac2_chars(
            (bytes % (KB as nat)) * 100 / (KB as nat),
        ) + " KB"@
    } else {
        dec_chars(bytes) + " bytes"@
    }
}

/// The truncated two-digit fraction of `bytes` within `unit` stays below
/// one hundred.
proof fn lemma_frac_in_range(bytes: int, unit: int)
    requires
        unit > 0,
        unit * 100 <= u64::MAX,
    ensures
        0 <= (bytes % unit) * 100 / unit < 100,
        (bytes % unit) * 100 <= u64::MAX,
{
    let rem = bytes % unit;
    assert(0 <= rem < unit);
    assert(rem * 100 <= (unit - 1) * 100) by (nonlinear_arith)
        requires
            0 <= rem <= unit - 1,
    ;
    lemma_div_is_ordered(rem * 100, (unit - 1) * 100, unit);
    assert(((unit - 1) * 100) / unit < 100) by (nonlinear_arith)
        requires
            unit > 0,
    ;
    assert(rem * 100 / unit >= 0) by (nonlinear_arith)
        requires
            rem >= 0,
            unit > 0,
    ;
}

/// Renders a byte count with its largest binary unit for diagnostics.
pub fn format_memory_size(bytes: u64) -> (r: String)
    ensures
        r@ == memory_size_chars(bytes as nat),
{
    if bytes >= GB {
        proof {
            lemma_frac_in_range(bytes as int, GB as int);
        }
        let mut s = String::new();
        push_dec(&mut s, bytes / GB);
        s.append(".");
        push_frac2(&mut s, (bytes % GB) * 100 / GB);
        s.append(" GB");
        proof {
            assert(s@ =~= memory_size_chars(bytes as nat));
        }
        s
    } else if bytes >= MB {
        proof {
            lemma_frac_in_range(bytes as int, MB as int);
        }
        let mut s = String::new();
        push_dec(&mut s, bytes / MB);
        s.append(".");
        push_frac2(&mut s, (bytes % MB) * 100 / MB);
        s.append(" MB");
        proof {
            assert(s@ =~= memory_size_chars(bytes as nat));
        }
        s
    } else if bytes >= KB {
        proof {
            lemma_frac_in_range(bytes as int, KB as int);
        }
        let mut s = String::new();
        push_dec(&mut s, bytes / KB);
        s.append(".");
        push_frac2(&mut s, (bytes % KB) * 100 / KB);
        s.append(" KB");
        proof {
            assert(s@ =~= memory_size_chars(bytes as nat));
        }
        s
    } else {
        let mut s = String::new();
        push_dec(&mut s, bytes);
        s.append(" bytes");
        proof {
            assert(s@ =~= memory_size_chars(bytes as nat));
        }
        s
    }
}

} // verus!
