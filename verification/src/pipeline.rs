//! The per-tick capture pipeline: protocol client, adaptive selector and
//! buffer converter behind one state object.
//!
//! The embedding scheduler drives it once per tick: when a capture is
//! due, it acquires a raw frame for each output (the selector picks the
//! method, the client issues the request), pumps its event loop, and then
//! finishes each frame (the converter normalizes it, the observed result
//! feeds back into the selector).  All times are in microseconds.

use crate::adaptive::{apply_record, select_spec, AdaptiveCaptureSystem, CaptureMethod};
use crate::client::{
    has_output, output_for, phase_for, CaptureBuffer, NiriScreencopyClient, SessionPhase,
    DRM_FORMAT_XRGB8888,
};
use crate::convert::{opaque_black, shm_converted, CanonicalImage, DmaBufferConverter};
use crate::error::{CaptureError, ConversionError};
use vstd::prelude::*;

verus! {

/// A frame slower than this, in microseconds, falls short of 60 frames
/// per second and is counted as dropped.
pub const LOW_FPS_FRAME_TIME: u64 = 16666;

/// Rolling totals of the pipeline's own activity.
#[derive(Debug, Clone, Copy, PartialEq, Eq, Structural)]
pub struct CaptureStats {
    /// Requests that were issued successfully.
    pub frames_captured: u64,
    /// Requests that failed or ticks that missed the frame budget.
    pub frames_dropped: u64,
    /// Moving average of the tick interval, in microseconds.
    pub average_latency: u64,
    /// Mirrored GPU-path success rate, in thousandths.
    pub dmabuf_success_rate: u32,
    /// Captures that fell back to the shared-memory path.
    pub shm_fallback_count: u64,
}

impl CaptureStats {
    /// The moving average stays below 2^32 microseconds.
    pub open spec fn wf(self) -> bool {
        self.average_latency < 0x1_0000_0000
    }

    /// Folds one tick interval into the totals: an interval over the
    /// 60-frames-per-second budget counts a dropped frame, and the
    /// average moves by one 0.9/0.1 exponential step.
    pub fn note_frame_interval(&mut self, interval: u32)
        requires
            old(self).wf(),
        ensures
            final(self).wf(),
            final(self).average_latency == (old(self).average_latency * 9 + interval) / 10,
            final(self).frames_dropped == (if interval > LOW_FPS_FRAME_TIME {
                if old(self).frames_dropped == u64::MAX {
                    old(self).frames_dropped
                } else {
                    (old(self).frames_dropped + 1) as u64
                }
            } else {
                old(self).frames_dropped
            }),
            final(self).frames_captured == old(self).frames_captured,
            final(self).dmabuf_success_rate == old(self).dmabuf_success_rate,
            final(self).shm_fallback_count == old(self).shm_fallback_count,
    {
        if interval as u64 > LOW_FPS_FRAME_TIME {
            if self.frames_dropped < u64::MAX {
                self.frames_dropped = self.frames_dropped + 1;
            }
        }
        self.average_latency = (self.average_latency * 9 + interval as u64) / 10;
    }
}

impl Default for CaptureStats {
    /// All totals at zero.
    fn default() -> (r: CaptureStats)
        ensures
            r == (CaptureStats {
                frames_captured: 0u64,
                frames_dropped: 0u64,
                average_latency: 0u64,
                dmabuf_success_rate: 0u32,
                shm_fallback_count: 0u64,
            }),
    {
        CaptureStats {
            frames_captured: 0,
            frames_dropped: 0,
            average_latency: 0,
            dmabuf_success_rate: 0,
            shm_fallback_count: 0,
        }
    }
}

/// The tag the embedding scene attaches to a displayed output: which
/// output it shows and how it follows that output.
#[derive(Debug, Clone)]
pub struct NiriScreenDisplay {
    /// The output whose captures are displayed.
    pub output_name: String,
    /// Resize the displayed surface when the output mode changes.
    pub auto_resize: bool,
    /// Re-upload only damaged regions where the compositor reports them.
    pub damage_tracking: bool,
}

/// The capture pipeline: one protocol client, one adaptive selector, one
/// converter, and the tick bookkeeping around them.
#[derive(Debug)]
pub struct NiriCaptureState {
    /// Protocol client state the embedding event loop feeds.
    pub client: NiriScreencopyClient,
    /// Statistics-driven method selection.
    pub adaptive: AdaptiveCaptureSystem,
    /// Buffer normalization.
    pub converter: DmaBufferConverter,
    /// Rolling totals of the pipeline's activity.
    pub performance_stats: CaptureStats,
    /// When the last capture tick ran, in microseconds.
    pub last_capture_time: u64,
    /// Minimum interval between capture ticks, in microseconds.
    pub target_frame_time: u64,
}

impl NiriCaptureState {
    /// Every component is well-formed.
    pub open spec fn wf(self) -> bool {
        self.client.wf() && self.adaptive.wf() && self.performance_stats.wf()
    }

    /// A fresh pipeline for the given settings: disconnected client,
    /// default adaptive strategy, zeroed totals, and a tick interval of
    /// one second divided by the configured frequency.
    pub fn new(plugin_config: &crate::config::NiriCapturePlugin) -> (r: NiriCaptureState)
        requires
            plugin_config.capture_fps_milli > 0,
        ensures
            r.wf(),
            !r.client.connected,
            r.client.outputs@ == Seq::<crate::client::OutputInfo>::empty(),
            r.client.sessions@ == Seq::<crate::client::CaptureSession>::empty(),
            r.adaptive.output_stats@ == Seq::<crate::adaptive::StatsEntry>::empty(),
            !r.converter.gpu_import_available,
            r.performance_stats == (CaptureStats {
                frames_captured: 0u64,
                frames_dropped: 0u64,
                average_latency: 0u64,
                dmabuf_success_rate: 0u32,
                shm_fallback_count: 0u64,
            }),
            r.last_capture_time == 0,
            r.target_frame_time == 1_000_000_000u64 / plugin_config.capture_fps_milli as u64,
    {
        NiriCaptureState {
            client: NiriScreencopyClient::new(),
            adaptive: AdaptiveCaptureSystem::new(),
            converter: DmaBufferConverter::new(),
            performance_stats: CaptureStats::default(),
            last_capture_time: 0,
            target_frame_time: 1_000_000_000u64 / (plugin_config.capture_fps_milli as u64),
        }
    }

    /// Whether a capture tick is due at `now`: the configured interval
    /// has passed since the last tick.
    pub fn should_capture(&self, now: u64) -> (r: bool)
        ensures
            r == (self.last_capture_time + self.target_frame_time <= now),
    {
        now >= self.last_capture_time && now - self.last_capture_time >= self.target_frame_time
    }

    /// Records that a capture tick ran at `now`.
    pub fn mark_capture_time(&mut self, now: u64)
        requires
            old(self).wf(),
        ensures
            final(self).wf(),
            final(self).last_capture_time == now,
            final(self).client == old(self).client,
            final(self).adaptive == old(self).adaptive,
            final(self).converter == old(self).converter,
            final(self).performance_stats == old(self).performance_stats,
            final(self).target_frame_time == old(self).target_frame_time,
    {
        self.last_capture_time = now;
    }

    /// Selects a method for the named output and issues one capture
    /// request for it.
    ///
    /// The selection is the documented one for some draw below one
    /// thousand; the request succeeds exactly when the client is
    /// connected and the output registered, returning the freshly
    /// allocated destination buffer and tracking a pending session.  A
    /// successful request counts a captured frame, a failed one a dropped
    /// frame.  The selector's statistics do not move here; they move when
    /// the frame is finished.
    pub fn acquire_frame(&mut self, output_name: &str) -> (r: Result<
        (CaptureMethod, CaptureBuffer),
        CaptureError,
    >)
        requires
            old(self).wf(),
        ensures
            final(self).wf(),
            final(self).adaptive == old(self).adaptive,
            final(self).converter == old(self).converter,
            final(self).last_capture_time == old(self).last_capture_time,
            final(self).target_frame_time == old(self).target_frame_time,
            final(self).client.connected == old(self).client.connected,
            final(self).client.outputs@ == old(self).client.outputs@,
            r is Ok <==> (old(self).client.connected && has_output(
                old(self).client.outputs@,
                output_name@,
            )),
            r matches Ok((method, _)) ==> exists|d: u32|
                d < 1000 && method == select_spec(
                    old(self).adaptive.strategy,
                    old(self).adaptive.stats_or_default(output_name@),
                    d,
                ),
            r matches Ok(p) ==> {
                let info = output_for(old(self).client.outputs@, output_name@);
                &&& (p.1 matches CaptureBuffer::Shm { data, stride, width, height, format }
                    && width == info.width && height == info.height && stride == info.width * 4
                    && format == DRM_FORMAT_XRGB8888 && data@.len() == info.width * 4 * info.height
                    && (forall|i: int| 0 <= i < data@.len() ==> data@[i] == 0u8))
                &&& forall|n: Seq<char>|
                    #![auto]
                    phase_for(final(self).client.sessions@, n) == (if n == output_name@ {
                        Some(SessionPhase::Pending)
                    } else {
                        phase_for(old(self).client.sessions@, n)
                    })
                &&& final(self).performance_stats == (CaptureStats {
                    frames_captured: if old(self).performance_stats.frames_captured == u64::MAX {
                        old(self).performance_stats.frames_captured
                    } else {
                        (old(self).performance_stats.frames_captured + 1) as u64
                    },
                    ..old(self).performance_stats
                })
            },
            r is Err ==> final(self).client.sessions@ == old(self).client.sessions@
                && final(self).performance_stats == (CaptureStats {
                frames_dropped: if old(self).performance_stats.frames_dropped == u64::MAX {
                    old(self).performance_stats.frames_dropped
                } else {
                    (old(self).performance_stats.frames_dropped + 1) as u64
                },
                ..old(self).performance_stats
            }),
            !old(self).client.connected ==> (r matches Err(CaptureError::Protocol(m)) && m@
                == "No screencopy manager"@),
            old(self).client.connected && !has_output(old(self).client.outputs@, output_name@)
                ==> (r matches Err(CaptureError::OutputNotFound(m)) && m@ == output_name@),
    {
        let method = self.adaptive.select_optimal_method(output_name);
        match self.client.capture_output(output_name) {
            Ok(buffer) => {
                if self.performance_stats.frames_captured < u64::MAX {
                    self.performance_stats.frames_captured =
                        self.performance_stats.frames_captured + 1;
                }
                Ok((method, buffer))
            },
            Err(e) => {
                if self.performance_stats.frames_dropped < u64::MAX {
                    self.performance_stats.frames_dropped =
                        self.performance_stats.frames_dropped + 1;
                }
                Err(e)
            },
        }
    }

    /// Finishes one acquired frame: normalizes the raw buffer along the
    /// method it was captured with, feeds the observed outcome and
    /// latency back into the selector, and forgets the output's session.
    ///
    /// The conversion result is exactly the converter's: byte-exact
    /// BGRA-to-RGBA reordering for a shared-memory buffer, the
    /// opaque-black placeholder for a recognized GPU buffer, an
    /// unsupported-format error otherwise; a failed conversion publishes
    /// no image.
    pub fn finish_frame(
        &mut self,
        output_name: &str,
        method: CaptureMethod,
        buffer: &CaptureBuffer,
        latency: u32,
    ) -> (r: Result<CanonicalImage, ConversionError>)
        requires
            old(self).wf(),
            buffer.area_fits(),
        ensures
            final(self).wf(),
            final(self).converter == old(self).converter,
            final(self).last_capture_time == old(self).last_capture_time,
            final(self).target_frame_time == old(self).target_frame_time,
            final(self).performance_stats.frames_captured == old(
                self,
            ).performance_stats.frames_captured,
            final(self).performance_stats.frames_dropped == old(
                self,
            ).performance_stats.frames_dropped,
            final(self).client.connected == old(self).client.connected,
            final(self).client.outputs@ == old(self).client.outputs@,
            forall|n: Seq<char>|
                #![auto]
                phase_for(final(self).client.sessions@, n) == (if n == output_name@ {
                    None::<SessionPhase>
                } else {
                    phase_for(old(self).client.sessions@, n)
                }),
            method == CaptureMethod::Shm ==> (r is Ok <==> buffer is Shm) && (match *buffer {
                CaptureBuffer::Shm { ref data, stride, width, height, format } => r matches Ok(img)
                    && img.width == width && img.height == height && img.wf() && shm_converted(
                    data@,
                    stride as int,
                    width as int,
                    height as int,
                    img.data@,
                ),
                _ => r is Err,
            }),
            method == CaptureMethod::Dmabuf ==> (match *buffer {
                CaptureBuffer::Dmabuf { width, height, format, .. } => {
                    if format == DRM_FORMAT_XRGB8888 || format == crate::client::DRM_FORMAT_ARGB8888 {
                        r matches Ok(img) && img.width == width && img.height == height
                            && img.wf() && opaque_black(width as int, height as int, img.data@)
                    } else {
                        r is Err
                    }
                },
                _ => r is Err,
            }),
            forall|n: Seq<char>|
                #![auto]
                final(self).adaptive.stats_or_default(n) == (if n == output_name@ {
                    apply_record(
                        old(self).adaptive.stats_or_default(output_name@),
                        method,
                        r is Ok,
                        latency as u64,
                    )
                } else {
                    old(self).adaptive.stats_or_default(n)
                }),
            final(self).adaptive.strategy == old(self).adaptive.strategy,
    {
        let conversion: Result<CanonicalImage, ConversionError> = match method {
            CaptureMethod::Shm => self.converter.convert_shm_buffer(buffer),
            CaptureMethod::Dmabuf => self.converter.convert_dmabuf_buffer(buffer),
        };
        let success = conversion.is_ok();
        self.adaptive.record_capture_result(output_name, method, success, latency);
        self.client.clear_session(output_name);
        conversion
    }
}

} // verus!
