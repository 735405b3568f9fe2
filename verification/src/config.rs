//! Capture settings supplied by the embedding application.
//!
//! The embedding application parses its configuration file and command
//! line; the validated plain values land here.  Frequencies are in
//! thousandths of a frame per second, ratios in thousandths of one.

use vstd::prelude::*;

verus! {

/// The capture settings the pipeline consumes.
#[derive(Debug, Clone)]
pub struct BevyCaptureConfig {
    /// Capture frequency, in thousandths of a frame per second.
    pub capture_fps_milli: u32,
    /// Prefer the zero-copy GPU path where available.
    pub prefer_dmabuf: bool,
    /// The output names to capture; empty means every output.
    pub outputs: Vec<String>,
    /// Re-capture only damaged regions where the compositor reports them.
    pub damage_tracking: bool,
    /// Let observed statistics steer the capture method.
    pub adaptive_performance: bool,
    /// Upper bound on host-memory use, in thousandths of the budget.
    pub max_memory_usage: u32,
}

/// Per-application overrides handed in through the embedding API.
#[derive(Debug, Clone)]
pub struct NiriCapturePlugin {
    /// The output names to capture; empty means no override.
    pub outputs: Vec<String>,
    /// Capture frequency override, in thousandths of a frame per second;
    /// zero means no override.
    pub capture_fps_milli: u32,
    /// Prefer the zero-copy GPU path where available.
    pub prefer_dmabuf: bool,
}

/// A deep copy of a list of names.
fn clone_names(v: &Vec<String>) -> (r: Vec<String>)
    ensures
        r@ == v@,
{
    let n = v.len();
    let mut r: Vec<String> = Vec::new();
    let mut i: usize = 0;
    while i < n
        invariant
            n == v@.len(),
            0 <= i <= n,
            r@.len() == i,
            forall|j: int| 0 <= j < i ==> r@[j] == v@[j],
        decreases n - i,
    {
        r.push(v[i].clone());
        i += 1;
    }
    proof {
        assert(r@ =~= v@);
    }
    r
}

impl Default for BevyCaptureConfig {
    /// 60 frames per second, GPU path preferred, every output, damage
    /// tracking and adaptive performance on, four fifths of the memory
    /// budget.
    fn default() -> (r: BevyCaptureConfig)
        ensures
            r.capture_fps_milli == 60_000,
            r.prefer_dmabuf,
            r.outputs@ == Seq::<String>::empty(),
            r.damage_tracking,
            r.adaptive_performance,
            r.max_memory_usage == 800,
    {
        BevyCaptureConfig {
            capture_fps_milli: 60_000,
            prefer_dmabuf: true,
            outputs: Vec::new(),
            damage_tracking: true,
            adaptive_performance: true,
            max_memory_usage: 800,
        }
    }
}

impl BevyCaptureConfig {
    /// Overrides these settings with the ones the embedding API supplied:
    /// a positive frequency and a non-empty output list replace the
    /// configured ones, and the GPU-path preference is always taken over.
    pub fn merge_with_api(&mut self, api_config: &NiriCapturePlugin)
        ensures
            final(self).capture_fps_milli == (if api_config.capture_fps_milli > 0 {
                api_config.capture_fps_milli
            } else {
                old(self).capture_fps_milli
            }),
            final(self).prefer_dmabuf == api_config.prefer_dmabuf,
            final(self).outputs@ == (if api_config.outputs@.len() > 0 {
                api_config.outputs@
            } else {
                old(self).outputs@
            }),
            final(self).damage_tracking == old(self).damage_tracking,
            final(self).adaptive_performance == old(self).adaptive_performance,
            final(self).max_memory_usage == old(self).max_memory_usage,
    {
        if api_config.capture_fps_milli > 0 {
            self.capture_fps_milli = api_config.capture_fps_milli;
        }
        self.prefer_dmabuf = api_config.prefer_dmabuf;
        if api_config.outputs.len() > 0 {
            self.outputs = clone_names(&api_config.outputs);
        }
    }

    /// Whether the settings lie in their documented ranges.
    pub open spec fn valid(self) -> bool {
        0 < self.capture_fps_milli <= 240_000 && 0 < self.max_memory_usage <= 1000
    }

    /// Checks the documented ranges: the frequency must be positive and
    /// at most 240 frames per second, the memory bound within the budget.
    /// The frequency is checked first.
    pub fn validate(&self) -> (r: Result<(), String>)
        ensures
            r is Ok <==> self.valid(),
            !(0 < self.capture_fps_milli <= 240_000) ==> (r matches Err(m) && m@
                == "capture_fps must be between 0 and 240"@),
            0 < self.capture_fps_milli <= 240_000 && !(0 < self.max_memory_usage <= 1000) ==> (
            r matches Err(m) && m@ == "max_memory_usage must be between 0 and 1"@),
    {
        if self.capture_fps_milli == 0 || self.capture_fps_milli > 240_000 {
            return Err("capture_fps must be between 0 and 240".to_owned());
        }
        if self.max_memory_usage == 0 || self.max_memory_usage > 1000 {
            return Err("max_memory_usage must be between 0 and 1".to_owned());
        }
        Ok(())
    }
}

impl Default for NiriCapturePlugin {
    /// No output override, 60 frames per second, GPU path preferred.
    fn default() -> (r: NiriCapturePlugin)
        ensures
            r.outputs@ == Seq::<String>::empty(),
            r.capture_fps_milli == 60_000,
            r.prefer_dmabuf,
    {
        NiriCapturePlugin { outputs: Vec::new(), capture_fps_milli: 60_000, prefer_dmabuf: true }
    }
}

/// Resolves the configuration path: an explicitly given path is both
/// loaded and watched and never created; without one, the default
/// `config.kdl` beside the process is used the same way.  The result is
/// the path to load, the path to watch, and whether to create a default
/// file at the path to load.
pub fn config_path(cli_path: Option<String>) -> (r: (String, String, bool))
    ensures
        match cli_path {
            Some(explicit) => r.0@ == explicit@ && r.1@ == explicit@ && !r.2,
            None => r.0@ == "config.kdl"@ && r.1@ == "config.kdl"@ && !r.2,
        },
{
    match cli_path {
        Some(explicit) => {
            let watch = explicit.clone();
            (explicit, watch, false)
        },
        None => ("config.kdl".to_owned(), "config.kdl".to_owned(), false),
    }
}

} // verus!
