//! Adaptive capture-method selection from rolling per-output statistics.
//!
//! For every output the selector keeps an exponential moving average of the
//! GPU-path success rate and of the latency of both capture paths, the last
//! pushed global memory pressure, and a consecutive-failure counter.  From
//! those, and a configured strategy, it picks the capture method for the
//! next request.
//!
//! Ratios (success rate, memory pressure, the adaptive strategy ratio) are
//! fixed-point values in thousandths of one; latencies are in microseconds.

use rand::Rng;
use vstd::prelude::*;

verus! {

/// The two ways a frame can be acquired.
#[derive(Debug, Clone, Copy, PartialEq, Eq, Structural)]
pub enum CaptureMethod {
    /// Zero-copy GPU-buffer path.
    Dmabuf,
    /// CPU-mapped shared-memory path.
    Shm,
}

/// The configured selection strategy.
#[derive(Debug, Clone, Copy, PartialEq, Eq, Structural)]
pub enum CaptureStrategy {
    /// Prefer the GPU path while its success rate stays above 0.7.
    PreferDmabuf,
    /// Always take the shared-memory path.
    PreferShm,
    /// Statistics-driven choice; `dmabuf_ratio` (in thousandths) is the
    /// probability of the GPU path when no overriding condition holds.
    Adaptive { dmabuf_ratio: u32 },
}

/// Rolling statistics for one output.
///
/// `dmabuf_success_rate` and `memory_pressure` are in thousandths of one;
/// the two latencies are in microseconds.
#[derive(Debug, Clone, Copy, PartialEq, Eq, Structural)]
pub struct OutputStats {
    /// Moving average of GPU-path success, in thousandths.
    pub dmabuf_success_rate: u32,
    /// Moving average of GPU-path latency, in microseconds.
    pub dmabuf_latency: u64,
    /// Moving average of shared-memory-path latency, in microseconds.
    pub shm_latency: u64,
    /// Last pushed global memory pressure, in thousandths.
    pub memory_pressure: u32,
    /// Consecutive failures; reset to zero on a GPU-path success.
    pub recent_failures: u32,
}

/// One tracked output: its name and its statistics.
#[derive(Debug, Clone)]
pub struct StatsEntry {
    /// The output name this entry belongs to.
    pub name: String,
    /// The rolling statistics of that output.
    pub stats: OutputStats,
}

/// Bounded window of recent frame latencies plus global gauges.
#[derive(Debug, Clone)]
pub struct PerformanceMonitor {
    /// The last recorded frame latencies, in microseconds, oldest first.
    pub frame_times: Vec<u64>,
    /// Global memory usage gauge, in thousandths.
    pub memory_usage: u32,
    /// Global GPU utilization gauge, in thousandths.
    pub gpu_utilization: u32,
}

/// Statistics-driven choice of the capture method for each output.
#[derive(Debug, Clone)]
pub struct AdaptiveCaptureSystem {
    /// Window of recent frame latencies and global gauges.
    pub performance_monitor: PerformanceMonitor,
    /// The configured selection strategy.
    pub strategy: CaptureStrategy,
    /// Per-output statistics, one entry per tracked output name.
    pub output_stats: Vec<StatsEntry>,
}

/// How many latencies the monitor window keeps.
pub const FRAME_WINDOW: usize = 60;

impl OutputStats {
    /// The statistics assumed for an output never recorded before.
    pub open spec fn default_spec() -> OutputStats {
        OutputStats {
            dmabuf_success_rate: 500,
            dmabuf_latency: 5000,
            shm_latency: 10000,
            memory_pressure: 0,
            recent_failures: 0,
        }
    }

    /// Ratios stay within one; latencies stay below 2^32 microseconds.
    pub open spec fn wf(self) -> bool {
        self.dmabuf_success_rate <= 1000 && self.memory_pressure <= 1000
            && self.dmabuf_latency < 0x1_0000_0000 && self.shm_latency < 0x1_0000_0000
    }
}

impl Default for OutputStats {
    /// The documented defaults: success rate one half, GPU latency 5 ms,
    /// shared-memory latency 10 ms, no pressure, no failures.
    fn default() -> (r: OutputStats)
        ensures
            r == OutputStats::default_spec(),
    {
        OutputStats {
            dmabuf_success_rate: 500,
            dmabuf_latency: 5000,
            shm_latency: 10000,
            memory_pressure: 0,
            recent_failures: 0,
        }
    }
}

/// `f + 1`, held at the top of the counter's range.
pub open spec fn saturating_inc(f: u32) -> u32 {
    if f == u32::MAX {
        f
    } else {
        (f + 1) as u32
    }
}

/// One exponential-moving-average step with decay 0.9/0.1 in fixed point:
/// the new value is `(old * 9 + sample) / 10`, rounded toward zero.
pub open spec fn ema_step(old_value: int, sample: int) -> int {
    (old_value * 9 + sample) / 10
}

/// The statistics of an output after one recorded result.
///
/// A GPU-path success folds the latency sample into the GPU latency, pulls
/// the success rate toward one, and clears the failure counter; a GPU-path
/// failure decays the success rate toward zero and counts the failure.  A
/// shared-memory success only folds the latency sample into the
/// shared-memory latency; a shared-memory failure only counts the failure.
pub open spec fn apply_record(
    st: OutputStats,
    method: CaptureMethod,
    success: bool,
    latency: u64,
) -> OutputStats {
    match method {
        CaptureMethod::Dmabuf => {
            if success {
                OutputStats {
                    dmabuf_success_rate: ema_step(st.dmabuf_success_rate as int, 1000) as u32,
                    dmabuf_latency: ema_step(st.dmabuf_latency as int, latency as int) as u64,
                    recent_failures: 0,
                    ..st
                }
            } else {
                OutputStats {
                    dmabuf_success_rate: ((st.dmabuf_success_rate * 9) / 10) as u32,
                    recent_failures: saturating_inc(st.recent_failures),
                    ..st
                }
            }
        },
        CaptureMethod::Shm => {
            if success {
                OutputStats {
                    shm_latency: ema_step(st.shm_latency as int, latency as int) as u64,
                    ..st
                }
            } else {
                OutputStats { recent_failures: saturating_inc(st.recent_failures), ..st }
            }
        },
    }
}

/// The method chosen for statistics `st` under `strategy` when the
/// probabilistic branch draws `draw` (uniform in thousandths).
///
/// Under the adaptive strategy the branches are tried in order: a highly
/// reliable and fast GPU path is taken outright; high memory pressure
/// forces the GPU path to avoid growing host-memory copies; more than
/// three consecutive failures fall back to shared memory; otherwise the
/// draw decides against the configured ratio.
pub open spec fn select_spec(strategy: CaptureStrategy, st: OutputStats, draw: u32) -> CaptureMethod {
    match strategy {
        CaptureStrategy::PreferDmabuf => {
            if st.dmabuf_success_rate > 700 {
                CaptureMethod::Dmabuf
            } else {
                CaptureMethod::Shm
            }
        },
        CaptureStrategy::PreferShm => CaptureMethod::Shm,
        CaptureStrategy::Adaptive { dmabuf_ratio } => {
            if st.dmabuf_success_rate > 950 && st.dmabuf_latency < 2000 {
                CaptureMethod::Dmabuf
            } else if st.memory_pressure > 800 {
                CaptureMethod::Dmabuf
            } else if st.recent_failures > 3 {
                CaptureMethod::Shm
            } else if draw < dmabuf_ratio {
                CaptureMethod::Dmabuf
            } else {
                CaptureMethod::Shm
            }
        },
    }
}

/// Whether some entry of `s` is named `name`.
pub open spec fn has_entry(s: Seq<StatsEntry>, name: Seq<char>) -> bool {
    exists|i: int| 0 <= i < s.len() && s[i].name@ == name
}

/// The index of the entry of `s` named `name`, when one exists.
pub open spec fn entry_index(s: Seq<StatsEntry>, name: Seq<char>) -> int {
    choose|i: int| 0 <= i < s.len() && s[i].name@ == name
}

/// The statistics tracked for `name`, or the defaults when `name` was
/// never recorded.
pub open spec fn stats_for(s: Seq<StatsEntry>, name: Seq<char>) -> OutputStats {
    if has_entry(s, name) {
        s[entry_index(s, name)].stats
    } else {
        OutputStats::default_spec()
    }
}

/// No two entries share a name.
pub open spec fn entries_unique(s: Seq<StatsEntry>) -> bool {
    forall|i: int, j: int| 0 <= i < j < s.len() ==> s[i].name@ != s[j].name@
}

/// With unique names, the entry found at `i` is the entry `entry_index`
/// denotes.
proof fn lemma_entry_index_is(s: Seq<StatsEntry>, name: Seq<char>, i: int)
    requires
        entries_unique(s),
        0 <= i < s.len(),
        s[i].name@ == name,
    ensures
        has_entry(s, name),
        entry_index(s, name) == i,
{
    assert(has_entry(s, name));
    let j = entry_index(s, name);
    if j != i {
        assert(s[i].name@ != s[j].name@);
    }
}

/// Replacing entry `i` by an entry with the same name updates the tracked
/// statistics of that name and of no other.
proof fn lemma_stats_update(s: Seq<StatsEntry>, i: int, e: StatsEntry, n: Seq<char>)
    requires
        entries_unique(s),
        0 <= i < s.len(),
        e.name@ == s[i].name@,
    ensures
        entries_unique(s.update(i, e)),
        has_entry(s.update(i, e), n) == has_entry(s, n),
        stats_for(s.update(i, e), n) == (if n == e.name@ {
            e.stats
        } else {
            stats_for(s, n)
        }),
{
    let s2 = s.update(i, e);
    assert forall|k: int| 0 <= k < s.len() implies s2[k].name@ == s[k].name@ by {}
    if has_entry(s, n) {
        let w = entry_index(s, n);
        assert(s2[w].name@ == n);
        assert(has_entry(s2, n));
    }
    if has_entry(s2, n) {
        let w = entry_index(s2, n);
        assert(s[w].name@ == n);
        assert(has_entry(s, n));
    }
    if n == e.name@ {
        lemma_entry_index_is(s2, n, i);
    } else {
        if has_entry(s, n) {
            let w = entry_index(s, n);
            lemma_entry_index_is(s, n, w);
            assert(w != i);
            lemma_entry_index_is(s2, n, w);
        }
    }
}

/// Appending an entry under a fresh name adds exactly that name's
/// statistics and keeps every other lookup unchanged.
proof fn lemma_stats_push(s: Seq<StatsEntry>, e: StatsEntry, n: Seq<char>)
    requires
        entries_unique(s),
        !has_entry(s, e.name@),
    ensures
        entries_unique(s.push(e)),
        has_entry(s.push(e), n) == (has_entry(s, n) || n == e.name@),
        stats_for(s.push(e), n) == (if n == e.name@ {
            e.stats
        } else {
            stats_for(s, n)
        }),
{
    let s2 = s.push(e);
    assert forall|k: int| 0 <= k < s.len() implies s2[k] == s[k] by {}
    assert(s2[s.len() as int].name@ == e.name@);
    if n == e.name@ {
        lemma_entry_index_is(s2, n, s.len() as int);
    } else {
        if has_entry(s, n) {
            let w = entry_index(s, n);
            lemma_entry_index_is(s, n, w);
            lemma_entry_index_is(s2, n, w);
        } else {
            if has_entry(s2, n) {
                let w = entry_index(s2, n);
                assert(0 <= w < s2.len() && s2[w].name@ == n);
                assert(w == s.len() as int || s[w].name@ == n);
                assert(false);
            }
        }
    }
}

impl PerformanceMonitor {
    /// The window never outgrows its bound; every sample and both gauges
    /// stay in range.
    pub open spec fn wf(self) -> bool {
        self.frame_times@.len() <= FRAME_WINDOW && self.memory_usage <= 1000
            && self.gpu_utilization <= 1000 && (forall|i: int|
            0 <= i < self.frame_times@.len() ==> self.frame_times@[i] < 0x1_0000_0000)
    }

    /// An empty window with zeroed gauges.
    pub fn new() -> (r: PerformanceMonitor)
        ensures
            r.wf(),
            r.frame_times@ == Seq::<u64>::empty(),
            r.memory_usage == 0,
            r.gpu_utilization == 0,
    {
        PerformanceMonitor { frame_times: Vec::new(), memory_usage: 0, gpu_utilization: 0 }
    }

    /// Appends one latency sample, dropping the oldest sample once the
    /// window is full.
    pub fn record_frame_time(&mut self, frame_time: u64)
        requires
            old(self).wf(),
            frame_time < 0x1_0000_0000,
        ensures
            final(self).wf(),
            final(self).frame_times@ == (if old(self).frame_times@.len() < FRAME_WINDOW {
                old(self).frame_times@.push(frame_time)
            } else {
                old(self).frame_times@.subrange(1, FRAME_WINDOW as int).push(frame_time)
            }),
            final(self).memory_usage == old(self).memory_usage,
            final(self).gpu_utilization == old(self).gpu_utilization,
    {
        self.frame_times.push(frame_time);
        if self.frame_times.len() > FRAME_WINDOW {
            self.frame_times.remove(0);
            proof {
                assert(final(self).frame_times@ =~= old(self).frame_times@.subrange(
                    1,
                    FRAME_WINDOW as int,
                ).push(frame_time));
            }
        }
    }

    /// The running total of a latency window.
    pub open spec fn sum(s: Seq<u64>) -> int
        decreases s.len(),
    {
        if s.len() == 0 {
            0
        } else {
            Self::sum(s.drop_last()) + s.last()
        }
    }

    /// The mean of the recorded window, rounded toward zero; zero when
    /// nothing was recorded yet.
    pub fn average_frame_time(&self) -> (r: u64)
        requires
            self.wf(),
        ensures
            r == (if self.frame_times@.len() == 0 {
                0int
            } else {
                Self::sum(self.frame_times@) / self.frame_times@.len() as int
            }),
    {
        if self.frame_times.len() == 0 {
            return 0;
        }
        let n = self.frame_times.len();
        let mut total: u64 = 0;
        let mut i: usize = 0;
        while i < n
            invariant
                self.wf(),
                n == self.frame_times@.len(),
                0 <= i <= n,
                total == Self::sum(self.frame_times@.subrange(0, i as int)),
                total <= i * 0xFFFF_FFFFu64,
            decreases n - i,
        {
            proof {
                assert(self.frame_times@.subrange(0, i + 1).drop_last() =~= self.frame_times@
                    .subrange(0, i as int));
                assert(self.frame_times@.subrange(0, i + 1).last() == self.frame_times@[i as int]);
            }
            total = total + self.frame_times[i];
            i += 1;
        }
        proof {
            assert(self.frame_times@.subrange(0, n as int) =~= self.frame_times@);
        }
        total / (n as u64)
    }
}

impl AdaptiveCaptureSystem {
    /// Unique entry names, well-formed statistics and monitor, and a
    /// strategy ratio within one.
    pub open spec fn wf(self) -> bool {
        entries_unique(self.output_stats@) && (forall|i: int|
            0 <= i < self.output_stats@.len() ==> self.output_stats@[i].stats.wf())
            && self.performance_monitor.wf() && (match self.strategy {
            CaptureStrategy::Adaptive { dmabuf_ratio } => dmabuf_ratio <= 1000,
            _ => true,
        })
    }

    /// The statistics tracked for `name`, or the defaults when `name` was
    /// never recorded.
    pub open spec fn stats_or_default(self, name: Seq<char>) -> OutputStats {
        stats_for(self.output_stats@, name)
    }

    /// A selector with the adaptive strategy at its default ratio of 0.8
    /// and no tracked outputs.
    pub fn new() -> (r: AdaptiveCaptureSystem)
        ensures
            r.wf(),
            r.strategy == (CaptureStrategy::Adaptive { dmabuf_ratio: 800u32 }),
            r.output_stats@ == Seq::<StatsEntry>::empty(),
            r.performance_monitor.frame_times@ == Seq::<u64>::empty(),
            r.performance_monitor.memory_usage == 0,
            r.performance_monitor.gpu_utilization == 0,
    {
        AdaptiveCaptureSystem {
            performance_monitor: PerformanceMonitor::new(),
            strategy: CaptureStrategy::Adaptive { dmabuf_ratio: 800 },
            output_stats: Vec::new(),
        }
    }

    /// A selector with the given strategy and no tracked outputs.
    pub fn with_strategy(strategy: CaptureStrategy) -> (r: AdaptiveCaptureSystem)
        requires
            (match strategy {
                CaptureStrategy::Adaptive { dmabuf_ratio } => dmabuf_ratio <= 1000,
                _ => true,
            }),
        ensures
            r.wf(),
            r.strategy == strategy,
            r.output_stats@ == Seq::<StatsEntry>::empty(),
            r.performance_monitor.frame_times@ == Seq::<u64>::empty(),
            r.performance_monitor.memory_usage == 0,
            r.performance_monitor.gpu_utilization == 0,
    {
        AdaptiveCaptureSystem {
            performance_monitor: PerformanceMonitor::new(),
            strategy,
            output_stats: Vec::new(),
        }
    }

    /// The number of outputs with tracked statistics.
    pub fn tracked_output_count(&self) -> (r: usize)
        ensures
            r == self.output_stats@.len(),
    {
        self.output_stats.len()
    }

    /// The index of the entry for `output`, when statistics are tracked
    /// for it.
    fn find_entry(&self, output: &str) -> (r: Option<usize>)
        requires
            self.wf(),
        ensures
            match r {
                Some(i) => i < self.output_stats@.len() && self.output_stats@[i as int].name@
                    == output@,
                None => !has_entry(self.output_stats@, output@),
            },
    {
        let key: String = output.to_owned();
        let n = self.output_stats.len();
        let mut i: usize = 0;
        while i < n
            invariant
                n == self.output_stats@.len(),
                0 <= i <= n,
                key@ == output@,
                forall|j: int| 0 <= j < i ==> self.output_stats@[j].name@ != output@,
            decreases n - i,
        {
            if self.output_stats[i].name == key {
                return Some(i);
            }
            i += 1;
        }
        None
    }

    /// Whether statistics are tracked for `output`.
    pub fn has_stats(&self, output: &str) -> (r: bool)
        requires
            self.wf(),
        ensures
            r == has_entry(self.output_stats@, output@),
    {
        match self.find_entry(output) {
            Some(i) => {
                proof {
                    lemma_entry_index_is(self.output_stats@, output@, i as int);
                }
                true
            },
            None => false,
        }
    }

    /// The statistics currently in force for `output`: the tracked entry,
    /// or the documented defaults when none exists.
    pub fn stats_snapshot(&self, output: &str) -> (r: OutputStats)
        requires
            self.wf(),
        ensures
            r == self.stats_or_default(output@),
            r.wf(),
    {
        match self.find_entry(output) {
            Some(i) => {
                proof {
                    lemma_entry_index_is(self.output_stats@, output@, i as int);
                }
                self.output_stats[i].stats
            },
            None => OutputStats::default(),
        }
    }

    /// The method chosen for `output` when the probabilistic branch draws
    /// `draw`; deterministic, for callers that inject their own
    /// randomness.
    pub fn select_with_draw(&self, output: &str, draw: u32) -> (r: CaptureMethod)
        requires
            self.wf(),
            draw < 1000,
        ensures
            r == select_spec(self.strategy, self.stats_or_default(output@), draw),
    {
        let stats = self.stats_snapshot(output);
        match self.strategy {
            CaptureStrategy::PreferDmabuf => {
                if stats.dmabuf_success_rate > 700 {
                    CaptureMethod::Dmabuf
                } else {
                    CaptureMethod::Shm
                }
            },
            CaptureStrategy::PreferShm => CaptureMethod::Shm,
            CaptureStrategy::Adaptive { dmabuf_ratio } => {
                if stats.dmabuf_success_rate > 950 && stats.dmabuf_latency < 2000 {
                    CaptureMethod::Dmabuf
                } else if stats.memory_pressure > 800 {
                    CaptureMethod::Dmabuf
                } else if stats.recent_failures > 3 {
                    CaptureMethod::Shm
                } else if draw < dmabuf_ratio {
                    CaptureMethod::Dmabuf
                } else {
                    CaptureMethod::Shm
                }
            },
        }
    }

    /// The method chosen for `output` with a fresh uniform draw.  Whatever
    /// the draw, the result is the documented selection for some draw
    /// below one thousand; every draw-independent branch is therefore
    /// decided exactly.
    pub fn select_optimal_method(&self, output: &str) -> (r: CaptureMethod)
        requires
            self.wf(),
        ensures
            exists|d: u32|
                d < 1000 && r == select_spec(self.strategy, self.stats_or_default(output@), d),
    {
        let draw = random_thousandth();
        let r = self.select_with_draw(output, draw);
        proof {
            assert(draw < 1000 && r == select_spec(
                self.strategy,
                self.stats_or_default(output@),
                draw,
            ));
        }
        r
    }

    /// Folds one observed result into the statistics of `output` (creating
    /// the entry with defaults on first reference) and appends the latency
    /// sample to the monitor window.  No other output's statistics move.
    pub fn record_capture_result(
        &mut self,
        output: &str,
        method: CaptureMethod,
        success: bool,
        latency: u32,
    )
        requires
            old(self).wf(),
        ensures
            final(self).wf(),
            final(self).strategy == old(self).strategy,
            forall|n: Seq<char>|
                #![auto]
                final(self).stats_or_default(n) == (if n == output@ {
                    apply_record(old(self).stats_or_default(output@), method, success, latency as u64)
                } else {
                    old(self).stats_or_default(n)
                }),
            forall|n: Seq<char>|
                #![auto]
                has_entry(final(self).output_stats@, n) == (has_entry(old(self).output_stats@, n)
                    || n == output@),
            final(self).performance_monitor.memory_usage == old(self).performance_monitor.memory_usage,
            final(self).performance_monitor.gpu_utilization == old(
                self,
            ).performance_monitor.gpu_utilization,
            final(self).performance_monitor.frame_times@ == (if old(
                self,
            ).performance_monitor.frame_times@.len() < FRAME_WINDOW {
                old(self).performance_monitor.frame_times@.push(latency as u64)
            } else {
                old(self).performance_monitor.frame_times@.subrange(1, FRAME_WINDOW as int).push(
                    latency as u64,
                )
            }),
    {
        let ghost s0 = self.output_stats@;
        let idx: usize = match self.find_entry(output) {
            Some(i) => {
                proof {
                    lemma_entry_index_is(s0, output@, i as int);
                }
                i
            },
            None => {
                let entry = StatsEntry { name: output.to_owned(), stats: OutputStats::default() };
                proof {
                    assert forall|n: Seq<char>| true implies {
                        &&& has_entry(s0.push(entry), n) == (has_entry(s0, n) || n == output@)
                        &&& stats_for(s0.push(entry), n) == (if n == output@ {
                            OutputStats::default_spec()
                        } else {
                            stats_for(s0, n)
                        })
                        &&& entries_unique(s0.push(entry))
                    } by {
                        lemma_stats_push(s0, entry, n);
                    }
                }
                self.output_stats.push(entry);
                self.output_stats.len() - 1
            },
        };
        let ghost s1 = self.output_stats@;
        proof {
            assert(0 <= idx < s1.len() && s1[idx as int].name@ == output@);
            lemma_entry_index_is(s1, output@, idx as int);
            assert(s1[idx as int].stats == stats_for(s1, output@));
            assert(stats_for(s1, output@) == stats_for(s0, output@));
        }
        let old_stats = self.output_stats[idx].stats;
        let new_stats = match method {
            CaptureMethod::Dmabuf => {
                if success {
                    OutputStats {
                        dmabuf_success_rate: ((old_stats.dmabuf_success_rate * 9 + 1000) / 10)
                            as u32,
                        dmabuf_latency: (old_stats.dmabuf_latency * 9 + latency as u64) / 10,
                        recent_failures: 0,
                        ..old_stats
                    }
                } else {
                    OutputStats {
                        dmabuf_success_rate: ((old_stats.dmabuf_success_rate * 9) / 10) as u32,
                        recent_failures: if old_stats.recent_failures == u32::MAX {
                            old_stats.recent_failures
                        } else {
                            old_stats.recent_failures + 1
                        },
                        ..old_stats
                    }
                }
            },
            CaptureMethod::Shm => {
                if success {
                    OutputStats {
                        shm_latency: (old_stats.shm_latency * 9 + latency as u64) / 10,
                        ..old_stats
                    }
                } else {
                    OutputStats {
                        recent_failures: if old_stats.recent_failures == u32::MAX {
                            old_stats.recent_failures
                        } else {
                            old_stats.recent_failures + 1
                        },
                        ..old_stats
                    }
                }
            },
        };
        proof {
            assert(new_stats == apply_record(old_stats, method, success, latency as u64));
        }
        let mut entry = self.output_stats.remove(idx);
        entry.stats = new_stats;
        self.output_stats.insert(idx, entry);
        proof {
            assert(self.output_stats@ =~= s1.update(idx as int, entry));
            assert forall|n: Seq<char>| true implies {
                &&& has_entry(s1.update(idx as int, entry), n) == has_entry(s1, n)
                &&& stats_for(s1.update(idx as int, entry), n) == (if n == output@ {
                    new_stats
                } else {
                    stats_for(s1, n)
                })
                &&& entries_unique(s1.update(idx as int, entry))
            } by {
                lemma_stats_update(s1, idx as int, entry, n);
            }
        }
        self.performance_monitor.record_frame_time(latency as u64);
    }

    /// Sets the global gauges and propagates the memory gauge into every
    /// tracked output's pressure field; untracked outputs keep the default
    /// pressure until first recorded.
    pub fn update_system_stats(&mut self, memory_usage: u32, gpu_utilization: u32)
        requires
            old(self).wf(),
            memory_usage <= 1000,
            gpu_utilization <= 1000,
        ensures
            final(self).wf(),
            final(self).strategy == old(self).strategy,
            final(self).performance_monitor.memory_usage == memory_usage,
            final(self).performance_monitor.gpu_utilization == gpu_utilization,
            final(self).performance_monitor.frame_times@ == old(
                self,
            ).performance_monitor.frame_times@,
            forall|n: Seq<char>|
                #![auto]
                has_entry(final(self).output_stats@, n) == has_entry(old(self).output_stats@, n),
            forall|n: Seq<char>|
                #![auto]
                final(self).stats_or_default(n) == (if has_entry(old(self).output_stats@, n) {
                    OutputStats { memory_pressure: memory_usage, ..old(self).stats_or_default(n) }
                } else {
                    old(self).stats_or_default(n)
                }),
    {
        self.performance_monitor.memory_usage = memory_usage;
        self.performance_monitor.gpu_utilization = gpu_utilization;
        let ghost s0 = self.output_stats@;
        let n = self.output_stats.len();
        let mut i: usize = 0;
        while i < n
            invariant
                n == self.output_stats@.len(),
                n == s0.len(),
                0 <= i <= n,
                memory_usage <= 1000,
                self.strategy == old(self).strategy,
                old(self).wf(),
                self.performance_monitor.memory_usage == memory_usage,
                self.performance_monitor.gpu_utilization == gpu_utilization,
                self.performance_monitor.frame_times@ == old(
                    self,
                ).performance_monitor.frame_times@,
                self.performance_monitor.wf(),
                forall|j: int| 0 <= j < n ==> self.output_stats@[j].name@ == s0[j].name@,
                forall|j: int| 0 <= j < n ==> s0[j].stats.wf(),
                forall|j: int|
                    0 <= j < i ==> self.output_stats@[j].stats == (OutputStats {
                        memory_pressure: memory_usage,
                        ..s0[j].stats
                    }),
                forall|j: int| i <= j < n ==> self.output_stats@[j].stats == s0[j].stats,
            decreases n - i,
        {
            let ghost sj = self.output_stats@;
            let mut entry = self.output_stats.remove(i);
            entry.stats = OutputStats { memory_pressure: memory_usage, ..entry.stats };
            self.output_stats.insert(i, entry);
            proof {
                assert(self.output_stats@ =~= sj.update(i as int, entry));
            }
            i += 1;
        }
        proof {
            let s2 = self.output_stats@;
            assert forall|j: int| 0 <= j < s2.len() implies s2[j].stats.wf() by {
                assert(s0[j].stats.wf());
            }
            assert(entries_unique(s2)) by {
                assert forall|a: int, b: int| 0 <= a < b < s2.len() implies s2[a].name@
                    != s2[b].name@ by {
                    assert(s0[a].name@ != s0[b].name@);
                }
            }
            assert forall|m: Seq<char>| true implies {
                &&& has_entry(s2, m) == has_entry(s0, m)
                &&& stats_for(s2, m) == (if has_entry(s0, m) {
                    OutputStats { memory_pressure: memory_usage, ..stats_for(s0, m) }
                } else {
                    stats_for(s0, m)
                })
            } by {
                if has_entry(s0, m) {
                    let w = entry_index(s0, m);
                    lemma_entry_index_is(s0, m, w);
                    lemma_entry_index_is(s2, m, w);
                }
                if has_entry(s2, m) {
                    let w = entry_index(s2, m);
                    assert(s0[w].name@ == m);
                    assert(has_entry(s0, m));
                }
            }
        }
    }

    /// The characters of the diagnostic snapshot: both gauges as
    /// one-decimal percentages and the number of tracked outputs.
    pub open spec fn summary_spec(self) -> Seq<char> {
        "Adaptive Capture Stats - Memory: "@
            + crate::numfmt::dec_chars((self.performance_monitor.memory_usage / 10) as nat)
            + "."@ + crate::numfmt::dec_chars((self.performance_monitor.memory_usage % 10) as nat)
            + "%, GPU: "@
            + crate::numfmt::dec_chars((self.performance_monitor.gpu_utilization / 10) as nat)
            + "."@ + crate::numfmt::dec_chars((self.performance_monitor.gpu_utilization % 10) as nat)
            + "%, Outputs: "@ + crate::numfmt::dec_chars(self.output_stats@.len() as nat)
    }

    /// A human-readable snapshot of the global gauges and the number of
    /// tracked outputs; diagnostic only.
    pub fn get_performance_summary(&self) -> (r: String)
        requires
            self.wf(),
        ensures
            r@ == self.summary_spec(),
    {
        let mut s = "Adaptive Capture Stats - Memory: ".to_owned();
        crate::numfmt::push_dec(&mut s, (self.performance_monitor.memory_usage / 10) as u64);
        s.append(".");
        crate::numfmt::push_dec(&mut s, (self.performance_monitor.memory_usage % 10) as u64);
        s.append("%, GPU: ");
        crate::numfmt::push_dec(&mut s, (self.performance_monitor.gpu_utilization / 10) as u64);
        s.append(".");
        crate::numfmt::push_dec(&mut s, (self.performance_monitor.gpu_utilization % 10) as u64);
        s.append("%, Outputs: ");
        crate::numfmt::push_dec(&mut s, self.output_stats.len() as u64);
        proof {
            assert(s@ =~= self.summary_spec());
        }
        s
    }
}

impl Default for AdaptiveCaptureSystem {
    /// Same as [`AdaptiveCaptureSystem::new`].
    fn default() -> (r: AdaptiveCaptureSystem)
        ensures
            r.wf(),
            r.strategy == (CaptureStrategy::Adaptive { dmabuf_ratio: 800u32 }),
            r.output_stats@ == Seq::<StatsEntry>::empty(),
    {
        AdaptiveCaptureSystem::new()
    }
}

/// Relies on rand's `Rng::gen_range` over a thread-local generator: the
/// sample is drawn from the half-open range given, so it is always below
/// one thousand; nothing else is assumed of it.
#[verifier::external_body]
fn random_thousandth() -> (r: u32)
    ensures
        r < 1000,
{
    rand::thread_rng().gen_range(0u32..1000u32)
}

/// On an output queried before any record exists, the selection never
/// fails: whatever the strategy ratio and the draw, it yields one of the
/// two methods.
pub proof fn lemma_first_query_is_total(dmabuf_ratio: u32, draw: u32)
    ensures
        select_spec(
            CaptureStrategy::Adaptive { dmabuf_ratio },
            OutputStats::default_spec(),
            draw,
        ) == CaptureMethod::Dmabuf || select_spec(
            CaptureStrategy::Adaptive { dmabuf_ratio },
            OutputStats::default_spec(),
            draw,
        ) == CaptureMethod::Shm,
{
}

/// Exponential-moving-average law: one successful GPU-path record with
/// latency `l` moves the GPU latency from its default of 5000 to exactly
/// `(5000 * 9 + l) / 10`.
pub proof fn lemma_ema_latency_from_default(l: u64)
    ensures
        apply_record(OutputStats::default_spec(), CaptureMethod::Dmabuf, true, l).dmabuf_latency
            == (5000 * 9 + l as int) / 10,
{
}

/// Failure accounting: on a fresh output, three consecutive GPU-path
/// failures bring the failure counter to exactly three; a fourth exceeds
/// the fallback threshold and, with no overriding condition left standing
/// in the default statistics, the next selection takes the shared-memory
/// path whatever the draw.
pub proof fn lemma_failure_accounting(
    l1: u64,
    l2: u64,
    l3: u64,
    l4: u64,
    dmabuf_ratio: u32,
    draw: u32,
)
    ensures
        ({
            let s3 = apply_record(
                apply_record(
                    apply_record(OutputStats::default_spec(), CaptureMethod::Dmabuf, false, l1),
                    CaptureMethod::Dmabuf,
                    false,
                    l2,
                ),
                CaptureMethod::Dmabuf,
                false,
                l3,
            );
            s3.recent_failures == 3
        }),
        ({
            let s4 = apply_record(
                apply_record(
                    apply_record(
                        apply_record(OutputStats::default_spec(), CaptureMethod::Dmabuf, false, l1),
                        CaptureMethod::Dmabuf,
                        false,
                        l2,
                    ),
                    CaptureMethod::Dmabuf,
                    false,
                    l3,
                ),
                CaptureMethod::Dmabuf,
                false,
                l4,
            );
            s4.recent_failures == 4 && select_spec(
                CaptureStrategy::Adaptive { dmabuf_ratio },
                s4,
                draw,
            ) == CaptureMethod::Shm
        }),
{
}

/// Branch precedence of memory pressure: under the adaptive strategy,
/// pressure above 0.8 yields the GPU path whatever the success rate, the
/// failure count and the draw, because both branches ahead of the failure
/// fallback choose the GPU path.
pub proof fn lemma_pressure_prefers_dmabuf(st: OutputStats, dmabuf_ratio: u32, draw: u32)
    requires
        st.memory_pressure > 800,
    ensures
        select_spec(CaptureStrategy::Adaptive { dmabuf_ratio }, st, draw)
            == CaptureMethod::Dmabuf,
{
}

} // verus!
