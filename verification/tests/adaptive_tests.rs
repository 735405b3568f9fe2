use niri_capture::adaptive::{
    AdaptiveCaptureSystem, CaptureMethod, CaptureStrategy, OutputStats,
};

#[test]
fn test_adaptive_system_creation() {
    let system = AdaptiveCaptureSystem::new();
    assert_eq!(system.output_stats.len(), 0);
}

#[test]
fn test_method_selection() {
    let system = AdaptiveCaptureSystem::new();
    let method = system.select_optimal_method("test-output");

    match method {
        CaptureMethod::Dmabuf | CaptureMethod::Shm => {}
    }
}

#[test]
fn test_performance_recording() {
    let mut system = AdaptiveCaptureSystem::new();
    system.record_capture_result("test", CaptureMethod::Dmabuf, true, 1500);

    assert!(system.has_stats("test"));
}

#[test]
fn first_query_uses_default_stats() {
    let system = AdaptiveCaptureSystem::new();
    let stats = system.stats_snapshot("never-seen");
    assert_eq!(stats.dmabuf_success_rate, 500);
    assert_eq!(stats.dmabuf_latency, 5000);
    assert_eq!(stats.shm_latency, 10000);
    assert_eq!(stats.memory_pressure, 0);
    assert_eq!(stats.recent_failures, 0);
    // On default stats the probabilistic branch decides: low draws take the
    // GPU path, draws at or above the ratio take shared memory.
    assert_eq!(system.select_with_draw("never-seen", 0), CaptureMethod::Dmabuf);
    assert_eq!(system.select_with_draw("never-seen", 799), CaptureMethod::Dmabuf);
    assert_eq!(system.select_with_draw("never-seen", 800), CaptureMethod::Shm);
    assert_eq!(system.select_with_draw("never-seen", 999), CaptureMethod::Shm);
}

#[test]
fn random_draw_respects_strategy_ratio() {
    // A ratio of zero can never be above the draw, a ratio of one always is;
    // either way the drawn value must stay below one thousand.
    let never = AdaptiveCaptureSystem::with_strategy(CaptureStrategy::Adaptive {
        dmabuf_ratio: 0,
    });
    let always = AdaptiveCaptureSystem::with_strategy(CaptureStrategy::Adaptive {
        dmabuf_ratio: 1000,
    });
    for _ in 0..50 {
        assert_eq!(never.select_optimal_method("out"), CaptureMethod::Shm);
        assert_eq!(always.select_optimal_method("out"), CaptureMethod::Dmabuf);
    }
}

#[test]
fn ema_latency_update_is_exact() {
    let mut system = AdaptiveCaptureSystem::new();
    system.record_capture_result("out", CaptureMethod::Dmabuf, true, 1500);
    let stats = system.stats_snapshot("out");
    // 5.0 ms * 0.9 + 1.5 ms * 0.1 = 4.65 ms, in microseconds.
    assert_eq!(stats.dmabuf_latency, (5000 * 9 + 1500) / 10);
    assert_eq!(stats.dmabuf_latency, 4650);
    assert_eq!(stats.dmabuf_success_rate, (500 * 9 + 1000) / 10);
    assert_eq!(stats.recent_failures, 0);
}

#[test]
fn ema_shm_latency_update_is_exact() {
    let mut system = AdaptiveCaptureSystem::new();
    system.record_capture_result("out", CaptureMethod::Shm, true, 2000);
    let stats = system.stats_snapshot("out");
    // 10.0 ms * 0.9 + 2.0 ms * 0.1 = 9.2 ms, in microseconds.
    assert_eq!(stats.shm_latency, 9200);
    // The GPU-path statistics do not move on a shared-memory record.
    assert_eq!(stats.dmabuf_latency, 5000);
    assert_eq!(stats.dmabuf_success_rate, 500);
}

#[test]
fn three_failures_count_exactly_three() {
    let mut system = AdaptiveCaptureSystem::new();
    for _ in 0..3 {
        system.record_capture_result("out", CaptureMethod::Dmabuf, false, 1000);
    }
    assert_eq!(system.stats_snapshot("out").recent_failures, 3);
    // Three failures do not yet exceed the threshold: the draw still decides.
    assert_eq!(system.select_with_draw("out", 0), CaptureMethod::Dmabuf);

    // A fourth failure exceeds it: shared memory wins whatever the draw.
    system.record_capture_result("out", CaptureMethod::Dmabuf, false, 1000);
    assert_eq!(system.stats_snapshot("out").recent_failures, 4);
    assert_eq!(system.select_with_draw("out", 0), CaptureMethod::Shm);
    assert_eq!(system.select_with_draw("out", 999), CaptureMethod::Shm);
}

#[test]
fn gpu_success_resets_failure_counter() {
    let mut system = AdaptiveCaptureSystem::new();
    for _ in 0..5 {
        system.record_capture_result("out", CaptureMethod::Dmabuf, false, 1000);
    }
    assert_eq!(system.stats_snapshot("out").recent_failures, 5);
    system.record_capture_result("out", CaptureMethod::Dmabuf, true, 1000);
    assert_eq!(system.stats_snapshot("out").recent_failures, 0);
}

#[test]
fn pressure_propagates_and_forces_gpu_path() {
    let mut system = AdaptiveCaptureSystem::new();
    // Drive the success rate down first: the output is tracked and unreliable.
    for _ in 0..2 {
        system.record_capture_result("out", CaptureMethod::Dmabuf, false, 1000);
    }
    assert!(system.stats_snapshot("out").dmabuf_success_rate < 500);
    system.update_system_stats(900, 300);
    assert_eq!(system.stats_snapshot("out").memory_pressure, 900);
    // The pressure branch fires before the failure fallback and the draw.
    assert_eq!(system.select_with_draw("out", 999), CaptureMethod::Dmabuf);
    // An untracked output keeps the default pressure of zero.
    assert_eq!(system.stats_snapshot("elsewhere").memory_pressure, 0);
}

#[test]
fn branch_precedence_is_enumerated() {
    // Branch 1: highly reliable and fast GPU path wins outright.
    let mut reliable = AdaptiveCaptureSystem::new();
    for _ in 0..25 {
        reliable.record_capture_result("out", CaptureMethod::Dmabuf, true, 100);
    }
    let stats = reliable.stats_snapshot("out");
    assert!(stats.dmabuf_success_rate > 950);
    assert!(stats.dmabuf_latency < 2000);
    assert_eq!(reliable.select_with_draw("out", 999), CaptureMethod::Dmabuf);

    // Branch 2: memory pressure forces the GPU path even over failures.
    let mut pressured = AdaptiveCaptureSystem::new();
    for _ in 0..6 {
        pressured.record_capture_result("out", CaptureMethod::Dmabuf, false, 1000);
    }
    pressured.update_system_stats(850, 0);
    assert!(pressured.stats_snapshot("out").recent_failures > 3);
    assert_eq!(pressured.select_with_draw("out", 999), CaptureMethod::Dmabuf);

    // Branch 3: with no pressure, repeated failures fall back to shared memory.
    let mut failing = AdaptiveCaptureSystem::new();
    for _ in 0..6 {
        failing.record_capture_result("out", CaptureMethod::Dmabuf, false, 1000);
    }
    assert_eq!(failing.select_with_draw("out", 0), CaptureMethod::Shm);

    // Branch 4: otherwise the draw decides against the ratio.
    let fresh = AdaptiveCaptureSystem::new();
    assert_eq!(fresh.select_with_draw("out", 799), CaptureMethod::Dmabuf);
    assert_eq!(fresh.select_with_draw("out", 800), CaptureMethod::Shm);
}

#[test]
fn prefer_strategies_ignore_the_draw() {
    let shm_only = AdaptiveCaptureSystem::with_strategy(CaptureStrategy::PreferShm);
    assert_eq!(shm_only.select_with_draw("out", 0), CaptureMethod::Shm);

    let mut gpu = AdaptiveCaptureSystem::with_strategy(CaptureStrategy::PreferDmabuf);
    // Default success rate of 0.5 is below the 0.7 bar.
    assert_eq!(gpu.select_with_draw("out", 0), CaptureMethod::Shm);
    for _ in 0..10 {
        gpu.record_capture_result("out", CaptureMethod::Dmabuf, true, 1000);
    }
    assert!(gpu.stats_snapshot("out").dmabuf_success_rate > 700);
    assert_eq!(gpu.select_with_draw("out", 0), CaptureMethod::Dmabuf);
}

#[test]
fn monitor_window_is_bounded() {
    let mut system = AdaptiveCaptureSystem::new();
    for i in 0..61 {
        system.record_capture_result("out", CaptureMethod::Shm, true, 1000 + i);
    }
    assert_eq!(system.performance_monitor.frame_times.len(), 60);
    // The oldest sample fell out of the window.
    assert_eq!(system.performance_monitor.frame_times[0], 1001);
    assert_eq!(system.performance_monitor.frame_times[59], 1060);
}

#[test]
fn average_frame_time_is_exact() {
    let mut system = AdaptiveCaptureSystem::new();
    assert_eq!(system.performance_monitor.average_frame_time(), 0);
    system.record_capture_result("out", CaptureMethod::Shm, true, 1000);
    system.record_capture_result("out", CaptureMethod::Shm, true, 2000);
    system.record_capture_result("out", CaptureMethod::Shm, true, 4000);
    assert_eq!(system.performance_monitor.average_frame_time(), (1000 + 2000 + 4000) / 3);
}

#[test]
fn performance_summary_is_exact() {
    let mut system = AdaptiveCaptureSystem::new();
    system.update_system_stats(850, 305);
    system.record_capture_result("out", CaptureMethod::Shm, true, 1000);
    assert_eq!(
        system.get_performance_summary(),
        "Adaptive Capture Stats - Memory: 85.0%, GPU: 30.5%, Outputs: 1"
    );
}

#[test]
fn default_stats_match_documentation() {
    let stats = OutputStats::default();
    assert_eq!(stats.dmabuf_success_rate, 500);
    assert_eq!(stats.dmabuf_latency, 5000);
    assert_eq!(stats.shm_latency, 10000);
    assert_eq!(stats.memory_pressure, 0);
    assert_eq!(stats.recent_failures, 0);
}
