use context_pilot::perf::{OpStats, PerfMetrics, RingBuffer, SAMPLE_RING_SIZE};

#[test]
fn ring_buffer_keeps_arrival_order() {
    let mut rb = RingBuffer::new();
    rb.push(10);
    rb.push(20);
    rb.push(30);
    assert_eq!(rb.iter(), vec![10, 20, 30]);
    assert_eq!(rb.recent(2), vec![20, 30]);
    assert_eq!(rb.recent(99), vec![10, 20, 30]);
}

#[test]
fn ring_buffer_wraps_and_drops_oldest() {
    let mut rb = RingBuffer::new();
    for i in 0..(SAMPLE_RING_SIZE as u64 + 6) {
        rb.push(i);
    }
    assert_eq!(rb.len, SAMPLE_RING_SIZE);
    let recent = rb.recent(3);
    assert_eq!(recent, vec![67, 68, 69]);
    let all = rb.recent(SAMPLE_RING_SIZE);
    assert_eq!(all[0], 6);
    assert_eq!(all[SAMPLE_RING_SIZE - 1], 69);
}

#[test]
fn percentile_of_empty_buffer_is_none() {
    let rb = RingBuffer::new();
    assert!(rb.percentile_95().is_none());
}

#[test]
fn percentile_picks_high_rank() {
    let mut rb = RingBuffer::new();
    rb.push(5);
    rb.push(1);
    rb.push(3);
    assert_eq!(rb.percentile_95(), Some(5));
    let mut rb2 = RingBuffer::new();
    for i in 1..=20u64 {
        rb2.push(i);
    }
    assert_eq!(rb2.percentile_95(), Some(20));
}

#[test]
fn disabled_metrics_record_nothing() {
    let mut m = PerfMetrics::new();
    m.record_op("render", 1000);
    m.frame_start(0);
    m.frame_end(5000);
    assert!(m.ops.is_empty());
    assert_eq!(m.frame_count, 0);
}

#[test]
fn record_op_aggregates_per_name() {
    let mut m = PerfMetrics::new();
    assert!(m.toggle());
    m.record_op("render", 100);
    m.record_op("layout", 30);
    m.record_op("render", 50);
    assert_eq!(m.ops.len(), 2);
    let render = &m.ops[0];
    assert_eq!(render.0, "render");
    assert_eq!(render.1.count, 2);
    assert_eq!(render.1.total_us, 150);
    assert_eq!(render.1.max_us, 100);
    assert_eq!(render.1.samples.iter(), vec![100, 50]);
}

#[test]
fn frames_are_timed_from_start_to_end() {
    let mut m = PerfMetrics::new();
    m.toggle();
    m.frame_start(1000);
    m.frame_end(3500);
    assert_eq!(m.frame_count, 1);
    assert_eq!(m.frame_times.recent(1), vec![2500]);
}

#[test]
fn toggle_on_clears_old_figures() {
    let mut m = PerfMetrics::new();
    m.toggle();
    m.record_op("render", 10);
    assert!(!m.toggle());
    assert_eq!(m.ops.len(), 1);
    assert!(m.toggle());
    assert!(m.ops.is_empty());
    assert_eq!(m.frame_count, 0);
}

#[test]
fn reset_clears_but_keeps_enabled() {
    let mut m = PerfMetrics::new();
    m.toggle();
    m.record_op("a", 1);
    m.reset();
    assert!(m.enabled);
    assert!(m.ops.is_empty());
}

#[test]
fn op_stats_start_empty() {
    let s = OpStats::new();
    assert_eq!(s.count, 0);
    assert_eq!(s.total_us, 0);
    assert_eq!(s.max_us, 0);
    assert!(s.samples.iter().is_empty());
}
