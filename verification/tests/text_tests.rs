use context_pilot::profile::{should_log, summarize_perf_log, ProfileGuard, PROFILE_THRESHOLD_MS};
use context_pilot::spinner::spinner;
use context_pilot::strutil::{
    join_lines, join_sep, split_lines, str_concat, str_eq, str_starts_with, usize_to_dec,
};
use context_pilot::watch::WatchEvent;

#[test]
fn lines_split_like_std() {
    let cases: &[&str] = &["", "a", "a\n", "a\nb", "a\r\nb", "\n", "a\n\nb", "tail\r"];
    for s in cases {
        let ours: Vec<String> = split_lines(s);
        let std_lines: Vec<String> = s.lines().map(|l| l.to_string()).collect();
        assert_eq!(ours, std_lines, "mismatch on {:?}", s);
    }
}

#[test]
fn joining_lines_round_trips_without_endings() {
    let lines = split_lines("a\nb\nc");
    assert_eq!(join_lines(&lines), "a\nb\nc");
    assert_eq!(join_lines(&Vec::new()), "");
    assert_eq!(join_sep(&vec!["x".to_string(), "y".to_string()], ", "), "x, y");
}

#[test]
fn string_helpers_behave() {
    assert!(str_eq("abc", "abc"));
    assert!(!str_eq("abc", "abd"));
    assert!(!str_eq("abc", "ab"));
    assert!(str_starts_with("data: {}", "data: "));
    assert!(!str_starts_with("event: x", "data: "));
    assert_eq!(str_concat("foo", "bar"), "foobar");
    assert_eq!(usize_to_dec(0), "0");
    assert_eq!(usize_to_dec(1234), "1234");
}

#[test]
fn spinner_cycles_over_ten_frames() {
    assert_eq!(spinner(0), "\u{280b}");
    assert_eq!(spinner(10), spinner(0));
    assert_eq!(spinner(7), "\u{2827}");
    let frames: Vec<&str> = (0..10).map(spinner).collect();
    for i in 0..10 {
        for j in 0..10 {
            if i != j {
                assert_ne!(frames[i], frames[j]);
            }
        }
    }
}

#[test]
fn watch_events_expose_their_path() {
    let f = WatchEvent::FileChanged("/tmp/a.txt".to_string());
    assert_eq!(f.path(), "/tmp/a.txt");
    let d = WatchEvent::DirChanged("/tmp".to_string());
    assert_eq!(d.path(), "/tmp");
}

#[test]
fn log_summary_aggregates_and_orders_by_total() {
    let log = "    12ms  render\n     3ms  layout pass\n     8ms  render\nnot a log line\nlonely\n";
    let rows = summarize_perf_log(log);
    assert_eq!(rows.len(), 2);
    assert_eq!(rows[0].name, "render");
    assert_eq!(rows[0].total_ms, 20);
    assert_eq!(rows[0].count, 2);
    assert_eq!(rows[1].name, "layout pass");
    assert_eq!(rows[1].total_ms, 3);
    assert_eq!(rows[1].count, 1);
}

#[test]
fn log_summary_of_empty_or_garbage_content_is_empty() {
    assert!(summarize_perf_log("").is_empty());
    assert!(summarize_perf_log("no numbers here\nat all").is_empty());
}

#[test]
fn profile_guard_measures_and_thresholds() {
    let g = ProfileGuard::new("slow_op", 1_000_000);
    assert_eq!(g.name, "slow_op");
    assert_eq!(g.elapsed_ms(1_006_000), 6);
    assert_eq!(g.elapsed_ms(500), 0);
    assert!(should_log(PROFILE_THRESHOLD_MS));
    assert!(should_log(6));
    assert!(!should_log(4));
}
