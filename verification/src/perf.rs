//! In-memory performance counters: a fixed-size ring buffer of recent
//! samples, per-operation accumulated statistics, and a metrics collector
//! owned and driven by the render loop, which passes in the clock
//! readings.  Monitoring is off until toggled on.

use vstd::prelude::*;
use vstd::string::StrSliceExecFns;
use vstd::string::StringExecFns;

use crate::strutil::str_eq;

verus! {

broadcast use vstd::seq_lib::group_to_multiset_ensures;

/// Number of recent samples kept for trend analysis.
pub const SAMPLE_RING_SIZE: usize = 64;

/// Ring buffer of the most recent samples.
pub struct RingBuffer {
    pub data: Vec<u64>,
    pub write_pos: usize,
    pub len: usize,
}

impl RingBuffer {
    /// Shape invariant: full backing store, cursor in range, and before
    /// the first wrap-around the cursor equals the fill level.
    pub open spec fn wf(self) -> bool {
        &&& self.data@.len() == SAMPLE_RING_SIZE
        &&& self.len <= SAMPLE_RING_SIZE
        &&& self.write_pos < SAMPLE_RING_SIZE
        &&& (self.len < SAMPLE_RING_SIZE ==> self.write_pos == self.len)
    }

    /// The stored samples in arrival order, oldest first.
    pub open spec fn contents(self) -> Seq<u64> {
        if self.len < SAMPLE_RING_SIZE {
            self.data@.subrange(0, self.len as int)
        } else {
            self.data@.subrange(self.write_pos as int, SAMPLE_RING_SIZE as int) + self.data@.subrange(
                0,
                self.write_pos as int,
            )
        }
    }

    /// An empty ring buffer.
    pub fn new() -> (r: RingBuffer)
        ensures
            r.wf(),
            r.contents() == Seq::<u64>::empty(),
    {
        let mut data: Vec<u64> = Vec::new();
        let mut i: usize = 0;
        while i < SAMPLE_RING_SIZE
            invariant
                i <= SAMPLE_RING_SIZE,
                data@.len() == i,
            decreases SAMPLE_RING_SIZE - i,
        {
            data.push(0);
            i = i + 1;
        }
        let r = RingBuffer { data, write_pos: 0, len: 0 };
        proof {
            assert(r.contents() =~= Seq::<u64>::empty());
        }
        r
    }

    /// Record one sample, dropping the oldest once the buffer is full.
    pub fn push(&mut self, value: u64)
        requires
            old(self).wf(),
        ensures
            final(self).wf(),
            final(self).contents() == spec_ring_push(old(self).contents(), value),
    {
        let ghost pre = *self;
        self.data[self.write_pos] = value;
        self.write_pos = (self.write_pos + 1) % SAMPLE_RING_SIZE;
        if self.len < SAMPLE_RING_SIZE {
            self.len = self.len + 1;
        }
        proof {
            let post = *self;
            if pre.len < SAMPLE_RING_SIZE {
                assert(post.contents() =~= pre.contents().push(value));
            } else {
                assert(pre.write_pos < SAMPLE_RING_SIZE);
                assert(post.contents() =~= pre.contents().drop_first().push(value));
            }
        }
    }

    /// The stored samples in storage order, oldest segment last once the
    /// buffer has wrapped.
    pub fn iter(&self) -> (r: Vec<u64>)
        requires
            self.wf(),
        ensures
            r@ == self.data@.subrange(0, self.len as int),
    {
        let mut out: Vec<u64> = Vec::new();
        let mut i: usize = 0;
        while i < self.len
            invariant
                self.wf(),
                i <= self.len,
                out@ == self.data@.subrange(0, i as int),
            decreases self.len - i,
        {
            out.push(self.data[i]);
            proof {
                assert(out@ =~= self.data@.subrange(0, i + 1));
            }
            i = i + 1;
        }
        out
    }

    /// The last `count` samples in arrival order; all of them when fewer
    /// are stored.
    pub fn recent(&self, count: usize) -> (r: Vec<u64>)
        requires
            self.wf(),
        ensures
            ({
                let c = if count <= self.len {
                    count as int
                } else {
                    self.len as int
                };
                r@ == self.contents().subrange(self.contents().len() - c, self.contents().len() as int)
            }),
    {
        let mut result: Vec<u64> = Vec::new();
        if self.len == 0 {
            proof {
                assert(result@ =~= self.contents().subrange(0, 0));
            }
            return result;
        }
        let count = if count < self.len {
            count
        } else {
            self.len
        };
        let start: usize = if self.len < SAMPLE_RING_SIZE {
            0
        } else {
            self.write_pos
        };
        let mut i: usize = 0;
        while i < count
            invariant
                self.wf(),
                count <= self.len,
                0 < self.len,
                start == (if self.len < SAMPLE_RING_SIZE {
                    0int
                } else {
                    self.write_pos as int
                }),
                i <= count,
                result@ == self.contents().subrange(
                    self.contents().len() - count,
                    self.contents().len() - count + i,
                ),
            decreases count - i,
        {
            let idx = (start + self.len - count + i) % SAMPLE_RING_SIZE;
            proof {
                let cs = self.contents();
                let j = cs.len() - count + i;
                if self.len < SAMPLE_RING_SIZE {
                    assert(idx == j);
                    assert(cs[j] == self.data@[idx as int]);
                } else {
                    let wp = self.write_pos as int;
                    if j < SAMPLE_RING_SIZE - wp {
                        assert(idx == wp + j);
                        assert(cs[j] == self.data@[idx as int]);
                    } else {
                        assert(idx == wp + j - SAMPLE_RING_SIZE);
                        assert(cs[j] == self.data@[idx as int]);
                    }
                }
                assert(result@.push(self.data@[idx as int]) =~= cs.subrange(
                    cs.len() - count,
                    cs.len() - count + i + 1,
                ));
            }
            result.push(self.data[idx]);
            i = i + 1;
        }
        result
    }

    /// The 95th-percentile sample, if any are stored.
    pub fn percentile_95(&self) -> (r: Option<u64>)
        requires
            self.wf(),
        ensures
            r is None <==> self.len == 0,
            r matches Some(v) ==> spec_is_rank(
                self.data@.subrange(0, self.len as int),
                ((self.len * 95) / 100) as int,
                v,
            ),
    {
        if self.len == 0 {
            return None;
        }
        let samples = self.iter();
        let sorted = sort_u64(&samples);
        let idx = (self.len * 95) / 100;
        let idx = if idx < self.len - 1 {
            idx
        } else {
            self.len - 1
        };
        proof {
            assert(spec_is_rank(
                self.data@.subrange(0, self.len as int),
                ((self.len * 95) / 100) as int,
                sorted@[idx as int],
            ));
        }
        Some(sorted[idx])
    }
}

/// A sample list after recording one more value.
pub open spec fn spec_ring_push(s: Seq<u64>, v: u64) -> Seq<u64> {
    if s.len() < SAMPLE_RING_SIZE {
        s.push(v)
    } else {
        s.drop_first().push(v)
    }
}

/// A sequence is ascending.
pub open spec fn spec_sorted(s: Seq<u64>) -> bool {
    forall|i: int, j: int| 0 <= i < j < s.len() ==> s[i] <= s[j]
}

/// `v` is the value at (clamped) rank `idx` of some ascending
/// rearrangement of the samples.
pub open spec fn spec_is_rank(samples: Seq<u64>, idx: int, v: u64) -> bool {
    exists|s: Seq<u64>|
        #[trigger] spec_sorted(s) && s.to_multiset() == samples.to_multiset() && s.len()
            == samples.len() && samples.len() > 0 && v == s[if idx < samples.len() - 1 {
            idx
        } else {
            samples.len() - 1
        }]
}

/// Sort a list of samples ascending by repeatedly extracting a minimum.
fn sort_u64(input: &Vec<u64>) -> (r: Vec<u64>)
    ensures
        spec_sorted(r@),
        r@.to_multiset() == input@.to_multiset(),
        r@.len() == input@.len(),
{
    let mut tmp: Vec<u64> = Vec::new();
    let n = input.len();
    let mut i: usize = 0;
    while i < n
        invariant
            i <= n,
            n == input@.len(),
            tmp@ == input@.subrange(0, i as int),
        decreases n - i,
    {
        tmp.push(input[i]);
        proof {
            assert(tmp@ =~= input@.subrange(0, i + 1));
        }
        i = i + 1;
    }
    proof {
        assert(tmp@ =~= input@);
    }
    let mut out: Vec<u64> = Vec::new();
    while tmp.len() > 0
        invariant
            spec_sorted(out@),
            out@.to_multiset().add(tmp@.to_multiset()) =~= input@.to_multiset(),
            out@.len() + tmp@.len() == input@.len(),
            forall|a: int, b: int|
                0 <= a < out@.len() && 0 <= b < tmp@.len() ==> out@[a] <= tmp@[b],
        decreases tmp.len(),
    {
        let mut min_idx: usize = 0;
        let mut k: usize = 1;
        while k < tmp.len()
            invariant
                min_idx < k <= tmp@.len(),
                0 < tmp@.len(),
                forall|b: int| 0 <= b < k ==> tmp@[min_idx as int] <= tmp@[b],
            decreases tmp.len() - k,
        {
            if tmp[k] < tmp[min_idx] {
                min_idx = k;
            }
            k = k + 1;
        }
        let ghost tmp_pre = tmp@;
        let ghost out_pre = out@;
        let v = tmp.remove(min_idx);
        out.push(v);
        proof {
            assert(tmp_pre.remove(min_idx as int).to_multiset() =~= tmp_pre.to_multiset().remove(
                v,
            ));
            assert(out_pre.push(v).to_multiset() =~= out_pre.to_multiset().insert(v));
            assert(out@.to_multiset().add(tmp@.to_multiset()) =~= input@.to_multiset());
            assert forall|a: int, b: int|
                0 <= a < out@.len() && 0 <= b < tmp@.len() implies out@[a] <= tmp@[b] by {
                if a < out_pre.len() {
                    assert(out@[a] == out_pre[a]);
                }
                if b < min_idx {
                    assert(tmp@[b] == tmp_pre[b]);
                } else {
                    assert(tmp@[b] == tmp_pre[b + 1]);
                }
            }
            assert forall|a: int, b: int| 0 <= a < b < out@.len() implies out@[a] <= out@[b] by {
                if b == out@.len() - 1 && a < out_pre.len() {
                    assert(out@[a] == out_pre[a]);
                }
            }
        }
    }
    proof {
        assert(tmp@.to_multiset() =~= Seq::<u64>::empty().to_multiset());
        assert(out@.to_multiset() =~= out@.to_multiset().add(tmp@.to_multiset()));
    }
    out
}

/// Accumulated statistics of one named operation.
pub struct OpStats {
    pub count: u64,
    pub total_us: u64,
    pub max_us: u64,
    pub samples: RingBuffer,
}

/// Mathematical model of one operation's statistics.
#[verifier::ext_equal]
pub ghost struct OpStatsModel {
    pub count: u64,
    pub total_us: u64,
    pub max_us: u64,
    pub samples: Seq<u64>,
}

impl OpStats {
    pub open spec fn wf(self) -> bool {
        self.samples.wf()
    }

    pub open spec fn model(self) -> OpStatsModel {
        OpStatsModel {
            count: self.count,
            total_us: self.total_us,
            max_us: self.max_us,
            samples: self.samples.contents(),
        }
    }

    /// Fresh, empty statistics.
    pub fn new() -> (r: OpStats)
        ensures
            r.wf(),
            r.model() == spec_op_stats_empty(),
    {
        let r = OpStats { count: 0, total_us: 0, max_us: 0, samples: RingBuffer::new() };
        proof {
            assert(r.model() =~= spec_op_stats_empty());
        }
        r
    }
}

/// The statistics before any sample.
pub open spec fn spec_op_stats_empty() -> OpStatsModel {
    OpStatsModel { count: 0, total_us: 0, max_us: 0, samples: Seq::empty() }
}

/// One operation's statistics after one more timing sample; the counters
/// wrap rather than overflow.
pub open spec fn spec_op_record(st: OpStatsModel, duration_us: u64) -> OpStatsModel {
    OpStatsModel {
        count: vstd::wrapping::u64_specs::wrapping_add(st.count, 1),
        total_us: vstd::wrapping::u64_specs::wrapping_add(st.total_us, duration_us),
        max_us: if duration_us > st.max_us {
            duration_us
        } else {
            st.max_us
        },
        samples: spec_ring_push(st.samples, duration_us),
    }
}


/// Find the entry for an operation name.
fn find_op_exec(ops: &Vec<(String, OpStats)>, name: &str) -> (r: Option<usize>)
    ensures
        match r {
            Some(k) => k < ops@.len() && ops@[k as int].0@ == name@ && (forall|j: int|
                0 <= j < k ==> (#[trigger] ops@[j].0@) != name@),
            None => forall|j: int| 0 <= j < ops@.len() ==> (#[trigger] ops@[j].0@) != name@,
        },
{
    let n = ops.len();
    let mut k: usize = 0;
    while k < n
        invariant
            k <= n,
            n == ops@.len(),
            forall|j: int| 0 <= j < k ==> (#[trigger] ops@[j].0@) != name@,
        decreases n - k,
    {
        if str_eq(ops[k].0.as_str(), name) {
            return Some(k);
        }
        k = k + 1;
    }
    None
}

/// The metrics collector: per-operation statistics, frame times, and the
/// pending frame start.  The caller supplies every clock reading.
pub struct PerfMetrics {
    pub enabled: bool,
    pub ops: Vec<(String, OpStats)>,
    pub frame_times: RingBuffer,
    pub frame_start: Option<u64>,
    pub frame_count: u64,
}

/// Mathematical model of the collector.
#[verifier::ext_equal]
pub ghost struct PerfMetricsModel {
    pub enabled: bool,
    pub ops: Seq<(Seq<char>, OpStatsModel)>,
    pub frame_times: Seq<u64>,
    pub frame_start: Option<u64>,
    pub frame_count: u64,
}

/// Position of the first entry for an operation name, or -1.
pub open spec fn spec_find_op(ops: Seq<(Seq<char>, OpStatsModel)>, name: Seq<char>) -> int
    decreases ops.len(),
{
    if ops.len() == 0 {
        -1
    } else if ops[0].0 == name {
        0
    } else {
        let r = spec_find_op(ops.drop_first(), name);
        if r < 0 {
            -1
        } else {
            1 + r
        }
    }
}

/// How `spec_find_op` behaves.
pub proof fn lemma_find_op(ops: Seq<(Seq<char>, OpStatsModel)>, name: Seq<char>)
    ensures
        spec_find_op(ops, name) == -1 ==> (forall|j: int|
            0 <= j < ops.len() ==> (#[trigger] ops[j].0) != name),
        spec_find_op(ops, name) != -1 ==> 0 <= spec_find_op(ops, name) < ops.len() && ops[
            spec_find_op(ops, name)
        ].0 == name && (forall|j: int|
            0 <= j < spec_find_op(ops, name) ==> (#[trigger] ops[j].0) != name),
        forall|j: int|
            0 <= j < ops.len() && (#[trigger] ops[j].0) == name ==> spec_find_op(ops, name) != -1,
    decreases ops.len(),
{
    if ops.len() > 0 && ops[0].0 != name {
        lemma_find_op(ops.drop_first(), name);
        if spec_find_op(ops, name) == -1 {
            assert forall|j: int| 0 <= j < ops.len() implies (#[trigger] ops[j].0) != name by {
                if j > 0 {
                    assert(ops.drop_first()[j - 1].0 != name);
                }
            }
        }
        if spec_find_op(ops, name) != -1 {
            let r = spec_find_op(ops.drop_first(), name);
            assert(ops[1 + r] == ops.drop_first()[r]);
            assert forall|j: int| 0 <= j < 1 + r implies (#[trigger] ops[j].0) != name by {
                if j > 0 {
                    assert(ops.drop_first()[j - 1].0 != name);
                }
            }
        }
        assert forall|j: int|
            0 <= j < ops.len() && (#[trigger] ops[j].0) == name implies spec_find_op(ops, name)
            != -1 by {
            if j > 0 {
                assert(ops.drop_first()[j - 1].0 == name);
            }
        }
    }
}

/// The per-operation table after recording one timing.
pub open spec fn spec_record_op(
    ops: Seq<(Seq<char>, OpStatsModel)>,
    name: Seq<char>,
    duration_us: u64,
) -> Seq<(Seq<char>, OpStatsModel)> {
    let p = spec_find_op(ops, name);
    if p < 0 {
        ops.push((name, spec_op_record(spec_op_stats_empty(), duration_us)))
    } else {
        ops.update(p, (name, spec_op_record(ops[p].1, duration_us)))
    }
}

impl PerfMetrics {
    pub open spec fn wf(self) -> bool {
        &&& self.frame_times.wf()
        &&& forall|j: int| 0 <= j < self.ops@.len() ==> (#[trigger] self.ops@[j].1).wf()
    }

    pub open spec fn model(self) -> PerfMetricsModel {
        PerfMetricsModel {
            enabled: self.enabled,
            ops: Seq::new(self.ops@.len(), |j: int| (self.ops@[j].0@, self.ops@[j].1.model())),
            frame_times: self.frame_times.contents(),
            frame_start: self.frame_start,
            frame_count: self.frame_count,
        }
    }

    /// A fresh collector, with monitoring off.
    pub fn new() -> (r: PerfMetrics)
        ensures
            r.wf(),
            r.model() == spec_perf_empty(),
    {
        let r = PerfMetrics {
            enabled: false,
            ops: Vec::new(),
            frame_times: RingBuffer::new(),
            frame_start: None,
            frame_count: 0,
        };
        proof {
            assert(r.model().ops =~= spec_perf_empty().ops);
            assert(r.model() =~= spec_perf_empty());
        }
        r
    }

    /// Record one operation timing.  A disabled collector records
    /// nothing.
    pub fn record_op(&mut self, name: &str, duration_us: u64)
        requires
            old(self).wf(),
        ensures
            final(self).wf(),
            !old(self).enabled ==> *final(self) == *old(self),
            old(self).enabled ==> final(self).model() == (PerfMetricsModel {
                ops: spec_record_op(old(self).model().ops, name@, duration_us),
                ..old(self).model()
            }),
    {
        if !self.enabled {
            return ;
        }
        let ghost opsm = self.model().ops;
        proof {
            lemma_find_op(opsm, name@);
            assert forall|j: int| 0 <= j < opsm.len() implies opsm[j].0 == self.ops@[j].0@ by {}
        }
        let found = find_op_exec(&self.ops, name);
        match found {
            Some(p) => {
                proof {
                    assert(opsm[p as int].0 == name@);
                    assert(spec_find_op(opsm, name@) == p as int) by {
                        let q = spec_find_op(opsm, name@);
                        if q < p as int {
                            assert(self.ops@[q].0@ != name@);
                        }
                        if q > p as int {
                            assert(opsm[p as int].0 != name@);
                        }
                    }
                }
                let mut entry = self.ops.remove(p);
                let ghost entry_m = (entry.0@, entry.1.model());
                entry.1.count = entry.1.count.wrapping_add(1);
                entry.1.total_us = entry.1.total_us.wrapping_add(duration_us);
                if duration_us > entry.1.max_us {
                    entry.1.max_us = duration_us;
                }
                entry.1.samples.push(duration_us);
                proof {
                    assert(entry.1.model() =~= spec_op_record(entry_m.1, duration_us));
                }
                self.ops.insert(p, entry);
                proof {
                    assert(self.model().ops =~= opsm.update(
                        p as int,
                        (name@, spec_op_record(opsm[p as int].1, duration_us)),
                    ));
                    assert(self.model() =~= (PerfMetricsModel {
                        ops: spec_record_op(opsm, name@, duration_us),
                        ..old(self).model()
                    }));
                }
            },
            None => {
                proof {
                    assert(spec_find_op(opsm, name@) == -1) by {
                        let q = spec_find_op(opsm, name@);
                        if q != -1 {
                            assert(self.ops@[q].0@ != name@);
                        }
                    }
                }
                let mut stats = OpStats::new();
                stats.count = 1;
                stats.total_us = duration_us;
                stats.max_us = duration_us;
                stats.samples.push(duration_us);
                proof {
                    assert(stats.model() =~= spec_op_record(spec_op_stats_empty(), duration_us));
                }
                self.ops.push((String::from_str(name), stats));
                proof {
                    assert(self.model().ops =~= opsm.push(
                        (name@, spec_op_record(spec_op_stats_empty(), duration_us)),
                    ));
                    assert(self.model() =~= (PerfMetricsModel {
                        ops: spec_record_op(opsm, name@, duration_us),
                        ..old(self).model()
                    }));
                }
            },
        }
    }

    /// Note the start of a frame.
    pub fn frame_start(&mut self, now_us: u64)
        requires
            old(self).wf(),
        ensures
            final(self).wf(),
            !old(self).enabled ==> *final(self) == *old(self),
            old(self).enabled ==> final(self).model() == (PerfMetricsModel {
                frame_start: Some(now_us),
                ..old(self).model()
            }),
    {
        if !self.enabled {
            return ;
        }
        self.frame_start = Some(now_us);
        proof {
            assert(self.model() =~= (PerfMetricsModel {
                frame_start: Some(now_us),
                ..old(self).model()
            }));
        }
    }

    /// Close a frame: record the elapsed time since its noted start.
    pub fn frame_end(&mut self, now_us: u64)
        requires
            old(self).wf(),
        ensures
            final(self).wf(),
            !old(self).enabled ==> *final(self) == *old(self),
            old(self).enabled ==> final(self).model() == (match old(self).frame_start {
                Some(start) => PerfMetricsModel {
                    frame_times: spec_ring_push(
                        old(self).model().frame_times,
                        vstd::wrapping::u64_specs::wrapping_sub(now_us, start),
                    ),
                    frame_count: vstd::wrapping::u64_specs::wrapping_add(
                        old(self).model().frame_count,
                        1,
                    ),
                    ..old(self).model()
                },
                None => old(self).model(),
            }),
    {
        if !self.enabled {
            return ;
        }
        match self.frame_start {
            Some(start) => {
                let elapsed = now_us.wrapping_sub(start);
                self.frame_times.push(elapsed);
                self.frame_count = self.frame_count.wrapping_add(1);
                proof {
                    assert(self.model() =~= (PerfMetricsModel {
                        frame_times: spec_ring_push(
                            old(self).model().frame_times,
                            vstd::wrapping::u64_specs::wrapping_sub(now_us, start),
                        ),
                        frame_count: vstd::wrapping::u64_specs::wrapping_add(
                            old(self).model().frame_count,
                            1,
                        ),
                        ..old(self).model()
                    }));
                }
            },
            None => {},
        }
    }

    /// Clear every recorded figure; the enabled flag stays.
    pub fn reset(&mut self)
        requires
            old(self).wf(),
        ensures
            final(self).wf(),
            final(self).model() == (PerfMetricsModel {
                ops: Seq::empty(),
                frame_times: Seq::empty(),
                frame_count: 0,
                ..old(self).model()
            }),
    {
        self.ops = Vec::new();
        self.frame_times = RingBuffer::new();
        self.frame_count = 0;
        proof {
            assert(self.model().ops =~= Seq::<(Seq<char>, OpStatsModel)>::empty());
            assert(self.model() =~= (PerfMetricsModel {
                ops: Seq::empty(),
                frame_times: Seq::empty(),
                frame_count: 0,
                ..old(self).model()
            }));
        }
    }

    /// Flip monitoring on or off; turning it on clears old figures.
    /// Returns the new state.
    pub fn toggle(&mut self) -> (r: bool)
        requires
            old(self).wf(),
        ensures
            final(self).wf(),
            r == !old(self).enabled,
            final(self).enabled == r,
            r ==> final(self).model() == (PerfMetricsModel {
                enabled: true,
                ops: Seq::empty(),
                frame_times: Seq::empty(),
                frame_count: 0,
                ..old(self).model()
            }),
            !r ==> final(self).model() == (PerfMetricsModel {
                enabled: false,
                ..old(self).model()
            }),
    {
        let new_state = !self.enabled;
        self.enabled = new_state;
        if new_state {
            self.reset();
        }
        proof {
            if new_state {
                assert(self.model() =~= (PerfMetricsModel {
                    enabled: true,
                    ops: Seq::empty(),
                    frame_times: Seq::empty(),
                    frame_count: 0,
                    ..old(self).model()
                }));
            } else {
                assert(self.model() =~= (PerfMetricsModel {
                    enabled: false,
                    ..old(self).model()
                }));
            }
        }
        new_state
    }
}

/// The collector before anything is recorded.
pub open spec fn spec_perf_empty() -> PerfMetricsModel {
    PerfMetricsModel {
        enabled: false,
        ops: Seq::empty(),
        frame_times: Seq::empty(),
        frame_start: None,
        frame_count: 0,
    }
}

} // verus!
