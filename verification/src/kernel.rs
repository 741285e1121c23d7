//! Kernel monitor: tool latency windows, bottleneck detection and the
//! human-in-the-loop patch approval workflow.
//!
//! Durations are held in nanoseconds; patch ids are 128-bit UUID values.
use vstd::prelude::*;
use crate::order::{sort_u128, sorted_u128s, sum_u128s};
use crate::text::{chars_eq, push_str, string_of, to_chars};

verus! {

/// `Duration::MAX` in nanoseconds.
pub const MAX_DURATION_NANOS: u128 = 18446744073709551615999999999;

/// One recorded tool execution.
#[derive(Debug)]
pub struct ToolExecSample {
    pub tool_name: String,
    pub duration_nanos: u128,
    pub success: bool,
    /// When the sample was taken, in nanoseconds since the caller's origin.
    pub timestamp_nanos: u128,
}

/// Latency statistics of one tool (durations in nanoseconds).
#[derive(Debug)]
pub struct ToolPerfStats {
    pub tool_name: String,
    pub total_executions: u64,
    pub total_failures: u64,
    pub total_duration_nanos: u128,
    pub p95_duration_nanos: u128,
    pub max_duration_nanos: u128,
}

/// Where a patch proposal stands.
#[derive(Debug, PartialEq, Eq)]
pub enum PatchStatus {
    /// Waiting for human approval.
    PendingApproval,
    /// Approved, ready to compile and deploy.
    Approved,
    /// Rejected by human veto.
    Rejected,
    /// Compiled and deployed.
    Deployed,
    /// Compilation or deployment failed.
    Failed(String),
}

impl Clone for PatchStatus {
    fn clone(&self) -> (r: Self)
        ensures
            r == *self,
    {
        match self {
            PatchStatus::PendingApproval => PatchStatus::PendingApproval,
            PatchStatus::Approved => PatchStatus::Approved,
            PatchStatus::Rejected => PatchStatus::Rejected,
            PatchStatus::Deployed => PatchStatus::Deployed,
            PatchStatus::Failed(s) => PatchStatus::Failed(s.clone()),
        }
    }
}

/// A proposed runtime patch for a slow tool.
#[derive(Debug)]
pub struct PatchProposal {
    pub id: u128,
    pub tool_name: String,
    pub reason: String,
    pub proposed_rust_code: String,
    /// The IEEE-754 bits of the expected speedup factor.
    pub expected_speedup_bits: u64,
    pub status: PatchStatus,
}

impl Clone for PatchProposal {
    fn clone(&self) -> (r: Self)
        ensures
            r == *self,
    {
        PatchProposal {
            id: self.id,
            tool_name: self.tool_name.clone(),
            reason: self.reason.clone(),
            proposed_rust_code: self.proposed_rust_code.clone(),
            expected_speedup_bits: self.expected_speedup_bits,
            status: self.status.clone(),
        }
    }
}

/// The rolling sample window of one tool.
#[derive(Debug)]
pub struct ToolWindow {
    pub tool_name: String,
    pub samples: Vec<ToolExecSample>,
}

/// Tracks tool performance and the patch proposals made for slow tools.
pub struct KernelMonitor {
    windows: Vec<ToolWindow>,
    pending_patches: Vec<PatchProposal>,
    slow_threshold_ms: u64,
    min_samples: usize,
    max_samples_per_tool: usize,
}

/// The samples of the window named `name` (empty when there is none).
#[verifier::opaque]
pub closed spec fn window_in(ws: Seq<ToolWindow>, name: Seq<char>) -> Seq<ToolExecSample> {
    if exists|k: int| 0 <= k < ws.len() && ws[k].tool_name@ == name {
        ws[choose|k: int| 0 <= k < ws.len() && ws[k].tool_name@ == name].samples@
    } else {
        seq![]
    }
}

/// The rolling window after adding one sample: the newest `max` samples.
pub open spec fn trim_window(s: Seq<ToolExecSample>, max: nat) -> Seq<ToolExecSample> {
    if s.len() > max {
        s.skip(s.len() - max)
    } else {
        s
    }
}

/// The number of failed samples.
pub open spec fn count_failures(s: Seq<ToolExecSample>) -> nat
    decreases s.len(),
{
    if s.len() == 0 {
        0
    } else {
        count_failures(s.drop_last()) + if s.last().success {
            0nat
        } else {
            1nat
        }
    }
}

/// The durations of the samples.
pub open spec fn durations(s: Seq<ToolExecSample>) -> Seq<u128> {
    s.map_values(|x: ToolExecSample| x.duration_nanos)
}

/// The index of the 95th percentile in `n` sorted samples.
pub open spec fn p95_index(n: nat) -> int {
    if (n * 95) / 100 < n - 1 {
        ((n * 95) / 100) as int
    } else {
        n - 1
    }
}

/// `st` holds the statistics of the window `w` of tool `name`.
pub open spec fn perf_matches(st: ToolPerfStats, name: Seq<char>, w: Seq<ToolExecSample>) -> bool {
    let sd = sorted_u128s(durations(w));
    &&& st.tool_name@ == name
    &&& st.total_executions == w.len()
    &&& st.total_failures == count_failures(w)
    &&& st.total_duration_nanos == sum_u128s(durations(w))
    &&& st.p95_duration_nanos == sd[p95_index(w.len())]
    &&& st.max_duration_nanos == sd[w.len() - 1]
}

/// The average latency of `a` is at least that of `b`.
pub open spec fn avg_at_least(a: ToolPerfStats, b: ToolPerfStats) -> bool {
    a.total_duration_nanos * b.total_executions >= b.total_duration_nanos * a.total_executions
}

/// Two stats records describe the same tool with the same figures.
pub open spec fn same_stats(a: ToolPerfStats, b: ToolPerfStats) -> bool {
    &&& a.tool_name@ == b.tool_name@
    &&& a.total_executions == b.total_executions
    &&& a.total_failures == b.total_failures
    &&& a.total_duration_nanos == b.total_duration_nanos
    &&& a.p95_duration_nanos == b.p95_duration_nanos
    &&& a.max_duration_nanos == b.max_duration_nanos
}

/// The average latency is above `threshold_ms` milliseconds.
pub open spec fn avg_above_ms(st: ToolPerfStats, threshold_ms: u64) -> bool {
    st.total_duration_nanos > threshold_ms * 1_000_000 * st.total_executions
}

/// The stats that count as a bottleneck, in order.
pub open spec fn slow_of(s: Seq<ToolPerfStats>, min_samples: nat, threshold_ms: u64) -> Seq<
    ToolPerfStats,
>
    decreases s.len(),
{
    if s.len() == 0 {
        seq![]
    } else {
        slow_of(s.drop_last(), min_samples, threshold_ms) + if s.last().total_executions
            >= min_samples && avg_above_ms(s.last(), threshold_ms) {
            seq![s.last()]
        } else {
            seq![]
        }
    }
}

/// The proposals with the given status tag, in order.
pub open spec fn with_status_tag(s: Seq<PatchProposal>, approved: bool) -> Seq<PatchProposal>
    decreases s.len(),
{
    if s.len() == 0 {
        seq![]
    } else {
        with_status_tag(s.drop_last(), approved) + if (approved && s.last().status
            == PatchStatus::Approved) || (!approved && s.last().status
            == PatchStatus::PendingApproval) {
            seq![s.last()]
        } else {
            seq![]
        }
    }
}

/// The index of the first proposal with the given id.
pub open spec fn first_with_id(s: Seq<PatchProposal>, id: u128) -> Option<int>
    decreases s.len(),
{
    if s.len() == 0 {
        None
    } else if s[0].id == id {
        Some(0)
    } else {
        match first_with_id(s.drop_first(), id) {
            Some(k) => Some(k + 1),
            None => None,
        }
    }
}

/// The proposals after setting the status of the first one with `id`.
pub open spec fn set_status(s: Seq<PatchProposal>, id: u128, st: PatchStatus) -> Seq<
    PatchProposal,
> {
    match first_with_id(s, id) {
        Some(k) => s.update(k, PatchProposal { status: st, ..s[k] }),
        None => s,
    }
}

/// A tool has a proposal that is neither terminal nor rejected.
pub open spec fn has_open_proposal(s: Seq<PatchProposal>, tool: Seq<char>) -> bool {
    exists|k: int|
        0 <= k < s.len() && s[k].tool_name@ == tool && (s[k].status == PatchStatus::PendingApproval
            || s[k].status == PatchStatus::Approved)
}

/// The first proposal with an id is in range and carries the id, and no
/// proposal carries it when there is none.
pub proof fn lemma_first_with_id_props(s: Seq<PatchProposal>, id: u128)
    ensures
        first_with_id(s, id) matches Some(k) ==> 0 <= k < s.len() && s[k].id == id && forall|j: int|
            0 <= j < k ==> s[j].id != id,
        first_with_id(s, id) is None ==> forall|j: int| 0 <= j < s.len() ==> s[j].id != id,
    decreases s.len(),
{
    if s.len() > 0 {
        lemma_first_with_id_props(s.drop_first(), id);
        assert forall|j: int| 1 <= j < s.len() implies s[j] == s.drop_first()[j - 1] by {}
    }
}

proof fn lemma_first_with_id_is(s: Seq<PatchProposal>, id: u128, k: int)
    requires
        0 <= k < s.len(),
        s[k].id == id,
        forall|j: int| 0 <= j < k ==> s[j].id != id,
    ensures
        first_with_id(s, id) == Some(k),
    decreases k,
{
    if k > 0 {
        lemma_first_with_id_is(s.drop_first(), id, k - 1);
    }
}

impl KernelMonitor {
    /// The tools that have samples, in the order they were first seen.
    pub closed spec fn tools(self) -> Seq<Seq<char>> {
        self.windows@.map_values(|w: ToolWindow| w.tool_name@)
    }

    /// The sample window of a tool (empty for an unknown tool).
    pub closed spec fn window(self, name: Seq<char>) -> Seq<ToolExecSample> {
        window_in(self.windows@, name)
    }

    /// All patch proposals, in the order they were made.
    pub closed spec fn patches(self) -> Seq<PatchProposal> {
        self.pending_patches@
    }

    /// The slow-tool threshold in milliseconds.
    pub closed spec fn threshold_ms(self) -> u64 {
        self.slow_threshold_ms
    }

    /// The minimum number of samples before a tool is analysed.
    pub closed spec fn min_sample_count(self) -> nat {
        self.min_samples as nat
    }

    /// The maximum number of samples retained per tool.
    pub closed spec fn max_window(self) -> nat {
        self.max_samples_per_tool as nat
    }

    /// Internal consistency of the sample windows.
    pub closed spec fn wf(self) -> bool {
        &&& self.max_samples_per_tool == 100
        &&& forall|a: int, b: int|
            0 <= a < b < self.windows@.len() ==> self.windows@[a].tool_name@
                != self.windows@[b].tool_name@
        &&& forall|k: int|
            0 <= k < self.windows@.len() ==> {
                let w = #[trigger] self.windows@[k];
                &&& 0 < w.samples@.len() <= 100
                &&& forall|i: int|
                    0 <= i < w.samples@.len() ==> (#[trigger] w.samples@[i]).duration_nanos
                        <= MAX_DURATION_NANOS
            }
    }

    proof fn lemma_window_at(self, k: int)
        requires
            self.wf(),
            0 <= k < self.windows@.len(),
        ensures
            self.window(self.windows@[k].tool_name@) == self.windows@[k].samples@,
    {
        reveal(window_in);
        let name = self.windows@[k].tool_name@;
        let c = choose|c: int| 0 <= c < self.windows@.len() && self.windows@[c].tool_name@ == name;
        assert(0 <= k < self.windows@.len() && self.windows@[k].tool_name@ == name);
        if c != k {
            if c < k {
                assert(self.windows@[c].tool_name@ != self.windows@[k].tool_name@);
            } else {
                assert(self.windows@[k].tool_name@ != self.windows@[c].tool_name@);
            }
        }
    }

    /// A monitor with no samples and no proposals; slow means above 5000 ms
    /// on average over at least 10 samples, keeping the last 100 per tool.
    pub fn new() -> (m: Self)
        ensures
            m.wf(),
            m.tools() == Seq::<Seq<char>>::empty(),
            m.patches() == Seq::<PatchProposal>::empty(),
            m.threshold_ms() == 5000,
            m.min_sample_count() == 10,
            m.max_window() == 100,
    {
        let m = KernelMonitor {
            windows: Vec::new(),
            pending_patches: Vec::new(),
            slow_threshold_ms: 5000,
            min_samples: 10,
            max_samples_per_tool: 100,
        };
        assert(m.tools() =~= Seq::<Seq<char>>::empty());
        m
    }

    /// The same monitor with another slow-tool threshold.
    pub fn with_threshold(self, threshold_ms: u64) -> (m: Self)
        ensures
            m.threshold_ms() == threshold_ms,
            m.tools() == self.tools(),
            m.patches() == self.patches(),
            m.min_sample_count() == self.min_sample_count(),
            forall|n: Seq<char>| m.window(n) == self.window(n),
            self.wf() ==> m.wf(),
    {
        let m = KernelMonitor { slow_threshold_ms: threshold_ms, ..self };
        assert forall|n: Seq<char>| #[trigger] m.window(n) == self.window(n) by {
            assert(m.windows@ == self.windows@);
        }
        m
    }

    /// The samples of a tool's window as plain values
    /// (tool name, duration, success, timestamp).
    pub closed spec fn window_view(self, name: Seq<char>) -> Seq<(Seq<char>, u128, bool, u128)> {
        self.window(name).map_values(|x: ToolExecSample| sample_view(x))
    }

    fn find_window(&self, name: &[char]) -> (r: Option<usize>)
        requires
            self.wf(),
        ensures
            match r {
                Some(k) => k < self.windows@.len() && self.windows@[k as int].tool_name@ == name@,
                None => forall|j: int|
                    0 <= j < self.windows@.len() ==> self.windows@[j].tool_name@ != name@,
            },
    {
        let mut k: usize = 0;
        while k < self.windows.len()
            invariant
                k <= self.windows@.len(),
                forall|j: int| 0 <= j < k ==> self.windows@[j].tool_name@ != name@,
            decreases self.windows@.len() - k,
        {
            let wn = to_chars(self.windows[k].tool_name.as_str());
            if chars_eq(wn.as_slice(), name) {
                return Some(k);
            }
            k = k + 1;
        }
        None
    }

    /// Records one tool execution; each tool keeps its newest 100 samples.
    pub fn record_execution(
        &mut self,
        tool_name: &str,
        duration_nanos: u128,
        success: bool,
        now_nanos: u128,
    )
        requires
            old(self).wf(),
            duration_nanos <= MAX_DURATION_NANOS,
        ensures
            final(self).wf(),
            final(self).window_view(tool_name@) == trim_window_view(
                old(self).window_view(tool_name@).push(
                    (tool_name@, duration_nanos, success, now_nanos),
                ),
                100,
            ),
            forall|n: Seq<char>| n != tool_name@ ==> final(self).window(n) == old(self).window(n),
            final(self).tools() == if old(self).tools().contains(tool_name@) {
                old(self).tools()
            } else {
                old(self).tools().push(tool_name@)
            },
            final(self).patches() == old(self).patches(),
            final(self).threshold_ms() == old(self).threshold_ms(),
            final(self).min_sample_count() == old(self).min_sample_count(),
    {
        let name = to_chars(tool_name);
        let sample = ToolExecSample {
            tool_name: string_of(tool_name),
            duration_nanos,
            success,
            timestamp_nanos: now_nanos,
        };
        let ghost old_self = *old(self);
        let ghost sv = sample_view(sample);
        match self.find_window(name.as_slice()) {
            Some(k) => {
                proof {
                    old_self.lemma_window_at(k as int);
                }
                let mut w = self.windows.remove(k);
                let ghost old_w = w.samples@;
                w.samples.push(sample);
                if w.samples.len() > self.max_samples_per_tool {
                    w.samples.remove(0);
                    assert(w.samples@ =~= old_w.push(sample).skip(1));
                }
                let ghost new_w = w.samples@;
                self.windows.insert(k, w);
                proof {
                    assert(self.windows@ =~= old_self.windows@.update(k as int, self.windows@[k as int]));
                    assert forall|a: int, b: int|
                        0 <= a < b < self.windows@.len() implies self.windows@[a].tool_name@
                        != self.windows@[b].tool_name@ by {
                        assert(old_self.windows@[a].tool_name@ != old_self.windows@[b].tool_name@);
                    }
                    assert forall|j: int| 0 <= j < self.windows@.len() implies {
                        let w = #[trigger] self.windows@[j];
                        &&& 0 < w.samples@.len() <= 100
                        &&& forall|i: int|
                            0 <= i < w.samples@.len() ==> (#[trigger] w.samples@[i]).duration_nanos
                                <= MAX_DURATION_NANOS
                    } by {
                        if j == k {
                            assert forall|i: int| 0 <= i < new_w.len() implies (#[trigger] new_w[i]).duration_nanos
                                <= MAX_DURATION_NANOS by {
                                if old_w.len() + 1 > 100 {
                                    assert(new_w[i] == old_w.push(sample)[i + 1]);
                                } else {
                                    assert(new_w[i] == old_w.push(sample)[i]);
                                }
                            }
                        }
                    }
                    self.lemma_window_at(k as int);
                    assert(self.window(tool_name@) == new_w);
                    assert(new_w == trim_window(old_w.push(sample), 100));
                    lemma_trim_window_view(old_w, sample);
                    assert forall|n: Seq<char>| n != tool_name@ implies #[trigger] self.window(n)
                        == old_self.window(n) by {
                        self.lemma_window_other(old_self, k as int, n);
                    }
                    assert(self.tools() =~= old_self.tools());
                    assert(old_self.tools()[k as int] == tool_name@);
                }
            },
            None => {
                let mut v: Vec<ToolExecSample> = Vec::new();
                v.push(sample);
                let ghost new_w = v@;
                self.windows.push(ToolWindow { tool_name: string_of(tool_name), samples: v });
                proof {
                    let last = self.windows@.len() - 1;
                    assert forall|a: int, b: int|
                        0 <= a < b < self.windows@.len() implies self.windows@[a].tool_name@
                        != self.windows@[b].tool_name@ by {
                        if b < last {
                            assert(old_self.windows@[a].tool_name@ != old_self.windows@[b].tool_name@);
                        }
                    }
                    assert forall|j: int| 0 <= j < self.windows@.len() implies {
                        let w = #[trigger] self.windows@[j];
                        &&& 0 < w.samples@.len() <= 100
                        &&& forall|i: int|
                            0 <= i < w.samples@.len() ==> (#[trigger] w.samples@[i]).duration_nanos
                                <= MAX_DURATION_NANOS
                    } by {
                        if j < last {
                            assert(self.windows@[j] == old_self.windows@[j]);
                        }
                    }
                    self.lemma_window_at(last);
                    assert(!(exists|k: int|
                        0 <= k < old_self.windows@.len() && old_self.windows@[k].tool_name@
                            == tool_name@));
                    assert(old_self.window(tool_name@) == Seq::<ToolExecSample>::empty()) by {
                        reveal(window_in);
                    }
                    assert(new_w =~= Seq::<ToolExecSample>::empty().push(sample));
                    lemma_trim_window_view(Seq::<ToolExecSample>::empty(), sample);
                    assert forall|n: Seq<char>| n != tool_name@ implies #[trigger] self.window(n)
                        == old_self.window(n) by {
                        self.lemma_window_other_push(old_self, n);
                    }
                    assert(self.tools() =~= old_self.tools().push(tool_name@));
                    assert(!old_self.tools().contains(tool_name@)) by {
                        if old_self.tools().contains(tool_name@) {
                            let j = choose|j: int| 0 <= j < old_self.tools().len() && old_self.tools()[j] == tool_name@;
                            assert(old_self.windows@[j].tool_name@ == tool_name@);
                        }
                    }
                }
            },
        }
    }

    /// Statistics of every tracked tool, in first-seen order.
    pub fn compute_stats(&self) -> (stats: Vec<ToolPerfStats>)
        requires
            self.wf(),
        ensures
            stats@.len() == self.tools().len(),
            forall|k: int|
                0 <= k < stats@.len() ==> perf_matches(
                    #[trigger] stats@[k],
                    self.tools()[k],
                    self.window(self.tools()[k]),
                ),
            forall|k: int|
                0 <= k < stats@.len() ==> 0 < (#[trigger] stats@[k]).total_executions <= 100
                    && stats@[k].total_duration_nanos <= stats@[k].total_executions
                    * MAX_DURATION_NANOS,
    {
        let mut stats: Vec<ToolPerfStats> = Vec::new();
        let mut k: usize = 0;
        while k < self.windows.len()
            invariant
                self.wf(),
                k <= self.windows@.len(),
                stats@.len() == k,
                forall|j: int|
                    0 <= j < k ==> perf_matches(
                        #[trigger] stats@[j],
                        self.tools()[j],
                        self.window(self.tools()[j]),
                    ),
                forall|j: int|
                    0 <= j < k ==> 0 < (#[trigger] stats@[j]).total_executions <= 100
                        && stats@[j].total_duration_nanos <= stats@[j].total_executions
                        * MAX_DURATION_NANOS,
            decreases self.windows@.len() - k,
        {
            let w = &self.windows[k];
            assert(0 < w.samples@.len() <= 100);
            let st = stats_of(w);
            proof {
                self.lemma_window_at(k as int);
                assert(self.tools()[k as int] == w.tool_name@);
            }
            stats.push(st);
            k = k + 1;
        }
        stats
    }

    /// `st` is the statistics entry of a slow tool among the first `k` tools.
    #[verifier::opaque]
    closed spec fn slow_entry(self, st: ToolPerfStats, k: int) -> bool {
        exists|j: int|
            0 <= j < k && st.tool_name@ == self.tools()[j] && perf_matches(
                st,
                self.tools()[j],
                self.window(self.tools()[j]),
            ) && window_slow(
                self.window(self.tools()[j]),
                self.min_sample_count(),
                self.threshold_ms(),
            )
    }

    /// Every slow tool among the first `k` tools has an entry in `slow`.
    #[verifier::opaque]
    closed spec fn slow_covered(self, slow: Seq<ToolPerfStats>, k: int) -> bool {
        forall|j: int|
            0 <= j < k && window_slow(
                #[trigger] self.window(self.tools()[j]),
                self.min_sample_count(),
                self.threshold_ms(),
            ) ==> exists|i: int| 0 <= i < slow.len() && slow[i].tool_name@ == self.tools()[j]
    }

    /// No entry of `slow` belongs to a tool at index `k` or later.
    #[verifier::opaque]
    closed spec fn slow_below(self, slow: Seq<ToolPerfStats>, k: int) -> bool {
        forall|i: int|
            0 <= i < slow.len() ==> forall|j: int|
                k <= j < self.tools().len() ==> (#[trigger] slow[i]).tool_name@ != self.tools()[j]
    }

    /// The bookkeeping of `detect_bottlenecks` up to tool `k`.
    closed spec fn slow_inv(self, slow: Seq<ToolPerfStats>, k: int) -> bool {
        &&& forall|i: int| 0 <= i < slow.len() ==> self.slow_entry(#[trigger] slow[i], k)
        &&& self.slow_covered(slow, k)
        &&& self.slow_below(slow, k)
        &&& forall|a: int, b: int| 0 <= a < b < slow.len() ==> slow[a].tool_name@ != slow[b].tool_name@
    }

    proof fn lemma_slow_start(self)
        ensures
            self.slow_inv(seq![], 0),
    {
        reveal(KernelMonitor::slow_covered);
        reveal(KernelMonitor::slow_below);
    }

    proof fn lemma_slow_skip(self, slow: Seq<ToolPerfStats>, k: int)
        requires
            self.wf(),
            0 <= k < self.tools().len(),
            self.slow_inv(slow, k),
            !window_slow(self.window(self.tools()[k]), self.min_sample_count(), self.threshold_ms()),
            forall|a: int, b: int| 0 <= a < b < self.tools().len() ==> self.tools()[a] != self.tools()[b],
        ensures
            self.slow_inv(slow, k + 1),
    {
        reveal(KernelMonitor::slow_entry);
        reveal(KernelMonitor::slow_covered);
        reveal(KernelMonitor::slow_below);
        assert forall|i: int| 0 <= i < slow.len() implies self.slow_entry(#[trigger] slow[i], k + 1) by {
            assert(self.slow_entry(slow[i], k));
        }
    }

    #[verifier::spinoff_prover]
    #[verifier::rlimit(40)]
    proof fn lemma_slow_add(
        self,
        old_slow: Seq<ToolPerfStats>,
        slow: Seq<ToolPerfStats>,
        pos: int,
        item: ToolPerfStats,
        k: int,
    )
        requires
            self.wf(),
            0 <= k < self.tools().len(),
            self.slow_inv(old_slow, k),
            0 <= pos <= old_slow.len(),
            slow == old_slow.insert(pos, item),
            item.tool_name@ == self.tools()[k],
            perf_matches(item, self.tools()[k], self.window(self.tools()[k])),
            window_slow(self.window(self.tools()[k]), self.min_sample_count(), self.threshold_ms()),
            forall|a: int, b: int| 0 <= a < b < self.tools().len() ==> self.tools()[a] != self.tools()[b],
        ensures
            self.slow_inv(slow, k + 1),
    {
        reveal(KernelMonitor::slow_entry);
        reveal(KernelMonitor::slow_covered);
        reveal(KernelMonitor::slow_below);
        let tools = self.tools();
        assert forall|i: int| 0 <= i < slow.len() implies self.slow_entry(#[trigger] slow[i], k + 1) by {
            if i < pos {
                assert(slow[i] == old_slow[i]);
                assert(self.slow_entry(old_slow[i], k));
            } else if i > pos {
                assert(slow[i] == old_slow[i - 1]);
                assert(self.slow_entry(old_slow[i - 1], k));
            } else {
                assert(slow[i] == item);
                assert(0 <= k < k + 1 && item.tool_name@ == tools[k]);
            }
        }
        assert forall|j: int|
            0 <= j < k + 1 && window_slow(
                #[trigger] self.window(tools[j]),
                self.min_sample_count(),
                self.threshold_ms(),
            ) implies exists|i: int| 0 <= i < slow.len() && slow[i].tool_name@ == tools[j] by {
            if j < k {
                let i = choose|i: int| 0 <= i < old_slow.len() && old_slow[i].tool_name@ == tools[j];
                if i < pos {
                    assert(slow[i] == old_slow[i]);
                } else {
                    assert(slow[i + 1] == old_slow[i]);
                }
            } else {
                assert(slow[pos] == item);
            }
        }
        assert forall|a: int, b: int| 0 <= a < b < slow.len() implies slow[a].tool_name@
            != slow[b].tool_name@ by {
            if a != pos && b != pos {
                let oa = if a < pos { a } else { a - 1 };
                let ob = if b < pos { b } else { b - 1 };
                assert(slow[a] == old_slow[oa] && slow[b] == old_slow[ob]);
            } else if a == pos {
                assert(slow[b] == old_slow[b - 1]);
                assert(forall|j: int| k <= j < tools.len() ==> (#[trigger] old_slow[b - 1]).tool_name@ != tools[j]);
            } else {
                assert(slow[a] == old_slow[a]);
                assert(forall|j: int| k <= j < tools.len() ==> (#[trigger] old_slow[a]).tool_name@ != tools[j]);
            }
        }
        assert forall|i: int| 0 <= i < slow.len() implies forall|j: int|
            k + 1 <= j < tools.len() ==> (#[trigger] slow[i]).tool_name@ != tools[j] by {
            if i < pos {
                assert(slow[i] == old_slow[i]);
            } else if i > pos {
                assert(slow[i] == old_slow[i - 1]);
            }
        }
    }

    proof fn lemma_slow_done(self, slow: Seq<ToolPerfStats>)
        requires
            self.slow_inv(slow, self.tools().len() as int),
        ensures
            forall|i: int|
                0 <= i < slow.len() ==> {
                    let t = (#[trigger] slow[i]).tool_name@;
                    &&& self.tools().contains(t)
                    &&& perf_matches(slow[i], t, self.window(t))
                    &&& window_slow(self.window(t), self.min_sample_count(), self.threshold_ms())
                },
            forall|t: Seq<char>|
                #![trigger self.window(t)]
                self.tools().contains(t) && window_slow(
                    self.window(t),
                    self.min_sample_count(),
                    self.threshold_ms(),
                ) ==> exists|i: int| 0 <= i < slow.len() && slow[i].tool_name@ == t,
    {
        reveal(KernelMonitor::slow_entry);
        reveal(KernelMonitor::slow_covered);
        let tools = self.tools();
        assert forall|i: int| 0 <= i < slow.len() implies {
            let t = (#[trigger] slow[i]).tool_name@;
            &&& self.tools().contains(t)
            &&& perf_matches(slow[i], t, self.window(t))
            &&& window_slow(self.window(t), self.min_sample_count(), self.threshold_ms())
        } by {
            assert(self.slow_entry(slow[i], tools.len() as int));
            let j = choose|j: int|
                0 <= j < tools.len() && slow[i].tool_name@ == tools[j] && perf_matches(
                    slow[i],
                    tools[j],
                    self.window(tools[j]),
                ) && window_slow(
                    self.window(tools[j]),
                    self.min_sample_count(),
                    self.threshold_ms(),
                );
            assert(tools[j] == slow[i].tool_name@);
        }
        assert forall|t: Seq<char>|
            #![trigger self.window(t)]
            self.tools().contains(t) && window_slow(
                self.window(t),
                self.min_sample_count(),
                self.threshold_ms(),
            ) implies exists|i: int| 0 <= i < slow.len() && slow[i].tool_name@ == t by {
            let j = choose|j: int| 0 <= j < tools.len() && tools[j] == t;
            assert(window_slow(self.window(tools[j]), self.min_sample_count(), self.threshold_ms()));
        }
    }

    /// Tools whose average latency is above the threshold over at least the
    /// minimum number of samples, slowest first.
    pub fn detect_bottlenecks(&self) -> (slow: Vec<ToolPerfStats>)
        requires
            self.wf(),
        ensures
            forall|i: int|
                0 <= i < slow@.len() ==> {
                    let t = (#[trigger] slow@[i]).tool_name@;
                    &&& self.tools().contains(t)
                    &&& perf_matches(slow@[i], t, self.window(t))
                    &&& window_slow(self.window(t), self.min_sample_count(), self.threshold_ms())
                },
            forall|t: Seq<char>|
                #![trigger self.window(t)]
                self.tools().contains(t) && window_slow(
                    self.window(t),
                    self.min_sample_count(),
                    self.threshold_ms(),
                ) ==> exists|i: int| 0 <= i < slow@.len() && slow@[i].tool_name@ == t,
            forall|i: int, j: int|
                0 <= i < j < slow@.len() ==> slow@[i].tool_name@ != slow@[j].tool_name@,
            forall|i: int, j: int|
                0 <= i < j < slow@.len() ==> avg_at_least(slow@[i], slow@[j]),
    {
        let stats = self.compute_stats();
        let ghost tools = self.tools();
        proof {
            lemma_threshold_fits(self.slow_threshold_ms as int, 0);
        }
        let threshold: u128 = (self.slow_threshold_ms as u128) * 1_000_000;
        let mut slow: Vec<ToolPerfStats> = Vec::new();
        let mut k: usize = 0;
        assert forall|a: int, b: int| 0 <= a < b < tools.len() implies tools[a] != tools[b] by {
            assert(self.windows@[a].tool_name@ != self.windows@[b].tool_name@);
        }
        proof {
            self.lemma_slow_start();
            assert(slow@ =~= Seq::<ToolPerfStats>::empty());
        }
        while k < stats.len()
            invariant
                self.wf(),
                tools == self.tools(),
                threshold == self.threshold_ms() * 1_000_000,
                forall|a: int, b: int| 0 <= a < b < tools.len() ==> tools[a] != tools[b],
                stats@.len() == tools.len(),
                forall|j: int|
                    0 <= j < stats@.len() ==> perf_matches(
                        #[trigger] stats@[j],
                        tools[j],
                        self.window(tools[j]),
                    ),
                forall|j: int|
                    0 <= j < stats@.len() ==> 0 < (#[trigger] stats@[j]).total_executions <= 100
                        && stats@[j].total_duration_nanos <= stats@[j].total_executions
                        * MAX_DURATION_NANOS,
                k <= stats@.len(),
                forall|i: int|
                    0 <= i < slow@.len() ==> 0 < (#[trigger] slow@[i]).total_executions <= 100
                        && slow@[i].total_duration_nanos <= slow@[i].total_executions
                        * MAX_DURATION_NANOS,
                forall|i: int, j: int|
                    0 <= i < j < slow@.len() ==> avg_at_least(slow@[i], slow@[j]),
                self.slow_inv(slow@, k as int),
            decreases stats@.len() - k,
        {
            let st = &stats[k];
            let count = st.total_executions;
            proof {
                lemma_threshold_fits(self.slow_threshold_ms as int, count as int);
            }
            if count >= self.min_samples as u64 && st.total_duration_nanos > threshold * (count as u128) {
                let item = ToolPerfStats {
                    tool_name: st.tool_name.clone(),
                    total_executions: st.total_executions,
                    total_failures: st.total_failures,
                    total_duration_nanos: st.total_duration_nanos,
                    p95_duration_nanos: st.p95_duration_nanos,
                    max_duration_nanos: st.max_duration_nanos,
                };
                let ghost old_slow = slow@;
                let ghost it = item;
                let pos = insert_by_avg(&mut slow, item);
                proof {
                    self.lemma_slow_add(old_slow, slow@, pos as int, it, k as int);
                }
            } else {
                proof {
                    self.lemma_slow_skip(slow@, k as int);
                }
            }
            k = k + 1;
        }
        proof {
            self.lemma_slow_done(slow@);
        }
        slow
    }

    /// Submits a patch proposal for human review.
    pub fn propose_patch(&mut self, proposal: PatchProposal)
        requires
            old(self).wf(),
        ensures
            final(self).wf(),
            final(self).patches() == old(self).patches().push(proposal),
            final(self).tools() == old(self).tools(),
            forall|n: Seq<char>| final(self).window(n) == old(self).window(n),
            final(self).threshold_ms() == old(self).threshold_ms(),
            final(self).min_sample_count() == old(self).min_sample_count(),
    {
        let ghost old_self = *old(self);
        self.pending_patches.push(proposal);
        assert forall|n: Seq<char>| #[trigger] self.window(n) == old_self.window(n) by {
            assert(self.windows@ == old_self.windows@);
        }
    }

    fn collect_with_tag(&self, approved: bool) -> (r: Vec<PatchProposal>)
        ensures
            r@ == with_status_tag(self.patches(), approved),
    {
        let mut r: Vec<PatchProposal> = Vec::new();
        let mut i: usize = 0;
        let ghost s = self.pending_patches@;
        while i < self.pending_patches.len()
            invariant
                s == self.pending_patches@,
                i <= s.len(),
                r@ == with_status_tag(s.take(i as int), approved),
            decreases s.len() - i,
        {
            let p = &self.pending_patches[i];
            let hit = match &p.status {
                PatchStatus::Approved => approved,
                PatchStatus::PendingApproval => !approved,
                _ => false,
            };
            assert(s.take(i + 1).drop_last() =~= s.take(i as int));
            if hit {
                r.push(p.clone());
            }
            i = i + 1;
        }
        assert(s.take(s.len() as int) =~= s);
        r
    }

    /// The proposals waiting for approval, in proposal order.
    pub fn list_pending_patches(&self) -> (r: Vec<PatchProposal>)
        ensures
            r@ == with_status_tag(self.patches(), false),
    {
        self.collect_with_tag(false)
    }

    /// The approved proposals, ready for deployment, in proposal order.
    pub fn get_approved_patches(&self) -> (r: Vec<PatchProposal>)
        ensures
            r@ == with_status_tag(self.patches(), true),
    {
        self.collect_with_tag(true)
    }

    /// Whether a tool already has a pending or approved proposal.
    pub fn has_open_proposal_for_tool(&self, tool_name: &str) -> (b: bool)
        ensures
            b == has_open_proposal(self.patches(), tool_name@),
    {
        let t = to_chars(tool_name);
        let mut i: usize = 0;
        while i < self.pending_patches.len()
            invariant
                t@ == tool_name@,
                i <= self.pending_patches@.len(),
                forall|j: int|
                    0 <= j < i ==> !(self.pending_patches@[j].tool_name@ == tool_name@ && (
                    self.pending_patches@[j].status == PatchStatus::PendingApproval
                        || self.pending_patches@[j].status == PatchStatus::Approved)),
            decreases self.pending_patches@.len() - i,
        {
            let p = &self.pending_patches[i];
            let open = match &p.status {
                PatchStatus::PendingApproval => true,
                PatchStatus::Approved => true,
                _ => false,
            };
            if open {
                let n = to_chars(p.tool_name.as_str());
                if chars_eq(n.as_slice(), t.as_slice()) {
                    return true;
                }
            }
            i = i + 1;
        }
        false
    }

    fn position_of(&self, patch_id: u128) -> (r: Option<usize>)
        ensures
            match r {
                Some(k) => first_with_id(self.patches(), patch_id) == Some(k as int) && k
                    < self.patches().len() && self.patches()[k as int].id == patch_id,
                None => first_with_id(self.patches(), patch_id) is None,
            },
    {
        let mut i: usize = 0;
        while i < self.pending_patches.len()
            invariant
                i <= self.pending_patches@.len(),
                forall|j: int| 0 <= j < i ==> self.pending_patches@[j].id != patch_id,
            decreases self.pending_patches@.len() - i,
        {
            if self.pending_patches[i].id == patch_id {
                proof {
                    lemma_first_with_id_is(self.pending_patches@, patch_id, i as int);
                }
                return Some(i);
            }
            i = i + 1;
        }
        proof {
            lemma_first_with_id_props(self.pending_patches@, patch_id);
        }
        None
    }

    fn set_first_status(&mut self, patch_id: u128, status: PatchStatus) -> (found: bool)
        requires
            old(self).wf(),
        ensures
            final(self).wf(),
            found == first_with_id(old(self).patches(), patch_id) is Some,
            final(self).patches() == set_status(old(self).patches(), patch_id, status),
            final(self).tools() == old(self).tools(),
            forall|n: Seq<char>| final(self).window(n) == old(self).window(n),
            final(self).threshold_ms() == old(self).threshold_ms(),
            final(self).min_sample_count() == old(self).min_sample_count(),
    {
        let ghost old_self = *old(self);
        match self.position_of(patch_id) {
            Some(k) => {
                let mut p = self.pending_patches.remove(k);
                p.status = status;
                self.pending_patches.insert(k, p);
                assert(self.pending_patches@ =~= set_status(old_self.pending_patches@, patch_id, self.pending_patches@[k as int].status));
                assert forall|n: Seq<char>| #[trigger] self.window(n) == old_self.window(n) by {
                    assert(self.windows@ == old_self.windows@);
                }
                true
            },
            None => {
                assert forall|n: Seq<char>| #[trigger] self.window(n) == old_self.window(n) by {
                    assert(self.windows@ == old_self.windows@);
                }
                false
            },
        }
    }

    /// Approves the first proposal with this id; false when there is none.
    pub fn approve_patch(&mut self, patch_id: u128) -> (found: bool)
        requires
            old(self).wf(),
        ensures
            final(self).wf(),
            found == first_with_id(old(self).patches(), patch_id) is Some,
            final(self).patches() == set_status(
                old(self).patches(),
                patch_id,
                PatchStatus::Approved,
            ),
            final(self).tools() == old(self).tools(),
            forall|n: Seq<char>| final(self).window(n) == old(self).window(n),
            final(self).threshold_ms() == old(self).threshold_ms(),
            final(self).min_sample_count() == old(self).min_sample_count(),
    {
        self.set_first_status(patch_id, PatchStatus::Approved)
    }

    /// Rejects the first proposal with this id; false when there is none.
    pub fn reject_patch(&mut self, patch_id: u128) -> (found: bool)
        requires
            old(self).wf(),
        ensures
            final(self).wf(),
            found == first_with_id(old(self).patches(), patch_id) is Some,
            final(self).patches() == set_status(
                old(self).patches(),
                patch_id,
                PatchStatus::Rejected,
            ),
            final(self).tools() == old(self).tools(),
            forall|n: Seq<char>| final(self).window(n) == old(self).window(n),
            final(self).threshold_ms() == old(self).threshold_ms(),
            final(self).min_sample_count() == old(self).min_sample_count(),
    {
        self.set_first_status(patch_id, PatchStatus::Rejected)
    }

    /// Marks the first proposal with this id as deployed; false when there is none.
    pub fn mark_deployed(&mut self, patch_id: u128) -> (found: bool)
        requires
            old(self).wf(),
        ensures
            final(self).wf(),
            found == first_with_id(old(self).patches(), patch_id) is Some,
            final(self).patches() == set_status(
                old(self).patches(),
                patch_id,
                PatchStatus::Deployed,
            ),
            final(self).tools() == old(self).tools(),
            forall|n: Seq<char>| final(self).window(n) == old(self).window(n),
            final(self).threshold_ms() == old(self).threshold_ms(),
            final(self).min_sample_count() == old(self).min_sample_count(),
    {
        self.set_first_status(patch_id, PatchStatus::Deployed)
    }

    /// Marks the first proposal with this id as failed; false when there is none.
    pub fn mark_failed(&mut self, patch_id: u128, reason: String) -> (found: bool)
        requires
            old(self).wf(),
        ensures
            final(self).wf(),
            found == first_with_id(old(self).patches(), patch_id) is Some,
            final(self).patches() == set_status(
                old(self).patches(),
                patch_id,
                PatchStatus::Failed(reason),
            ),
            final(self).tools() == old(self).tools(),
            forall|n: Seq<char>| final(self).window(n) == old(self).window(n),
            final(self).threshold_ms() == old(self).threshold_ms(),
            final(self).min_sample_count() == old(self).min_sample_count(),
    {
        self.set_first_status(patch_id, PatchStatus::Failed(reason))
    }

    /// All proposals, in proposal order.
    pub fn all_patches(&self) -> (r: Vec<PatchProposal>)
        ensures
            r@ == self.patches(),
    {
        let mut r: Vec<PatchProposal> = Vec::new();
        let mut i: usize = 0;
        while i < self.pending_patches.len()
            invariant
                i <= self.pending_patches@.len(),
                r@ == self.pending_patches@.take(i as int),
            decreases self.pending_patches@.len() - i,
        {
            r.push(self.pending_patches[i].clone());
            i = i + 1;
            assert(r@ =~= self.pending_patches@.take(i as int));
        }
        assert(self.pending_patches@.take(self.pending_patches@.len() as int) =~= self.pending_patches@);
        r
    }

    /// The first proposal with this id.
    pub fn get_patch(&self, patch_id: u128) -> (r: Option<PatchProposal>)
        ensures
            match first_with_id(self.patches(), patch_id) {
                Some(k) => r == Some(self.patches()[k]),
                None => r is None,
            },
    {
        match self.position_of(patch_id) {
            Some(k) => Some(self.pending_patches[k].clone()),
            None => None,
        }
    }

    proof fn lemma_window_other(self, old_self: Self, k: int, n: Seq<char>)
        requires
            old_self.wf(),
            self.wf(),
            0 <= k < old_self.windows@.len(),
            self.windows@.len() == old_self.windows@.len(),
            forall|j: int| 0 <= j < self.windows@.len() && j != k ==> self.windows@[j] == old_self.windows@[j],
            self.windows@[k].tool_name@ == old_self.windows@[k].tool_name@,
            n != old_self.windows@[k].tool_name@,
        ensures
            self.window(n) == old_self.window(n),
    {
        reveal(window_in);
        if exists|j: int| 0 <= j < old_self.windows@.len() && old_self.windows@[j].tool_name@ == n {
            let j = choose|j: int| 0 <= j < old_self.windows@.len() && old_self.windows@[j].tool_name@ == n;
            old_self.lemma_window_at(j);
            self.lemma_window_at(j);
        } else {
            assert(!(exists|j: int| 0 <= j < self.windows@.len() && self.windows@[j].tool_name@ == n)) by {
                if exists|j: int| 0 <= j < self.windows@.len() && self.windows@[j].tool_name@ == n {
                    let j = choose|j: int| 0 <= j < self.windows@.len() && self.windows@[j].tool_name@ == n;
                    if j != k {
                        assert(old_self.windows@[j].tool_name@ == n);
                    }
                }
            }
        }
    }

    proof fn lemma_window_other_push(self, old_self: Self, n: Seq<char>)
        requires
            old_self.wf(),
            self.wf(),
            self.windows@.len() == old_self.windows@.len() + 1,
            forall|j: int| 0 <= j < old_self.windows@.len() ==> self.windows@[j] == old_self.windows@[j],
            n != self.windows@[old_self.windows@.len() as int].tool_name@,
        ensures
            self.window(n) == old_self.window(n),
    {
        reveal(window_in);
        if exists|j: int| 0 <= j < old_self.windows@.len() && old_self.windows@[j].tool_name@ == n {
            let j = choose|j: int| 0 <= j < old_self.windows@.len() && old_self.windows@[j].tool_name@ == n;
            old_self.lemma_window_at(j);
            self.lemma_window_at(j);
        } else {
            assert(!(exists|j: int| 0 <= j < self.windows@.len() && self.windows@[j].tool_name@ == n)) by {
                if exists|j: int| 0 <= j < self.windows@.len() && self.windows@[j].tool_name@ == n {
                    let j = choose|j: int| 0 <= j < self.windows@.len() && self.windows@[j].tool_name@ == n;
                    if j < old_self.windows@.len() {
                        assert(old_self.windows@[j].tool_name@ == n);
                    }
                }
            }
        }
    }
}

/// The statistics of one non-empty window.
fn stats_of(w: &ToolWindow) -> (st: ToolPerfStats)
    requires
        0 < w.samples@.len() <= 100,
        forall|i: int|
            0 <= i < w.samples@.len() ==> (#[trigger] w.samples@[i]).duration_nanos
                <= MAX_DURATION_NANOS,
    ensures
        perf_matches(st, w.tool_name@, w.samples@),
        0 < st.total_executions <= 100,
        st.total_duration_nanos <= st.total_executions * MAX_DURATION_NANOS,
{
    let n = w.samples.len();
    let ghost s = w.samples@;
    let mut failures: u64 = 0;
    let mut total: u128 = 0;
    let mut durs: Vec<u128> = Vec::new();
    let mut i: usize = 0;
    while i < n
        invariant
            n == s.len(),
            s == w.samples@,
            0 < n <= 100,
            forall|k: int| 0 <= k < s.len() ==> (#[trigger] s[k]).duration_nanos <= MAX_DURATION_NANOS,
            i <= n,
            failures as nat == count_failures(s.take(i as int)),
            failures <= i,
            total as int == sum_u128s(durations(s.take(i as int))),
            total <= i * MAX_DURATION_NANOS,
            durs@ == durations(s.take(i as int)),
        decreases n - i,
    {
        let x = &w.samples[i];
        assert(s.take(i + 1).drop_last() =~= s.take(i as int));
        assert(durations(s.take(i + 1)) =~= durations(s.take(i as int)).push(x.duration_nanos));
        assert(durations(s.take(i + 1)).drop_last() =~= durations(s.take(i as int)));
        if !x.success {
            failures = failures + 1;
        }
        total = total + x.duration_nanos;
        durs.push(x.duration_nanos);
        i = i + 1;
    }
    assert(s.take(n as int) =~= s);
    let sorted = sort_u128(durs);
    let mut idx: usize = n * 95 / 100;
    if idx >= n - 1 {
        idx = n - 1;
    }
    ToolPerfStats {
        tool_name: w.tool_name.clone(),
        total_executions: n as u64,
        total_failures: failures,
        total_duration_nanos: total,
        p95_duration_nanos: sorted[idx],
        max_duration_nanos: sorted[n - 1],
    }
}

/// The window `w` counts as slow.
pub open spec fn window_slow(w: Seq<ToolExecSample>, min_samples: nat, threshold_ms: u64) -> bool {
    w.len() >= min_samples && sum_u128s(durations(w)) > threshold_ms * 1_000_000 * w.len()
}

/// Whether `a`'s average latency is at least `b`'s.
fn avg_at_least_exec(a: &ToolPerfStats, b: &ToolPerfStats) -> (r: bool)
    requires
        a.total_executions <= 100,
        b.total_executions <= 100,
        a.total_duration_nanos <= a.total_executions * MAX_DURATION_NANOS,
        b.total_duration_nanos <= b.total_executions * MAX_DURATION_NANOS,
    ensures
        r == avg_at_least(*a, *b),
{
    proof {
        lemma_products_fit(a.total_duration_nanos as int, a.total_executions as int, b.total_executions as int);
        lemma_products_fit(b.total_duration_nanos as int, b.total_executions as int, a.total_executions as int);
    }
    a.total_duration_nanos * (b.total_executions as u128) >= b.total_duration_nanos
        * (a.total_executions as u128)
}

proof fn lemma_threshold_fits(thr: int, count: int)
    by (nonlinear_arith)
    requires
        0 <= thr <= u64::MAX,
        0 <= count <= 100,
    ensures
        thr * 1_000_000 <= u128::MAX,
        thr * 1_000_000 * count <= u128::MAX,
{
}

proof fn lemma_products_fit(t: int, c: int, d: int)
    by (nonlinear_arith)
    requires
        0 <= c <= 100,
        0 <= d <= 100,
        0 <= t <= c * MAX_DURATION_NANOS,
    ensures
        t * d <= 100 * 100 * MAX_DURATION_NANOS,
{
}

proof fn lemma_avg_transitive(a: ToolPerfStats, b: ToolPerfStats, c: ToolPerfStats)
    requires
        b.total_executions > 0,
        avg_at_least(a, b),
        avg_at_least(b, c),
    ensures
        avg_at_least(a, c),
{
    let (at, ac) = (a.total_duration_nanos as int, a.total_executions as int);
    let (bt, bc) = (b.total_duration_nanos as int, b.total_executions as int);
    let (ct, cc) = (c.total_duration_nanos as int, c.total_executions as int);
    assert(at * cc >= ct * ac) by (nonlinear_arith)
        requires
            bc > 0,
            ac >= 0,
            cc >= 0,
            at * bc >= bt * ac,
            bt * cc >= ct * bc,
    {
        assert(at * bc * cc >= bt * ac * cc);
        assert(bt * cc * ac >= ct * bc * ac);
        assert((at * cc) * bc >= (ct * ac) * bc);
    }
}

/// Inserts `item` into a list ordered by non-increasing average latency.
fn insert_by_avg(slow: &mut Vec<ToolPerfStats>, item: ToolPerfStats) -> (pos: usize)
    requires
        0 < item.total_executions <= 100,
        item.total_duration_nanos <= item.total_executions * MAX_DURATION_NANOS,
        forall|i: int|
            0 <= i < old(slow)@.len() ==> 0 < (#[trigger] old(slow)@[i]).total_executions <= 100
                && old(slow)@[i].total_duration_nanos <= old(slow)@[i].total_executions
                * MAX_DURATION_NANOS,
        forall|i: int, j: int|
            0 <= i < j < old(slow)@.len() ==> avg_at_least(old(slow)@[i], old(slow)@[j]),
    ensures
        pos <= old(slow)@.len(),
        final(slow)@ == old(slow)@.insert(pos as int, item),
        forall|i: int, j: int|
            0 <= i < j < final(slow)@.len() ==> avg_at_least(final(slow)@[i], final(slow)@[j]),
{
    let mut pos: usize = 0;
    while pos < slow.len() && avg_at_least_exec(&slow[pos], &item)
        invariant
            pos <= slow@.len(),
            0 < item.total_executions <= 100,
            item.total_duration_nanos <= item.total_executions * MAX_DURATION_NANOS,
            forall|i: int|
                0 <= i < slow@.len() ==> 0 < (#[trigger] slow@[i]).total_executions <= 100
                    && slow@[i].total_duration_nanos <= slow@[i].total_executions
                    * MAX_DURATION_NANOS,
            forall|i: int| 0 <= i < pos ==> avg_at_least(#[trigger] slow@[i], item),
        decreases slow@.len() - pos,
    {
        pos = pos + 1;
    }
    let ghost old_slow = slow@;
    assert(pos < old_slow.len() ==> !avg_at_least(old_slow[pos as int], item));
    slow.insert(pos, item);
    proof {
                    assert(slow@ =~= old_slow.insert(pos as int, item));
        assert forall|a: int, b: int| 0 <= a < b < slow@.len() implies avg_at_least(
            slow@[a],
            slow@[b],
        ) by {
            if b < pos {
                assert(avg_at_least(old_slow[a], old_slow[b]));
            } else if b == pos {
            } else if a <= pos {
                assert(slow@[b] == old_slow[b - 1]);
                assert(avg_at_least(item, old_slow[pos as int]));
                if pos < b - 1 {
                    assert(avg_at_least(old_slow[pos as int], old_slow[b - 1]));
                    lemma_avg_transitive(item, old_slow[pos as int], old_slow[b - 1]);
                }
                assert(avg_at_least(item, old_slow[b - 1]));
                if a < pos {
                    lemma_avg_transitive(old_slow[a], item, old_slow[b - 1]);
                }
            } else {
                assert(avg_at_least(old_slow[a - 1], old_slow[b - 1]));
            }
        }
    }
    pos
}

/// A sample as plain values: (tool name, duration, success, timestamp).
pub open spec fn sample_view(x: ToolExecSample) -> (Seq<char>, u128, bool, u128) {
    (x.tool_name@, x.duration_nanos, x.success, x.timestamp_nanos)
}

/// `trim_window` on plain sample values.
pub open spec fn trim_window_view(s: Seq<(Seq<char>, u128, bool, u128)>, max: nat) -> Seq<
    (Seq<char>, u128, bool, u128),
> {
    if s.len() > max {
        s.skip(s.len() - max)
    } else {
        s
    }
}

proof fn lemma_trim_window_view(w: Seq<ToolExecSample>, x: ToolExecSample)
    requires
        w.len() <= 100,
    ensures
        trim_window(w.push(x), 100).map_values(|y: ToolExecSample| sample_view(y))
            == trim_window_view(
            w.map_values(|y: ToolExecSample| sample_view(y)).push(sample_view(x)),
            100,
        ),
{
    let a = trim_window(w.push(x), 100).map_values(|y: ToolExecSample| sample_view(y));
    let b = trim_window_view(
        w.map_values(|y: ToolExecSample| sample_view(y)).push(sample_view(x)),
        100,
    );
    assert(a =~= b);
}


/// Whether a proposal counts for the given status tag.
pub open spec fn tag_hit(p: PatchProposal, approved: bool) -> bool {
    (approved && p.status == PatchStatus::Approved) || (!approved && p.status
        == PatchStatus::PendingApproval)
}

/// Replacing one proposal changes the size of a status list by the difference
/// of the two proposals' membership.
pub proof fn lemma_tag_len_update(s: Seq<PatchProposal>, k: int, x: PatchProposal, approved: bool)
    requires
        0 <= k < s.len(),
    ensures
        with_status_tag(s.update(k, x), approved).len() + (if tag_hit(s[k], approved) {
            1int
        } else {
            0int
        }) == with_status_tag(s, approved).len() + (if tag_hit(x, approved) {
            1int
        } else {
            0int
        }),
    decreases s.len(),
{
    let u = s.update(k, x);
    if k == s.len() - 1 {
        assert(u.drop_last() =~= s.drop_last());
    } else {
        assert(u.drop_last() =~= s.drop_last().update(k, x));
        lemma_tag_len_update(s.drop_last(), k, x, approved);
    }
}

/// The approval workflow: approving a pending proposal moves it from the
/// pending list to the approved list; deploying, failing or rejecting an
/// approved proposal takes it off the approved list; rejecting a pending
/// proposal takes it off the pending list without approving it.
#[verifier::rlimit(40)]
pub proof fn lemma_patch_workflow(s: Seq<PatchProposal>, id: u128)
    requires
        first_with_id(s, id) is Some,
    ensures
        ({
            let k = first_with_id(s, id)->0;
            let approved = set_status(s, id, PatchStatus::Approved);
            let rejected = set_status(s, id, PatchStatus::Rejected);
            let deployed = set_status(s, id, PatchStatus::Deployed);
            &&& s[k].status == PatchStatus::PendingApproval ==> {
                &&& with_status_tag(approved, false).len() + 1 == with_status_tag(s, false).len()
                &&& with_status_tag(approved, true).len() == with_status_tag(s, true).len() + 1
                &&& with_status_tag(rejected, false).len() + 1 == with_status_tag(s, false).len()
                &&& with_status_tag(rejected, true).len() == with_status_tag(s, true).len()
            }
            &&& s[k].status == PatchStatus::Approved ==> {
                &&& with_status_tag(deployed, true).len() + 1 == with_status_tag(s, true).len()
                &&& with_status_tag(deployed, false).len() == with_status_tag(s, false).len()
            }
            &&& approved[k].status == PatchStatus::Approved
            &&& approved[k].id == id
        }),
{
    let k = first_with_id(s, id)->0;
    lemma_first_with_id_props(s, id);
    let pa = PatchProposal { status: PatchStatus::Approved, ..s[k] };
    let pr = PatchProposal { status: PatchStatus::Rejected, ..s[k] };
    let pd = PatchProposal { status: PatchStatus::Deployed, ..s[k] };
    lemma_tag_len_update(s, k, pa, true);
    lemma_tag_len_update(s, k, pa, false);
    lemma_tag_len_update(s, k, pr, true);
    lemma_tag_len_update(s, k, pr, false);
    lemma_tag_len_update(s, k, pd, true);
    lemma_tag_len_update(s, k, pd, false);
}


/// Settings of the kernel orchestrator.
#[derive(Debug)]
pub struct KernelOrchestratorConfig {
    pub enabled: bool,
    pub interval: std::time::Duration,
    pub auto_approve: bool,
    pub auto_deploy: bool,
}

/// The text before the first tool name in the probe stub.
pub const STUB_HEAD: &'static str = "\nfn run_inner(input_ptr: *const u8, input_len: usize) -> Result<String, String> {\n    let input = if input_ptr.is_null() || input_len == 0 {\n        String::new()\n    } else {\n        unsafe {\n            let slice = std::slice::from_raw_parts(input_ptr, input_len);\n            String::from_utf8(slice.to_vec()).map_err(|e| e.to_string())?\n        }\n    };\n    log_info(\"kernel patch probe for ";
/// The text between the two tool names in the probe stub.
pub const STUB_MIDDLE: &'static str = "\");\n    Ok(serde_json::json!({\n        \"tool\": \"";
/// The text after the second tool name in the probe stub.
pub const STUB_TAIL: &'static str = "\",\n        \"optimized\": true,\n        \"input_len\": input.len()\n    }).to_string())\n}\n";

/// A fresh random proposal id: `uuid::Uuid::new_v4()` taken as its 128-bit
/// value. Nothing is stated of the value, which is random.
#[verifier::external_body]
fn fresh_patch_id() -> (id: u128) {
    uuid::Uuid::new_v4().as_u128()
}

/// The IEEE-754 bits of the expected speedup `1.15` of a generated patch.
pub const DEFAULT_SPEEDUP_BITS: u64 = 0x3FF2666666666666;

/// The probe program generated for a slow tool.
pub open spec fn patch_stub(tool_name: Seq<char>) -> Seq<char> {
    STUB_HEAD@ + tool_name + STUB_MIDDLE@ + tool_name + STUB_TAIL@
}

/// The probe program generated for a slow tool.
pub fn generated_patch_stub(tool_name: &str) -> (s: String)
    ensures
        s@ == patch_stub(tool_name@),
{
    let mut s = string_of(STUB_HEAD);
    push_str(&mut s, tool_name);
    push_str(&mut s, STUB_MIDDLE);
    push_str(&mut s, tool_name);
    push_str(&mut s, STUB_TAIL);
    s
}

/// The ids of the proposals.
pub open spec fn ids_of(s: Seq<PatchProposal>) -> Seq<u128> {
    s.map_values(|p: PatchProposal| p.id)
}

/// The proposals after approving, in order, the first proposal of each id.
pub open spec fn approve_each(s: Seq<PatchProposal>, ids: Seq<u128>) -> Seq<PatchProposal>
    decreases ids.len(),
{
    if ids.len() == 0 {
        s
    } else {
        set_status(approve_each(s, ids.drop_last()), ids.last(), PatchStatus::Approved)
    }
}

/// Whether and how a patch can be deployed.
#[derive(Debug)]
pub enum DeployCheck {
    /// No proposal has this id.
    NotFound,
    /// The proposal is not approved; its current status.
    NotApproved(PatchStatus),
    /// The approved proposal, ready to deploy.
    Ready(PatchProposal),
}

/// Runs the kernel monitor's detection and approval cycle.
pub struct KernelOrchestrator {
    pub config: KernelOrchestratorConfig,
    pub monitor: KernelMonitor,
}

impl KernelOrchestrator {
    /// An orchestrator over a monitor.
    pub fn new(config: KernelOrchestratorConfig, monitor: KernelMonitor) -> (o: Self)
        ensures
            o.config == config,
            o.monitor == monitor,
    {
        KernelOrchestrator { config, monitor }
    }

    /// Whether the orchestrator runs at all.
    pub fn enabled(&self) -> (b: bool)
        ensures
            b == self.config.enabled,
    {
        self.config.enabled
    }

    /// How often the cycle runs.
    pub fn interval(&self) -> (d: std::time::Duration)
        ensures
            d == self.config.interval,
    {
        self.config.interval
    }

    /// Records a tool execution when the orchestrator is enabled.
    pub fn record_tool_execution(
        &mut self,
        tool_name: &str,
        duration_nanos: u128,
        success: bool,
        now_nanos: u128,
    )
        requires
            old(self).monitor.wf(),
            duration_nanos <= MAX_DURATION_NANOS,
        ensures
            final(self).monitor.wf(),
            final(self).config == old(self).config,
            !old(self).config.enabled ==> final(self).monitor == old(self).monitor,
            old(self).config.enabled ==> final(self).monitor.window_view(tool_name@)
                == trim_window_view(
                old(self).monitor.window_view(tool_name@).push(
                    (tool_name@, duration_nanos, success, now_nanos),
                ),
                100,
            ),
            forall|n: Seq<char>|
                n != tool_name@ ==> final(self).monitor.window(n) == old(self).monitor.window(n),
            final(self).monitor.patches() == old(self).monitor.patches(),
    {
        if self.config.enabled {
            self.monitor.record_execution(tool_name, duration_nanos, success, now_nanos);
        }
    }

    /// The slow tools that need a new proposal this cycle (none when disabled):
    /// bottlenecks, slowest first, without a pending or approved proposal.
    pub fn tick_candidates(&self) -> (c: Vec<ToolPerfStats>)
        requires
            self.monitor.wf(),
        ensures
            !self.config.enabled ==> c@.len() == 0,
            forall|i: int|
                0 <= i < c@.len() ==> {
                    let t = (#[trigger] c@[i]).tool_name@;
                    &&& self.monitor.tools().contains(t)
                    &&& perf_matches(c@[i], t, self.monitor.window(t))
                    &&& window_slow(
                        self.monitor.window(t),
                        self.monitor.min_sample_count(),
                        self.monitor.threshold_ms(),
                    )
                    &&& !has_open_proposal(self.monitor.patches(), t)
                },
            self.config.enabled ==> forall|t: Seq<char>|
                #![trigger self.monitor.window(t)]
                self.monitor.tools().contains(t) && window_slow(
                    self.monitor.window(t),
                    self.monitor.min_sample_count(),
                    self.monitor.threshold_ms(),
                ) && !has_open_proposal(self.monitor.patches(), t) ==> exists|i: int|
                    0 <= i < c@.len() && c@[i].tool_name@ == t,
            forall|i: int, j: int|
                0 <= i < j < c@.len() ==> c@[i].tool_name@ != c@[j].tool_name@,
            forall|i: int, j: int|
                0 <= i < j < c@.len() ==> avg_at_least(c@[i], c@[j]),
    {
        let mut c: Vec<ToolPerfStats> = Vec::new();
        if !self.config.enabled {
            return c;
        }
        let slow = self.monitor.detect_bottlenecks();
        let ghost mut idx: Seq<int> = Seq::empty();
        let mut i: usize = 0;
        while i < slow.len()
            invariant
                self.monitor.wf(),
                i <= slow@.len(),
                forall|a: int, b: int|
                    0 <= a < b < slow@.len() ==> slow@[a].tool_name@ != slow@[b].tool_name@,
                forall|a: int, b: int|
                    0 <= a < b < slow@.len() ==> avg_at_least(slow@[a], slow@[b]),
                idx.len() == c@.len(),
                forall|k: int|
                    0 <= k < idx.len() ==> 0 <= #[trigger] idx[k] < i && same_stats(
                        c@[k],
                        slow@[idx[k]],
                    ),
                forall|k1: int, k2: int| 0 <= k1 < k2 < idx.len() ==> idx[k1] < idx[k2],
                forall|j: int|
                    0 <= j < slow@.len() ==> {
                        let t = (#[trigger] slow@[j]).tool_name@;
                        &&& self.monitor.tools().contains(t)
                        &&& perf_matches(slow@[j], t, self.monitor.window(t))
                        &&& window_slow(
                            self.monitor.window(t),
                            self.monitor.min_sample_count(),
                            self.monitor.threshold_ms(),
                        )
                    },
                forall|j: int|
                    0 <= j < c@.len() ==> {
                        let t = (#[trigger] c@[j]).tool_name@;
                        &&& self.monitor.tools().contains(t)
                        &&& perf_matches(c@[j], t, self.monitor.window(t))
                        &&& window_slow(
                            self.monitor.window(t),
                            self.monitor.min_sample_count(),
                            self.monitor.threshold_ms(),
                        )
                        &&& !has_open_proposal(self.monitor.patches(), t)
                    },
                forall|j: int|
                    0 <= j < i && !has_open_proposal(
                        self.monitor.patches(),
                        #[trigger] slow@[j].tool_name@,
                    ) ==> exists|k: int| 0 <= k < c@.len() && c@[k].tool_name@ == slow@[j].tool_name@,
            decreases slow@.len() - i,
        {
            let st = &slow[i];
            if !self.monitor.has_open_proposal_for_tool(st.tool_name.as_str()) {
                let ghost before = c@;
                c.push(ToolPerfStats {
                    tool_name: st.tool_name.clone(),
                    total_executions: st.total_executions,
                    total_failures: st.total_failures,
                    total_duration_nanos: st.total_duration_nanos,
                    p95_duration_nanos: st.p95_duration_nanos,
                    max_duration_nanos: st.max_duration_nanos,
                });
                proof {
                    idx = idx.push(i as int);
                    assert(same_stats(c@[before.len() as int], slow@[i as int]));
                    assert forall|j: int|
                        0 <= j < i + 1 && !has_open_proposal(
                            self.monitor.patches(),
                            #[trigger] slow@[j].tool_name@,
                        ) implies exists|k: int|
                        0 <= k < c@.len() && c@[k].tool_name@ == slow@[j].tool_name@ by {
                        if j < i {
                            let k = choose|k: int|
                                0 <= k < before.len() && before[k].tool_name@ == slow@[j].tool_name@;
                            assert(c@[k] == before[k]);
                        } else {
                            assert(c@[before.len() as int].tool_name@ == slow@[j].tool_name@);
                        }
                    }
                }
            }
            i = i + 1;
        }
        assert forall|a: int, b: int|
            #![trigger c@[a], c@[b]]
            0 <= a < b < c@.len() implies c@[a].tool_name@ != c@[b].tool_name@ && avg_at_least(
                c@[a],
                c@[b],
            ) by {
            assert(idx[a] < idx[b]);
            assert(same_stats(c@[a], slow@[idx[a]]));
            assert(same_stats(c@[b], slow@[idx[b]]));
            let (x, y) = (idx[a], idx[b]);
            assert(0 <= x < y < slow@.len());
            assert(slow@[x].tool_name@ != slow@[y].tool_name@);
            assert(avg_at_least(slow@[x], slow@[y]));
        }
        c
    }

    /// A pending proposal for a slow tool under a fresh random id.
    pub fn make_proposal(stats: &ToolPerfStats, reason: String) -> (p: PatchProposal)
        ensures
            p.tool_name@ == stats.tool_name@,
            p.reason == reason,
            p.proposed_rust_code@ == patch_stub(stats.tool_name@),
            p.expected_speedup_bits == DEFAULT_SPEEDUP_BITS,
            p.status == PatchStatus::PendingApproval,
    {
        let id = fresh_patch_id();
        Self::proposal_with_id(stats, id, reason)
    }

    /// A pending proposal for a slow tool, with the probe program as its code.
    pub fn proposal_with_id(stats: &ToolPerfStats, id: u128, reason: String) -> (p: PatchProposal)
        ensures
            p.id == id,
            p.tool_name@ == stats.tool_name@,
            p.reason == reason,
            p.proposed_rust_code@ == patch_stub(stats.tool_name@),
            p.expected_speedup_bits == DEFAULT_SPEEDUP_BITS,
            p.status == PatchStatus::PendingApproval,
    {
        PatchProposal {
            id,
            tool_name: stats.tool_name.clone(),
            reason,
            proposed_rust_code: generated_patch_stub(stats.tool_name.as_str()),
            expected_speedup_bits: DEFAULT_SPEEDUP_BITS,
            status: PatchStatus::PendingApproval,
        }
    }

    /// Submits this cycle's proposals, approves every pending proposal when
    /// auto-approval is on, and returns the approved proposals to deploy when
    /// auto-deployment is on (none otherwise).
    pub fn tick_apply(&mut self, proposals: Vec<PatchProposal>) -> (to_deploy: Vec<PatchProposal>)
        requires
            old(self).monitor.wf(),
        ensures
            final(self).monitor.wf(),
            final(self).config == old(self).config,
            final(self).monitor.tools() == old(self).monitor.tools(),
            !old(self).config.auto_approve ==> final(self).monitor.patches()
                == old(self).monitor.patches() + proposals@,
            old(self).config.auto_approve ==> final(self).monitor.patches() == approve_each(
                old(self).monitor.patches() + proposals@,
                ids_of(with_status_tag(old(self).monitor.patches() + proposals@, false)),
            ),
            old(self).config.auto_deploy ==> to_deploy@ == with_status_tag(
                final(self).monitor.patches(),
                true,
            ),
            !old(self).config.auto_deploy ==> to_deploy@.len() == 0,
    {
        let mut ps = proposals;
        let ghost all = ps@;
        let ghost start = self.monitor.patches();
        let mut i: usize = 0;
        while i < ps.len()
            invariant
                self.monitor.wf(),
                ps@ == all,
                i <= all.len(),
                self.monitor.patches() == start + all.take(i as int),
                self.monitor.tools() == old(self).monitor.tools(),
                self.config == old(self).config,
            decreases all.len() - i,
        {
            let p = ps[i].clone();
            self.monitor.propose_patch(p);
            i = i + 1;
            assert(start + all.take(i as int) =~= (start + all.take(i - 1)).push(all[i - 1]));
        }
        assert(all.take(all.len() as int) =~= all);
        if self.config.auto_approve {
            self.approve_all_pending();
        }
        if self.config.auto_deploy {
            self.monitor.get_approved_patches()
        } else {
            Vec::new()
        }
    }

    /// Approves, in order, the proposals whose ids are those of the pending ones.
    fn approve_all_pending(&mut self)
        requires
            old(self).monitor.wf(),
        ensures
            final(self).monitor.wf(),
            final(self).config == old(self).config,
            final(self).monitor.tools() == old(self).monitor.tools(),
            final(self).monitor.patches() == approve_each(
                old(self).monitor.patches(),
                ids_of(with_status_tag(old(self).monitor.patches(), false)),
            ),
    {
        let pending = self.monitor.list_pending_patches();
        let ghost ids = ids_of(pending@);
        let ghost start = self.monitor.patches();
        let mut i: usize = 0;
        while i < pending.len()
            invariant
                self.monitor.wf(),
                self.config == old(self).config,
                self.monitor.tools() == old(self).monitor.tools(),
                ids == ids_of(pending@),
                i <= pending@.len(),
                self.monitor.patches() == approve_each(start, ids.take(i as int)),
            decreases pending@.len() - i,
        {
            let id = pending[i].id;
            let _ = self.monitor.approve_patch(id);
            assert(ids.take(i + 1).drop_last() =~= ids.take(i as int));
            i = i + 1;
        }
        assert(ids.take(ids.len() as int) =~= ids);
    }

    /// Records how a deployment of the patch ended: deployed on success,
    /// failed with the error otherwise. Returns whether the patch was found.
    pub fn finish_deploy(&mut self, patch_id: u128, outcome: Result<(), String>) -> (found: bool)
        requires
            old(self).monitor.wf(),
        ensures
            final(self).monitor.wf(),
            final(self).config == old(self).config,
            final(self).monitor.tools() == old(self).monitor.tools(),
            found == (first_with_id(old(self).monitor.patches(), patch_id) is Some),
            final(self).monitor.patches() == set_status(
                old(self).monitor.patches(),
                patch_id,
                match outcome {
                    Ok(_) => PatchStatus::Deployed,
                    Err(e) => PatchStatus::Failed(e),
                },
            ),
    {
        match outcome {
            Ok(()) => self.monitor.mark_deployed(patch_id),
            Err(e) => self.monitor.mark_failed(patch_id, e),
        }
    }

    /// Whether the patch with this id can be deployed.
    pub fn check_deployable(&self, patch_id: u128) -> (r: DeployCheck)
        ensures
            match first_with_id(self.monitor.patches(), patch_id) {
                None => r is NotFound,
                Some(k) => if self.monitor.patches()[k].status == PatchStatus::Approved {
                    r == DeployCheck::Ready(self.monitor.patches()[k])
                } else {
                    r == DeployCheck::NotApproved(self.monitor.patches()[k].status)
                },
            },
    {
        match self.monitor.get_patch(patch_id) {
            None => DeployCheck::NotFound,
            Some(p) => {
                let approved = match &p.status {
                    PatchStatus::Approved => true,
                    _ => false,
                };
                if approved {
                    DeployCheck::Ready(p)
                } else {
                    DeployCheck::NotApproved(p.status)
                }
            },
        }
    }
}

} // verus!
