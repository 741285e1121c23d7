//! Tool reliability: the counts, latency percentiles and circuit-breaker
//! state of a tool over a recent window of execution attempts.
//!
//! Times are milliseconds since the epoch.
use vstd::prelude::*;
use crate::autonomy::{ExecutionAttemptStatus, PolicyDecisionKind};
use crate::text::{
    chars_eq, chars_eq_str, lemma_lex_lt_asymmetric, lemma_lex_lt_irreflexive, lemma_lex_lt_total,
    lemma_lex_lt_transitive, lex_lt, lex_lt_exec, string_of, to_chars,
};

verus! {

/// The state of a tool's circuit breaker.
#[derive(Debug, Clone, Copy, PartialEq, Eq, Structural)]
pub enum CircuitBreakerState {
    Closed,
    Open,
    HalfOpen,
}

/// Whether a tool's breaker blocks it now: it is open and its cooldown (if
/// any) has not passed.
pub fn profile_breaker_is_open(state: CircuitBreakerState, cooldown_until_ms: Option<i64>, now_ms: i64) -> (b: bool)
    ensures
        b == (state == CircuitBreakerState::Open && match cooldown_until_ms {
            Some(t) => t > now_ms,
            None => true,
        }),
{
    match state {
        CircuitBreakerState::Open => match cooldown_until_ms {
            Some(t) => t > now_ms,
            None => true,
        },
        _ => false,
    }
}

/// Windows and thresholds of the reliability computation (milliseconds).
#[derive(Debug, Clone, Copy)]
pub struct ToolReliabilityConfig {
    pub window_ms: i64,
    pub min_samples_for_confidence: i64,
    pub breaker_open_failures: i64,
    pub breaker_open_window_ms: i64,
    pub breaker_cooldown_ms: i64,
}

impl Default for ToolReliabilityConfig {
    /// A day of history; five samples for confidence; three transient
    /// failures within ten minutes open the breaker for five minutes.
    fn default() -> (c: Self)
        ensures
            c.window_ms == 86_400_000,
            c.min_samples_for_confidence == 5,
            c.breaker_open_failures == 3,
            c.breaker_open_window_ms == 600_000,
            c.breaker_cooldown_ms == 300_000,
    {
        ToolReliabilityConfig {
            window_ms: 86_400_000,
            min_samples_for_confidence: 5,
            breaker_open_failures: 3,
            breaker_open_window_ms: 600_000,
            breaker_cooldown_ms: 300_000,
        }
    }
}

/// A failure class that counts as transient for the breaker.
pub open spec fn weighted_transient(c: Option<Seq<char>>) -> bool {
    match c {
        Some(x) => x == "tool_timeout"@ || x == "tool_execution"@ || x == "channel"@ || x
            == "orchestrator"@ || x == "worker"@ || x == "database"@,
        None => false,
    }
}

/// Whether a failure class counts as transient for the breaker.
pub fn failure_class_weighted_transient(failure_class: Option<&str>) -> (b: bool)
    ensures
        b == weighted_transient(
            match failure_class {
                Some(x) => Some(x@),
                None => None,
            },
        ),
{
    match failure_class {
        None => false,
        Some(x) => {
            let v = to_chars(x);
            let s = v.as_slice();
            chars_eq_str(s, "tool_timeout") || chars_eq_str(s, "tool_execution") || chars_eq_str(
                s,
                "channel",
            ) || chars_eq_str(s, "orchestrator") || chars_eq_str(s, "worker") || chars_eq_str(
                s,
                "database",
            )
        },
    }
}

/// One recorded execution attempt, as far as reliability reads it.
#[derive(Debug)]
pub struct AttemptFacts {
    pub tool_name: String,
    pub status: ExecutionAttemptStatus,
    pub failure_class: Option<String>,
    pub started_at_ms: i64,
    pub elapsed_ms: Option<i64>,
}

/// The view of an optional text.
pub open spec fn opt_view(o: Option<String>) -> Option<Seq<char>> {
    match o {
        Some(s) => Some(s@),
        None => None,
    }
}

/// The attempts of the tool within the window, in order.
pub open spec fn select_attempts(s: Seq<AttemptFacts>, tool: Seq<char>, start: int) -> Seq<AttemptFacts>
    decreases s.len(),
{
    if s.len() == 0 {
        Seq::<AttemptFacts>::empty()
    } else {
        let p = select_attempts(s.drop_last(), tool, start);
        if s.last().tool_name@ == tool && s.last().started_at_ms >= start {
            p.push(s.last())
        } else {
            p
        }
    }
}

/// What an attempt is counted for.
#[derive(Debug, Clone, Copy, PartialEq, Eq, Structural)]
pub enum AttemptKind {
    /// Succeeded.
    Success,
    /// Failed or timed out.
    Failure,
    /// Timed out, or failed with class `tool_timeout`.
    TimedOut,
    /// Blocked.
    Blocked,
    /// Failed, timed out or blocked.
    FailureLike,
    /// Failure-like, started at or after the given time, and timed out or of
    /// a transient class.
    TransientSince,
    /// Succeeded after (strictly) the given time.
    SuccessAfter,
}

/// A failed, timed-out or blocked attempt.
pub open spec fn is_failure_like(a: AttemptFacts) -> bool {
    a.status == ExecutionAttemptStatus::Failed || a.status == ExecutionAttemptStatus::Timeout
        || a.status == ExecutionAttemptStatus::Blocked
}

/// Whether an attempt is of a kind (`t` is the time the kind refers to).
pub open spec fn is_kind(a: AttemptFacts, k: AttemptKind, t: int) -> bool {
    match k {
        AttemptKind::Success => a.status == ExecutionAttemptStatus::Succeeded,
        AttemptKind::Failure => a.status == ExecutionAttemptStatus::Failed || a.status
            == ExecutionAttemptStatus::Timeout,
        AttemptKind::TimedOut => a.status == ExecutionAttemptStatus::Timeout || (a.status
            == ExecutionAttemptStatus::Failed && opt_view(a.failure_class) == Some("tool_timeout"@)),
        AttemptKind::Blocked => a.status == ExecutionAttemptStatus::Blocked,
        AttemptKind::FailureLike => is_failure_like(a),
        AttemptKind::TransientSince => a.started_at_ms >= t && is_failure_like(a) && (a.status
            == ExecutionAttemptStatus::Timeout || weighted_transient(opt_view(a.failure_class))),
        AttemptKind::SuccessAfter => a.status == ExecutionAttemptStatus::Succeeded
            && a.started_at_ms > t,
    }
}

/// The number of attempts of a kind.
pub open spec fn count_kind(s: Seq<AttemptFacts>, k: AttemptKind, t: int) -> int
    decreases s.len(),
{
    if s.len() == 0 {
        0
    } else {
        count_kind(s.drop_last(), k, t) + if is_kind(s.last(), k, t) {
            1int
        } else {
            0int
        }
    }
}

/// The latest start among the attempts of a kind.
pub open spec fn latest_kind(s: Seq<AttemptFacts>, k: AttemptKind) -> Option<i64>
    decreases s.len(),
{
    if s.len() == 0 {
        None
    } else {
        let p = latest_kind(s.drop_last(), k);
        if is_kind(s.last(), k, 0) {
            match p {
                Some(t) => if t >= s.last().started_at_ms {
                    Some(t)
                } else {
                    Some(s.last().started_at_ms)
                },
                None => Some(s.last().started_at_ms),
            }
        } else {
            p
        }
    }
}

/// The known, non-negative latencies, in order.
pub open spec fn latencies_of(s: Seq<AttemptFacts>) -> Seq<i64>
    decreases s.len(),
{
    if s.len() == 0 {
        Seq::<i64>::empty()
    } else {
        let p = latencies_of(s.drop_last());
        match s.last().elapsed_ms {
            Some(e) => if e >= 0 {
                p.push(e)
            } else {
                p
            },
            None => p,
        }
    }
}

/// `<=` on `i64`.
pub open spec fn le_i64(a: i64, b: i64) -> bool {
    a <= b
}

/// The latencies in ascending order.
pub open spec fn sorted_i64s(s: Seq<i64>) -> Seq<i64> {
    s.sort_by(|a: i64, b: i64| le_i64(a, b))
}

/// The value at the `pct` percentile of sorted samples: the one at position
/// `(len - 1) * pct / 100`, rounded half up; none without samples.
pub open spec fn percentile_spec(sorted: Seq<i64>, pct: int) -> Option<i64> {
    if sorted.len() == 0 {
        None
    } else {
        Some(sorted[(2 * (sorted.len() - 1) * pct + 100) / 200])
    }
}

/// The value at the `pct` percentile of sorted samples (`pct` at most 100).
/// The position is `((len - 1) as f64 * pct / 100).round()`, which for the
/// percentiles used (50 and 95) is the same integer for every length up to
/// 2^52.
pub fn percentile(sorted: &[i64], pct: u64) -> (r: Option<i64>)
    requires
        pct <= 100,
        sorted@.len() <= 0x10_0000_0000_0000,
    ensures
        r == percentile_spec(sorted@, pct as int),
{
    if sorted.len() == 0 {
        return None;
    }
    let m = (sorted.len() - 1) as u64;
    assert(2 * m * pct + 100 <= 0xffff_ffff_ffff_ffff) by (nonlinear_arith)
        requires
            m < 0x10_0000_0000_0000,
            pct <= 100,
    ;
    assert((2 * m * pct + 100) / 200 <= m) by (nonlinear_arith)
        requires
            pct <= 100,
            m >= 0,
    ;
    let idx = ((2 * m * pct + 100) / 200) as usize;
    Some(sorted[idx])
}

/// Sorts latencies in ascending order.
pub fn sort_i64(v: Vec<i64>) -> (r: Vec<i64>)
    ensures
        r@ == sorted_i64s(v@),
        r@.len() == v@.len(),
{
    broadcast use vstd::seq_lib::group_to_multiset_ensures;
    let mut r: Vec<i64> = Vec::new();
    let mut i: usize = 0;
    while i < v.len()
        invariant
            i <= v.len(),
            forall|a: int, b: int| 0 <= a < b < r@.len() ==> r@[a] <= r@[b],
            r@.to_multiset() == v@.take(i as int).to_multiset(),
        decreases v.len() - i,
    {
        let x = v[i];
        let mut j: usize = 0;
        while j < r.len() && r[j] <= x
            invariant
                i < v.len(),
                x == v@[i as int],
                forall|a: int, b: int| 0 <= a < b < r@.len() ==> r@[a] <= r@[b],
                r@.to_multiset() == v@.take(i as int).to_multiset(),
                j <= r@.len(),
                forall|k: int| 0 <= k < j ==> r@[k] <= x,
            decreases r@.len() - j,
        {
            j = j + 1;
        }
        let ghost old_r = r@;
        r.insert(j, x);
        proof {
            assert(r@ =~= old_r.insert(j as int, x));
            assert forall|a: int, b: int| 0 <= a < b < r@.len() implies r@[a] <= r@[b] by {
                if b < j {
                    assert(r@[a] == old_r[a] && r@[b] == old_r[b]);
                } else if b == j {
                    assert(r@[a] == old_r[a]);
                } else if a < j {
                    assert(r@[a] == old_r[a] && r@[b] == old_r[b - 1]);
                    assert(j < old_r.len() ==> old_r[j as int] > x);
                    assert(old_r[j as int] <= old_r[b - 1] || j as int == b - 1);
                } else if a == j {
                    assert(r@[b] == old_r[b - 1]);
                    assert(old_r[j as int] > x);
                    assert(old_r[j as int] <= old_r[b - 1] || j as int == b - 1);
                } else {
                    assert(r@[a] == old_r[a - 1] && r@[b] == old_r[b - 1]);
                }
            }
            vstd::seq_lib::to_multiset_insert(old_r, j as int, x);
            assert(v@.take(i + 1) =~= v@.take(i as int).push(x));
            vstd::seq_lib::to_multiset_build(v@.take(i as int), x);
        }
        i = i + 1;
    }
    assert(v@.take(v@.len() as int) =~= v@);
    proof {
        let le = |a: i64, b: i64| le_i64(a, b);
        assert(vstd::relations::total_ordering(le));
        assert(vstd::relations::sorted_by(r@, le));
        v@.lemma_sort_by_ensures(le);
        vstd::seq_lib::lemma_sorted_unique(r@, sorted_i64s(v@), le);
        assert(r@.len() == r@.to_multiset().len());
        assert(v@.len() == v@.to_multiset().len());
    }
    r
}

impl Clone for AttemptFacts {
    fn clone(&self) -> (r: Self)
        ensures
            r == *self,
    {
        AttemptFacts {
            tool_name: self.tool_name.clone(),
            status: self.status,
            failure_class: match &self.failure_class {
                Some(c) => Some(c.clone()),
                None => None,
            },
            started_at_ms: self.started_at_ms,
            elapsed_ms: self.elapsed_ms,
        }
    }
}

/// One recorded incident, as far as reliability reads it.
#[derive(Debug)]
pub struct IncidentFacts {
    pub tool_name: Option<String>,
    pub status: String,
    pub last_seen_at_ms: Option<i64>,
    pub first_seen_at_ms: Option<i64>,
    pub created_at_ms: i64,
}

/// When an incident was last observed: last seen, else first seen, else
/// created.
pub open spec fn observed_at(i: IncidentFacts) -> i64 {
    match i.last_seen_at_ms {
        Some(t) => t,
        None => match i.first_seen_at_ms {
            Some(t) => t,
            None => i.created_at_ms,
        },
    }
}

/// An unresolved incident of the tool observed within the window.
pub open spec fn open_incident(i: IncidentFacts, tool: Seq<char>, start: int) -> bool {
    opt_view(i.tool_name) == Some(tool) && observed_at(i) >= start && i.status@ != "resolved"@
        && i.status@ != "ignored"@
}

/// The number of unresolved incidents of the tool within the window.
pub open spec fn count_open_incidents(s: Seq<IncidentFacts>, tool: Seq<char>, start: int) -> int
    decreases s.len(),
{
    if s.len() == 0 {
        0
    } else {
        count_open_incidents(s.drop_last(), tool, start) + if open_incident(s.last(), tool, start) {
            1int
        } else {
            0int
        }
    }
}

/// One recorded policy decision, as far as reliability reads it.
#[derive(Debug)]
pub struct PolicyFacts {
    pub tool_name: Option<String>,
    pub decision: PolicyDecisionKind,
    pub created_at_ms: i64,
}

/// A decision about the tool within the window, of the given class: any
/// (0), deny-like (1: deny or more evidence), approval (2).
pub open spec fn policy_of(p: PolicyFacts, tool: Seq<char>, start: int, class: int) -> bool {
    opt_view(p.tool_name) == Some(tool) && p.created_at_ms >= start && (class == 0 || (class == 1 && (
    p.decision == PolicyDecisionKind::Deny || p.decision == PolicyDecisionKind::RequireMoreEvidence))
        || (class == 2 && p.decision == PolicyDecisionKind::RequireApproval))
}

/// The number of decisions about the tool within the window, of a class.
pub open spec fn count_policies(s: Seq<PolicyFacts>, tool: Seq<char>, start: int, class: int) -> int
    decreases s.len(),
{
    if s.len() == 0 {
        0
    } else {
        count_policies(s.drop_last(), tool, start, class) + if policy_of(s.last(), tool, start, class) {
            1int
        } else {
            0int
        }
    }
}

/// The integer part of a tool's reliability profile; the scores are computed
/// from it.
#[derive(Debug, Clone, Copy, PartialEq, Eq)]
pub struct ReliabilityCounts {
    pub window_start_ms: i64,
    pub sample_count: i64,
    pub success_count: i64,
    pub failure_count: i64,
    pub timeout_count: i64,
    pub blocked_count: i64,
    pub p50_latency_ms: Option<i64>,
    pub p95_latency_ms: Option<i64>,
    pub recent_incident_count: i64,
    pub last_failure_at_ms: Option<i64>,
    pub last_success_at_ms: Option<i64>,
    pub transient_failures_recent: i64,
    pub breaker_state: CircuitBreakerState,
    pub cooldown_until_ms: Option<i64>,
    pub policy_total: i64,
    pub policy_deny_like: i64,
    pub policy_approval_like: i64,
}

/// The breaker after a recompute: open (until the cooldown ends) when enough
/// recent transient failures came with no success after the last failure;
/// half open when it was open and its cooldown has passed; closed otherwise.
pub open spec fn breaker_spec(
    transient: int,
    open_failures: int,
    success_after: bool,
    previous: Option<(CircuitBreakerState, Option<i64>)>,
    now: int,
    cooldown: int,
) -> (CircuitBreakerState, Option<i64>) {
    if transient >= open_failures && !success_after {
        (CircuitBreakerState::Open, Some((now + cooldown) as i64))
    } else {
        match previous {
            Some((st, cd)) => if st == CircuitBreakerState::Open && (cd matches Some(c) && c <= now) {
                (CircuitBreakerState::HalfOpen, None)
            } else {
                (CircuitBreakerState::Closed, None)
            },
            None => (CircuitBreakerState::Closed, None),
        }
    }
}

/// The integer part of the tool's profile at `now`; none when the tool has
/// no attempt in the window and no legacy failures.
pub open spec fn counts_spec(
    tool: Seq<char>,
    now: i64,
    attempts: Seq<AttemptFacts>,
    policies: Seq<PolicyFacts>,
    incidents: Seq<IncidentFacts>,
    previous: Option<(CircuitBreakerState, Option<i64>)>,
    legacy_failure_count: i64,
    c: ToolReliabilityConfig,
) -> Option<ReliabilityCounts> {
    let start = now - c.window_ms;
    let sel = select_attempts(attempts, tool, start);
    if sel.len() == 0 && legacy_failure_count <= 0 {
        None
    } else {
        let last_failure = latest_kind(sel, AttemptKind::FailureLike);
        let transient = count_kind(sel, AttemptKind::TransientSince, now - c.breaker_open_window_ms);
        let success_after = match last_failure {
            Some(t) => count_kind(sel, AttemptKind::SuccessAfter, t as int) > 0,
            None => false,
        };
        let lat = sorted_i64s(latencies_of(sel));
        let br = breaker_spec(
            transient,
            c.breaker_open_failures as int,
            success_after,
            previous,
            now as int,
            c.breaker_cooldown_ms as int,
        );
        Some(
            ReliabilityCounts {
                window_start_ms: start as i64,
                sample_count: sel.len() as i64,
                success_count: count_kind(sel, AttemptKind::Success, 0) as i64,
                failure_count: count_kind(sel, AttemptKind::Failure, 0) as i64,
                timeout_count: count_kind(sel, AttemptKind::TimedOut, 0) as i64,
                blocked_count: count_kind(sel, AttemptKind::Blocked, 0) as i64,
                p50_latency_ms: percentile_spec(lat, 50),
                p95_latency_ms: percentile_spec(lat, 95),
                recent_incident_count: count_open_incidents(incidents, tool, start) as i64,
                last_failure_at_ms: last_failure,
                last_success_at_ms: latest_kind(sel, AttemptKind::Success),
                transient_failures_recent: transient as i64,
                breaker_state: br.0,
                cooldown_until_ms: br.1,
                policy_total: count_policies(policies, tool, start, 0) as i64,
                policy_deny_like: count_policies(policies, tool, start, 1) as i64,
                policy_approval_like: count_policies(policies, tool, start, 2) as i64,
            },
        )
    }
}

proof fn lemma_count_kind_bound(s: Seq<AttemptFacts>, k: AttemptKind, t: int)
    ensures
        0 <= count_kind(s, k, t) <= s.len(),
    decreases s.len(),
{
    if s.len() > 0 {
        lemma_count_kind_bound(s.drop_last(), k, t);
    }
}

proof fn lemma_select_bound(s: Seq<AttemptFacts>, tool: Seq<char>, start: int)
    ensures
        select_attempts(s, tool, start).len() <= s.len(),
    decreases s.len(),
{
    if s.len() > 0 {
        lemma_select_bound(s.drop_last(), tool, start);
    }
}

proof fn lemma_latencies_bound(s: Seq<AttemptFacts>)
    ensures
        latencies_of(s).len() <= s.len(),
    decreases s.len(),
{
    if s.len() > 0 {
        lemma_latencies_bound(s.drop_last());
    }
}

fn kind_of(a: &AttemptFacts, k: AttemptKind, t: i64) -> (b: bool)
    ensures
        b == is_kind(*a, k, t as int),
{
    match k {
        AttemptKind::Success => a.status == ExecutionAttemptStatus::Succeeded,
        AttemptKind::Failure => a.status == ExecutionAttemptStatus::Failed || a.status
            == ExecutionAttemptStatus::Timeout,
        AttemptKind::TimedOut => {
            let timeout_class = match &a.failure_class {
                Some(c) => {
                    let v = to_chars(c.as_str());
                    chars_eq_str(v.as_slice(), "tool_timeout")
                },
                None => false,
            };
            a.status == ExecutionAttemptStatus::Timeout || (a.status == ExecutionAttemptStatus::Failed
                && timeout_class)
        },
        AttemptKind::Blocked => a.status == ExecutionAttemptStatus::Blocked,
        AttemptKind::FailureLike => a.status == ExecutionAttemptStatus::Failed || a.status
            == ExecutionAttemptStatus::Timeout || a.status == ExecutionAttemptStatus::Blocked,
        AttemptKind::TransientSince => {
            let failure_like = a.status == ExecutionAttemptStatus::Failed || a.status
                == ExecutionAttemptStatus::Timeout || a.status == ExecutionAttemptStatus::Blocked;
            let transient = match &a.failure_class {
                Some(c) => failure_class_weighted_transient(Some(c.as_str())),
                None => false,
            };
            a.started_at_ms >= t && failure_like && (a.status == ExecutionAttemptStatus::Timeout
                || transient)
        },
        AttemptKind::SuccessAfter => a.status == ExecutionAttemptStatus::Succeeded && a.started_at_ms
            > t,
    }
}

fn count_of(sel: &Vec<AttemptFacts>, k: AttemptKind, t: i64) -> (n: i64)
    requires
        sel@.len() <= i64::MAX,
    ensures
        n == count_kind(sel@, k, t as int),
{
    let mut n: i64 = 0;
    let mut j: usize = 0;
    while j < sel.len()
        invariant
            j <= sel@.len(),
            sel@.len() <= i64::MAX,
            n == count_kind(sel@.take(j as int), k, t as int),
        decreases sel@.len() - j,
    {
        assert(sel@.take(j + 1).drop_last() =~= sel@.take(j as int));
        proof {
            lemma_count_kind_bound(sel@.take(j as int), k, t as int);
        }
        if kind_of(&sel[j], k, t) {
            n = n + 1;
        }
        j = j + 1;
    }
    assert(sel@.take(sel@.len() as int) =~= sel@);
    n
}

fn latest_of(sel: &Vec<AttemptFacts>, k: AttemptKind) -> (r: Option<i64>)
    ensures
        r == latest_kind(sel@, k),
{
    let mut r: Option<i64> = None;
    let mut j: usize = 0;
    while j < sel.len()
        invariant
            j <= sel@.len(),
            r == latest_kind(sel@.take(j as int), k),
        decreases sel@.len() - j,
    {
        assert(sel@.take(j + 1).drop_last() =~= sel@.take(j as int));
        if kind_of(&sel[j], k, 0) {
            let s = sel[j].started_at_ms;
            r = match r {
                Some(t) => if t >= s {
                    Some(t)
                } else {
                    Some(s)
                },
                None => Some(s),
            };
        }
        j = j + 1;
    }
    assert(sel@.take(sel@.len() as int) =~= sel@);
    r
}

/// The integer part of a tool's reliability profile at `now`: counts over
/// the attempts of the tool in the window, latency percentiles, unresolved
/// incidents, policy decisions, and the circuit breaker's next state. None
/// when the tool has no attempt in the window and no legacy failures.
pub fn compute_reliability_counts(
    tool_name: &str,
    now_ms: i64,
    attempts: &Vec<AttemptFacts>,
    policies: &Vec<PolicyFacts>,
    incidents: &Vec<IncidentFacts>,
    previous: Option<(CircuitBreakerState, Option<i64>)>,
    legacy_failure_count: i64,
    config: &ToolReliabilityConfig,
) -> (r: Option<ReliabilityCounts>)
    requires
        i64::MIN <= now_ms - config.window_ms <= i64::MAX,
        i64::MIN <= now_ms - config.breaker_open_window_ms <= i64::MAX,
        i64::MIN <= now_ms + config.breaker_cooldown_ms <= i64::MAX,
        attempts@.len() <= 0x10_0000_0000_0000,
        policies@.len() <= i64::MAX,
        incidents@.len() <= i64::MAX,
    ensures
        r == counts_spec(
            tool_name@,
            now_ms,
            attempts@,
            policies@,
            incidents@,
            previous,
            legacy_failure_count,
            *config,
        ),
        r matches Some(p) ==> p.success_count + p.failure_count + p.blocked_count <= p.sample_count
            && p.timeout_count <= p.failure_count,
{
    proof {
        law_reliability_profile_counts(
            tool_name@,
            now_ms,
            attempts@,
            policies@,
            incidents@,
            previous,
            legacy_failure_count,
            *config,
        );
    }
    let start = now_ms - config.window_ms;
    let tv = to_chars(tool_name);
    let mut sel: Vec<AttemptFacts> = Vec::new();
    let mut i: usize = 0;
    while i < attempts.len()
        invariant
            i <= attempts@.len(),
            tv@ == tool_name@,
            sel@ == select_attempts(attempts@.take(i as int), tool_name@, start as int),
        decreases attempts@.len() - i,
    {
        assert(attempts@.take(i + 1).drop_last() =~= attempts@.take(i as int));
        let a = &attempts[i];
        let an = to_chars(a.tool_name.as_str());
        if chars_eq(an.as_slice(), tv.as_slice()) && a.started_at_ms >= start {
            sel.push(a.clone());
        }
        i = i + 1;
    }
    assert(attempts@.take(attempts@.len() as int) =~= attempts@);
    proof {
        lemma_select_bound(attempts@, tool_name@, start as int);
    }
    if sel.len() == 0 && legacy_failure_count <= 0 {
        return None;
    }
    let ghost s = sel@;
    let last_failure = latest_of(&sel, AttemptKind::FailureLike);
    let transient = count_of(&sel, AttemptKind::TransientSince, now_ms - config.breaker_open_window_ms);
    let success_after = match last_failure {
        Some(t) => count_of(&sel, AttemptKind::SuccessAfter, t) > 0,
        None => false,
    };
    let mut lat: Vec<i64> = Vec::new();
    let mut j: usize = 0;
    while j < sel.len()
        invariant
            j <= sel@.len(),
            lat@ == latencies_of(sel@.take(j as int)),
        decreases sel@.len() - j,
    {
        assert(sel@.take(j + 1).drop_last() =~= sel@.take(j as int));
        match sel[j].elapsed_ms {
            Some(e) => {
                if e >= 0 {
                    lat.push(e);
                }
            },
            None => {},
        }
        j = j + 1;
    }
    assert(sel@.take(sel@.len() as int) =~= sel@);
    proof {
        lemma_latencies_bound(sel@);
    }
    let sorted = sort_i64(lat);
    let p50 = percentile(sorted.as_slice(), 50);
    let p95 = percentile(sorted.as_slice(), 95);
    let (state, cooldown) = if transient >= config.breaker_open_failures && !success_after {
        (CircuitBreakerState::Open, Some(now_ms + config.breaker_cooldown_ms))
    } else {
        match previous {
            Some((st, cd)) => {
                let due = match cd {
                    Some(c) => c <= now_ms,
                    None => false,
                };
                if st == CircuitBreakerState::Open && due {
                    (CircuitBreakerState::HalfOpen, None)
                } else {
                    (CircuitBreakerState::Closed, None)
                }
            },
            None => (CircuitBreakerState::Closed, None),
        }
    };
    let mut open_incidents: i64 = 0;
    let mut k: usize = 0;
    while k < incidents.len()
        invariant
            k <= incidents@.len(),
            incidents@.len() <= i64::MAX,
            tv@ == tool_name@,
            0 <= open_incidents <= k,
            open_incidents == count_open_incidents(incidents@.take(k as int), tool_name@, start as int),
        decreases incidents@.len() - k,
    {
        assert(incidents@.take(k + 1).drop_last() =~= incidents@.take(k as int));
        let inc = &incidents[k];
        let tool_ok = match &inc.tool_name {
            Some(n) => {
                let nv = to_chars(n.as_str());
                chars_eq(nv.as_slice(), tv.as_slice())
            },
            None => false,
        };
        let observed = match inc.last_seen_at_ms {
            Some(t) => t,
            None => match inc.first_seen_at_ms {
                Some(t) => t,
                None => inc.created_at_ms,
            },
        };
        let sv = to_chars(inc.status.as_str());
        let unresolved = !chars_eq_str(sv.as_slice(), "resolved") && !chars_eq_str(sv.as_slice(), "ignored");
        if tool_ok && observed >= start && unresolved {
            open_incidents = open_incidents + 1;
        }
        k = k + 1;
    }
    assert(incidents@.take(incidents@.len() as int) =~= incidents@);
    let mut total: i64 = 0;
    let mut deny: i64 = 0;
    let mut approval: i64 = 0;
    let mut q: usize = 0;
    while q < policies.len()
        invariant
            q <= policies@.len(),
            policies@.len() <= i64::MAX,
            tv@ == tool_name@,
            0 <= total <= q,
            0 <= deny <= q,
            0 <= approval <= q,
            total == count_policies(policies@.take(q as int), tool_name@, start as int, 0),
            deny == count_policies(policies@.take(q as int), tool_name@, start as int, 1),
            approval == count_policies(policies@.take(q as int), tool_name@, start as int, 2),
        decreases policies@.len() - q,
    {
        assert(policies@.take(q + 1).drop_last() =~= policies@.take(q as int));
        let p = &policies[q];
        let tool_ok = match &p.tool_name {
            Some(n) => {
                let nv = to_chars(n.as_str());
                chars_eq(nv.as_slice(), tv.as_slice())
            },
            None => false,
        };
        if tool_ok && p.created_at_ms >= start {
            total = total + 1;
            match p.decision {
                PolicyDecisionKind::Deny | PolicyDecisionKind::RequireMoreEvidence => {
                    deny = deny + 1;
                },
                PolicyDecisionKind::RequireApproval => {
                    approval = approval + 1;
                },
                _ => {},
            }
        }
        q = q + 1;
    }
    assert(policies@.take(policies@.len() as int) =~= policies@);
    let success = count_of(&sel, AttemptKind::Success, 0);
    let failure = count_of(&sel, AttemptKind::Failure, 0);
    let timeout = count_of(&sel, AttemptKind::TimedOut, 0);
    let blocked = count_of(&sel, AttemptKind::Blocked, 0);
    let last_success = latest_of(&sel, AttemptKind::Success);
    Some(
        ReliabilityCounts {
            window_start_ms: start,
            sample_count: sel.len() as i64,
            success_count: success,
            failure_count: failure,
            timeout_count: timeout,
            blocked_count: blocked,
            p50_latency_ms: p50,
            p95_latency_ms: p95,
            recent_incident_count: open_incidents,
            last_failure_at_ms: last_failure,
            last_success_at_ms: last_success,
            transient_failures_recent: transient,
            breaker_state: state,
            cooldown_until_ms: cooldown,
            policy_total: total,
            policy_deny_like: deny,
            policy_approval_like: approval,
        },
    )
}

/// The breaker blocks calls at `now`.
pub open spec fn blocks_spec(state: CircuitBreakerState, cooldown_until: Option<i64>, now: int) -> bool {
    state == CircuitBreakerState::Open && match cooldown_until {
        Some(t) => t > now,
        None => true,
    }
}

/// A breaker that a recompute opens blocks calls from then until its
/// cooldown ends, and no longer after; a half-open or closed breaker never
/// blocks.
pub proof fn lemma_breaker_blocks_until_cooldown(
    transient: int,
    open_failures: int,
    success_after: bool,
    previous: Option<(CircuitBreakerState, Option<i64>)>,
    now: int,
    cooldown: int,
    later: int,
)
    requires
        i64::MIN <= now + cooldown <= i64::MAX,
    ensures
        ({
            let (st, cd) = breaker_spec(transient, open_failures, success_after, previous, now, cooldown);
            &&& st == CircuitBreakerState::Open ==> (blocks_spec(st, cd, later) <==> later < now
                + cooldown)
            &&& st != CircuitBreakerState::Open ==> !blocks_spec(st, cd, later)
            &&& (transient >= open_failures && !success_after) <==> st == CircuitBreakerState::Open
        }),
{
}

proof fn lemma_outcome_counts(s: Seq<AttemptFacts>)
    ensures
        count_kind(s, AttemptKind::Success, 0) + count_kind(s, AttemptKind::Failure, 0) + count_kind(
            s,
            AttemptKind::Blocked,
            0,
        ) <= s.len(),
        count_kind(s, AttemptKind::TimedOut, 0) <= count_kind(s, AttemptKind::Failure, 0),
    decreases s.len(),
{
    if s.len() > 0 {
        lemma_outcome_counts(s.drop_last());
    }
}

/// A tool's profile exists exactly when the tool has an attempt in the
/// window or legacy failures; then it counts the tool's attempts in the
/// window, each at most once among successes, failures and blocks, counts
/// every timeout as a failure, starts its window `window` before `now`, and
/// has a cooldown exactly when its breaker is open, ending `cooldown` after
/// `now`.
pub proof fn law_reliability_profile_counts(
    tool: Seq<char>,
    now: i64,
    attempts: Seq<AttemptFacts>,
    policies: Seq<PolicyFacts>,
    incidents: Seq<IncidentFacts>,
    previous: Option<(CircuitBreakerState, Option<i64>)>,
    legacy_failure_count: i64,
    c: ToolReliabilityConfig,
)
    requires
        i64::MIN <= now - c.window_ms <= i64::MAX,
        i64::MIN <= now + c.breaker_cooldown_ms <= i64::MAX,
        attempts.len() <= i64::MAX,
    ensures
        ({
            let sel = select_attempts(attempts, tool, now - c.window_ms);
            match counts_spec(tool, now, attempts, policies, incidents, previous, legacy_failure_count, c) {
                None => sel.len() == 0 && legacy_failure_count <= 0,
                Some(p) => {
                    &&& !(sel.len() == 0 && legacy_failure_count <= 0)
                    &&& p.sample_count == sel.len()
                    &&& 0 <= p.success_count && 0 <= p.failure_count && 0 <= p.blocked_count
                        && 0 <= p.timeout_count
                    &&& p.success_count + p.failure_count + p.blocked_count <= p.sample_count
                    &&& p.timeout_count <= p.failure_count
                    &&& p.window_start_ms == now - c.window_ms
                    &&& (p.cooldown_until_ms is Some <==> p.breaker_state == CircuitBreakerState::Open)
                    &&& (p.breaker_state == CircuitBreakerState::Open ==> p.cooldown_until_ms == Some(
                        (now + c.breaker_cooldown_ms) as i64,
                    ))
                },
            }
        }),
{
    let sel = select_attempts(attempts, tool, now - c.window_ms);
    lemma_select_bound(attempts, tool, now - c.window_ms);
    lemma_outcome_counts(sel);
    lemma_count_kind_bound(sel, AttemptKind::Success, 0);
    lemma_count_kind_bound(sel, AttemptKind::Failure, 0);
    lemma_count_kind_bound(sel, AttemptKind::Blocked, 0);
    lemma_count_kind_bound(sel, AttemptKind::TimedOut, 0);
}

/// Exactly the failure classes `tool_timeout`, `tool_execution`, `channel`,
/// `orchestrator`, `worker` and `database` count as transient for the
/// breaker; an attempt without a failure class does not.
pub proof fn law_weighted_transient_classes(c: Option<Seq<char>>)
    ensures
        weighted_transient(c) <==> (c matches Some(x) && set![
            "tool_timeout"@,
            "tool_execution"@,
            "channel"@,
            "orchestrator"@,
            "worker"@,
            "database"@,
        ].contains(x)),
{
}

/// The failed attempts, started at or after `since`, whose failure class
/// is `tool_timeout`, `tool_execution`, `channel`, `orchestrator`, `worker`
/// or `database`.
pub open spec fn transient_class_failures(s: Seq<AttemptFacts>, since: int) -> nat
    decreases s.len(),
{
    if s.len() == 0 {
        0
    } else {
        transient_class_failures(s.drop_last(), since) + if s.last().status
            == ExecutionAttemptStatus::Failed && s.last().started_at_ms >= since && (opt_view(
            s.last().failure_class,
        ) matches Some(x) && set![
            "tool_timeout"@,
            "tool_execution"@,
            "channel"@,
            "orchestrator"@,
            "worker"@,
            "database"@,
        ].contains(x)) {
            1nat
        } else {
            0nat
        }
    }
}

proof fn lemma_transient_at_least(s: Seq<AttemptFacts>, since: int)
    ensures
        count_kind(s, AttemptKind::TransientSince, since) >= transient_class_failures(s, since),
    decreases s.len(),
{
    if s.len() > 0 {
        lemma_transient_at_least(s.drop_last(), since);
        law_weighted_transient_classes(opt_view(s.last().failure_class));
    }
}

proof fn lemma_no_success_after(s: Seq<AttemptFacts>, t: int)
    requires
        forall|i: int| 0 <= i < s.len() ==> (#[trigger] s[i]).status != ExecutionAttemptStatus::Succeeded,
    ensures
        count_kind(s, AttemptKind::SuccessAfter, t) == 0,
    decreases s.len(),
{
    if s.len() > 0 {
        assert(s.last() == s[s.len() - 1]);
        lemma_no_success_after(s.drop_last(), t);
    }
}

/// Repeated transient failures open the breaker: when the tool's attempts
/// in the window include no success and at least `breaker_open_failures`
/// failures of a transient class (`tool_timeout`, `tool_execution`,
/// `channel`, `orchestrator`, `worker`, `database`) started within the
/// breaker window, its profile shows at least that many recent transient
/// failures and an open breaker whose cooldown ends `breaker_cooldown_ms`
/// after `now`. There is no profile only when there are no such failures.
pub proof fn law_transient_failures_open_breaker(
    tool: Seq<char>,
    now: i64,
    attempts: Seq<AttemptFacts>,
    policies: Seq<PolicyFacts>,
    incidents: Seq<IncidentFacts>,
    previous: Option<(CircuitBreakerState, Option<i64>)>,
    legacy_failure_count: i64,
    c: ToolReliabilityConfig,
)
    requires
        i64::MIN <= now - c.window_ms <= i64::MAX,
        i64::MIN <= now + c.breaker_cooldown_ms <= i64::MAX,
        attempts.len() <= i64::MAX,
        forall|i: int|
            0 <= i < select_attempts(attempts, tool, now - c.window_ms).len() ==> (#[trigger] select_attempts(
                attempts,
                tool,
                now - c.window_ms,
            )[i]).status != ExecutionAttemptStatus::Succeeded,
        transient_class_failures(select_attempts(attempts, tool, now - c.window_ms), now - c.breaker_open_window_ms)
            >= c.breaker_open_failures,
    ensures
        ({
            let n = transient_class_failures(
                select_attempts(attempts, tool, now - c.window_ms),
                now - c.breaker_open_window_ms,
            );
            match counts_spec(tool, now, attempts, policies, incidents, previous, legacy_failure_count, c) {
                Some(p) => {
                    &&& p.breaker_state == CircuitBreakerState::Open
                    &&& p.cooldown_until_ms == Some((now + c.breaker_cooldown_ms) as i64)
                    &&& p.transient_failures_recent >= n
                },
                None => n == 0,
            }
        }),
{
    let sel = select_attempts(attempts, tool, now - c.window_ms);
    let since = now - c.breaker_open_window_ms;
    lemma_select_bound(attempts, tool, now - c.window_ms);
    lemma_transient_at_least(sel, since);
    lemma_count_kind_bound(sel, AttemptKind::TransientSince, since);
    lemma_transient_bound(sel, since);
    match latest_kind(sel, AttemptKind::FailureLike) {
        Some(t) => lemma_no_success_after(sel, t as int),
        None => {},
    }
}

proof fn lemma_transient_bound(s: Seq<AttemptFacts>, since: int)
    ensures
        transient_class_failures(s, since) <= s.len(),
    decreases s.len(),
{
    if s.len() > 0 {
        lemma_transient_bound(s.drop_last(), since);
    }
}

/// The failure mode an attempt counts toward: its failure class, or
/// `unknown` for a failed, timed-out or blocked attempt without one.
pub open spec fn failure_mode(a: AttemptFacts) -> Option<Seq<char>> {
    match a.failure_class {
        Some(c) => Some(c@),
        None => if a.status == ExecutionAttemptStatus::Failed || a.status == ExecutionAttemptStatus::Timeout
            || a.status == ExecutionAttemptStatus::Blocked {
            Some("unknown"@)
        } else {
            None
        },
    }
}

/// How many attempts count toward a failure mode.
pub open spec fn mode_count(atts: Seq<AttemptFacts>, m: Seq<char>) -> nat
    decreases atts.len(),
{
    if atts.len() == 0 {
        0
    } else {
        mode_count(atts.drop_last(), m) + (if failure_mode(atts.last()) == Some(m) {
            1nat
        } else {
            0nat
        })
    }
}

/// A more common mode comes first; equally common modes by name.
pub open spec fn mode_before(a: (Seq<char>, int), b: (Seq<char>, int)) -> bool {
    a.1 > b.1 || (a.1 == b.1 && lex_lt(a.0, b.0))
}

/// The view of a mode entry.
pub open spec fn entry_view(e: (String, i64)) -> (Seq<char>, int) {
    (e.0@, e.1 as int)
}

proof fn lemma_mode_order(a: (Seq<char>, int), b: (Seq<char>, int), c: (Seq<char>, int))
    ensures
        !mode_before(a, a),
        mode_before(a, b) ==> !mode_before(b, a),
        mode_before(a, b) && mode_before(b, c) ==> mode_before(a, c),
        a.0 != b.0 ==> mode_before(a, b) || mode_before(b, a),
{
    lemma_lex_lt_irreflexive(a.0);
    if mode_before(a, b) && a.1 == b.1 {
        lemma_lex_lt_asymmetric(a.0, b.0);
    }
    if mode_before(a, b) && mode_before(b, c) && a.1 == b.1 && b.1 == c.1 {
        lemma_lex_lt_transitive(a.0, b.0, c.0);
    }
    if a.0 != b.0 {
        lemma_lex_lt_total(a.0, b.0);
    }
}

fn mode_of(a: &AttemptFacts) -> (m: Option<String>)
    ensures
        m.deep_view() == failure_mode(*a),
{
    match &a.failure_class {
        Some(c) => Some(string_of(c.as_str())),
        None => match a.status {
            ExecutionAttemptStatus::Failed | ExecutionAttemptStatus::Timeout | ExecutionAttemptStatus::Blocked => Some(
                string_of("unknown"),
            ),
            _ => None,
        },
    }
}

fn find_entry(entries: &Vec<(String, i64)>, name: &[char]) -> (r: Option<usize>)
    ensures
        match r {
            Some(j) => j < entries@.len() && entries@[j as int].0@ == name@,
            None => forall|k: int| 0 <= k < entries@.len() ==> #[trigger] entries@[k].0@ != name@,
        },
{
    let mut j: usize = 0;
    while j < entries.len()
        invariant
            j <= entries@.len(),
            forall|k: int| 0 <= k < j ==> #[trigger] entries@[k].0@ != name@,
        decreases entries@.len() - j,
    {
        let ev = to_chars(entries[j].0.as_str());
        if chars_eq(ev.as_slice(), name) {
            return Some(j);
        }
        j = j + 1;
    }
    None
}

fn mode_counts(attempts: &Vec<AttemptFacts>) -> (entries: Vec<(String, i64)>)
    requires
        attempts@.len() <= i64::MAX,
    ensures
        forall|k: int| 0 <= k < entries@.len() ==> #[trigger] entries@[k].1 == mode_count(attempts@, entries@[k].0@)
            && entries@[k].1 > 0,
        forall|a: int, b: int| 0 <= a < b < entries@.len() ==> #[trigger] entries@[a].0@ != #[trigger] entries@[b].0@,
        forall|m: Seq<char>| mode_count(attempts@, m) > 0 ==> exists|k: int| 0 <= k < entries@.len() && #[trigger] entries@[k].0@ == m,
{
    let mut entries: Vec<(String, i64)> = Vec::new();
    let mut i: usize = 0;
    while i < attempts.len()
        invariant
            i <= attempts@.len() <= i64::MAX,
            forall|k: int| 0 <= k < entries@.len() ==> #[trigger] entries@[k].1 == mode_count(attempts@.take(i as int), entries@[k].0@)
                && entries@[k].1 > 0,
            forall|a: int, b: int| 0 <= a < b < entries@.len() ==> #[trigger] entries@[a].0@ != #[trigger] entries@[b].0@,
            forall|m: Seq<char>| mode_count(attempts@.take(i as int), m) > 0 ==> exists|k: int| 0 <= k < entries@.len() && #[trigger] entries@[k].0@ == m,
            forall|m: Seq<char>| mode_count(attempts@.take(i as int), m) <= i,
        decreases attempts@.len() - i,
    {
        let ghost pre = attempts@.take(i as int);
        let ghost nxt = attempts@.take(i + 1);
        assert(nxt.drop_last() =~= pre);
        assert(nxt.last() == attempts@[i as int]);
        let m = mode_of(&attempts[i]);
        match m {
            None => {
                assert forall|x: Seq<char>| mode_count(nxt, x) == mode_count(pre, x) by {}
                assert forall|k: int| 0 <= k < entries@.len() implies #[trigger] entries@[k].1 == mode_count(nxt, entries@[k].0@) by {}
            },
            Some(name) => {
                let nv = to_chars(name.as_str());
                let pos = find_entry(&entries, nv.as_slice());
                let found = pos.is_some();
                let j: usize = match pos {
                    Some(p) => p,
                    None => 0,
                };
                assert forall|x: Seq<char>| #[trigger] mode_count(nxt, x) == mode_count(pre, x) + (if x == name@ {
                    1nat
                } else {
                    0nat
                }) by {}
                if found {
                    let ghost old_e = entries@;
                    let c = entries[j].1;
                    assert(c == mode_count(pre, name@));
                    let nm = string_of(entries[j].0.as_str());
                    entries.set(j, (nm, c + 1));
                    assert forall|k: int| 0 <= k < entries@.len() implies #[trigger] entries@[k].1 == mode_count(nxt, entries@[k].0@)
                        && entries@[k].1 > 0 by {
                        if k != j {
                            assert(entries@[k] == old_e[k]);
                            assert(old_e[k].0@ != name@);
                        }
                    }
                    assert forall|a: int, b: int| 0 <= a < b < entries@.len() implies #[trigger] entries@[a].0@ != #[trigger] entries@[b].0@ by {
                        assert(entries@[a].0@ == old_e[a].0@);
                        assert(entries@[b].0@ == old_e[b].0@);
                    }
                    assert forall|x: Seq<char>| mode_count(nxt, x) > 0 implies exists|k: int| 0 <= k < entries@.len() && #[trigger] entries@[k].0@ == x by {
                        if x == name@ {
                            assert(entries@[j as int].0@ == x);
                        } else {
                            let k = choose|k: int| 0 <= k < old_e.len() && #[trigger] old_e[k].0@ == x;
                            assert(entries@[k].0@ == x);
                        }
                    }
                } else {
                    let ghost old_e = entries@;
                    assert(mode_count(pre, name@) == 0) by {
                        if mode_count(pre, name@) > 0 {
                            let k = choose|k: int| 0 <= k < old_e.len() && #[trigger] old_e[k].0@ == name@;
                            assert(old_e[k].0@ == nv@);
                        }
                    }
                    entries.push((name, 1));
                    assert forall|k: int| 0 <= k < entries@.len() implies #[trigger] entries@[k].1 == mode_count(nxt, entries@[k].0@)
                        && entries@[k].1 > 0 by {
                        if k < old_e.len() {
                            assert(entries@[k] == old_e[k]);
                            assert(old_e[k].0@ != nv@);
                        }
                    }
                    assert forall|a: int, b: int| 0 <= a < b < entries@.len() implies #[trigger] entries@[a].0@ != #[trigger] entries@[b].0@ by {
                        if b == old_e.len() {
                            assert(entries@[a] == old_e[a]);
                        } else {
                            assert(entries@[a] == old_e[a]);
                            assert(entries@[b] == old_e[b]);
                        }
                    }
                    assert forall|x: Seq<char>| mode_count(nxt, x) > 0 implies exists|k: int| 0 <= k < entries@.len() && #[trigger] entries@[k].0@ == x by {
                        if x == name@ {
                            assert(entries@[old_e.len() as int].0@ == x);
                        } else {
                            let k = choose|k: int| 0 <= k < old_e.len() && #[trigger] old_e[k].0@ == x;
                            assert(entries@[k] == old_e[k]);
                        }
                    }
                }
            },
        }
        i = i + 1;
    }
    assert(attempts@.take(attempts@.len() as int) =~= attempts@);
    entries
}

fn mode_before_exec(a: &(String, i64), b: &(String, i64)) -> (r: bool)
    ensures
        r == mode_before(entry_view(*a), entry_view(*b)),
{
    if a.1 != b.1 {
        return a.1 > b.1;
    }
    let av = to_chars(a.0.as_str());
    let bv = to_chars(b.0.as_str());
    lex_lt_exec(av.as_slice(), bv.as_slice())
}

/// The (at most) five most common failure modes of the attempts, with their
/// counts: more common first, equally common by name.
pub fn common_failure_modes(attempts: &Vec<AttemptFacts>) -> (out: Vec<(String, i64)>)
    requires
        attempts@.len() <= i64::MAX,
    ensures
        out@.len() <= 5,
        forall|k: int| 0 <= k < out@.len() ==> #[trigger] out@[k].1 == mode_count(attempts@, out@[k].0@)
            && out@[k].1 > 0,
        forall|a: int, b: int| 0 <= a < b < out@.len() ==> mode_before(entry_view(#[trigger] out@[a]), entry_view(#[trigger] out@[b])),
        forall|m: Seq<char>| mode_count(attempts@, m) > 0 && !(exists|k: int| 0 <= k < out@.len() && #[trigger] out@[k].0@ == m) ==> out@.len() == 5
            && forall|k: int| 0 <= k < out@.len() ==> mode_before(entry_view(#[trigger] out@[k]), (m, mode_count(attempts@, m) as int)),
{
    let entries = mode_counts(attempts);
    let n = entries.len();
    let mut chosen: Vec<bool> = Vec::new();
    let mut z: usize = 0;
    while z < n
        invariant
            z <= n == entries@.len(),
            chosen@.len() == z,
            forall|k: int| 0 <= k < z ==> !chosen@[k],
        decreases n - z,
    {
        chosen.push(false);
        z = z + 1;
    }
    let mut out: Vec<(String, i64)> = Vec::new();
    let ghost mut picked: Seq<int> = Seq::empty();
    while out.len() < 5 && out.len() < n
        invariant
            n == entries@.len(),
            chosen@.len() == n,
            out@.len() <= 5,
            out@.len() == picked.len(),
            out@.len() <= n,
            picked.no_duplicates(),
            forall|k: int| 0 <= k < picked.len() ==> 0 <= #[trigger] picked[k] < n,
            forall|k: int| 0 <= k < picked.len() ==> entry_view(#[trigger] out@[k]) == entry_view(entries@[picked[k]]),
            forall|u: int| 0 <= u < n ==> (chosen@[u] <==> #[trigger] picked.contains(u)),
            forall|a: int, b: int| 0 <= a < b < out@.len() ==> mode_before(entry_view(#[trigger] out@[a]), entry_view(#[trigger] out@[b])),
            forall|k: int, u: int| 0 <= k < out@.len() && 0 <= u < n && !chosen@[u] ==> mode_before(
                entry_view(#[trigger] out@[k]),
                entry_view(#[trigger] entries@[u]),
            ),
            forall|a: int, b: int| 0 <= a < b < n ==> #[trigger] entries@[a].0@ != #[trigger] entries@[b].0@,
        decreases n - out@.len(),
    {
        proof {
            lemma_some_unpicked(picked, n as int);
        }
        let mut best: usize = n;
        let mut u: usize = 0;
        while u < n
            invariant
                n == entries@.len(),
                chosen@.len() == n,
                u <= n,
                best == n || (best < u && !chosen@[best as int]),
                best < n ==> forall|v: int| 0 <= v < u && !chosen@[v] && v != best ==> mode_before(
                    entry_view(entries@[best as int]),
                    entry_view(#[trigger] entries@[v]),
                ),
                best == n ==> forall|v: int| 0 <= v < u ==> chosen@[v],
                forall|a: int, b: int| 0 <= a < b < n ==> #[trigger] entries@[a].0@ != #[trigger] entries@[b].0@,
            decreases n - u,
        {
            if !chosen[u] {
                if best == n || mode_before_exec(&entries[u], &entries[best]) {
                    proof {
                        if best < n {
                            assert forall|v: int| 0 <= v < u + 1 && !chosen@[v] && v != u implies mode_before(
                                entry_view(entries@[u as int]),
                                entry_view(#[trigger] entries@[v]),
                            ) by {
                                if v != best {
                                    lemma_mode_order(entry_view(entries@[u as int]), entry_view(entries@[best as int]), entry_view(entries@[v]));
                                }
                            }
                        }
                    }
                    best = u;
                } else {
                    proof {
                        assert(entries@[u as int].0@ != entries@[best as int].0@) by {
                            if best < u {
                                assert(entries@[best as int].0@ != entries@[u as int].0@);
                            }
                        }
                        lemma_mode_order(entry_view(entries@[u as int]), entry_view(entries@[best as int]), entry_view(entries@[u as int]));
                    }
                }
            }
            u = u + 1;
        }
        proof {
            if best == n {
                let w = choose|w: int| 0 <= w < n && !picked.contains(w);
                assert(chosen@[w]);
            }
        }
        let e = &entries[best];
        let ghost old_out = out@;
        let ghost old_chosen = chosen@;
        let ghost old_picked = picked;
        out.push((string_of(e.0.as_str()), e.1));
        chosen.set(best, true);
        proof {
            picked = picked.push(best as int);
            assert(!old_picked.contains(best as int));
            assert forall|k: int, k2: int| 0 <= k < picked.len() && 0 <= k2 < picked.len() && k != k2 implies picked[k] != picked[k2] by {
                if k == picked.len() - 1 {
                    assert(old_picked.contains(picked[k2]));
                } else if k2 == picked.len() - 1 {
                    assert(old_picked.contains(picked[k]));
                } else {
                    assert(old_picked[k] == picked[k] && old_picked[k2] == picked[k2]);
                }
            }
            assert forall|u2: int| 0 <= u2 < n implies (chosen@[u2] <==> #[trigger] picked.contains(u2)) by {
                if u2 == best {
                    assert(picked[picked.len() - 1] == u2);
                } else {
                    assert(chosen@[u2] == old_chosen[u2]);
                    if old_picked.contains(u2) {
                        let k = choose|k: int| 0 <= k < old_picked.len() && old_picked[k] == u2;
                        assert(picked[k] == u2);
                    }
                    if picked.contains(u2) {
                        let k = choose|k: int| 0 <= k < picked.len() && picked[k] == u2;
                        assert(k < old_picked.len());
                        assert(old_picked[k] == u2);
                    }
                }
            }
            assert forall|k: int| 0 <= k < picked.len() implies entry_view(#[trigger] out@[k]) == entry_view(entries@[picked[k]]) by {
                if k < old_out.len() {
                    assert(out@[k] == old_out[k]);
                    assert(picked[k] == old_picked[k]);
                }
            }
            assert forall|k: int| 0 <= k < picked.len() implies 0 <= #[trigger] picked[k] < n by {
                if k < old_picked.len() {
                    assert(picked[k] == old_picked[k]);
                }
            }
            assert forall|a: int, b: int| 0 <= a < b < out@.len() implies mode_before(entry_view(#[trigger] out@[a]), entry_view(#[trigger] out@[b])) by {
                if b < old_out.len() {
                    assert(out@[a] == old_out[a] && out@[b] == old_out[b]);
                } else {
                    assert(out@[a] == old_out[a]);
                }
            }
            assert forall|k: int, u2: int| 0 <= k < out@.len() && 0 <= u2 < n && !chosen@[u2] implies mode_before(
                entry_view(#[trigger] out@[k]),
                entry_view(#[trigger] entries@[u2]),
            ) by {
                assert(old_chosen[u2] == chosen@[u2]);
                if k < old_out.len() {
                    assert(out@[k] == old_out[k]);
                }
            }
        }
    }
    proof {
        assert forall|k: int| 0 <= k < out@.len() implies #[trigger] out@[k].1 == mode_count(attempts@, out@[k].0@)
            && out@[k].1 > 0 by {
            let p = picked[k];
            assert(entries@[p].1 == mode_count(attempts@, entries@[p].0@));
        }
        assert forall|m: Seq<char>| mode_count(attempts@, m) > 0 && !(exists|k: int| 0 <= k < out@.len() && #[trigger] out@[k].0@ == m) implies out@.len() == 5
            && forall|k: int| 0 <= k < out@.len() ==> mode_before(entry_view(#[trigger] out@[k]), (m, mode_count(attempts@, m) as int)) by {
            let u = choose|u: int| 0 <= u < n && #[trigger] entries@[u].0@ == m;
            if chosen@[u] {
                assert(picked.contains(u));
                let k = choose|k: int| 0 <= k < picked.len() && picked[k] == u;
                assert(entry_view(out@[k]) == entry_view(entries@[u]));
                assert(out@[k].0@ == m);
            } else {
                if out@.len() < 5 {
                    lemma_picks_cover(picked, n as int);
                    assert(picked.contains(u));
                }
                assert(entry_view(entries@[u]) == (m, mode_count(attempts@, m) as int));
            }
        }
    }
    out
}

/// Fewer distinct picks below `n` than `n` leave some index unpicked.
proof fn lemma_some_unpicked(picked: Seq<int>, n: int)
    requires
        0 <= picked.len() < n,
        forall|k: int| 0 <= k < picked.len() ==> 0 <= #[trigger] picked[k] < n,
        picked.no_duplicates(),
    ensures
        exists|w: int| 0 <= w < n && !picked.contains(w),
{
    let s = picked.to_set();
    let full = vstd::set_lib::set_int_range(0, n);
    vstd::set_lib::lemma_int_range(0, n);
    picked.unique_seq_to_set();
    if forall|w: int| 0 <= w < n ==> picked.contains(w) {
        assert(full.subset_of(s));
        vstd::seq_lib::seq_to_set_is_finite(picked);
        vstd::set_lib::lemma_len_subset(full, s);
        assert(false);
    }
}

/// Distinct picks below `n`, as many as `n`, cover every index below `n`.
proof fn lemma_picks_cover(picked: Seq<int>, n: int)
    requires
        0 <= n,
        picked.len() >= n,
        forall|k: int| 0 <= k < picked.len() ==> 0 <= #[trigger] picked[k] < n,
        picked.no_duplicates(),
    ensures
        forall|u: int| 0 <= u < n ==> #[trigger] picked.contains(u),
{
    let s = picked.to_set();
    let full = Set::new(|u: int| 0 <= u < n);
    assert(s.subset_of(full)) by {
        assert forall|x: int| s.contains(x) implies full.contains(x) by {
            let k = choose|k: int| 0 <= k < picked.len() && picked[k] == x;
        }
    }
    picked.unique_seq_to_set();
    vstd::set_lib::lemma_int_range(0, n);
    assert(full =~= vstd::set_lib::set_int_range(0, n));
    vstd::set_lib::lemma_len_subset(s, full);
    if exists|u: int| 0 <= u < n && !s.contains(u) {
        let u = choose|u: int| 0 <= u < n && !s.contains(u);
        vstd::set_lib::lemma_len_subset(s, full.remove(u));
    }
    assert forall|u: int| 0 <= u < n implies #[trigger] picked.contains(u) by {
        assert(s.contains(u));
    }
}

} // verus!
