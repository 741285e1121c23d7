//! Memory plane vocabulary and the memory write policy.
//!
//! Confidences are fixed-point values in thousandths (`700` stands for 0.7).
use vstd::prelude::*;
use crate::text::{
    chars_eq_str, contains, contains_exec, push_chars, push_str, string_of, to_chars,
    to_lowercase, unicode_lowercase,
};

verus! {

#[derive(Debug, Clone, Copy, PartialEq, Eq, Structural)]
pub enum MemoryType {
    Working,
    Episodic,
    Semantic,
    Procedural,
    Profile,
}

#[derive(Debug, Clone, Copy, PartialEq, Eq, Structural)]
pub enum MemorySourceKind {
    WorkerPlanExecution,
    SchedulerSubtask,
    DispatcherToolExecution,
    ApprovalFlow,
    RoutineRun,
    ProfileSynthesis,
    ToolMemoryWrite,
    Consolidator,
    UserApi,
    Cli,
}

#[derive(Debug, Clone, Copy, PartialEq, Eq, Structural)]
pub enum MemorySensitivity {
    Public,
    Internal,
    Sensitive,
    CredentialAdjacent,
}

#[derive(Debug, Clone, Copy, PartialEq, Eq, Structural)]
pub enum MemoryRecordStatus {
    Active,
    Demoted,
    Expired,
    Archived,
    Rejected,
}

#[derive(Debug, Clone, Copy, PartialEq, Eq, Structural)]
pub enum ConsolidationAction {
    PromoteSemantic,
    GeneratePlaybook,
    ArchiveSummary,
    Demote,
    Reject,
}

#[derive(Debug, Clone, Copy, PartialEq, Eq, Structural)]
pub enum ProceduralPlaybookStatus {
    Draft,
    Active,
    Paused,
    Retired,
}

#[derive(Debug, Clone, Copy, PartialEq, Eq, Structural)]
pub enum ConsolidationRunStatus {
    Running,
    Completed,
    Failed,
    Partial,
}

/// Time-to-live settings of the write policy.
#[derive(Debug, Clone)]
pub struct MemoryWritePolicyConfig {
    pub working_ttl_secs: i64,
    pub episodic_ttl_secs: i64,
}

impl MemoryWritePolicyConfig {
    /// One day for working memory, thirty days for episodic memory.
    pub fn default_config() -> (c: Self)
        ensures
            c.working_ttl_secs == 24 * 60 * 60,
            c.episodic_ttl_secs == 30 * 24 * 60 * 60,
    {
        MemoryWritePolicyConfig { working_ttl_secs: 24 * 60 * 60, episodic_ttl_secs: 30 * 24 * 60 * 60 }
    }
}

/// Why a memory write is happening.
#[derive(Debug, Clone)]
pub enum MemoryWriteIntent {
    WorkerStepOutcome { success: bool },
    VerifierOutcome { passed: bool, high_risk: bool, contradiction_detected: bool },
    PolicyOutcome { denied: bool, requires_approval: bool },
    ToolMemoryWrite { target: String },
    RoutineSummary { successful: bool },
    ConsolidatorOutput { action: ConsolidationAction },
    Generic,
}

/// A proposed memory write.
///
/// `payload_text` is the serialized payload; `provenance_keys` lists the keys
/// of the provenance object (`None` when the provenance is not an object).
#[derive(Debug, Clone)]
pub struct MemoryWriteCandidate {
    pub source_kind: MemorySourceKind,
    pub category: String,
    pub title: String,
    pub summary: String,
    pub payload_text: String,
    pub provenance_keys: Option<Vec<String>>,
    pub desired_memory_type: Option<MemoryType>,
    pub confidence_hint_milli: Option<i32>,
    pub sensitivity_hint: Option<MemorySensitivity>,
    pub ttl_secs_hint: Option<i64>,
    pub high_impact: bool,
    pub intent: MemoryWriteIntent,
}

/// The policy's decision on a memory write.
#[derive(Debug, Clone)]
pub struct MemoryWriteDecision {
    pub allow: bool,
    pub memory_type: MemoryType,
    pub status: MemoryRecordStatus,
    pub reason_codes: Vec<String>,
    pub confidence_milli: i32,
    pub sensitivity: MemorySensitivity,
    pub ttl_secs: Option<i64>,
    pub required_provenance_fields: Vec<String>,
}

/// The provenance names both a source and a timestamp.
pub open spec fn provenance_complete(keys: Option<Vec<String>>) -> bool {
    match keys {
        Some(k) => k.deep_view().contains("source"@) && k.deep_view().contains("timestamp"@),
        None => false,
    }
}

fn has_key(keys: &Vec<String>, key: &str) -> (b: bool)
    ensures
        b == keys.deep_view().contains(key@),
{
    let mut i: usize = 0;
    while i < keys.len()
        invariant
            i <= keys.len(),
            forall|j: int| 0 <= j < i ==> keys.deep_view()[j] != key@,
        decreases keys.len() - i,
    {
        let k = to_chars(keys[i].as_str());
        if chars_eq_str(k.as_slice(), key) {
            assert(keys.deep_view()[i as int] == key@);
            return true;
        }
        i = i + 1;
    }
    false
}

/// Whether the provenance names both a source and a timestamp.
pub fn has_required_provenance(keys: &Option<Vec<String>>) -> (b: bool)
    ensures
        b == provenance_complete(*keys),
{
    match keys {
        Some(k) => has_key(k, "source") && has_key(k, "timestamp"),
        None => false,
    }
}

/// The text that heartbeat writes are scanned in.
pub open spec fn heartbeat_haystack(c: MemoryWriteCandidate) -> Seq<char> {
    unicode_lowercase(
        c.category@ + " "@ + c.title@ + " "@ + c.summary@ + " "@ + c.payload_text@,
    )
}

/// A heartbeat write that reads like a procedure.
pub open spec fn procedural_heartbeat(c: MemoryWriteCandidate) -> bool {
    let h = heartbeat_haystack(c);
    contains(h, "checklist"@) || contains(h, "runbook"@) || contains(h, "procedure"@) || contains(
        h,
        "playbook"@,
    ) || contains(h, "step"@)
}

/// Whether a heartbeat write reads like a procedure.
pub fn looks_procedural_heartbeat(candidate: &MemoryWriteCandidate) -> (b: bool)
    ensures
        b == procedural_heartbeat(*candidate),
{
    let mut s = string_of(candidate.category.as_str());
    push_str(&mut s, " ");
    push_str(&mut s, candidate.title.as_str());
    push_str(&mut s, " ");
    push_str(&mut s, candidate.summary.as_str());
    push_str(&mut s, " ");
    push_str(&mut s, candidate.payload_text.as_str());
    let lowered = to_lowercase(s.as_str());
    let h = to_chars(lowered.as_str());
    let t0 = to_chars("checklist");
    let t1 = to_chars("runbook");
    let t2 = to_chars("procedure");
    let t3 = to_chars("playbook");
    let t4 = to_chars("step");
    contains_exec(&h, &t0) || contains_exec(&h, &t1) || contains_exec(&h, &t2) || contains_exec(
        &h,
        &t3,
    ) || contains_exec(&h, &t4)
}

/// The decision of the intent-specific rules, before the provenance and
/// high-impact checks: (allow, type, status, confidence, ttl, added codes).
pub open spec fn intent_rules(
    cfg: MemoryWritePolicyConfig,
    c: MemoryWriteCandidate,
    procedural: bool,
) -> (bool, MemoryType, MemoryRecordStatus, int, Option<i64>, Seq<Seq<char>>) {
    let hint = c.confidence_hint_milli;
    let base_type = match c.desired_memory_type {
        Some(t) => t,
        None => MemoryType::Episodic,
    };
    let base_conf: int = match hint {
        Some(h) => if h < 0 {
            0
        } else if h > 1000 {
            1000
        } else {
            h as int
        },
        None => 700,
    };
    let hint_or = |d: int|
        match hint {
            Some(h) => h as int,
            None => d,
        };
    let epi = Some(cfg.episodic_ttl_secs);
    match c.intent {
        MemoryWriteIntent::WorkerStepOutcome { success } => (
            true,
            MemoryType::Episodic,
            MemoryRecordStatus::Active,
            if success {
                900
            } else {
                750
            },
            epi,
            seq![
                if success {
                    "worker_step_success"@
                } else {
                    "worker_step_failure"@
                },
            ],
        ),
        MemoryWriteIntent::VerifierOutcome { passed, high_risk, contradiction_detected } => (
            true,
            MemoryType::Episodic,
            MemoryRecordStatus::Active,
            if passed {
                900
            } else {
                850
            },
            epi,
            (if high_risk {
                seq!["verifier_high_risk"@]
            } else {
                seq![]
            }) + (if contradiction_detected {
                seq!["verifier_contradiction"@]
            } else {
                seq![]
            }),
        ),
        MemoryWriteIntent::PolicyOutcome { denied, requires_approval } => (
            true,
            MemoryType::Episodic,
            MemoryRecordStatus::Active,
            950,
            None,
            (if denied {
                seq!["policy_denial"@]
            } else {
                seq![]
            }) + (if requires_approval {
                seq!["approval_flow"@]
            } else {
                seq![]
            }),
        ),
        MemoryWriteIntent::ToolMemoryWrite { target } => if target@ == "daily_log"@ {
            (
                true,
                MemoryType::Episodic,
                MemoryRecordStatus::Active,
                hint_or(800),
                epi,
                seq!["tool_target_daily_log"@],
            )
        } else if target@ == "heartbeat"@ {
            if procedural {
                (
                    true,
                    MemoryType::Procedural,
                    MemoryRecordStatus::Active,
                    hint_or(750),
                    None,
                    seq!["tool_target_heartbeat_procedural"@],
                )
            } else {
                (
                    true,
                    MemoryType::Working,
                    MemoryRecordStatus::Active,
                    hint_or(750),
                    Some(cfg.working_ttl_secs),
                    seq!["tool_target_heartbeat_working"@],
                )
            }
        } else {
            (
                true,
                match c.desired_memory_type {
                    Some(t) => t,
                    None => MemoryType::Semantic,
                },
                MemoryRecordStatus::Active,
                hint_or(650),
                c.ttl_secs_hint,
                seq!["tool_target_memory"@],
            )
        },
        MemoryWriteIntent::RoutineSummary { successful } => (
            true,
            MemoryType::Episodic,
            MemoryRecordStatus::Active,
            if successful {
                880
            } else {
                760
            },
            epi,
            seq!["routine_summary"@],
        ),
        MemoryWriteIntent::ConsolidatorOutput { action } => match action {
            ConsolidationAction::PromoteSemantic => (
                true,
                MemoryType::Semantic,
                MemoryRecordStatus::Active,
                hint_or(780),
                None,
                seq!["consolidator_promote_semantic"@],
            ),
            ConsolidationAction::GeneratePlaybook => (
                true,
                MemoryType::Procedural,
                MemoryRecordStatus::Active,
                hint_or(800),
                None,
                seq!["consolidator_generate_playbook"@],
            ),
            ConsolidationAction::ArchiveSummary => (
                true,
                MemoryType::Episodic,
                MemoryRecordStatus::Archived,
                hint_or(750),
                None,
                seq!["consolidator_archive_summary"@],
            ),
            ConsolidationAction::Demote => (
                true,
                base_type,
                MemoryRecordStatus::Demoted,
                base_conf,
                c.ttl_secs_hint,
                seq!["consolidator_demote"@],
            ),
            ConsolidationAction::Reject => (
                false,
                base_type,
                MemoryRecordStatus::Rejected,
                base_conf,
                c.ttl_secs_hint,
                seq!["consolidator_reject"@],
            ),
        },
        MemoryWriteIntent::Generic => (
            true,
            base_type,
            MemoryRecordStatus::Active,
            base_conf,
            c.ttl_secs_hint,
            seq!["generic_default"@],
        ),
    }
}

/// Semantic and procedural memories need provenance and enough confidence.
pub open spec fn is_durable_type(t: MemoryType) -> bool {
    t == MemoryType::Semantic || t == MemoryType::Procedural
}

/// The full decision of the write policy, as a tuple
/// (allow, type, status, confidence, ttl, reason codes, required provenance fields).
pub open spec fn write_decision(
    cfg: MemoryWritePolicyConfig,
    c: MemoryWriteCandidate,
    procedural: bool,
    provenance_ok: bool,
) -> (bool, MemoryType, MemoryRecordStatus, int, Option<i64>, Seq<Seq<char>>, Seq<Seq<char>>) {
    let r = intent_rules(cfg, c, procedural);
    let durable = is_durable_type(r.1);
    let missing = durable && !provenance_ok;
    let conf = if missing && c.confidence_hint_milli is None && r.3 > 650 {
        650
    } else {
        r.3
    };
    let codes1 = seq!["classified"@] + r.5 + (if missing {
        seq!["missing_provenance_fields"@]
    } else {
        seq![]
    });
    let reject = c.high_impact && durable && conf < 750;
    (
        r.0 && !reject,
        r.1,
        if reject {
            MemoryRecordStatus::Rejected
        } else {
            r.2
        },
        conf,
        r.4,
        codes1 + (if reject {
            seq!["low_confidence_high_impact_rejected"@]
        } else {
            seq![]
        }),
        if durable {
            seq!["source"@, "timestamp"@]
        } else {
            seq![]
        },
    )
}

fn push_code(v: &mut Vec<String>, code: &str)
    ensures
        final(v).deep_view() == old(v).deep_view().push(code@),
{
    v.push(string_of(code));
    assert(v.deep_view() =~= old(v).deep_view().push(code@));
}

/// The memory write policy.
pub struct MemoryWritePolicyEngine {
    pub cfg: MemoryWritePolicyConfig,
}

impl MemoryWritePolicyEngine {
    /// A policy with the given settings.
    pub fn new(cfg: MemoryWritePolicyConfig) -> (e: Self)
        ensures
            e.cfg == cfg,
    {
        Self { cfg }
    }

    /// A policy with the default settings.
    pub fn default_engine() -> (e: Self)
        ensures
            e.cfg.working_ttl_secs == 24 * 60 * 60,
            e.cfg.episodic_ttl_secs == 30 * 24 * 60 * 60,
    {
        Self::new(MemoryWritePolicyConfig::default_config())
    }

    /// Classifies a proposed memory write.
    pub fn classify(&self, candidate: &MemoryWriteCandidate) -> (d: MemoryWriteDecision)
        ensures
            ({
                let w = write_decision(
                    self.cfg,
                    *candidate,
                    procedural_heartbeat(*candidate),
                    provenance_complete(candidate.provenance_keys),
                );
                &&& d.allow == w.0
                &&& d.memory_type == w.1
                &&& d.status == w.2
                &&& d.confidence_milli as int == w.3
                &&& d.ttl_secs == w.4
                &&& d.reason_codes.deep_view() == w.5
                &&& d.required_provenance_fields.deep_view() == w.6
                &&& d.sensitivity == match candidate.sensitivity_hint {
                    Some(s) => s,
                    None => MemorySensitivity::Internal,
                }
            }),
    {
        let hint = candidate.confidence_hint_milli;
        let hint_or = |d: i32| -> (r: i32)
            ensures
                r == match hint {
                    Some(h) => h,
                    None => d,
                },
            {
                match hint {
                    Some(h) => h,
                    None => d,
                }
            };
        let mut allow = true;
        let mut memory_type = match candidate.desired_memory_type {
            Some(t) => t,
            None => MemoryType::Episodic,
        };
        let mut status = MemoryRecordStatus::Active;
        let mut codes: Vec<String> = Vec::new();
        push_code(&mut codes, "classified");
        let mut confidence: i32 = match hint {
            Some(h) => if h < 0 {
                0
            } else if h > 1000 {
                1000
            } else {
                h
            },
            None => 700,
        };
        let sensitivity = match candidate.sensitivity_hint {
            Some(s) => s,
            None => MemorySensitivity::Internal,
        };
        let mut ttl_secs = candidate.ttl_secs_hint;
        let ghost procedural = procedural_heartbeat(*candidate);
        match &candidate.intent {
            MemoryWriteIntent::WorkerStepOutcome { success } => {
                memory_type = MemoryType::Episodic;
                confidence = if *success {
                    900
                } else {
                    750
                };
                ttl_secs = Some(self.cfg.episodic_ttl_secs);
                push_code(
                    &mut codes,
                    if *success {
                        "worker_step_success"
                    } else {
                        "worker_step_failure"
                    },
                );
            },
            MemoryWriteIntent::VerifierOutcome { passed, high_risk, contradiction_detected } => {
                memory_type = MemoryType::Episodic;
                confidence = if *passed {
                    900
                } else {
                    850
                };
                ttl_secs = Some(self.cfg.episodic_ttl_secs);
                if *high_risk {
                    push_code(&mut codes, "verifier_high_risk");
                }
                if *contradiction_detected {
                    push_code(&mut codes, "verifier_contradiction");
                }
            },
            MemoryWriteIntent::PolicyOutcome { denied, requires_approval } => {
                memory_type = MemoryType::Episodic;
                confidence = 950;
                ttl_secs = None;
                if *denied {
                    push_code(&mut codes, "policy_denial");
                }
                if *requires_approval {
                    push_code(&mut codes, "approval_flow");
                }
            },
            MemoryWriteIntent::ToolMemoryWrite { target } => {
                let t = to_chars(target.as_str());
                if chars_eq_str(t.as_slice(), "daily_log") {
                    memory_type = MemoryType::Episodic;
                    confidence = hint_or(800);
                    ttl_secs = Some(self.cfg.episodic_ttl_secs);
                    push_code(&mut codes, "tool_target_daily_log");
                } else if chars_eq_str(t.as_slice(), "heartbeat") {
                    if looks_procedural_heartbeat(candidate) {
                        memory_type = MemoryType::Procedural;
                        ttl_secs = None;
                        push_code(&mut codes, "tool_target_heartbeat_procedural");
                    } else {
                        memory_type = MemoryType::Working;
                        ttl_secs = Some(self.cfg.working_ttl_secs);
                        push_code(&mut codes, "tool_target_heartbeat_working");
                    }
                    confidence = hint_or(750);
                } else {
                    memory_type = match candidate.desired_memory_type {
                        Some(t) => t,
                        None => MemoryType::Semantic,
                    };
                    confidence = hint_or(650);
                    push_code(&mut codes, "tool_target_memory");
                }
            },
            MemoryWriteIntent::RoutineSummary { successful } => {
                memory_type = MemoryType::Episodic;
                confidence = if *successful {
                    880
                } else {
                    760
                };
                ttl_secs = Some(self.cfg.episodic_ttl_secs);
                push_code(&mut codes, "routine_summary");
            },
            MemoryWriteIntent::ConsolidatorOutput { action } => match action {
                ConsolidationAction::PromoteSemantic => {
                    memory_type = MemoryType::Semantic;
                    ttl_secs = None;
                    confidence = hint_or(780);
                    push_code(&mut codes, "consolidator_promote_semantic");
                },
                ConsolidationAction::GeneratePlaybook => {
                    memory_type = MemoryType::Procedural;
                    ttl_secs = None;
                    confidence = hint_or(800);
                    push_code(&mut codes, "consolidator_generate_playbook");
                },
                ConsolidationAction::ArchiveSummary => {
                    memory_type = MemoryType::Episodic;
                    status = MemoryRecordStatus::Archived;
                    ttl_secs = None;
                    confidence = hint_or(750);
                    push_code(&mut codes, "consolidator_archive_summary");
                },
                ConsolidationAction::Demote => {
                    status = MemoryRecordStatus::Demoted;
                    push_code(&mut codes, "consolidator_demote");
                },
                ConsolidationAction::Reject => {
                    allow = false;
                    status = MemoryRecordStatus::Rejected;
                    push_code(&mut codes, "consolidator_reject");
                },
            },
            MemoryWriteIntent::Generic => {
                push_code(&mut codes, "generic_default");
            },
        }
        let ghost r = intent_rules(self.cfg, *candidate, procedural);
        assert(codes.deep_view() =~= seq!["classified"@] + r.5);
        assert(memory_type == r.1 && status == r.2 && allow == r.0 && ttl_secs == r.4);
        assert(confidence as int == r.3);
        let durable = memory_type == MemoryType::Semantic || memory_type == MemoryType::Procedural;
        let mut required: Vec<String> = Vec::new();
        if durable {
            push_code(&mut required, "source");
            push_code(&mut required, "timestamp");
            if !has_required_provenance(&candidate.provenance_keys) {
                push_code(&mut codes, "missing_provenance_fields");
                if hint.is_none() && confidence > 650 {
                    confidence = 650;
                }
            }
        }
        assert(required.deep_view() =~= (if durable {
            seq!["source"@, "timestamp"@]
        } else {
            Seq::<Seq<char>>::empty()
        }));
        let ghost codes1 = codes.deep_view();
        if candidate.high_impact && durable && confidence < 750 {
            allow = false;
            status = MemoryRecordStatus::Rejected;
            push_code(&mut codes, "low_confidence_high_impact_rejected");
        }
        let ghost w = write_decision(
            self.cfg,
            *candidate,
            procedural,
            provenance_complete(candidate.provenance_keys),
        );
        assert(codes.deep_view() =~= w.5);
        MemoryWriteDecision {
            allow,
            memory_type,
            status,
            reason_codes: codes,
            confidence_milli: confidence,
            sensitivity,
            ttl_secs,
            required_provenance_fields: required,
        }
    }
}

/// A write that the policy rejects is never stored as active: rejection is
/// reported both by `allow == false` and by the rejected status.
pub proof fn lemma_rejected_writes_are_not_allowed(
    cfg: MemoryWritePolicyConfig,
    c: MemoryWriteCandidate,
    procedural: bool,
    provenance_ok: bool,
)
    ensures
        ({
            let w = write_decision(cfg, c, procedural, provenance_ok);
            w.2 == MemoryRecordStatus::Rejected <==> !w.0
        }),
{
}

/// High-impact semantic or procedural memories are only stored with a
/// confidence of at least 0.75.
pub proof fn lemma_high_impact_durable_needs_confidence(
    cfg: MemoryWritePolicyConfig,
    c: MemoryWriteCandidate,
    procedural: bool,
    provenance_ok: bool,
)
    requires
        c.high_impact,
    ensures
        ({
            let w = write_decision(cfg, c, procedural, provenance_ok);
            (w.0 && is_durable_type(w.1)) ==> w.3 >= 750
        }),
{
}

/// A heartbeat write (a tool memory write aimed at `heartbeat`) is kept as
/// procedural memory with no time to live, reason
/// `tool_target_heartbeat_procedural`, exactly when its lower-cased
/// category, title, summary and payload mention a checklist, runbook,
/// procedure, playbook or step; otherwise it is working memory that lives
/// for the configured working time, reason `tool_target_heartbeat_working`.
pub proof fn law_heartbeat_writes(cfg: MemoryWritePolicyConfig, c: MemoryWriteCandidate, provenance_ok: bool)
    requires
        c.intent matches MemoryWriteIntent::ToolMemoryWrite { target } && target@ == "heartbeat"@,
    ensures
        ({
            let h = heartbeat_haystack(c);
            let procedure_like = contains(h, "checklist"@) || contains(h, "runbook"@) || contains(
                h,
                "procedure"@,
            ) || contains(h, "playbook"@) || contains(h, "step"@);
            let w = write_decision(cfg, c, procedural_heartbeat(c), provenance_ok);
            &&& procedure_like ==> (w.1 == MemoryType::Procedural && w.4 is None && w.5.contains(
                "tool_target_heartbeat_procedural"@,
            ))
            &&& !procedure_like ==> (w.1 == MemoryType::Working && w.4 == Some(cfg.working_ttl_secs)
                && w.5.contains("tool_target_heartbeat_working"@))
        }),
{
    reveal_strlit("heartbeat");
    reveal_strlit("daily_log");
    if let MemoryWriteIntent::ToolMemoryWrite { target } = c.intent {
        assert(target@ != "daily_log"@) by {
            assert(target@[0] != "daily_log"@[0]);
        }
    }
    let w = write_decision(cfg, c, procedural_heartbeat(c), provenance_ok);
    let r = intent_rules(cfg, c, procedural_heartbeat(c));
    assert(w.5[1] == r.5[0]);
}

/// When a newly written record expires (milliseconds): its time to live
/// after `now` when that is positive and representable as a duration in
/// seconds; never otherwise.
pub fn record_expiry_ms(ttl_secs: Option<i64>, now_ms: i64) -> (r: Option<i64>)
    requires
        forall|t: i64| ttl_secs == Some(t) && 0 < t <= i64::MAX / 1000 ==> now_ms + t * 1000 <= i64::MAX,
    ensures
        r == match ttl_secs {
            Some(t) => if 0 < t && t <= i64::MAX / 1000 {
                Some((now_ms + t * 1000) as i64)
            } else {
                None
            },
            None => None,
        },
{
    match ttl_secs {
        Some(t) => if 0 < t && t <= i64::MAX / 1000 {
            Some(now_ms + t * 1000)
        } else {
            None
        },
        None => None,
    }
}

} // verus!
