//! Memory consolidation: what happens to each pending episodic record, and
//! how a consolidation run is tallied.
use vstd::prelude::*;
use crate::memory::{ConsolidationAction, ConsolidationRunStatus, MemoryRecordStatus};
use crate::text::{chars_eq_str, push_str, string_of, to_chars};

verus! {

/// Settings of the memory consolidator.
#[derive(Debug)]
pub struct MemoryConsolidatorConfig {
    pub enabled: bool,
    pub interval: std::time::Duration,
    pub batch_size: u32,
}

/// Periodic consolidation of episodic memory.
#[derive(Debug)]
pub struct MemoryConsolidator {
    pub cfg: MemoryConsolidatorConfig,
}

impl MemoryConsolidator {
    /// A consolidator with the given settings.
    pub fn new(cfg: MemoryConsolidatorConfig) -> (c: Self)
        ensures
            c.cfg == cfg,
    {
        MemoryConsolidator { cfg }
    }

    /// Whether consolidation runs at all.
    pub fn enabled(&self) -> (b: bool)
        ensures
            b == self.cfg.enabled,
    {
        self.cfg.enabled
    }

    /// How often consolidation runs.
    pub fn interval(&self) -> (d: std::time::Duration)
        ensures
            d == self.cfg.interval,
    {
        self.cfg.interval
    }
}

/// What consolidation does with a record, by its category.
#[derive(Debug, Clone, Copy, PartialEq, Eq)]
pub struct RecordPlan {
    pub action: ConsolidationAction,
    pub promoted: bool,
    pub archived: bool,
    /// The status the source record ends in.
    pub new_status: MemoryRecordStatus,
}

/// The plan for a record of a category: a routine playbook candidate feeds
/// a procedural playbook, a routine run summary is promoted to a semantic
/// record (both then archived); anything else is demoted.
pub open spec fn plan_spec(category: Seq<char>) -> RecordPlan {
    if category == "routine_playbook_candidate"@ {
        RecordPlan {
            action: ConsolidationAction::GeneratePlaybook,
            promoted: true,
            archived: true,
            new_status: MemoryRecordStatus::Archived,
        }
    } else if category == "routine_run_summary"@ {
        RecordPlan {
            action: ConsolidationAction::PromoteSemantic,
            promoted: true,
            archived: true,
            new_status: MemoryRecordStatus::Archived,
        }
    } else {
        RecordPlan {
            action: ConsolidationAction::Demote,
            promoted: false,
            archived: false,
            new_status: MemoryRecordStatus::Demoted,
        }
    }
}

/// The plan for a record of a category.
pub fn plan_for_category(category: &str) -> (p: RecordPlan)
    ensures
        p == plan_spec(category@),
{
    let c = to_chars(category);
    if chars_eq_str(c.as_slice(), "routine_playbook_candidate") {
        RecordPlan {
            action: ConsolidationAction::GeneratePlaybook,
            promoted: true,
            archived: true,
            new_status: MemoryRecordStatus::Archived,
        }
    } else if chars_eq_str(c.as_slice(), "routine_run_summary") {
        RecordPlan {
            action: ConsolidationAction::PromoteSemantic,
            promoted: true,
            archived: true,
            new_status: MemoryRecordStatus::Archived,
        }
    } else {
        RecordPlan {
            action: ConsolidationAction::Demote,
            promoted: false,
            archived: false,
            new_status: MemoryRecordStatus::Demoted,
        }
    }
}

/// The title of the semantic record made from a routine summary.
pub fn consolidated_title(title: &str) -> (s: String)
    ensures
        s@ == "Consolidated: "@ + title@,
{
    let mut s = string_of("Consolidated: ");
    push_str(&mut s, title);
    s
}

/// The playbook that a routine candidate feeds: named after the routine
/// (the record's title when the payload names none), of the payload's task
/// class (`routine_automation` by default).
pub fn playbook_identity(task_class: Option<&str>, routine_name: Option<&str>, title: &str) -> (r: (String, String))
    ensures
        r.0@ == "Routine: "@ + match routine_name {
            Some(n) => n@,
            None => title@,
        },
        r.1@ == match task_class {
            Some(t) => t@,
            None => "routine_automation"@,
        },
{
    let mut name = string_of("Routine: ");
    match routine_name {
        Some(n) => push_str(&mut name, n),
        None => push_str(&mut name, title),
    }
    let class = match task_class {
        Some(t) => string_of(t),
        None => string_of("routine_automation"),
    };
    (name, class)
}

/// Records a source record among a playbook's sources, once.
pub fn add_source_id(ids: &mut Vec<u128>, id: u128)
    ensures
        final(ids)@ == if old(ids)@.contains(id) {
            old(ids)@
        } else {
            old(ids)@.push(id)
        },
{
    let mut i: usize = 0;
    while i < ids.len()
        invariant
            i <= ids@.len(),
            ids@ == old(ids)@,
            forall|j: int| 0 <= j < i ==> ids@[j] != id,
        decreases ids@.len() - i,
    {
        if ids[i] == id {
            assert(ids@[i as int] == id);
            return;
        }
        i = i + 1;
    }
    ids.push(id);
}

/// The counters of a consolidation run. A run starts from `new`, counts
/// each listed record with `record_success` or `record_error`, and ends with
/// `finish`; `law_consolidation_run_counts` states its totals.
#[derive(Debug)]
pub struct ConsolidationTally {
    pub processed_count: u64,
    pub promoted_count: u64,
    pub playbooks_created_count: u64,
    pub archived_count: u64,
    pub error_count: u64,
    pub checkpoint_cursor: Option<String>,
}

/// A tally with every counter at zero.
pub open spec fn is_fresh_tally(t: ConsolidationTally) -> bool {
    t.processed_count == 0 && t.promoted_count == 0 && t.playbooks_created_count == 0
        && t.archived_count == 0 && t.error_count == 0
}

/// The counters after a record was consolidated with `plan`: one more
/// processed, one more promoted or archived when the plan promotes or
/// archives, one more playbook when one was created, errors unchanged.
pub open spec fn success_step(
    before: ConsolidationTally,
    after: ConsolidationTally,
    plan: RecordPlan,
    playbook_created: bool,
) -> bool {
    &&& after.processed_count == before.processed_count + 1
    &&& after.promoted_count == before.promoted_count + if plan.promoted {
        1int
    } else {
        0int
    }
    &&& after.playbooks_created_count == before.playbooks_created_count + if playbook_created {
        1int
    } else {
        0int
    }
    &&& after.archived_count == before.archived_count + if plan.archived {
        1int
    } else {
        0int
    }
    &&& after.error_count == before.error_count
}

/// The counters after a record failed: one more error, nothing else.
pub open spec fn error_step(before: ConsolidationTally, after: ConsolidationTally) -> bool {
    &&& after.error_count == before.error_count + 1
    &&& after.processed_count == before.processed_count
    &&& after.promoted_count == before.promoted_count
    &&& after.playbooks_created_count == before.playbooks_created_count
    &&& after.archived_count == before.archived_count
}

impl ConsolidationTally {
    /// A run that has handled nothing yet.
    pub fn new() -> (t: Self)
        ensures
            is_fresh_tally(t),
            t.checkpoint_cursor is None,
    {
        ConsolidationTally {
            processed_count: 0,
            promoted_count: 0,
            playbooks_created_count: 0,
            archived_count: 0,
            error_count: 0,
            checkpoint_cursor: None,
        }
    }

    /// Counts a record that was consolidated; the cursor moves past it.
    pub fn record_success(&mut self, plan: RecordPlan, playbook_created: bool, cursor: String)
        requires
            old(self).processed_count < u64::MAX,
            old(self).promoted_count < u64::MAX,
            old(self).playbooks_created_count < u64::MAX,
            old(self).archived_count < u64::MAX,
        ensures
            success_step(*old(self), *final(self), plan, playbook_created),
            final(self).checkpoint_cursor == Some(cursor),
    {
        self.processed_count = self.processed_count + 1;
        if plan.promoted {
            self.promoted_count = self.promoted_count + 1;
        }
        if playbook_created {
            self.playbooks_created_count = self.playbooks_created_count + 1;
        }
        if plan.archived {
            self.archived_count = self.archived_count + 1;
        }
        self.checkpoint_cursor = Some(cursor);
    }

    /// Counts a record whose consolidation failed; nothing else changes.
    pub fn record_error(&mut self)
        requires
            old(self).error_count < u64::MAX,
        ensures
            error_step(*old(self), *final(self)),
            final(self).checkpoint_cursor == old(self).checkpoint_cursor,
    {
        self.error_count = self.error_count + 1;
    }

    /// The run's final status and note: completed without errors, partial
    /// when some records failed and some were consolidated, failed when
    /// every record failed; noted when there was nothing to do.
    pub fn finish(&self) -> (r: (ConsolidationRunStatus, Option<String>))
        ensures
            r.0 == if self.error_count == 0 {
                ConsolidationRunStatus::Completed
            } else if self.processed_count > 0 {
                ConsolidationRunStatus::Partial
            } else {
                ConsolidationRunStatus::Failed
            },
            match r.1 {
                Some(n) => self.processed_count == 0 && self.error_count == 0 && n@
                    == "No pending episodic records"@,
                None => !(self.processed_count == 0 && self.error_count == 0),
            },
    {
        let status = if self.error_count == 0 {
            ConsolidationRunStatus::Completed
        } else if self.processed_count > 0 {
            ConsolidationRunStatus::Partial
        } else {
            ConsolidationRunStatus::Failed
        };
        let note = if self.processed_count == 0 && self.error_count == 0 {
            Some(string_of("No pending episodic records"))
        } else {
            None
        };
        (status, note)
    }
}


/// What became of one listed record in a consolidation run.
pub enum RecordOutcome {
    /// Consolidated by its category's plan; a playbook may have been created.
    Consolidated { plan: RecordPlan, playbook_created: bool },
    /// Its consolidation failed.
    Failed,
}

/// An outcome that consolidation can give: the plan is some category's
/// plan, and a playbook is only created when generating one.
pub open spec fn is_possible_outcome(o: RecordOutcome) -> bool {
    match o {
        RecordOutcome::Consolidated { plan, playbook_created } => {
            &&& exists|c: Seq<char>| plan == #[trigger] plan_spec(c)
            &&& (playbook_created ==> plan.action == ConsolidationAction::GeneratePlaybook)
        },
        RecordOutcome::Failed => true,
    }
}

/// The tally moves from `before` to `after` as the outcome says.
pub open spec fn outcome_step(before: ConsolidationTally, o: RecordOutcome, after: ConsolidationTally) -> bool {
    match o {
        RecordOutcome::Consolidated { plan, playbook_created } => success_step(
            before,
            after,
            plan,
            playbook_created,
        ),
        RecordOutcome::Failed => error_step(before, after),
    }
}

/// How many of the outcomes are failures.
pub open spec fn failed_count(os: Seq<RecordOutcome>) -> nat
    decreases os.len(),
{
    if os.len() == 0 {
        0
    } else {
        failed_count(os.drop_last()) + if os.last() is Failed {
            1nat
        } else {
            0nat
        }
    }
}

/// A consolidation run over a list of records, starting from a fresh tally
/// and counting each record's outcome in turn, ends with every record
/// counted once: processed plus errors is the number of records, errors is
/// the number of failures, every promoted record is archived and every
/// archived one promoted, and no more playbooks are created than records
/// promoted.
pub proof fn law_consolidation_run_counts(tallies: Seq<ConsolidationTally>, outcomes: Seq<RecordOutcome>)
    requires
        tallies.len() == outcomes.len() + 1,
        is_fresh_tally(tallies[0]),
        forall|i: int| 0 <= i < outcomes.len() ==> #[trigger] is_possible_outcome(outcomes[i]),
        forall|i: int| 0 <= i < outcomes.len() ==> #[trigger] outcome_step(tallies[i], outcomes[i], tallies[i + 1]),
    ensures
        tallies.last().processed_count + tallies.last().error_count == outcomes.len(),
        tallies.last().error_count == failed_count(outcomes),
        tallies.last().promoted_count == tallies.last().archived_count,
        tallies.last().archived_count <= tallies.last().processed_count,
        tallies.last().playbooks_created_count <= tallies.last().promoted_count,
        outcomes.len() == 0 <==> (tallies.last().processed_count == 0 && tallies.last().error_count == 0),
    decreases outcomes.len(),
{
    if outcomes.len() > 0 {
        let n = outcomes.len() - 1;
        let tp = tallies.take(n + 1);
        let op = outcomes.take(n);
        assert forall|i: int| 0 <= i < op.len() implies #[trigger] is_possible_outcome(op[i]) by {
            assert(op[i] == outcomes[i]);
        }
        assert forall|i: int| 0 <= i < op.len() implies #[trigger] outcome_step(tp[i], op[i], tp[i + 1]) by {
            assert(op[i] == outcomes[i]);
            assert(tp[i] == tallies[i]);
            assert(tp[i + 1] == tallies[i + 1]);
        }
        law_consolidation_run_counts(tp, op);
        assert(op == outcomes.drop_last());
        assert(tp.last() == tallies[n]);
        assert(is_possible_outcome(outcomes[n]));
        assert(outcome_step(tallies[n], outcomes[n], tallies[n + 1]));
        assert(tallies.last() == tallies[n + 1]);
        assert(outcomes.last() == outcomes[n]);
        if let RecordOutcome::Consolidated { plan, playbook_created } = outcomes[n] {
            let c = choose|c: Seq<char>| plan == #[trigger] plan_spec(c);
            assert(plan == plan_spec(c));
        }
    }
}

} // verus!
