//! Memory retrieval: the task class of a job, the retrieval budget per
//! memory kind, and the relevance scores of records and playbooks.
use vstd::prelude::*;
use crate::memory::{MemoryType, ProceduralPlaybookStatus};
use crate::telemetry::truncated_with_ellipsis;
use crate::text::{
    ascii_lower, contains, contains_str, decimal_i64, decimal_int, lemma_ascii_lower_concat,
    lemma_contains_concat, lower_chars, push_chars, push_str, string_of, to_chars, trim, trim_str,
};

pub use crate::telemetry::truncate_chars;

verus! {

/// The kind of task a retrieval serves.
#[derive(Debug, Clone, Copy, PartialEq, Eq, Structural)]
pub enum RetrievalTaskClass {
    Coding,
    Troubleshooting,
    Research,
    RoutineAutomation,
    SystemAdmin,
    General,
}

/// The task class from a job's category and its title and description, all
/// compared in ASCII lower case (title and description joined by a line
/// break); the first matching class wins.
pub open spec fn task_class_spec(cat: Seq<char>, text: Seq<char>) -> RetrievalTaskClass {
    if contains(cat, "routine"@) || contains(text, "cron"@) || contains(text, "routine"@)
        || contains(text, "scheduled"@) {
        RetrievalTaskClass::RoutineAutomation
    } else if contains(cat, "debug"@) || contains(cat, "incident"@) || contains(text, "troubleshoot"@)
        || contains(text, "error"@) || contains(text, "failed"@) {
        RetrievalTaskClass::Troubleshooting
    } else if contains(cat, "research"@) || contains(text, "summarize"@) || contains(
        text,
        "research"@,
    ) || contains(text, "investigate"@) {
        RetrievalTaskClass::Research
    } else if contains(cat, "ops"@) || contains(cat, "admin"@) || contains(text, "deploy"@)
        || contains(text, "service"@) || contains(text, "systemd"@) {
        RetrievalTaskClass::SystemAdmin
    } else if contains(cat, "code"@) || contains(cat, "dev"@) || contains(text, "rust"@) || contains(
        text,
        "compile"@,
    ) || contains(text, "test"@) || contains(text, "code"@) || contains(text, "refactor"@) {
        RetrievalTaskClass::Coding
    } else {
        RetrievalTaskClass::General
    }
}

/// The text a job's title and description are classified by: both joined
/// by a line break, in ASCII lower case.
pub open spec fn task_text(title: Seq<char>, description: Seq<char>) -> Seq<char> {
    ascii_lower(title + seq!['\n'] + description)
}

/// A marker found (in ASCII lower case) in the title or in the description
/// is found in the classified text.
pub proof fn lemma_task_text_has_parts(title: Seq<char>, description: Seq<char>, marker: Seq<char>)
    ensures
        contains(ascii_lower(title), marker) || contains(ascii_lower(description), marker) ==> contains(
            task_text(title, description),
            marker,
        ),
{
    lemma_ascii_lower_concat(title + seq!['\n'], description);
    lemma_ascii_lower_concat(title, seq!['\n']);
    lemma_contains_concat(ascii_lower(title), ascii_lower(seq!['\n']), marker);
    lemma_contains_concat(ascii_lower(title + seq!['\n']), ascii_lower(description), marker);
}

/// The classes are tried in order and the first that matches wins, each
/// matching on markers in the job's category (`cat`, lower-cased) or its
/// title and description (`text`, lower-cased): routine automation on
/// `routine` in the category or `cron`, `routine`, `scheduled` in the text;
/// troubleshooting on `debug`, `incident` in the category or
/// `troubleshoot`, `error`, `failed` in the text; research on `research` in
/// the category or `summarize`, `research`, `investigate` in the text;
/// system administration on `ops`, `admin` in the category or `deploy`,
/// `service`, `systemd` in the text; coding on `code`, `dev` in the
/// category or `rust`, `compile`, `test`, `code`, `refactor` in the text. A
/// job with none of these markers is general.
pub proof fn law_task_class_markers(cat: Seq<char>, text: Seq<char>)
    ensures
        ({
            let k = task_class_spec(cat, text);
            let routine = contains(cat, "routine"@) || contains(text, "cron"@) || contains(
                text,
                "routine"@,
            ) || contains(text, "scheduled"@);
            let trouble = contains(cat, "debug"@) || contains(cat, "incident"@) || contains(
                text,
                "troubleshoot"@,
            ) || contains(text, "error"@) || contains(text, "failed"@);
            let research = contains(cat, "research"@) || contains(text, "summarize"@) || contains(
                text,
                "research"@,
            ) || contains(text, "investigate"@);
            let admin = contains(cat, "ops"@) || contains(cat, "admin"@) || contains(text, "deploy"@)
                || contains(text, "service"@) || contains(text, "systemd"@);
            let coding = contains(cat, "code"@) || contains(cat, "dev"@) || contains(text, "rust"@)
                || contains(text, "compile"@) || contains(text, "test"@) || contains(text, "code"@)
                || contains(text, "refactor"@);
            &&& routine ==> k == RetrievalTaskClass::RoutineAutomation
            &&& !routine && trouble ==> k == RetrievalTaskClass::Troubleshooting
            &&& !routine && !trouble && research ==> k == RetrievalTaskClass::Research
            &&& !routine && !trouble && !research && admin ==> k == RetrievalTaskClass::SystemAdmin
            &&& !routine && !trouble && !research && !admin && coding ==> k
                == RetrievalTaskClass::Coding
            &&& k == RetrievalTaskClass::General <==> !(routine || trouble || research || admin
                || coding)
        }),
{
}

/// A job whose title or description mentions research (in any ASCII case),
/// and that no routine or troubleshooting marker claims first, is a
/// research task.
pub proof fn law_research_jobs(category: Option<&str>, title: Seq<char>, description: Seq<char>)
    ensures
        ({
            let cat = ascii_lower(text_or_empty(category));
            let text = task_text(title, description);
            let k = task_class_spec(cat, text);
            (contains(ascii_lower(title), "research"@) || contains(ascii_lower(description), "research"@))
                ==> (k == RetrievalTaskClass::RoutineAutomation || k == RetrievalTaskClass::Troubleshooting
                || k == RetrievalTaskClass::Research)
        }),
{
    lemma_task_text_has_parts(title, description, "research"@);
    law_task_class_markers(ascii_lower(text_or_empty(category)), task_text(title, description));
}

/// An optional text, or the empty text.
pub open spec fn text_or_empty(o: Option<&str>) -> Seq<char> {
    match o {
        Some(x) => x@,
        None => Seq::<char>::empty(),
    }
}

/// The memory retrieval composer.
pub struct MemoryRetrievalComposer;

impl MemoryRetrievalComposer {
    /// The task class of a job, from its category, title and description.
    pub fn infer_task_class(category: Option<&str>, title: &str, description: &str) -> (c: RetrievalTaskClass)
        ensures
            c == task_class_spec(
                ascii_lower(text_or_empty(category)),
                ascii_lower(title@ + seq!['\n'] + description@),
            ),
    {
        let cat = match category {
            Some(x) => {
                let v = to_chars(x);
                lower_chars(v.as_slice())
            },
            None => Vec::new(),
        };
        let mut joined = to_chars(title);
        joined.push('\n');
        let d = to_chars(description);
        let mut i: usize = 0;
        let ghost start = joined@;
        while i < d.len()
            invariant
                i <= d@.len(),
                joined@ == start + d@.take(i as int),
            decreases d@.len() - i,
        {
            joined.push(d[i]);
            i = i + 1;
            assert(joined@ =~= start + d@.take(i as int));
        }
        assert(d@.take(d@.len() as int) =~= d@);
        assert(joined@ =~= title@ + seq!['\n'] + description@);
        let text = lower_chars(joined.as_slice());
        assert(cat@ =~= ascii_lower(text_or_empty(category)));
        let (c, t) = (cat.as_slice(), text.as_slice());
        if contains_str(c, "routine") || contains_str(t, "cron") || contains_str(t, "routine")
            || contains_str(t, "scheduled") {
            return RetrievalTaskClass::RoutineAutomation;
        }
        if contains_str(c, "debug") || contains_str(c, "incident") || contains_str(t, "troubleshoot")
            || contains_str(t, "error") || contains_str(t, "failed") {
            return RetrievalTaskClass::Troubleshooting;
        }
        if contains_str(c, "research") || contains_str(t, "summarize") || contains_str(t, "research")
            || contains_str(t, "investigate") {
            return RetrievalTaskClass::Research;
        }
        if contains_str(c, "ops") || contains_str(c, "admin") || contains_str(t, "deploy")
            || contains_str(t, "service") || contains_str(t, "systemd") {
            return RetrievalTaskClass::SystemAdmin;
        }
        if contains_str(c, "code") || contains_str(c, "dev") || contains_str(t, "rust") || contains_str(
            t,
            "compile",
        ) || contains_str(t, "test") || contains_str(t, "code") || contains_str(t, "refactor") {
            return RetrievalTaskClass::Coding;
        }
        RetrievalTaskClass::General
    }
}

/// How many items of each memory kind a retrieval takes.
#[derive(Debug, Clone, Copy, PartialEq, Eq, Structural)]
pub struct Limits {
    pub working: usize,
    pub episodic: usize,
    pub semantic: usize,
    pub playbooks: usize,
}

/// The base limits of a task class.
pub open spec fn base_limits(c: RetrievalTaskClass) -> (int, int, int, int) {
    match c {
        RetrievalTaskClass::Coding => (2, 4, 4, 2),
        RetrievalTaskClass::Troubleshooting => (2, 5, 2, 3),
        RetrievalTaskClass::RoutineAutomation => (2, 4, 2, 4),
        RetrievalTaskClass::Research => (1, 2, 5, 1),
        RetrievalTaskClass::SystemAdmin => (2, 4, 3, 3),
        RetrievalTaskClass::General => (2, 3, 3, 2),
    }
}

/// `x * budget / total` rounded to the nearest integer (halves up), and at
/// least one.
pub open spec fn scaled(x: int, budget: int, total: int) -> int {
    let r = (2 * x * budget + total) / (2 * total);
    if r < 1 {
        1
    } else {
        r
    }
}

/// The budget held between 4 and 20.
pub open spec fn clamp_budget(b: int) -> int {
    if b < 4 {
        4
    } else if b > 20 {
        20
    } else {
        b
    }
}

fn scale_one(x: usize, budget: usize, total: usize) -> (r: usize)
    requires
        1 <= x <= 5,
        4 <= budget <= 20,
        9 <= total <= 12,
    ensures
        r == scaled(x as int, budget as int, total as int),
{
    assert(2 * x * budget <= 200) by (nonlinear_arith)
        requires
            x <= 5,
            budget <= 20,
    ;
    let q = (2 * x * budget + total) / (2 * total);
    if q < 1 {
        1
    } else {
        q
    }
}

impl Limits {
    /// The limits of a task class within a budget (held between 4 and 20):
    /// the class's base limits when they fit, else each scaled down to the
    /// budget (rounded, at least one).
    pub fn for_task(task_class: RetrievalTaskClass, limit_budget: usize) -> (l: Self)
        ensures
            ({
                let (w, e, s, p) = base_limits(task_class);
                let total = w + e + s + p;
                let b = clamp_budget(limit_budget as int);
                if total <= b {
                    l.working == w && l.episodic == e && l.semantic == s && l.playbooks == p
                } else {
                    &&& l.working == scaled(w, b, total)
                    &&& l.episodic == scaled(e, b, total)
                    &&& l.semantic == scaled(s, b, total)
                    &&& l.playbooks == scaled(p, b, total)
                }
            }),
    {
        let budget: usize = if limit_budget < 4 {
            4
        } else if limit_budget > 20 {
            20
        } else {
            limit_budget
        };
        let base = match task_class {
            RetrievalTaskClass::Coding => Limits { working: 2, episodic: 4, semantic: 4, playbooks: 2 },
            RetrievalTaskClass::Troubleshooting => Limits {
                working: 2,
                episodic: 5,
                semantic: 2,
                playbooks: 3,
            },
            RetrievalTaskClass::RoutineAutomation => Limits {
                working: 2,
                episodic: 4,
                semantic: 2,
                playbooks: 4,
            },
            RetrievalTaskClass::Research => Limits { working: 1, episodic: 2, semantic: 5, playbooks: 1 },
            RetrievalTaskClass::SystemAdmin => Limits {
                working: 2,
                episodic: 4,
                semantic: 3,
                playbooks: 3,
            },
            RetrievalTaskClass::General => Limits { working: 2, episodic: 3, semantic: 3, playbooks: 2 },
        };
        let total = base.working + base.episodic + base.semantic + base.playbooks;
        if total <= budget {
            return base;
        }
        Limits {
            working: scale_one(base.working, budget, total),
            episodic: scale_one(base.episodic, budget, total),
            semantic: scale_one(base.semantic, budget, total),
            playbooks: scale_one(base.playbooks, budget, total),
        }
    }
}

/// What the relevance score of a memory record reads.
#[derive(Debug, Clone)]
pub struct RecordScoreInput {
    pub goal_id: Option<u128>,
    pub plan_id: Option<u128>,
    pub job_id: Option<u128>,
    /// The record's confidence times ten, truncated.
    pub confidence_tenths: i64,
    pub category: String,
    pub title: String,
    pub summary: String,
}

/// What a retrieval request scores against.
#[derive(Debug, Clone)]
pub struct RetrievalFocus {
    pub goal_id: Option<u128>,
    pub plan_id: Option<u128>,
    pub job_id: Option<u128>,
    pub task_class: RetrievalTaskClass,
}

/// The same id is requested and carried by the record.
pub open spec fn same_id(req: Option<u128>, rec: Option<u128>) -> bool {
    req is Some && rec == req
}

/// The text of a record that the score searches.
pub open spec fn score_text(r: RecordScoreInput) -> Seq<char> {
    ascii_lower(r.category@) + seq![' '] + ascii_lower(r.title@) + seq![' '] + ascii_lower(r.summary@)
}

/// The task-class part of a record's score.
pub open spec fn class_bonus(c: RetrievalTaskClass, t: Seq<char>, ty: MemoryType, category: Seq<char>) -> int {
    match c {
        RetrievalTaskClass::RoutineAutomation => (if contains(t, "routine"@) {
            25int
        } else {
            0int
        }) + (if ty == MemoryType::Episodic && category == "routine_run_summary"@ {
            15int
        } else {
            0int
        }),
        RetrievalTaskClass::Troubleshooting => (if contains(t, "fail"@) || contains(t, "error"@)
            || contains(t, "deny"@) {
            25int
        } else {
            0int
        }) + (if ty == MemoryType::Episodic {
            10int
        } else {
            0int
        }),
        RetrievalTaskClass::Coding => (if contains(t, "verifier"@) || contains(t, "step"@) || contains(
            t,
            "lint"@,
        ) || contains(t, "test"@) || contains(t, "diff"@) || contains(t, "replan"@) {
            20int
        } else {
            0int
        }) + (if ty == MemoryType::Semantic {
            10int
        } else {
            0int
        }),
        RetrievalTaskClass::Research => if ty == MemoryType::Semantic {
            20int
        } else {
            0int
        },
        RetrievalTaskClass::SystemAdmin => if contains(t, "deploy"@) || contains(t, "service"@)
            || contains(t, "timeout"@) || contains(t, "system"@) {
            20int
        } else {
            0int
        },
        RetrievalTaskClass::General => 0int,
    }
}

/// The relevance score of a record: 20 for the requested goal, 20 for the
/// requested plan, 10 for the requested job, its confidence in tenths, and
/// the task class's bonus for its text and kind.
pub open spec fn record_score_spec(r: RecordScoreInput, q: RetrievalFocus, ty: MemoryType) -> int {
    (if same_id(q.goal_id, r.goal_id) {
        20int
    } else {
        0int
    }) + (if same_id(q.plan_id, r.plan_id) {
        20int
    } else {
        0int
    }) + (if same_id(q.job_id, r.job_id) {
        10int
    } else {
        0int
    }) + r.confidence_tenths + class_bonus(q.task_class, score_text(r), ty, r.category@)
}

fn id_matches(req: Option<u128>, rec: Option<u128>) -> (b: bool)
    ensures
        b == same_id(req, rec),
{
    match (req, rec) {
        (Some(a), Some(b)) => a == b,
        _ => false,
    }
}

/// The relevance score of a record for a request.
pub fn score_record(record: &RecordScoreInput, req: &RetrievalFocus, memory_type: MemoryType) -> (s: i64)
    requires
        record.confidence_tenths <= i64::MAX - 90,
    ensures
        s == record_score_spec(*record, *req, memory_type),
{
    let mut score: i64 = 0;
    if id_matches(req.goal_id, record.goal_id) {
        score = score + 20;
    }
    if id_matches(req.plan_id, record.plan_id) {
        score = score + 20;
    }
    if id_matches(req.job_id, record.job_id) {
        score = score + 10;
    }
    let c = to_chars(record.category.as_str());
    let mut text = lower_chars(c.as_slice());
    text.push(' ');
    let tt = to_chars(record.title.as_str());
    let tl = lower_chars(tt.as_slice());
    let ghost a = text@;
    let mut i: usize = 0;
    while i < tl.len()
        invariant
            i <= tl@.len(),
            text@ == a + tl@.take(i as int),
        decreases tl@.len() - i,
    {
        text.push(tl[i]);
        i = i + 1;
        assert(text@ =~= a + tl@.take(i as int));
    }
    assert(tl@.take(tl@.len() as int) =~= tl@);
    text.push(' ');
    let su = to_chars(record.summary.as_str());
    let sl = lower_chars(su.as_slice());
    let ghost b = text@;
    let mut j: usize = 0;
    while j < sl.len()
        invariant
            j <= sl@.len(),
            text@ == b + sl@.take(j as int),
        decreases sl@.len() - j,
    {
        text.push(sl[j]);
        j = j + 1;
        assert(text@ =~= b + sl@.take(j as int));
    }
    assert(sl@.take(sl@.len() as int) =~= sl@);
    assert(text@ =~= score_text(*record));
    let t = text.as_slice();
    let bonus: i64 = match req.task_class {
        RetrievalTaskClass::RoutineAutomation => {
            let x: i64 = if contains_str(t, "routine") {
                25
            } else {
                0
            };
            let y: i64 = if memory_type == MemoryType::Episodic && crate::text::chars_eq_str(
                c.as_slice(),
                "routine_run_summary",
            ) {
                15
            } else {
                0
            };
            x + y
        },
        RetrievalTaskClass::Troubleshooting => {
            let x: i64 = if contains_str(t, "fail") || contains_str(t, "error") || contains_str(t, "deny") {
                25
            } else {
                0
            };
            let y: i64 = if memory_type == MemoryType::Episodic {
                10
            } else {
                0
            };
            x + y
        },
        RetrievalTaskClass::Coding => {
            let x: i64 = if contains_str(t, "verifier") || contains_str(t, "step") || contains_str(t, "lint")
                || contains_str(t, "test") || contains_str(t, "diff") || contains_str(t, "replan") {
                20
            } else {
                0
            };
            let y: i64 = if memory_type == MemoryType::Semantic {
                10
            } else {
                0
            };
            x + y
        },
        RetrievalTaskClass::Research => if memory_type == MemoryType::Semantic {
            20
        } else {
            0
        },
        RetrievalTaskClass::SystemAdmin => if contains_str(t, "deploy") || contains_str(t, "service")
            || contains_str(t, "timeout") || contains_str(t, "system") {
            20
        } else {
            0
        },
        RetrievalTaskClass::General => 0,
    };
    score + record.confidence_tenths + bonus
}

/// The relevance score of a procedural playbook: five per success, its
/// confidence in tenths, ten when active, and a bonus when its task class
/// suits the request.
pub open spec fn playbook_score_spec(
    success_count: int,
    confidence_tenths: int,
    status: ProceduralPlaybookStatus,
    task: Seq<char>,
    c: RetrievalTaskClass,
) -> int {
    let t = ascii_lower(task);
    success_count * 5 + confidence_tenths + (if status == ProceduralPlaybookStatus::Active {
        10int
    } else {
        0int
    }) + match c {
        RetrievalTaskClass::RoutineAutomation => if contains(t, "routine"@) {
            25int
        } else {
            0int
        },
        RetrievalTaskClass::Troubleshooting => if contains(t, "troubleshoot"@) {
            20int
        } else {
            0int
        },
        RetrievalTaskClass::Coding => if contains(t, "coding"@) || contains(t, "code"@) {
            20int
        } else {
            0int
        },
        RetrievalTaskClass::SystemAdmin => if contains(t, "admin"@) || contains(t, "ops"@) {
            20int
        } else {
            0int
        },
        _ => 0int,
    }
}

/// The relevance score of a procedural playbook for a task class.
pub fn score_playbook(
    success_count: i64,
    confidence_tenths: i64,
    status: ProceduralPlaybookStatus,
    task_class: &str,
    class: RetrievalTaskClass,
) -> (s: i64)
    requires
        i64::MIN <= success_count * 5 <= i64::MAX,
        i64::MIN <= success_count * 5 + confidence_tenths,
        success_count * 5 + confidence_tenths + 35 <= i64::MAX,
    ensures
        s == playbook_score_spec(success_count as int, confidence_tenths as int, status, task_class@, class),
{
    let tv = to_chars(task_class);
    let tl = lower_chars(tv.as_slice());
    let t = tl.as_slice();
    let active: i64 = if status == ProceduralPlaybookStatus::Active {
        10
    } else {
        0
    };
    let bonus: i64 = match class {
        RetrievalTaskClass::RoutineAutomation => if contains_str(t, "routine") {
            25
        } else {
            0
        },
        RetrievalTaskClass::Troubleshooting => if contains_str(t, "troubleshoot") {
            20
        } else {
            0
        },
        RetrievalTaskClass::Coding => if contains_str(t, "coding") || contains_str(t, "code") {
            20
        } else {
            0
        },
        RetrievalTaskClass::SystemAdmin => if contains_str(t, "admin") || contains_str(t, "ops") {
            20
        } else {
            0
        },
        _ => 0,
    };
    success_count * 5 + confidence_tenths + active + bonus
}

/// What the selection of memory records reads of a record: its kind, its
/// relevance score, and when it was created (or, for a playbook, updated).
#[derive(Debug, Clone, Copy)]
pub struct RecordRank {
    pub memory_type: MemoryType,
    pub score: i64,
    pub at_ms: i64,
}

/// Record `i` ranks before record `j`: a higher score, then a later time,
/// then an earlier place in the list.
pub open spec fn rank_before(rs: Seq<RecordRank>, i: int, j: int) -> bool {
    ||| rs[i].score > rs[j].score
    ||| (rs[i].score == rs[j].score && rs[i].at_ms > rs[j].at_ms)
    ||| (rs[i].score == rs[j].score && rs[i].at_ms == rs[j].at_ms && i < j)
}

/// Record `i` is listed before record `j`: a later time, then the rank
/// order.
pub open spec fn listed_before(rs: Seq<RecordRank>, i: int, j: int) -> bool {
    ||| rs[i].at_ms > rs[j].at_ms
    ||| (rs[i].at_ms == rs[j].at_ms && rank_before(rs, i, j))
}

/// The order of a selection's output: listing order or rank order.
pub open spec fn out_before(rs: Seq<RecordRank>, listing: bool, i: int, j: int) -> bool {
    if listing {
        listed_before(rs, i, j)
    } else {
        rank_before(rs, i, j)
    }
}

/// How many records of kind `ty` among the first `n` rank before record `i`.
pub open spec fn outranked_by(rs: Seq<RecordRank>, ty: MemoryType, i: int, n: int) -> nat
    decreases n,
{
    if n <= 0 {
        0
    } else {
        outranked_by(rs, ty, i, n - 1) + (if rs[n - 1].memory_type == ty && rank_before(rs, n - 1, i) {
            1nat
        } else {
            0nat
        })
    }
}

/// Record `i` is of kind `ty` and among the `limit` best-ranked records of
/// that kind.
pub open spec fn selected(rs: Seq<RecordRank>, ty: MemoryType, limit: int, i: int) -> bool {
    &&& 0 <= i < rs.len()
    &&& rs[i].memory_type == ty
    &&& outranked_by(rs, ty, i, rs.len() as int) < limit
}

/// A selection: exactly the selected records, strictly in output order.
pub open spec fn is_selection(rs: Seq<RecordRank>, ty: MemoryType, limit: int, listing: bool, out: Seq<usize>) -> bool {
    &&& forall|k: int| 0 <= k < out.len() ==> selected(rs, ty, limit, #[trigger] out[k] as int)
    &&& forall|i: int| selected(rs, ty, limit, i) ==> out.contains(i as usize)
    &&& forall|a: int, b: int| 0 <= a < b < out.len() ==> out_before(rs, listing, #[trigger] out[a] as int, #[trigger] out[b] as int)
}

proof fn lemma_out_before_order(rs: Seq<RecordRank>, listing: bool, i: int, j: int, k: int)
    ensures
        !out_before(rs, listing, i, i),
        out_before(rs, listing, i, j) && out_before(rs, listing, j, k) ==> out_before(rs, listing, i, k),
        i != j ==> (out_before(rs, listing, i, j) || out_before(rs, listing, j, i)),
        out_before(rs, listing, i, j) ==> !out_before(rs, listing, j, i),
{
}

fn outranked_count(rs: &Vec<RecordRank>, ty: MemoryType, i: usize) -> (c: usize)
    requires
        i < rs@.len(),
    ensures
        c == outranked_by(rs@, ty, i as int, rs@.len() as int),
{
    let mut c: usize = 0;
    let mut j: usize = 0;
    while j < rs.len()
        invariant
            i < rs@.len(),
            j <= rs@.len(),
            c == outranked_by(rs@, ty, i as int, j as int),
            c <= j,
        decreases rs@.len() - j,
    {
        let a = rs[j];
        let b = rs[i];
        if a.memory_type == ty && (a.score > b.score || (a.score == b.score && a.at_ms > b.at_ms) || (
        a.score == b.score && a.at_ms == b.at_ms && j < i)) {
            c = c + 1;
        }
        j = j + 1;
    }
    c
}

fn out_before_exec(rs: &Vec<RecordRank>, listing: bool, i: usize, j: usize) -> (b: bool)
    requires
        i < rs@.len(),
        j < rs@.len(),
    ensures
        b == out_before(rs@, listing, i as int, j as int),
{
    let x = rs[i];
    let y = rs[j];
    let ranked = x.score > y.score || (x.score == y.score && x.at_ms > y.at_ms) || (x.score == y.score
        && x.at_ms == y.at_ms && i < j);
    if listing {
        x.at_ms > y.at_ms || (x.at_ms == y.at_ms && ranked)
    } else {
        ranked
    }
}

/// The records of kind `ty` among the `limit` best ranked (by score, then
/// time, then place), in listing order (`listing`: latest first, then rank)
/// or in rank order.
pub fn select_ranked(rs: &Vec<RecordRank>, ty: MemoryType, limit: usize, listing: bool) -> (out: Vec<usize>)
    ensures
        is_selection(rs@, ty, limit as int, listing, out@),
{
    let mut out: Vec<usize> = Vec::new();
    let mut i: usize = 0;
    while i < rs.len()
        invariant
            i <= rs@.len(),
            forall|k: int| 0 <= k < out@.len() ==> selected(rs@, ty, limit as int, #[trigger] out@[k] as int)
                && out@[k] < i,
            forall|q: int| 0 <= q < i && selected(rs@, ty, limit as int, q) ==> out@.contains(q as usize),
            forall|a: int, b: int|
                0 <= a < b < out@.len() ==> out_before(rs@, listing, #[trigger] out@[a] as int, #[trigger] out@[b] as int),
        decreases rs@.len() - i,
    {
        if rs[i].memory_type == ty && outranked_count(rs, ty, i) < limit {
            let mut j: usize = 0;
            while j < out.len() && out_before_exec(rs, listing, out[j], i)
                invariant
                    i < rs@.len(),
                    j <= out@.len(),
                    forall|k: int| 0 <= k < out@.len() ==> #[trigger] out@[k] < i,
                    forall|k: int| 0 <= k < j ==> out_before(rs@, listing, #[trigger] out@[k] as int, i as int),
                decreases out@.len() - j,
            {
                j = j + 1;
            }
            let ghost old_out = out@;
            proof {
                if j < old_out.len() {
                    lemma_out_before_order(rs@, listing, i as int, old_out[j as int] as int, 0);
                    assert(out_before(rs@, listing, i as int, old_out[j as int] as int));
                }
            }
            out.insert(j, i);
            proof {
                assert(out@ =~= old_out.insert(j as int, i));
                assert forall|a: int, b: int| 0 <= a < b < out@.len() implies out_before(
                    rs@,
                    listing,
                    #[trigger] out@[a] as int,
                    #[trigger] out@[b] as int,
                ) by {
                    if b < j {
                        assert(out@[a] == old_out[a] && out@[b] == old_out[b]);
                    } else if b == j {
                        assert(out@[a] == old_out[a]);
                    } else if a < j {
                        assert(out@[a] == old_out[a] && out@[b] == old_out[b - 1]);
                        if b - 1 == j {
                            lemma_out_before_order(rs@, listing, out@[a] as int, i as int, out@[b] as int);
                        } else {
                            lemma_out_before_order(rs@, listing, out@[a] as int, i as int, old_out[j as int] as int);
                            lemma_out_before_order(rs@, listing, i as int, old_out[j as int] as int, out@[b] as int);
                            assert(out_before(rs@, listing, old_out[j as int] as int, old_out[b - 1] as int));
                        }
                    } else if a == j {
                        assert(out@[b] == old_out[b - 1]);
                        if b - 1 > j {
                            assert(out_before(rs@, listing, old_out[j as int] as int, old_out[b - 1] as int));
                            lemma_out_before_order(rs@, listing, i as int, old_out[j as int] as int, old_out[b - 1] as int);
                        }
                    } else {
                        assert(out@[a] == old_out[a - 1] && out@[b] == old_out[b - 1]);
                    }
                }
                assert forall|q: int| 0 <= q < i + 1 && selected(rs@, ty, limit as int, q) implies out@.contains(
                    q as usize,
                ) by {
                    if q == i {
                        assert(out@[j as int] == i);
                    } else {
                        let k = choose|k: int| 0 <= k < old_out.len() && old_out[k] == q as usize;
                        if k < j {
                            assert(out@[k] == q as usize);
                        } else {
                            assert(out@[k + 1] == q as usize);
                        }
                    }
                }
                assert forall|k: int| 0 <= k < out@.len() implies selected(rs@, ty, limit as int, #[trigger] out@[k] as int)
                    && out@[k] < i + 1 by {
                    if k < j {
                        assert(out@[k] == old_out[k]);
                    } else if k > j {
                        assert(out@[k] == old_out[k - 1]);
                    }
                }
            }
        } else {
            proof {
                assert forall|q: int| 0 <= q < i + 1 && selected(rs@, ty, limit as int, q) implies out@.contains(
                    q as usize,
                ) by {
                    if q == i {
                        assert(false);
                    }
                }
            }
        }
        i = i + 1;
    }
    out
}

/// A memory record as the prompt context lists it; the confidence and the
/// time come formatted.
#[derive(Debug, Clone)]
pub struct RecordLine {
    pub category: String,
    pub title: String,
    pub summary: String,
    pub confidence_text: String,
    pub at_text: String,
}

/// A playbook as the prompt context lists it; the confidence comes
/// formatted.
#[derive(Debug, Clone)]
pub struct PlaybookLine {
    pub name: String,
    pub task_class: String,
    pub success_count: i64,
    pub confidence_text: String,
    pub status: ProceduralPlaybookStatus,
}

/// The name of a task class.
pub open spec fn class_name(c: RetrievalTaskClass) -> Seq<char> {
    match c {
        RetrievalTaskClass::Coding => "Coding"@,
        RetrievalTaskClass::Troubleshooting => "Troubleshooting"@,
        RetrievalTaskClass::Research => "Research"@,
        RetrievalTaskClass::RoutineAutomation => "RoutineAutomation"@,
        RetrievalTaskClass::SystemAdmin => "SystemAdmin"@,
        RetrievalTaskClass::General => "General"@,
    }
}

fn class_name_exec(c: RetrievalTaskClass) -> (s: &'static str)
    ensures
        s@ == class_name(c),
{
    match c {
        RetrievalTaskClass::Coding => "Coding",
        RetrievalTaskClass::Troubleshooting => "Troubleshooting",
        RetrievalTaskClass::Research => "Research",
        RetrievalTaskClass::RoutineAutomation => "RoutineAutomation",
        RetrievalTaskClass::SystemAdmin => "SystemAdmin",
        RetrievalTaskClass::General => "General",
    }
}

/// The name of a playbook status.
pub open spec fn status_name(s: ProceduralPlaybookStatus) -> Seq<char> {
    match s {
        ProceduralPlaybookStatus::Draft => "Draft"@,
        ProceduralPlaybookStatus::Active => "Active"@,
        ProceduralPlaybookStatus::Paused => "Paused"@,
        ProceduralPlaybookStatus::Retired => "Retired"@,
    }
}

fn status_name_exec(s: ProceduralPlaybookStatus) -> (r: &'static str)
    ensures
        r@ == status_name(s),
{
    match s {
        ProceduralPlaybookStatus::Draft => "Draft",
        ProceduralPlaybookStatus::Active => "Active",
        ProceduralPlaybookStatus::Paused => "Paused",
        ProceduralPlaybookStatus::Retired => "Retired",
    }
}

/// The line of a record in the prompt context.
pub open spec fn record_line_text(r: RecordLine) -> Seq<char> {
    "- ["@ + r.category@ + "] "@ + truncated_with_ellipsis(r.title@, 80) + " :: "@
        + truncated_with_ellipsis(r.summary@, 160) + " (conf="@ + r.confidence_text@ + ", at="@ + r.at_text@
        + ")\n"@
}

/// The lines of records, in order.
pub open spec fn record_lines(rs: Seq<RecordLine>) -> Seq<char>
    decreases rs.len(),
{
    if rs.len() == 0 {
        Seq::<char>::empty()
    } else {
        record_lines(rs.drop_last()) + record_line_text(rs.last())
    }
}

/// A titled section of records; nothing when there are none.
pub open spec fn record_section(title: Seq<char>, rs: Seq<RecordLine>) -> Seq<char> {
    if rs.len() == 0 {
        Seq::<char>::empty()
    } else {
        "\n"@ + title + ":\n"@ + record_lines(rs)
    }
}

/// The line of a playbook in the prompt context.
pub open spec fn playbook_line_text(p: PlaybookLine) -> Seq<char> {
    "- "@ + truncated_with_ellipsis(p.name@, 80) + " ["@ + p.task_class@ + "] success="@ + decimal_int(
        p.success_count as int,
    ) + " conf="@ + p.confidence_text@ + " status="@ + status_name(p.status) + "\n"@
}

/// The lines of playbooks, in order.
pub open spec fn playbook_lines(ps: Seq<PlaybookLine>) -> Seq<char>
    decreases ps.len(),
{
    if ps.len() == 0 {
        Seq::<char>::empty()
    } else {
        playbook_lines(ps.drop_last()) + playbook_line_text(ps.last())
    }
}

/// The prompt context of a retrieval: nothing when nothing was retrieved;
/// otherwise a header with the task class and the query (cut to 200
/// characters), then the playbooks and the working, episodic and semantic
/// records, each section only when it has entries.
pub open spec fn prompt_block_spec(
    class: RetrievalTaskClass,
    query: Seq<char>,
    working: Seq<RecordLine>,
    episodic: Seq<RecordLine>,
    semantic: Seq<RecordLine>,
    playbooks: Seq<PlaybookLine>,
) -> Seq<char> {
    if working.len() == 0 && episodic.len() == 0 && semantic.len() == 0 && playbooks.len() == 0 {
        Seq::<char>::empty()
    } else {
        "Memory Retrieval Context (Phase 2, best-effort; verify before high-impact actions)\n"@
            + "Task class: "@ + class_name(class) + "\nQuery: "@ + truncated_with_ellipsis(query, 200)
            + "\n"@ + (if playbooks.len() == 0 {
            Seq::<char>::empty()
        } else {
            "\nProcedural Playbooks:\n"@ + playbook_lines(playbooks)
        }) + record_section("Working Memory"@, working) + record_section("Episodic Memory"@, episodic)
            + record_section("Semantic Memory"@, semantic)
    }
}

fn push_record_section(out: &mut String, title: &str, rs: &Vec<RecordLine>)
    ensures
        final(out)@ == old(out)@ + record_section(title@, rs@),
{
    if rs.len() == 0 {
        assert(old(out)@ + Seq::<char>::empty() =~= old(out)@);
        return;
    }
    let ghost start = out@;
    push_str(out, "\n");
    push_str(out, title);
    push_str(out, ":\n");
    let ghost head = out@;
    let mut i: usize = 0;
    while i < rs.len()
        invariant
            i <= rs@.len(),
            out@ == head + record_lines(rs@.take(i as int)),
        decreases rs@.len() - i,
    {
        assert(rs@.take(i + 1).drop_last() =~= rs@.take(i as int));
        let r = &rs[i];
        let ghost before = out@;
        push_str(out, "- [");
        push_str(out, r.category.as_str());
        push_str(out, "] ");
        let t = truncate_chars(r.title.as_str(), 80);
        push_str(out, t.as_str());
        push_str(out, " :: ");
        let su = truncate_chars(r.summary.as_str(), 160);
        push_str(out, su.as_str());
        push_str(out, " (conf=");
        push_str(out, r.confidence_text.as_str());
        push_str(out, ", at=");
        push_str(out, r.at_text.as_str());
        push_str(out, ")\n");
        assert(out@ =~= before + record_line_text(rs@[i as int]));
        i = i + 1;
    }
    assert(rs@.take(rs@.len() as int) =~= rs@);
    assert(out@ =~= start + ("\n"@ + title@ + ":\n"@ + record_lines(rs@)));
}

/// The prompt context of a retrieval (see `prompt_block_spec`).
pub fn render_prompt_context_block(
    class: RetrievalTaskClass,
    query: &str,
    working: &Vec<RecordLine>,
    episodic: &Vec<RecordLine>,
    semantic: &Vec<RecordLine>,
    playbooks: &Vec<PlaybookLine>,
) -> (s: String)
    ensures
        s@ == prompt_block_spec(class, query@, working@, episodic@, semantic@, playbooks@),
{
    if working.len() == 0 && episodic.len() == 0 && semantic.len() == 0 && playbooks.len() == 0 {
        return String::new();
    }
    let mut out = String::new();
    push_str(&mut out, "Memory Retrieval Context (Phase 2, best-effort; verify before high-impact actions)\n");
    push_str(&mut out, "Task class: ");
    push_str(&mut out, class_name_exec(class));
    push_str(&mut out, "\nQuery: ");
    let q = truncate_chars(query, 200);
    push_str(&mut out, q.as_str());
    push_str(&mut out, "\n");
    let ghost head = out@;
    if playbooks.len() > 0 {
        push_str(&mut out, "\nProcedural Playbooks:\n");
        let ghost phead = out@;
        let mut i: usize = 0;
        while i < playbooks.len()
            invariant
                i <= playbooks@.len(),
                out@ == phead + playbook_lines(playbooks@.take(i as int)),
            decreases playbooks@.len() - i,
        {
            assert(playbooks@.take(i + 1).drop_last() =~= playbooks@.take(i as int));
            let p = &playbooks[i];
            let ghost before = out@;
            push_str(&mut out, "- ");
            let n = truncate_chars(p.name.as_str(), 80);
            push_str(&mut out, n.as_str());
            push_str(&mut out, " [");
            push_str(&mut out, p.task_class.as_str());
            push_str(&mut out, "] success=");
            let sc = decimal_i64(p.success_count);
            push_chars(&mut out, sc.as_slice());
            push_str(&mut out, " conf=");
            push_str(&mut out, p.confidence_text.as_str());
            push_str(&mut out, " status=");
            push_str(&mut out, status_name_exec(p.status));
            push_str(&mut out, "\n");
            assert(out@ =~= before + playbook_line_text(playbooks@[i as int]));
            i = i + 1;
        }
        assert(playbooks@.take(playbooks@.len() as int) =~= playbooks@);
    }
    let ghost mid = out@;
    push_record_section(&mut out, "Working Memory", working);
    push_record_section(&mut out, "Episodic Memory", episodic);
    push_record_section(&mut out, "Semantic Memory", semantic);
    assert(out@ =~= prompt_block_spec(class, query@, working@, episodic@, semantic@, playbooks@));
    out
}

/// What the planner asks of memory for a job.
#[derive(Debug, Clone)]
pub struct PlannerRetrieval {
    pub focus: RetrievalFocus,
    pub query: String,
    pub limit_budget: usize,
}

/// The memory a job's planner asks for: the job's task class (coding when no
/// clearer class shows), the goal and plan given or else those the job is
/// linked to, the job itself, and a query of the title and the job
/// description (trimmed, when not blank) or else the stored description;
/// twelve items at most.
pub fn planner_retrieval(
    category: Option<&str>,
    title: &str,
    description: &str,
    job_description: Option<&str>,
    goal_hint: Option<u128>,
    plan_hint: Option<u128>,
    job_goal: Option<u128>,
    job_plan: Option<u128>,
    job_id: u128,
) -> (r: PlannerRetrieval)
    ensures
        ({
            let c = task_class_spec(
                ascii_lower(text_or_empty(category)),
                ascii_lower(title@ + seq!['\n'] + description@),
            );
            r.focus.task_class == (if c == RetrievalTaskClass::General {
                RetrievalTaskClass::Coding
            } else {
                c
            })
        }),
        r.focus.goal_id == (if goal_hint is Some {
            goal_hint
        } else {
            job_goal
        }),
        r.focus.plan_id == (if plan_hint is Some {
            plan_hint
        } else {
            job_plan
        }),
        r.focus.job_id == Some(job_id),
        r.query@ == title@ + "\n"@ + (match job_description {
            Some(d) => if trim(d@).len() > 0 {
                trim(d@)
            } else {
                description@
            },
            None => description@,
        }),
        r.limit_budget == 12,
{
    let c = MemoryRetrievalComposer::infer_task_class(category, title, description);
    let task_class = match c {
        RetrievalTaskClass::General => RetrievalTaskClass::Coding,
        other => other,
    };
    let mut query = string_of(title);
    push_str(&mut query, "\n");
    let mut used_job = false;
    match job_description {
        Some(d) => {
            let t = trim_str(d);
            if t.len() > 0 {
                push_chars(&mut query, t.as_slice());
                used_job = true;
            }
        },
        None => {},
    }
    if !used_job {
        push_str(&mut query, description);
    }
    PlannerRetrieval {
        focus: RetrievalFocus {
            goal_id: if goal_hint.is_some() { goal_hint } else { job_goal },
            plan_id: if plan_hint.is_some() { plan_hint } else { job_plan },
            job_id: Some(job_id),
            task_class,
        },
        query,
        limit_budget: 12,
    }
}

} // verus!
