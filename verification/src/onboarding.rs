//! Profile onboarding: a short interview whose answers are written into
//! managed sections of the workspace documents.
//!
//! The interview is a state machine. Each step takes the saved state and the
//! user's input and says what to store and what to reply; reading and writing
//! settings and documents, and the clock, are the caller's part.
use vstd::prelude::*;
use crate::text::{
    chars_eq_str, contains, contains_exec, find_from, from_chars, is_ws, is_ws_exec, occurs_at,
    push_chars, push_decimal, push_str, string_of, to_chars, to_lowercase, trim, trim_chars,
    trim_end, trim_end_chars, trim_str, unicode_lowercase, ascii_lower, ascii_lower_char,
    lower_char, decimal, slice_chars, first_occurrence_from, lemma_first_occurrence_found, chars_eq, lower_chars, contains_str, starts_with, starts_with_str,
};

verus! {

/// The version of the interview.
pub const ONBOARDING_VERSION: u32 = 1;
/// At most this many follow-up questions are added to one interview.
pub const MAX_FOLLOWUPS: usize = 3;

/// Setting key: the interview was completed.
pub const KEY_COMPLETED: &'static str = "profile_onboard.completed";
/// Setting key: the interview version that was completed.
pub const KEY_VERSION: &'static str = "profile_onboard.version";
/// Setting key: the interview in progress.
pub const KEY_STATE: &'static str = "profile_onboard.state";
/// Setting key: until when the interview is put off.
pub const KEY_DEFERRED_UNTIL: &'static str = "profile_onboard.deferred_until";
/// Setting key: when the interview was last completed.
pub const KEY_LAST_COMPLETED_AT: &'static str = "profile_onboard.last_completed_at";

/// The first part of the marker that opens a managed section.
pub const MANAGED_BEGIN_PREFIX: &'static str = "<!-- titanclaw:managed-begin profile-onboarding:v1";
/// The marker that closes a managed section.
pub const MANAGED_END_MARKER: &'static str = "<!-- titanclaw:managed-end profile-onboarding:v1 -->";

/// Workspace document paths written by the interview.
pub const PATH_AGENTS: &'static str = "AGENTS.md";
pub const PATH_IDENTITY: &'static str = "IDENTITY.md";
pub const PATH_SOUL: &'static str = "SOUL.md";
pub const PATH_USER: &'static str = "USER.md";
pub const PATH_MEMORY: &'static str = "MEMORY.md";

/// Question ids.
pub const Q_ASSISTANT: &'static str = "assistant_name_identity";
pub const Q_USER: &'static str = "user_identity";
pub const Q_GOALS: &'static str = "primary_goals";
pub const Q_PROJECTS: &'static str = "current_projects_context";
pub const Q_TONE: &'static str = "communication_tone";
pub const Q_EXECUTION: &'static str = "execution_style";
pub const Q_BOUNDARIES: &'static str = "boundaries_constraints";
pub const Q_TOOLING: &'static str = "tooling_preferences";
pub const Q_FOLLOWUP_STACK: &'static str = "followup_primary_goals_stack";
pub const Q_FOLLOWUP_TONE: &'static str = "followup_tone_detail";
pub const Q_FOLLOWUP_CONFIRM: &'static str = "followup_execution_confirmation";

/// Question prompts.
pub const P_ASSISTANT: &'static str = "What should I call myself (assistant name/persona), if anything?";
pub const P_USER: &'static str = "Who are you / what should I call you? (Name, nickname, pronouns optional)";
pub const P_GOALS: &'static str = "What should I mainly help you with most of the time?";
pub const P_PROJECTS: &'static str = "What projects, domains, or context should I know about right now?";
pub const P_TONE: &'static str = "How should I speak to you? (tone, directness, detail level)";
pub const P_EXECUTION: &'static str = "How proactive should I be? (ask less vs ask more, defaults vs confirmations)";
pub const P_BOUNDARIES: &'static str = "Any hard rules, safety boundaries, or things I should never do?";
pub const P_TOOLING: &'static str = "Preferred tools/models/runtimes/workflows I should default to?";
pub const P_FOLLOWUP_STACK: &'static str = "What stack/languages/frameworks should I prioritize for that work?";
pub const P_FOLLOWUP_TONE: &'static str = "When you say direct, do you also want concise answers by default, or detailed technical breakdowns?";
pub const P_FOLLOWUP_CONFIRM: &'static str = "When should I still ask before acting? (e.g. destructive commands, public posting, spending money, external messages)";
pub const P_DEFAULT: &'static str = "Tell me anything important I should know.";

/// The introduction shown when the interview starts.
pub const INTRO_TEXT: &'static str = "Before we start, I want to personalize TitanClaw the way OpenClaw-style onboarding does: who you are, what I should mainly do, and how I should speak/work with you.\nThis takes ~1-2 minutes and is saved into managed memory docs. You can type `defer` to do it later.";

/// Where the interview stands.
#[derive(Debug, Clone, Copy, PartialEq, Eq, Structural)]
pub enum OnboardingMode {
    Asking,
    Reviewing,
}

/// Whether an incoming message was taken by the interview.
#[derive(Debug)]
pub enum OnboardingIntercept {
    /// The message goes on to the normal chat.
    Pass,
    /// The interview answers the message with this text.
    Respond(String),
}

/// A saved interview in progress. `answers` maps question ids to answers,
/// each id at most once.
#[derive(Debug)]
pub struct ProfileOnboardingState {
    pub version: u32,
    pub mode: OnboardingMode,
    pub queue: Vec<String>,
    pub current_index: usize,
    pub answers: Vec<(String, String)>,
    pub followups_used: usize,
    pub pending_original_request: Option<String>,
    pub started_at: String,
    pub updated_at: String,
}

/// The interview logic, with its fixed settings.
#[derive(Debug)]
pub struct ProfileOnboardingManager {
    /// The interview version recorded on completion.
    pub version: u32,
    /// The most follow-up questions one interview may add.
    pub max_followups: usize,
}

impl ProfileOnboardingManager {
    /// The interview manager.
    pub fn new() -> (m: Self)
        ensures
            m.version == ONBOARDING_VERSION,
            m.max_followups == MAX_FOLLOWUPS,
    {
        ProfileOnboardingManager { version: ONBOARDING_VERSION, max_followups: MAX_FOLLOWUPS }
    }
}

/// The introduction text.
pub fn intro_text() -> (s: String)
    ensures
        s@ == INTRO_TEXT@,
{
    string_of(INTRO_TEXT)
}

/// The core question ids, in the order they are asked.
pub open spec fn core_question_ids_spec() -> Seq<Seq<char>> {
    seq![Q_ASSISTANT@, Q_USER@, Q_GOALS@, Q_PROJECTS@, Q_TONE@, Q_EXECUTION@, Q_BOUNDARIES@, Q_TOOLING@]
}

/// The core question ids, in the order they are asked.
pub fn core_question_ids() -> (v: Vec<String>)
    ensures
        v.deep_view() == core_question_ids_spec(),
{
    let mut v: Vec<String> = Vec::new();
    v.push(string_of(Q_ASSISTANT));
    v.push(string_of(Q_USER));
    v.push(string_of(Q_GOALS));
    v.push(string_of(Q_PROJECTS));
    v.push(string_of(Q_TONE));
    v.push(string_of(Q_EXECUTION));
    v.push(string_of(Q_BOUNDARIES));
    v.push(string_of(Q_TOOLING));
    assert(v.deep_view() =~= core_question_ids_spec());
    v
}

/// The prompt of a question id (a general prompt for unknown ids).
pub open spec fn question_prompt_spec(id: Seq<char>) -> Seq<char> {
    if id == Q_ASSISTANT@ {
        P_ASSISTANT@
    } else if id == Q_USER@ {
        P_USER@
    } else if id == Q_GOALS@ {
        P_GOALS@
    } else if id == Q_PROJECTS@ {
        P_PROJECTS@
    } else if id == Q_TONE@ {
        P_TONE@
    } else if id == Q_EXECUTION@ {
        P_EXECUTION@
    } else if id == Q_BOUNDARIES@ {
        P_BOUNDARIES@
    } else if id == Q_TOOLING@ {
        P_TOOLING@
    } else if id == Q_FOLLOWUP_STACK@ {
        P_FOLLOWUP_STACK@
    } else if id == Q_FOLLOWUP_TONE@ {
        P_FOLLOWUP_TONE@
    } else if id == Q_FOLLOWUP_CONFIRM@ {
        P_FOLLOWUP_CONFIRM@
    } else {
        P_DEFAULT@
    }
}

/// The prompt of a question id.
pub fn question_prompt(id: &str) -> (p: &'static str)
    ensures
        p@ == question_prompt_spec(id@),
{
    let v = to_chars(id);
    let s = v.as_slice();
    if chars_eq_str(s, Q_ASSISTANT) {
        P_ASSISTANT
    } else if chars_eq_str(s, Q_USER) {
        P_USER
    } else if chars_eq_str(s, Q_GOALS) {
        P_GOALS
    } else if chars_eq_str(s, Q_PROJECTS) {
        P_PROJECTS
    } else if chars_eq_str(s, Q_TONE) {
        P_TONE
    } else if chars_eq_str(s, Q_EXECUTION) {
        P_EXECUTION
    } else if chars_eq_str(s, Q_BOUNDARIES) {
        P_BOUNDARIES
    } else if chars_eq_str(s, Q_TOOLING) {
        P_TOOLING
    } else if chars_eq_str(s, Q_FOLLOWUP_STACK) {
        P_FOLLOWUP_STACK
    } else if chars_eq_str(s, Q_FOLLOWUP_TONE) {
        P_FOLLOWUP_TONE
    } else if chars_eq_str(s, Q_FOLLOWUP_CONFIRM) {
        P_FOLLOWUP_CONFIRM
    } else {
        P_DEFAULT
    }
}

/// An answer as written into a document: a placeholder when empty.
pub open spec fn md_spec(s: Seq<char>) -> Seq<char> {
    if s.len() == 0 {
        "(not provided)"@
    } else {
        s
    }
}

/// An answer as written into a document.
pub fn md(s: &str) -> (r: String)
    ensures
        r@ == md_spec(s@),
{
    if s.unicode_len() == 0 {
        string_of("(not provided)")
    } else {
        string_of(s)
    }
}

/// The marker that opens the managed section of a document.
pub open spec fn begin_marker_spec(path: Seq<char>) -> Seq<char> {
    MANAGED_BEGIN_PREFIX@ + " file="@ + path + " source=profile-onboarding -->"@
}

/// The marker that opens the managed section of a document.
pub fn managed_begin_marker(path: &str) -> (s: String)
    ensures
        s@ == begin_marker_spec(path@),
{
    let mut s = string_of(MANAGED_BEGIN_PREFIX);
    push_str(&mut s, " file=");
    push_str(&mut s, path);
    push_str(&mut s, " source=profile-onboarding -->");
    s
}

/// A line cut to `max` characters, with `...` when it was longer.
pub open spec fn truncate_line_spec(s: Seq<char>, max: nat) -> Seq<char> {
    if s.len() <= max {
        s
    } else {
        s.take(max as int) + "..."@
    }
}

/// A line cut to `max` characters, with `...` when it was longer.
pub fn truncate_line(s: &str, max: usize) -> (r: String)
    ensures
        r@ == truncate_line_spec(s@, max as nat),
{
    let v = to_chars(s);
    if v.len() <= max {
        string_of(s)
    } else {
        let head = slice_chars(v.as_slice(), 0, max);
        let mut r = from_chars(head.as_slice());
        push_str(&mut r, "...");
        assert(head@ =~= s@.take(max as int));
        r
    }
}

/// The managed block of a document: begin marker, trimmed body, end marker.
pub open spec fn onboarding_block(path: Seq<char>, body: Seq<char>) -> Seq<char> {
    begin_marker_spec(path) + "\n"@ + trim(body) + "\n"@ + MANAGED_END_MARKER@
}

/// The document with the block appended after its trimmed text, or the block
/// alone when the document is blank.
pub open spec fn append_block(content: Seq<char>, block: Seq<char>) -> Seq<char> {
    if trim(content).len() == 0 {
        block
    } else {
        trim_end(content) + "\n\n"@ + block
    }
}

/// The line break put before a block that replaces a section, when the text
/// before it does not end a line.
pub open spec fn line_sep(prefix: Seq<char>) -> Seq<char> {
    if prefix.len() > 0 && prefix.last() != '\n' {
        "\n"@
    } else {
        Seq::<char>::empty()
    }
}

/// The document whose managed section begins at `s`: the section replaced,
/// or an error when a second begin marker or no end marker follows.
pub open spec fn replace_section_spec(content: Seq<char>, path: Seq<char>, body: Seq<char>, s: int)
    -> Result<Seq<char>, Seq<char>>
{
    let begin = begin_marker_spec(path);
    let end = MANAGED_END_MARKER@;
    if first_occurrence_from(content, begin, s + begin.len()) is Some {
        Err("Multiple onboarding managed section starts found in "@ + path)
    } else {
        match first_occurrence_from(content, end, s + begin.len()) {
            None => Err("Managed onboarding end marker missing in "@ + path),
            Some(e) => Ok(
                content.take(s) + line_sep(content.take(s)) + onboarding_block(path, body)
                    + content.skip(e + end.len()),
            ),
        }
    }
}

/// The document without a begin marker: the block appended, or an error
/// when two end markers are present.
pub open spec fn append_section_spec(content: Seq<char>, path: Seq<char>, body: Seq<char>)
    -> Result<Seq<char>, Seq<char>>
{
    let end = MANAGED_END_MARKER@;
    match first_occurrence_from(content, end, 0) {
        Some(e) => if first_occurrence_from(content, end, e + end.len()) is Some {
            Err("Multiple onboarding managed section ends found in "@ + path)
        } else {
            Ok(append_block(content, onboarding_block(path, body)))
        },
        None => Ok(append_block(content, onboarding_block(path, body))),
    }
}

/// The document with its managed section written: the section replaced when
/// there is one, appended otherwise; an error when the markers are broken.
pub open spec fn render_onboarding_spec(content: Seq<char>, path: Seq<char>, body: Seq<char>)
    -> Result<Seq<char>, Seq<char>>
{
    match first_occurrence_from(content, begin_marker_spec(path), 0) {
        Some(s) => replace_section_spec(content, path, body, s),
        None => append_section_spec(content, path, body),
    }
}

/// Equal results, text for text.
pub open spec fn same_result(r: Result<String, String>, t: Result<Seq<char>, Seq<char>>) -> bool {
    match (r, t) {
        (Ok(a), Ok(b)) => a@ == b,
        (Err(a), Err(b)) => a@ == b,
        _ => false,
    }
}

/// The first occurrence of `needle` at or after `from`.
fn first_from(hay: &[char], needle: &[char], from: usize) -> (r: Option<usize>)
    ensures
        r == (match first_occurrence_from(hay@, needle@, from as int) {
            Some(i) => Some(i as usize),
            None => None::<usize>,
        }),
        r matches Some(i) ==> i + needle@.len() <= hay@.len() && from <= i,
        first_occurrence_from(hay@, needle@, from as int) matches Some(i) ==> from <= i && i
            + needle@.len() <= hay@.len(),
{
    let r = find_from(hay, needle, from);
    proof {
        lemma_first_occurrence_found(hay@, needle@, from as int);
    }
    r
}

/// The document with the block appended (or the block alone when blank).
fn append_block_exec(content: &[char], block: &[char]) -> (r: String)
    ensures
        r@ == append_block(content@, block@),
{
    let t = trim_chars(content);
    if t.len() == 0 {
        from_chars(block)
    } else {
        let te = trim_end_chars(content);
        let mut r = from_chars(te.as_slice());
        push_str(&mut r, "\n\n");
        push_chars(&mut r, block);
        r
    }
}

fn replace_section(c: &[char], begin: &[char], block: &[char], path: &str, managed_body: &str, s: usize) -> (r: Result<String, String>)
    requires
        begin@ == begin_marker_spec(path@),
        block@ == onboarding_block(path@, managed_body@),
        s + begin@.len() <= c@.len(),
    ensures
        same_result(r, replace_section_spec(c@, path@, managed_body@, s as int)),
{
    let end = to_chars(MANAGED_END_MARKER);
    let n = c.len();
    let after_begin = s + begin.len();
    if first_from(c, begin, after_begin).is_some() {
        let mut e = string_of("Multiple onboarding managed section starts found in ");
        push_str(&mut e, path);
        return Err(e);
    }
    match first_from(c, end.as_slice(), after_begin) {
        None => {
            let mut e = string_of("Managed onboarding end marker missing in ");
            push_str(&mut e, path);
            Err(e)
        },
        Some(e) => {
            let end_idx = e + end.len();
            let prefix = slice_chars(c, 0, s);
            let mut out = from_chars(prefix.as_slice());
            if prefix.len() > 0 && prefix[prefix.len() - 1] != '\n' {
                push_str(&mut out, "\n");
            }
            push_chars(&mut out, block);
            let rest = slice_chars(c, end_idx, c.len());
            push_chars(&mut out, rest.as_slice());
            assert(prefix@ =~= c@.take(s as int));
            assert(rest@ =~= c@.skip(end_idx as int));
            Ok(out)
        },
    }
}

fn append_section(c: &[char], block: &[char], path: &str, managed_body: &str) -> (r: Result<String, String>)
    requires
        block@ == onboarding_block(path@, managed_body@),
    ensures
        same_result(r, append_section_spec(c@, path@, managed_body@)),
{
    let end = to_chars(MANAGED_END_MARKER);
    let n = c.len();
    match first_from(c, end.as_slice(), 0) {
        Some(e) => {
            if first_from(c, end.as_slice(), e + end.len()).is_some() {
                let mut err = string_of("Multiple onboarding managed section ends found in ");
                push_str(&mut err, path);
                return Err(err);
            }
            Ok(append_block_exec(c, block))
        },
        None => Ok(append_block_exec(c, block)),
    }
}

/// Writes the managed section of a document: replaces the section when there
/// is one, appends it otherwise. Fails on a second begin marker, on a begin
/// marker without an end marker after it, and on two end markers without a
/// begin marker.
pub fn render_with_managed_section(content: &str, path: &str, managed_body: &str) -> (r: Result<String, String>)
    ensures
        same_result(r, render_onboarding_spec(content@, path@, managed_body@)),
{
    let begin_s = managed_begin_marker(path);
    let begin = to_chars(begin_s.as_str());
    let c = to_chars(content);
    let body = trim_str(managed_body);
    let mut block_s = from_chars(begin.as_slice());
    push_str(&mut block_s, "\n");
    push_chars(&mut block_s, body.as_slice());
    push_str(&mut block_s, "\n");
    push_str(&mut block_s, MANAGED_END_MARKER);
    let block = to_chars(block_s.as_str());
    assert(block@ == onboarding_block(path@, managed_body@));
    match first_from(c.as_slice(), begin.as_slice(), 0) {
        Some(s) => replace_section(c.as_slice(), begin.as_slice(), block.as_slice(), path, managed_body, s),
        None => append_section(c.as_slice(), block.as_slice(), path, managed_body),
    }
}

/// Underscores read as spaces.
pub open spec fn underscores_to_spaces(s: Seq<char>) -> Seq<char> {
    s.map_values(|c: char| if c == '_' { ' ' } else { c })
}

/// A queue entry names the topic, ignoring ASCII case, with its underscores
/// read as underscores or as spaces.
pub open spec fn names_topic(q: Seq<char>, t: Seq<char>) -> bool {
    ascii_lower(q) == ascii_lower(t) || ascii_lower(underscores_to_spaces(q)) == ascii_lower(t)
}

/// A topic as compared with question ids: trimmed and lower-cased.
pub open spec fn topic_key(topic: Seq<char>) -> Seq<char> {
    unicode_lowercase(trim(topic))
}

fn underscores_to_spaces_exec(s: &[char]) -> (r: Vec<char>)
    ensures
        r@ == underscores_to_spaces(s@),
{
    let mut r: Vec<char> = Vec::new();
    let mut i: usize = 0;
    while i < s.len()
        invariant
            i <= s@.len(),
            r@ == underscores_to_spaces(s@.take(i as int)),
        decreases s@.len() - i,
    {
        let c = if s[i] == '_' {
            ' '
        } else {
            s[i]
        };
        r.push(c);
        i = i + 1;
        assert(r@ =~= underscores_to_spaces(s@.take(i as int)));
    }
    assert(s@.take(s@.len() as int) =~= s@);
    r
}

/// The position of the first queued question that the topic names.
pub fn find_question_index(queue: &[String], topic: &str) -> (r: Option<usize>)
    ensures
        match r {
            Some(i) => i < queue@.len() && names_topic(queue@[i as int]@, topic_key(topic@))
                && forall|j: int| 0 <= j < i ==> !names_topic(queue@[j]@, topic_key(topic@)),
            None => forall|j: int|
                0 <= j < queue@.len() ==> !names_topic(queue@[j]@, topic_key(topic@)),
        },
        r == (match first_named(queue.deep_view(), topic_key(topic@)) {
            Some(i) => Some(i as usize),
            None => None::<usize>,
        }),
        first_named(queue.deep_view(), topic_key(topic@)) matches Some(i) ==> 0 <= i
            < queue@.len(),
{
    proof {
        lemma_first_named_range(queue.deep_view(), topic_key(topic@));
    }
    let trimmed = trim_str(topic);
    let ts = from_chars(trimmed.as_slice());
    let t = to_lowercase(ts.as_str());
    let tv = to_chars(t.as_str());
    let tl = lower_chars(tv.as_slice());
    let mut i: usize = 0;
    while i < queue.len()
        invariant
            i <= queue@.len(),
            tl@ == ascii_lower(topic_key(topic@)),
            forall|j: int| 0 <= j < i ==> !names_topic(queue@[j]@, topic_key(topic@)),
        decreases queue@.len() - i,
    {
        let q = to_chars(queue[i].as_str());
        let ql = lower_chars(q.as_slice());
        let qs = underscores_to_spaces_exec(q.as_slice());
        let qsl = lower_chars(qs.as_slice());
        if chars_eq(ql.as_slice(), tl.as_slice()) || chars_eq(qsl.as_slice(), tl.as_slice()) {
            proof {
                lemma_first_named_is(queue.deep_view(), topic_key(topic@), i as int);
            }
            return Some(i);
        }
        i = i + 1;
    }
    proof {
        lemma_first_named_none(queue.deep_view(), topic_key(topic@));
    }
    None
}

/// The first position in the queue whose entry names the topic.
pub open spec fn first_named(q: Seq<Seq<char>>, t: Seq<char>) -> Option<int>
    decreases q.len(),
{
    if q.len() == 0 {
        None
    } else {
        match first_named(q.drop_last(), t) {
            Some(i) => Some(i),
            None => if names_topic(q.last(), t) {
                Some(q.len() - 1)
            } else {
                None
            },
        }
    }
}

proof fn lemma_first_named_is(q: Seq<Seq<char>>, t: Seq<char>, i: int)
    requires
        0 <= i < q.len(),
        names_topic(q[i], t),
        forall|j: int| 0 <= j < i ==> !names_topic(q[j], t),
    ensures
        first_named(q, t) == Some(i),
    decreases q.len(),
{
    if i < q.len() - 1 {
        lemma_first_named_is(q.drop_last(), t, i);
    } else {
        lemma_first_named_none(q.drop_last(), t);
    }
}

proof fn lemma_first_named_range(q: Seq<Seq<char>>, t: Seq<char>)
    ensures
        first_named(q, t) matches Some(i) ==> 0 <= i < q.len(),
    decreases q.len(),
{
    if q.len() > 0 {
        lemma_first_named_range(q.drop_last(), t);
    }
}

proof fn lemma_first_named_none(q: Seq<Seq<char>>, t: Seq<char>)
    requires
        forall|j: int| 0 <= j < q.len() ==> !names_topic(q[j], t),
    ensures
        first_named(q, t) is None,
    decreases q.len(),
{
    if q.len() > 0 {
        lemma_first_named_none(q.drop_last(), t);
    }
}

/// The number of whitespace-separated words.
pub open spec fn word_count(s: Seq<char>) -> nat
    decreases s.len(),
{
    if s.len() == 0 {
        0
    } else {
        word_count(s.drop_last()) + if !is_ws(s.last()) && (s.len() == 1 || is_ws(
            s[s.len() - 2],
        )) {
            1nat
        } else {
            0nat
        }
    }
}

/// The number of whitespace-separated words.
pub fn count_words(s: &[char]) -> (n: usize)
    ensures
        n == word_count(s@),
{
    let mut n: usize = 0;
    let mut i: usize = 0;
    while i < s.len()
        invariant
            i <= s@.len(),
            n == word_count(s@.take(i as int)),
            n <= i,
        decreases s@.len() - i,
    {
        let starts = !is_ws_exec(s[i]) && (i == 0 || is_ws_exec(s[i - 1]));
        assert(s@.take(i + 1).drop_last() =~= s@.take(i as int));
        if starts {
            n = n + 1;
        }
        i = i + 1;
    }
    assert(s@.take(s@.len() as int) =~= s@);
    n
}

/// The answers as a map from question id to answer; a later entry wins.
pub open spec fn answers_map(a: Seq<(String, String)>) -> Map<Seq<char>, Seq<char>>
    decreases a.len(),
{
    if a.len() == 0 {
        Map::empty()
    } else {
        answers_map(a.drop_last()).insert(a.last().0@, a.last().1@)
    }
}

/// No question id is answered twice.
pub open spec fn keys_unique(a: Seq<(String, String)>) -> bool {
    forall|i: int, j: int| 0 <= i < j < a.len() ==> a[i].0@ != a[j].0@
}

proof fn lemma_answers_map_keys(a: Seq<(String, String)>, k: Seq<char>)
    ensures
        answers_map(a).contains_key(k) <==> exists|i: int| 0 <= i < a.len() && a[i].0@ == k,
    decreases a.len(),
{
    if a.len() > 0 {
        lemma_answers_map_keys(a.drop_last(), k);
        if exists|i: int| 0 <= i < a.len() && a[i].0@ == k {
            let i = choose|i: int| 0 <= i < a.len() && a[i].0@ == k;
            if i < a.len() - 1 {
                assert(a.drop_last()[i].0@ == k);
            }
        }
        if exists|i: int| 0 <= i < a.len() - 1 && a.drop_last()[i].0@ == k {
            let i = choose|i: int| 0 <= i < a.len() - 1 && a.drop_last()[i].0@ == k;
            assert(a[i].0@ == k);
        }
    }
}

proof fn lemma_answers_map_update(a: Seq<(String, String)>, i: int, k: String, v: String)
    requires
        keys_unique(a),
        0 <= i < a.len(),
        a[i].0@ == k@,
    ensures
        answers_map(a.update(i, (k, v))) == answers_map(a).insert(k@, v@),
        keys_unique(a.update(i, (k, v))),
    decreases a.len(),
{
    let u = a.update(i, (k, v));
    if i == a.len() - 1 {
        assert(u.drop_last() =~= a.drop_last());
        assert(answers_map(u) =~= answers_map(a).insert(k@, v@));
    } else {
        assert(u.drop_last() =~= a.drop_last().update(i, (k, v)));
        lemma_answers_map_update(a.drop_last(), i, k, v);
        assert(a.last().0@ != k@);
        assert(answers_map(u) =~= answers_map(a).insert(k@, v@));
    }
}

/// Records an answer, replacing an earlier answer to the same question.
pub fn insert_answer(answers: &mut Vec<(String, String)>, k: String, v: String)
    requires
        keys_unique(old(answers)@),
    ensures
        keys_unique(final(answers)@),
        answers_map(final(answers)@) == answers_map(old(answers)@).insert(k@, v@),
{
    let kv = to_chars(k.as_str());
    let mut i: usize = 0;
    while i < answers.len()
        invariant
            i <= answers@.len(),
            answers@ == old(answers)@,
            keys_unique(answers@),
            kv@ == k@,
            forall|j: int| 0 <= j < i ==> answers@[j].0@ != k@,
        decreases answers@.len() - i,
    {
        let ak = to_chars(answers[i].0.as_str());
        if chars_eq(ak.as_slice(), kv.as_slice()) {
            proof {
                lemma_answers_map_update(answers@, i as int, k, v);
            }
            answers.set(i, (k, v));
            return;
        }
        i = i + 1;
    }
    let ghost before = answers@;
    answers.push((k, v));
    assert(answers@.drop_last() =~= before);
}

/// The answer to a question, if any.
pub fn get_answer(answers: &Vec<(String, String)>, k: &str) -> (r: Option<String>)
    ensures
        match r {
            Some(v) => answers_map(answers@).contains_key(k@) && v@ == answers_map(answers@)[k@],
            None => !answers_map(answers@).contains_key(k@),
        },
{
    let kv = to_chars(k);
    let mut i: usize = answers.len();
    while i > 0
        invariant
            i <= answers@.len(),
            kv@ == k@,
            forall|j: int| i <= j < answers@.len() ==> answers@[j].0@ != k@,
        decreases i,
    {
        let ak = to_chars(answers[i - 1].0.as_str());
        if chars_eq(ak.as_slice(), kv.as_slice()) {
            proof {
                lemma_answers_map_last(answers@, (i - 1) as int, k@);
            }
            return Some(answers[i - 1].1.clone());
        }
        i = i - 1;
    }
    proof {
        lemma_answers_map_keys(answers@, k@);
    }
    None
}

proof fn lemma_answers_map_last(a: Seq<(String, String)>, i: int, k: Seq<char>)
    requires
        0 <= i < a.len(),
        a[i].0@ == k,
        forall|j: int| i < j < a.len() ==> a[j].0@ != k,
    ensures
        answers_map(a).contains_key(k),
        answers_map(a)[k] == a[i].1@,
    decreases a.len(),
{
    if i < a.len() - 1 {
        lemma_answers_map_last(a.drop_last(), i, k);
    }
}

/// An interview state as plain values.
pub struct OnboardingView {
    pub version: u32,
    pub mode: OnboardingMode,
    pub queue: Seq<Seq<char>>,
    pub current_index: int,
    pub answers: Map<Seq<char>, Seq<char>>,
    pub followups_used: int,
    pub pending_original_request: Option<Seq<char>>,
    pub started_at: Seq<char>,
    pub updated_at: Seq<char>,
}

/// The view of an optional text.
pub open spec fn opt_view(o: Option<String>) -> Option<Seq<char>> {
    match o {
        Some(s) => Some(s@),
        None => None,
    }
}

impl View for ProfileOnboardingState {
    type V = OnboardingView;

    open spec fn view(&self) -> OnboardingView {
        OnboardingView {
            version: self.version,
            mode: self.mode,
            queue: self.queue.deep_view(),
            current_index: self.current_index as int,
            answers: answers_map(self.answers@),
            followups_used: self.followups_used as int,
            pending_original_request: opt_view(self.pending_original_request),
            started_at: self.started_at@,
            updated_at: self.updated_at@,
        }
    }
}

impl ProfileOnboardingState {
    /// Each question is answered at most once.
    pub open spec fn wf(&self) -> bool {
        keys_unique(self.answers@)
    }
}

/// The follow-up question that an answer (lower-cased) calls for, if any.
pub open spec fn followup_for(qid: Seq<char>, lower: Seq<char>) -> Option<Seq<char>> {
    if qid == Q_GOALS@ {
        if word_count(lower) <= 3 || lower == "coding"@ || lower == "everything"@ {
            Some(Q_FOLLOWUP_STACK@)
        } else {
            None
        }
    } else if qid == Q_TONE@ {
        if contains(lower, "direct"@) && !contains(lower, "detail"@) {
            Some(Q_FOLLOWUP_TONE@)
        } else {
            None
        }
    } else if qid == Q_EXECUTION@ {
        if contains(lower, "proactive"@) || contains(lower, "don't ask"@) || contains(
            lower,
            "dont ask"@,
        ) {
            Some(Q_FOLLOWUP_CONFIRM@)
        } else {
            None
        }
    } else {
        None
    }
}

/// The follow-up question, if one is added after answering `qid` with
/// `answer`: one is called for, the budget is not spent, it is not queued
/// yet, and there is a place after the current question.
pub open spec fn followup_added(st: OnboardingView, max: int, qid: Seq<char>, answer: Seq<char>)
    -> Option<Seq<char>>
{
    match followup_for(qid, unicode_lowercase(answer)) {
        Some(id) => if st.followups_used < max && !st.queue.contains(id) && st.current_index + 1
            <= st.queue.len() {
            Some(id)
        } else {
            None
        },
        None => None,
    }
}

/// The follow-up question called for by an answer.
fn followup_for_exec(qid: &str, answer: &str) -> (r: Option<&'static str>)
    ensures
        match (r, followup_for(qid@, unicode_lowercase(answer@))) {
            (Some(a), Some(b)) => a@ == b,
            (None, None) => true,
            _ => false,
        },
{
    let q = to_chars(qid);
    let lower_s = to_lowercase(answer);
    let lower = to_chars(lower_s.as_str());
    let l = lower.as_slice();
    if chars_eq_str(q.as_slice(), Q_GOALS) {
        if count_words(l) <= 3 || chars_eq_str(l, "coding") || chars_eq_str(l, "everything") {
            Some(Q_FOLLOWUP_STACK)
        } else {
            None
        }
    } else if chars_eq_str(q.as_slice(), Q_TONE) {
        if contains_str(l, "direct") && !contains_str(l, "detail") {
            Some(Q_FOLLOWUP_TONE)
        } else {
            None
        }
    } else if chars_eq_str(q.as_slice(), Q_EXECUTION) {
        if contains_str(l, "proactive") || contains_str(l, "don't ask") || contains_str(l, "dont ask") {
            Some(Q_FOLLOWUP_CONFIRM)
        } else {
            None
        }
    } else {
        None
    }
}

/// Whether a text is in the list.
fn queue_contains(queue: &Vec<String>, id: &str) -> (b: bool)
    ensures
        b == queue.deep_view().contains(id@),
{
    let iv = to_chars(id);
    let mut i: usize = 0;
    while i < queue.len()
        invariant
            i <= queue@.len(),
            iv@ == id@,
            forall|j: int| 0 <= j < i ==> queue@[j]@ != id@,
        decreases queue@.len() - i,
    {
        let qv = to_chars(queue[i].as_str());
        if chars_eq(qv.as_slice(), iv.as_slice()) {
            assert(queue.deep_view()[i as int] == id@);
            return true;
        }
        i = i + 1;
    }
    assert(!queue.deep_view().contains(id@)) by {
        if queue.deep_view().contains(id@) {
            let j = choose|j: int| 0 <= j < queue.deep_view().len() && queue.deep_view()[j] == id@;
            assert(queue@[j]@ == id@);
        }
    }
    false
}

/// The first line of the question prompt screen.
pub open spec fn current_question_spec(st: OnboardingView) -> Seq<char> {
    let qid = if 0 <= st.current_index < st.queue.len() {
        st.queue[st.current_index]
    } else {
        "done"@
    };
    "Profile Onboarding "@ + decimal((st.current_index + 1) as nat) + "/"@ + decimal(st.queue.len())
        + "\n\n"@ + question_prompt_spec(qid)
        + "\n\n(Reply with your answer. You can also type `defer` or `skip`.)"@
}

/// One line of the review summary, present when the question was answered.
pub open spec fn summary_line(answers: Map<Seq<char>, Seq<char>>, q: Seq<char>, label: Seq<char>) -> Seq<char> {
    if answers.contains_key(q) {
        "- "@ + label + ": "@ + answers[q] + "\n"@
    } else {
        Seq::<char>::empty()
    }
}

/// The review summary of the answers.
pub open spec fn review_summary_spec(a: Map<Seq<char>, Seq<char>>) -> Seq<char> {
    "Profile Onboarding Review\n\n"@ + summary_line(a, Q_ASSISTANT@, "Assistant identity"@)
        + summary_line(a, Q_USER@, "User identity"@) + summary_line(a, Q_GOALS@, "Primary goals"@)
        + summary_line(a, Q_PROJECTS@, "Current projects/context"@) + summary_line(
        a,
        Q_TONE@,
        "Communication style"@,
    ) + summary_line(a, Q_EXECUTION@, "Execution style"@) + summary_line(
        a,
        Q_BOUNDARIES@,
        "Boundaries"@,
    ) + summary_line(a, Q_TOOLING@, "Tooling preferences"@) + summary_line(
        a,
        Q_FOLLOWUP_STACK@,
        "Stack/languages"@,
    ) + summary_line(a, Q_FOLLOWUP_TONE@, "Detail level"@) + summary_line(
        a,
        Q_FOLLOWUP_CONFIRM@,
        "Confirmation rules"@,
    )
}

/// The closing line of the review screen.
pub const REVIEW_FOOTER: &'static str = "\n\nReply `confirm` to save, `defer` to continue later, `skip` to dismiss for now, or `edit <question_id>`.";

/// The review screen.
pub open spec fn review_spec(a: Map<Seq<char>, Seq<char>>) -> Seq<char> {
    review_summary_spec(a) + REVIEW_FOOTER@
}

fn push_summary_line(out: &mut String, answers: &Vec<(String, String)>, q: &str, label: &str)
    ensures
        final(out)@ == old(out)@ + summary_line(answers_map(answers@), q@, label@),
{
    match get_answer(answers, q) {
        Some(v) => {
            push_str(out, "- ");
            push_str(out, label);
            push_str(out, ": ");
            push_str(out, v.as_str());
            push_str(out, "\n");
        },
        None => {
            assert(old(out)@ + Seq::<char>::empty() =~= old(out)@);
        },
    }
}

/// The review summary of the answers given so far.
pub fn render_review_summary(state: &ProfileOnboardingState) -> (s: String)
    ensures
        s@ == review_summary_spec(state@.answers),
{
    let a = &state.answers;
    let mut out = string_of("Profile Onboarding Review\n\n");
    push_summary_line(&mut out, a, Q_ASSISTANT, "Assistant identity");
    push_summary_line(&mut out, a, Q_USER, "User identity");
    push_summary_line(&mut out, a, Q_GOALS, "Primary goals");
    push_summary_line(&mut out, a, Q_PROJECTS, "Current projects/context");
    push_summary_line(&mut out, a, Q_TONE, "Communication style");
    push_summary_line(&mut out, a, Q_EXECUTION, "Execution style");
    push_summary_line(&mut out, a, Q_BOUNDARIES, "Boundaries");
    push_summary_line(&mut out, a, Q_TOOLING, "Tooling preferences");
    push_summary_line(&mut out, a, Q_FOLLOWUP_STACK, "Stack/languages");
    push_summary_line(&mut out, a, Q_FOLLOWUP_TONE, "Detail level");
    push_summary_line(&mut out, a, Q_FOLLOWUP_CONFIRM, "Confirmation rules");
    out
}

impl ProfileOnboardingManager {
    /// Adds the follow-up question that the answer to `qid` calls for, right
    /// after the current question, within the follow-up budget.
    pub fn maybe_add_followups(&self, state: &mut ProfileOnboardingState, qid: &str, answer: &str)
        requires
            old(state).current_index < usize::MAX,
        ensures
            ({
                let o = old(state)@;
                let f = final(state)@;
                match followup_added(o, self.max_followups as int, qid@, answer@) {
                    Some(id) => f == OnboardingView {
                        queue: o.queue.insert(o.current_index + 1, id),
                        followups_used: o.followups_used + 1,
                        ..o
                    },
                    None => f == o,
                }
            }),
            final(state).answers@ == old(state).answers@,
    {
        if state.followups_used >= self.max_followups {
            return;
        }
        match followup_for_exec(qid, answer) {
            Some(id) => {
                if queue_contains(&state.queue, id) {
                    return;
                }
                let insert_at = state.current_index + 1;
                if insert_at <= state.queue.len() {
                    let ghost before = state.queue.deep_view();
                    state.queue.insert(insert_at, string_of(id));
                    state.followups_used = state.followups_used + 1;
                    assert(state.queue.deep_view() =~= before.insert(insert_at as int, id@));
                }
            },
            None => {},
        }
    }

    /// The screen asking the current question.
    pub fn render_current_question(&self, state: &ProfileOnboardingState) -> (s: String)
        requires
            state.current_index < usize::MAX,
        ensures
            s@ == current_question_spec(state@),
    {
        let total = state.queue.len();
        let idx = state.current_index + 1;
        let prompt = if state.current_index < total {
            question_prompt(state.queue[state.current_index].as_str())
        } else {
            question_prompt("done")
        };
        let mut out = string_of("Profile Onboarding ");
        push_decimal(&mut out, idx as u64);
        push_str(&mut out, "/");
        push_decimal(&mut out, total as u64);
        push_str(&mut out, "\n\n");
        push_str(&mut out, prompt);
        push_str(&mut out, "\n\n(Reply with your answer. You can also type `defer` or `skip`.)");
        out
    }

    /// The review screen.
    pub fn render_review(&self, state: &ProfileOnboardingState) -> (s: String)
        ensures
            s@ == review_spec(state@.answers),
    {
        let mut out = render_review_summary(state);
        push_str(&mut out, REVIEW_FOOTER);
        out
    }
}

/// Reply when no interview is in progress.
pub const NO_SESSION: &'static str = "No active profile onboarding session. Use `/onboard profile`.";
/// Reply to `edit` with a topic that names no queued question.
pub const UNKNOWN_TOPIC: &'static str = "Unknown topic to edit. Use `edit <question_id>` or `confirm`.";
/// Reply to anything else in review mode.
pub const REVIEW_HELP: &'static str = "Review mode: reply with `confirm`, `defer`, `skip`, or `edit <question_id>`.";

/// What the interview does with one input.
#[derive(Debug)]
pub enum AnswerStep {
    /// Store the state and reply with the text.
    Save(ProfileOnboardingState, String),
    /// Put the interview off.
    Defer,
    /// Write the answers into the documents and mark the interview complete.
    Confirm(ProfileOnboardingState),
    /// Reply with the text; nothing is stored.
    Reply(String),
}

/// The topic of an `edit <topic>` input: what follows the word `edit`.
pub open spec fn edit_topic(t: Seq<char>) -> Seq<char> {
    if t.len() >= 5 {
        trim(t.skip(5))
    } else {
        Seq::<char>::empty()
    }
}

/// The state after answering the current question with `answer`.
pub open spec fn asking_next(o: OnboardingView, max: int, answer: Seq<char>, now: Seq<char>) -> OnboardingView {
    let qid = o.queue[o.current_index];
    let a = OnboardingView { answers: o.answers.insert(qid, answer), ..o };
    let f = match followup_added(a, max, qid, answer) {
        Some(id) => OnboardingView {
            queue: a.queue.insert(a.current_index + 1, id),
            followups_used: a.followups_used + 1,
            ..a
        },
        None => a,
    };
    let n = OnboardingView { current_index: f.current_index + 1, updated_at: now, ..f };
    if n.current_index >= n.queue.len() {
        OnboardingView { mode: OnboardingMode::Reviewing, ..n }
    } else {
        n
    }
}

/// The reply that goes with a saved state: the review screen once every
/// question is answered, the next question otherwise.
pub open spec fn screen_for(n: OnboardingView) -> Seq<char> {
    if n.mode == OnboardingMode::Reviewing {
        review_spec(n.answers)
    } else {
        current_question_spec(n)
    }
}

/// The step taken in review mode on the trimmed input `t`.
pub open spec fn review_step_ok(o: OnboardingView, t: Seq<char>, now: Seq<char>, r: AnswerStep) -> bool {
    let l = unicode_lowercase(t);
    if l == "confirm"@ || l == "save"@ || l == "yes"@ {
        r matches AnswerStep::Confirm(ns) && ns@ == o && ns.wf()
    } else if l == "defer"@ || l == "skip"@ {
        r is Defer
    } else if starts_with(l, "edit "@) {
        match first_named(o.queue, topic_key(edit_topic(t))) {
            Some(idx) => r matches AnswerStep::Save(ns, msg) && ns.wf() && ns@ == OnboardingView {
                mode: OnboardingMode::Asking,
                current_index: idx,
                updated_at: now,
                ..o
            } && msg@ == "Editing `"@ + o.queue[idx] + "`.\n\n"@ + current_question_spec(ns@),
            None => r matches AnswerStep::Reply(msg) && msg@ == UNKNOWN_TOPIC@,
        }
    } else {
        r matches AnswerStep::Reply(msg) && msg@ == REVIEW_HELP@
    }
}

/// The step taken while asking, on the trimmed input `t`.
pub open spec fn asking_step_ok(o: OnboardingView, max: int, t: Seq<char>, now: Seq<char>, r: AnswerStep) -> bool {
    let l = unicode_lowercase(t);
    if l == "defer"@ || l == "skip"@ {
        r is Defer
    } else if o.current_index >= o.queue.len() {
        r matches AnswerStep::Save(ns, msg) && ns.wf() && ns@ == OnboardingView {
            mode: OnboardingMode::Reviewing,
            updated_at: now,
            ..o
        } && msg@ == review_spec(o.answers)
    } else {
        r matches AnswerStep::Save(ns, msg) && ns.wf() && ns@ == asking_next(o, max, t, now)
            && msg@ == screen_for(ns@)
    }
}

fn lower_is(l: &[char], a: &str, b: &str, c: &str) -> (r: bool)
    ensures
        r == (l@ == a@ || l@ == b@ || l@ == c@),
{
    chars_eq_str(l, a) || chars_eq_str(l, b) || chars_eq_str(l, c)
}

impl ProfileOnboardingManager {
    /// Takes one input of the user into the interview in progress.
    pub fn handle_answer(&self, state: Option<ProfileOnboardingState>, input: &str, now: &str) -> (r: Result<AnswerStep, String>)
        requires
            state matches Some(st) ==> st.wf(),
        ensures
            match state {
                None => r matches Err(e) && e@ == NO_SESSION@,
                Some(st) => r matches Ok(step) && if st.mode == OnboardingMode::Reviewing {
                    review_step_ok(st@, trim(input@), now@, step)
                } else {
                    asking_step_ok(st@, self.max_followups as int, trim(input@), now@, step)
                },
            },
    {
        let mut state = match state {
            None => {
                return Err(string_of(NO_SESSION));
            },
            Some(st) => st,
        };
        let tv = trim_str(input);
        let trimmed = from_chars(tv.as_slice());
        let lower_s = to_lowercase(trimmed.as_str());
        let lower = to_chars(lower_s.as_str());
        let l = lower.as_slice();
        if state.mode == OnboardingMode::Reviewing {
            return Ok(self.handle_review_input(state, trimmed.as_str(), l, now));
        }
        if chars_eq_str(l, "defer") || chars_eq_str(l, "skip") {
            return Ok(AnswerStep::Defer);
        }
        if state.current_index >= state.queue.len() {
            state.mode = OnboardingMode::Reviewing;
            state.updated_at = string_of(now);
            let msg = self.render_review(&state);
            return Ok(AnswerStep::Save(state, msg));
        }
        let qid = state.queue[state.current_index].clone();
        let ghost o = state@;
        insert_answer(&mut state.answers, qid.clone(), string_of(trimmed.as_str()));
        let ghost a = state@;
        assert(a == OnboardingView { answers: o.answers.insert(qid@, trimmed@), ..o });
        self.maybe_add_followups(&mut state, qid.as_str(), trimmed.as_str());
        state.current_index = state.current_index + 1;
        state.updated_at = string_of(now);
        if state.current_index >= state.queue.len() {
            state.mode = OnboardingMode::Reviewing;
            let msg = self.render_review(&state);
            Ok(AnswerStep::Save(state, msg))
        } else {
            let msg = self.render_current_question(&state);
            Ok(AnswerStep::Save(state, msg))
        }
    }

    fn handle_review_input(&self, state: ProfileOnboardingState, raw: &str, lower: &[char], now: &str) -> (r: AnswerStep)
        requires
            state.wf(),
            lower@ == unicode_lowercase(raw@),
        ensures
            review_step_ok(state@, raw@, now@, r),
    {
        let mut state = state;
        let ghost o = state@;
        if lower_is(lower, "confirm", "save", "yes") {
            return AnswerStep::Confirm(state);
        }
        if chars_eq_str(lower, "defer") || chars_eq_str(lower, "skip") {
            return AnswerStep::Defer;
        }
        if starts_with_str(lower, "edit ") {
            let rv = to_chars(raw);
            let topic_v = if rv.len() >= 5 {
                let rest = slice_chars(rv.as_slice(), 5, rv.len());
                assert(rest@ =~= raw@.skip(5));
                trim_chars(rest.as_slice())
            } else {
                Vec::new()
            };
            assert(topic_v@ =~= edit_topic(raw@));
            let topic = from_chars(topic_v.as_slice());
            let qlen = state.queue.len();
            let qs = state.queue.as_slice();
            assert(qs.deep_view() =~= state.queue.deep_view());
            match find_question_index(qs, topic.as_str()) {
                Some(idx) => {
                    state.mode = OnboardingMode::Asking;
                    state.current_index = idx;
                    state.updated_at = string_of(now);
                    let mut msg = string_of("Editing `");
                    push_str(&mut msg, state.queue[idx].as_str());
                    push_str(&mut msg, "`.\n\n");
                    let q = self.render_current_question(&state);
                    push_str(&mut msg, q.as_str());
                    AnswerStep::Save(state, msg)
                },
                None => AnswerStep::Reply(string_of(UNKNOWN_TOPIC)),
            }
        } else {
            AnswerStep::Reply(string_of(REVIEW_HELP))
        }
    }
}

/// The interview state right after it starts.
pub open spec fn start_view(version: u32, pending: Option<Seq<char>>, now: Seq<char>) -> OnboardingView {
    OnboardingView {
        version,
        mode: OnboardingMode::Asking,
        queue: core_question_ids_spec(),
        current_index: 0,
        answers: Map::empty(),
        followups_used: 0,
        pending_original_request: pending,
        started_at: now,
        updated_at: now,
    }
}

/// The reply when the interview is put off until `until`.
pub open spec fn defer_message_spec(until: Seq<char>) -> Seq<char> {
    "Profile onboarding deferred until "@ + until
        + ".\nUse `/onboard profile` anytime to continue."@
}

/// The reply to a reset.
pub const RESET_MESSAGE: &'static str = "Profile onboarding reset. Use `/onboard profile` to start again.";
/// The first line of the reply on completion.
pub const SAVED_MESSAGE: &'static str = "Profile onboarding saved to managed sections in AGENTS.md, IDENTITY.md, SOUL.md, USER.md, and MEMORY.md.";

/// The reply on completion, with the request that was set aside, if any.
pub open spec fn completion_message_spec(pending: Option<Seq<char>>) -> Seq<char> {
    match pending {
        Some(p) => SAVED_MESSAGE@ + "\n\nYour earlier request was paused during onboarding:\n"@
            + "> "@ + truncate_line_spec(p, 220) + "\n\nSend it again (or say `continue that request`) to proceed."@,
        None => SAVED_MESSAGE@,
    }
}

/// `true` or `false`, as `Display` writes a `bool`.
pub open spec fn bool_text(b: bool) -> Seq<char> {
    if b {
        "true"@
    } else {
        "false"@
    }
}

/// The status report.
pub open spec fn status_text_spec(completed: bool, in_progress: bool, deferred: bool, last: Option<Seq<char>>) -> Seq<char> {
    "Profile onboarding status:\n- completed: "@ + bool_text(completed) + "\n- in_progress: "@
        + bool_text(in_progress) + "\n- deferred: "@ + bool_text(deferred) + "\n- version: "@
        + decimal(ONBOARDING_VERSION as nat) + "\n- last_completed_at: "@ + match last {
        Some(t) => t,
        None => "never"@,
    }
}

fn push_bool(out: &mut String, b: bool)
    ensures
        final(out)@ == old(out)@ + bool_text(b),
{
    if b {
        push_str(out, "true");
    } else {
        push_str(out, "false");
    }
}

impl ProfileOnboardingManager {
    /// A new interview and its first screen: the introduction and the first
    /// question.
    pub fn start(&self, pending_original_request: Option<&str>, now: &str) -> (r: (ProfileOnboardingState, String))
        ensures
            r.0.wf(),
            r.0@ == start_view(
                self.version,
                match pending_original_request {
                    Some(p) => Some(p@),
                    None => None,
                },
                now@,
            ),
            r.1@ == INTRO_TEXT@ + "\n\n"@ + current_question_spec(r.0@),
    {
        let pending = match pending_original_request {
            Some(p) => Some(string_of(p)),
            None => None,
        };
        let state = ProfileOnboardingState {
            version: self.version,
            mode: OnboardingMode::Asking,
            queue: core_question_ids(),
            current_index: 0,
            answers: Vec::new(),
            followups_used: 0,
            pending_original_request: pending,
            started_at: string_of(now),
            updated_at: string_of(now),
        };
        assert(answers_map(state.answers@) =~= Map::empty());
        let mut msg = intro_text();
        push_str(&mut msg, "\n\n");
        let q = self.render_current_question(&state);
        push_str(&mut msg, q.as_str());
        (state, msg)
    }
}

/// The reply when the interview is put off until `until`.
pub fn defer_message(until: &str) -> (s: String)
    ensures
        s@ == defer_message_spec(until@),
{
    let mut s = string_of("Profile onboarding deferred until ");
    push_str(&mut s, until);
    push_str(&mut s, ".\nUse `/onboard profile` anytime to continue.");
    s
}

/// The reply on completion.
pub fn completion_message(pending_original_request: Option<&str>) -> (s: String)
    ensures
        s@ == completion_message_spec(
            match pending_original_request {
                Some(p) => Some(p@),
                None => None,
            },
        ),
{
    let mut out = string_of(SAVED_MESSAGE);
    match pending_original_request {
        Some(p) => {
            push_str(&mut out, "\n\nYour earlier request was paused during onboarding:\n");
            push_str(&mut out, "> ");
            let t = truncate_line(p, 220);
            push_str(&mut out, t.as_str());
            push_str(&mut out, "\n\nSend it again (or say `continue that request`) to proceed.");
        },
        None => {},
    }
    out
}

/// The status report.
pub fn status_text(completed: bool, in_progress: bool, deferred: bool, last_completed_at: Option<&str>) -> (s: String)
    ensures
        s@ == status_text_spec(
            completed,
            in_progress,
            deferred,
            match last_completed_at {
                Some(t) => Some(t@),
                None => None,
            },
        ),
{
    let mut s = string_of("Profile onboarding status:\n- completed: ");
    push_bool(&mut s, completed);
    push_str(&mut s, "\n- in_progress: ");
    push_bool(&mut s, in_progress);
    push_str(&mut s, "\n- deferred: ");
    push_bool(&mut s, deferred);
    push_str(&mut s, "\n- version: ");
    push_decimal(&mut s, ONBOARDING_VERSION as u64);
    push_str(&mut s, "\n- last_completed_at: ");
    match last_completed_at {
        Some(t) => push_str(&mut s, t),
        None => push_str(&mut s, "never"),
    }
    s
}

/// The answer to a question as written into a document: trimmed, or empty
/// when not answered.
pub open spec fn answer_text(a: Map<Seq<char>, Seq<char>>, k: Seq<char>) -> Seq<char> {
    if a.contains_key(k) {
        trim(a[k])
    } else {
        Seq::<char>::empty()
    }
}

/// The heading of a managed document body.
pub open spec fn doc_head(title: Seq<char>, ts: Seq<char>) -> Seq<char> {
    "## "@ + title + "\n_Updated: "@ + ts + "_\n\n"@
}

/// The managed body of USER.md.
pub open spec fn user_doc_spec(user_id: Seq<char>, a: Map<Seq<char>, Seq<char>>, ts: Seq<char>) -> Seq<char> {
    doc_head("Profile Onboarding (Managed)"@, ts) + "- User ID: `"@ + user_id + "`\n- What to call them: "@
        + md_spec(answer_text(a, Q_USER@)) + "\n- Main goals: "@ + md_spec(answer_text(a, Q_GOALS@))
        + "\n- Current context/projects: "@ + md_spec(answer_text(a, Q_PROJECTS@))
        + "\n- Communication preferences: "@ + md_spec(answer_text(a, Q_TONE@))
        + "\n- Execution preferences: "@ + md_spec(answer_text(a, Q_EXECUTION@))
        + "\n- Tooling/runtime preferences: "@ + md_spec(answer_text(a, Q_TOOLING@)) + "\n"@
}

/// The managed body of IDENTITY.md.
pub open spec fn identity_doc_spec(a: Map<Seq<char>, Seq<char>>, ts: Seq<char>) -> Seq<char> {
    doc_head("Profile Onboarding (Managed)"@, ts) + "- Assistant identity/persona: "@ + md_spec(
        answer_text(a, Q_ASSISTANT@),
    ) + "\n- Preferred interaction tone: "@ + md_spec(answer_text(a, Q_TONE@)) + "\n"@
}

/// The managed body of AGENTS.md.
pub open spec fn agents_doc_spec(a: Map<Seq<char>, Seq<char>>, ts: Seq<char>) -> Seq<char> {
    doc_head("Profile Onboarding (Managed)"@, ts) + "- Explicit execution preference: "@ + md_spec(
        answer_text(a, Q_EXECUTION@),
    ) + "\n- Explicit operational constraints: "@ + md_spec(answer_text(a, Q_BOUNDARIES@))
        + "\n- Preferred tooling defaults: "@ + md_spec(answer_text(a, Q_TOOLING@)) + "\n"@
}

/// The managed body of SOUL.md.
pub open spec fn soul_doc_spec(a: Map<Seq<char>, Seq<char>>, ts: Seq<char>) -> Seq<char> {
    doc_head("Profile Onboarding (Managed)"@, ts) + "- Explicit boundaries / values from onboarding: "@
        + md_spec(answer_text(a, Q_BOUNDARIES@)) + "\n"@
}

/// The managed body of MEMORY.md.
pub open spec fn memory_doc_spec(a: Map<Seq<char>, Seq<char>>, ts: Seq<char>) -> Seq<char> {
    doc_head("Profile Onboarding Snapshot (Managed)"@, ts) + "- Current priorities: "@ + md_spec(
        answer_text(a, Q_GOALS@),
    ) + "\n- Context/projects: "@ + md_spec(answer_text(a, Q_PROJECTS@))
        + "\n- Communication style: "@ + md_spec(answer_text(a, Q_TONE@))
        + "\n- Tooling defaults: "@ + md_spec(answer_text(a, Q_TOOLING@)) + "\n"@
}

fn push_answer_md(out: &mut String, answers: &Vec<(String, String)>, k: &str)
    ensures
        final(out)@ == old(out)@ + md_spec(answer_text(answers_map(answers@), k@)),
{
    let t = match get_answer(answers, k) {
        Some(v) => trim_str(v.as_str()),
        None => Vec::new(),
    };
    let ts = from_chars(t.as_slice());
    let m = md(ts.as_str());
    push_str(out, m.as_str());
}

fn push_doc_head(out: &mut String, title: &str, ts: &str)
    ensures
        final(out)@ == old(out)@ + doc_head(title@, ts@),
{
    push_str(out, "## ");
    push_str(out, title);
    push_str(out, "\n_Updated: ");
    push_str(out, ts);
    push_str(out, "_\n\n");
}

/// The managed bodies written into the five workspace documents, stamped
/// with `ts`.
pub fn build_doc_sections(user_id: &str, state: &ProfileOnboardingState, ts: &str) -> (docs: Vec<(&'static str, String)>)
    ensures
        docs@.len() == 5,
        docs@[0].0@ == PATH_AGENTS@ && docs@[0].1@ == agents_doc_spec(state@.answers, ts@),
        docs@[1].0@ == PATH_IDENTITY@ && docs@[1].1@ == identity_doc_spec(state@.answers, ts@),
        docs@[2].0@ == PATH_SOUL@ && docs@[2].1@ == soul_doc_spec(state@.answers, ts@),
        docs@[3].0@ == PATH_USER@ && docs@[3].1@ == user_doc_spec(user_id@, state@.answers, ts@),
        docs@[4].0@ == PATH_MEMORY@ && docs@[4].1@ == memory_doc_spec(state@.answers, ts@),
{
    let a = &state.answers;
    let title = "Profile Onboarding (Managed)";
    let mut user_doc = String::new();
    push_doc_head(&mut user_doc, title, ts);
    push_str(&mut user_doc, "- User ID: `");
    push_str(&mut user_doc, user_id);
    push_str(&mut user_doc, "`\n- What to call them: ");
    push_answer_md(&mut user_doc, a, Q_USER);
    push_str(&mut user_doc, "\n- Main goals: ");
    push_answer_md(&mut user_doc, a, Q_GOALS);
    push_str(&mut user_doc, "\n- Current context/projects: ");
    push_answer_md(&mut user_doc, a, Q_PROJECTS);
    push_str(&mut user_doc, "\n- Communication preferences: ");
    push_answer_md(&mut user_doc, a, Q_TONE);
    push_str(&mut user_doc, "\n- Execution preferences: ");
    push_answer_md(&mut user_doc, a, Q_EXECUTION);
    push_str(&mut user_doc, "\n- Tooling/runtime preferences: ");
    push_answer_md(&mut user_doc, a, Q_TOOLING);
    push_str(&mut user_doc, "\n");

    let mut identity_doc = String::new();
    push_doc_head(&mut identity_doc, title, ts);
    push_str(&mut identity_doc, "- Assistant identity/persona: ");
    push_answer_md(&mut identity_doc, a, Q_ASSISTANT);
    push_str(&mut identity_doc, "\n- Preferred interaction tone: ");
    push_answer_md(&mut identity_doc, a, Q_TONE);
    push_str(&mut identity_doc, "\n");

    let mut agents_doc = String::new();
    push_doc_head(&mut agents_doc, title, ts);
    push_str(&mut agents_doc, "- Explicit execution preference: ");
    push_answer_md(&mut agents_doc, a, Q_EXECUTION);
    push_str(&mut agents_doc, "\n- Explicit operational constraints: ");
    push_answer_md(&mut agents_doc, a, Q_BOUNDARIES);
    push_str(&mut agents_doc, "\n- Preferred tooling defaults: ");
    push_answer_md(&mut agents_doc, a, Q_TOOLING);
    push_str(&mut agents_doc, "\n");

    let mut soul_doc = String::new();
    push_doc_head(&mut soul_doc, title, ts);
    push_str(&mut soul_doc, "- Explicit boundaries / values from onboarding: ");
    push_answer_md(&mut soul_doc, a, Q_BOUNDARIES);
    push_str(&mut soul_doc, "\n");

    let mut memory_doc = String::new();
    push_doc_head(&mut memory_doc, "Profile Onboarding Snapshot (Managed)", ts);
    push_str(&mut memory_doc, "- Current priorities: ");
    push_answer_md(&mut memory_doc, a, Q_GOALS);
    push_str(&mut memory_doc, "\n- Context/projects: ");
    push_answer_md(&mut memory_doc, a, Q_PROJECTS);
    push_str(&mut memory_doc, "\n- Communication style: ");
    push_answer_md(&mut memory_doc, a, Q_TONE);
    push_str(&mut memory_doc, "\n- Tooling defaults: ");
    push_answer_md(&mut memory_doc, a, Q_TOOLING);
    push_str(&mut memory_doc, "\n");

    let mut docs: Vec<(&'static str, String)> = Vec::new();
    docs.push((PATH_AGENTS, agents_doc));
    docs.push((PATH_IDENTITY, identity_doc));
    docs.push((PATH_SOUL, soul_doc));
    docs.push((PATH_USER, user_doc));
    docs.push((PATH_MEMORY, memory_doc));
    docs
}

/// What an `/onboard` command asks for.
#[derive(Debug, Clone, Copy, PartialEq, Eq, Structural)]
pub enum OnboardingCommand {
    /// No argument: the full usage text.
    Usage,
    /// `profile`: start the interview.
    Start,
    /// `profile status`.
    Status,
    /// `profile defer`.
    Defer,
    /// `profile skip`.
    Skip,
    /// `profile reset`.
    Reset,
    /// Anything else: the short usage text.
    Unknown,
}

/// The full usage text.
pub const USAGE_TEXT: &'static str = "Usage: /onboard profile [status|defer|skip|reset]\nAlso works in chat automatically on first use.";
/// The short usage text.
pub const USAGE_SHORT: &'static str = "Usage: /onboard profile [status|defer|skip|reset]";

/// The command named by the arguments of `/onboard` (compared in ASCII
/// lower case).
pub open spec fn onboarding_command_spec(args: Seq<Seq<char>>) -> OnboardingCommand {
    if args.len() == 0 {
        OnboardingCommand::Usage
    } else if ascii_lower(args[0]) != "profile"@ {
        OnboardingCommand::Unknown
    } else if args.len() == 1 {
        OnboardingCommand::Start
    } else {
        let rest = ascii_lower(args[1]);
        if rest == "status"@ {
            OnboardingCommand::Status
        } else if rest == "defer"@ {
            OnboardingCommand::Defer
        } else if rest == "skip"@ {
            OnboardingCommand::Skip
        } else if rest == "reset"@ {
            OnboardingCommand::Reset
        } else {
            OnboardingCommand::Unknown
        }
    }
}

/// The command named by the arguments of `/onboard`.
pub fn onboarding_command(args: &[String]) -> (c: OnboardingCommand)
    ensures
        c == onboarding_command_spec(args.deep_view()),
{
    if args.len() == 0 {
        return OnboardingCommand::Usage;
    }
    let a0 = to_chars(args[0].as_str());
    let sub = lower_chars(a0.as_slice());
    if !chars_eq_str(sub.as_slice(), "profile") {
        return OnboardingCommand::Unknown;
    }
    if args.len() == 1 {
        return OnboardingCommand::Start;
    }
    let a1 = to_chars(args[1].as_str());
    let rest = lower_chars(a1.as_slice());
    let r = rest.as_slice();
    if chars_eq_str(r, "status") {
        OnboardingCommand::Status
    } else if chars_eq_str(r, "defer") {
        OnboardingCommand::Defer
    } else if chars_eq_str(r, "skip") {
        OnboardingCommand::Skip
    } else if chars_eq_str(r, "reset") {
        OnboardingCommand::Reset
    } else {
        OnboardingCommand::Unknown
    }
}

/// Whether an ordinary chat message goes to the interview: always while one
/// is in progress; otherwise only when it was never completed and is not put
/// off.
pub fn offers_onboarding(active: bool, completed: bool, deferred: bool) -> (b: bool)
    ensures
        b == (active || (!completed && !deferred)),
{
    if active {
        true
    } else if completed {
        false
    } else {
        !deferred
    }
}

} // verus!
