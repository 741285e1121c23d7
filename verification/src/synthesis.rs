//! Profile synthesis: observations drawn from conversation turns, kept as
//! statement records, and written as managed sections of the workspace
//! documents.
//!
//! Confidences are fixed-point values in hundredths (`95` stands for 0.95).
use vstd::prelude::*;
use crate::order::{le_u128, sort_u128, sorted_u128s};
use crate::onboarding::{PATH_AGENTS, PATH_IDENTITY, PATH_MEMORY, PATH_SOUL, PATH_USER};
use crate::text::{
    chars_eq, chars_eq_str, contains, contains_str, find_from, first_occurrence_from, from_chars, is_ws,
    is_ws_exec, lemma_first_occurrence_found, occurs_at, push_chars, push_str, slice_chars,
    starts_with, starts_with_str, string_of, take_chars, take_chars_exec, to_chars, to_lowercase,
    trim, trim_chars, trim_end, trim_end_chars, trim_str, unicode_lowercase, decimal, digit_char,
    push_decimal, push_char,
};

verus! {

/// The first part of the marker that opens a synthesized section.
pub const SYNTH_BEGIN_PREFIX: &'static str = "<!-- titanclaw:managed-begin profile-synthesis:v1";
/// The marker that closes a synthesized section.
pub const SYNTH_END_MARKER: &'static str = "<!-- titanclaw:managed-end profile-synthesis:v1 -->";
/// Where observations are appended, one JSON line each.
pub const OBS_PATH: &'static str = "context/profile_observations.jsonl";
/// Where the statement records are kept.
pub const STATE_PATH: &'static str = "context/profile_state.json";
/// The body written for a document with nothing synthesized.
pub const NO_UPDATES: &'static str = "_No synthesized updates yet._";

/// Settings of profile synthesis.
#[derive(Debug)]
pub struct ProfileSynthesisConfig {
    pub enabled: bool,
    pub debounce: std::time::Duration,
    pub max_batch_turns: usize,
    pub min_input_chars: usize,
    pub llm_enabled: bool,
}

/// The marker that opens the synthesized section of a document.
pub open spec fn synth_begin_spec(path: Seq<char>) -> Seq<char> {
    SYNTH_BEGIN_PREFIX@ + " file="@ + path + " -->"@
}

/// The marker that opens the synthesized section of a document.
pub fn managed_begin_marker(path: &str) -> (s: String)
    ensures
        s@ == synth_begin_spec(path@),
{
    let mut s = string_of(SYNTH_BEGIN_PREFIX);
    push_str(&mut s, " file=");
    push_str(&mut s, path);
    push_str(&mut s, " -->");
    s
}

/// The synthesized block of a document.
pub open spec fn synth_block(path: Seq<char>, body: Seq<char>) -> Seq<char> {
    synth_begin_spec(path) + "\n"@ + trim(body) + "\n"@ + SYNTH_END_MARKER@
}

/// `needle` occurs twice without overlap.
pub open spec fn occurs_twice(hay: Seq<char>, needle: Seq<char>) -> bool {
    match first_occurrence_from(hay, needle, 0) {
        Some(i) => first_occurrence_from(hay, needle, i + needle.len()) is Some,
        None => false,
    }
}

/// The document with its synthesized section written: replaced when there
/// is one, appended otherwise; an error when the markers are broken.
pub open spec fn render_synth_spec(content: Seq<char>, path: Seq<char>, body: Seq<char>)
    -> Result<Seq<char>, Seq<char>>
{
    let begin = synth_begin_spec(path);
    let end = SYNTH_END_MARKER@;
    let block = synth_block(path, body);
    if occurs_twice(content, begin) {
        Err("Multiple managed section starts found in "@ + path)
    } else if occurs_twice(content, end) {
        Err("Multiple managed section ends found in "@ + path)
    } else {
        match first_occurrence_from(content, begin, 0) {
            Some(s) => match first_occurrence_from(content, end, s + begin.len()) {
                None => Err("Managed section end missing in "@ + path),
                Some(e) => {
                    let prefix = content.take(s);
                    let sep = if prefix.len() > 0 && prefix.last() != '\n' {
                        "\n"@
                    } else {
                        Seq::<char>::empty()
                    };
                    Ok(prefix + sep + block + content.skip(e + end.len()))
                },
            },
            None => if trim(content).len() == 0 {
                Ok(block)
            } else {
                Ok(trim_end(content) + "\n\n"@ + block)
            },
        }
    }
}

/// The body of the synthesized section, trimmed; empty when there is none,
/// an error when its end marker is missing.
pub open spec fn extract_synth_spec(content: Seq<char>, path: Seq<char>) -> Result<Seq<char>, Seq<char>> {
    let begin = synth_begin_spec(path);
    match first_occurrence_from(content, begin, 0) {
        None => Ok(Seq::<char>::empty()),
        Some(s) => match first_occurrence_from(content, SYNTH_END_MARKER@, s + begin.len()) {
            None => Err("Managed section start found but end marker missing in "@ + path),
            Some(e) => Ok(trim(content.subrange(s + begin.len(), e))),
        },
    }
}

/// Equal results, text for text.
pub open spec fn same_text_result(r: Result<String, String>, t: Result<Seq<char>, Seq<char>>) -> bool {
    match (r, t) {
        (Ok(a), Ok(b)) => a@ == b,
        (Err(a), Err(b)) => a@ == b,
        _ => false,
    }
}

/// The first occurrence of `needle` at or after `from`.
fn first_from(hay: &[char], needle: &[char], from: usize) -> (r: Option<usize>)
    ensures
        r == (match first_occurrence_from(hay@, needle@, from as int) {
            Some(i) => Some(i as usize),
            None => None::<usize>,
        }),
        r matches Some(i) ==> i + needle@.len() <= hay@.len() && from <= i,
        first_occurrence_from(hay@, needle@, from as int) matches Some(i) ==> from <= i && i
            + needle@.len() <= hay@.len(),
{
    let r = find_from(hay, needle, from);
    proof {
        lemma_first_occurrence_found(hay@, needle@, from as int);
    }
    r
}

fn occurs_twice_exec(hay: &[char], needle: &[char]) -> (b: bool)
    ensures
        b == occurs_twice(hay@, needle@),
{
    let n = hay.len();
    match first_from(hay, needle, 0) {
        Some(i) => first_from(hay, needle, i + needle.len()).is_some(),
        None => false,
    }
}

fn splice_block(c: &[char], s: usize, end_idx: usize, block: &[char]) -> (r: String)
    requires
        s <= end_idx <= c@.len(),
    ensures
        r@ == c@.take(s as int) + (if s > 0 && c@[s - 1] != '\n' {
            "\n"@
        } else {
            Seq::<char>::empty()
        }) + block@ + c@.skip(end_idx as int),
{
    let prefix = slice_chars(c, 0, s);
    let mut out = from_chars(prefix.as_slice());
    if s > 0 && c[s - 1] != '\n' {
        push_str(&mut out, "\n");
    }
    push_chars(&mut out, block);
    let rest = slice_chars(c, end_idx, c.len());
    push_chars(&mut out, rest.as_slice());
    assert(prefix@ =~= c@.take(s as int));
    assert(rest@ =~= c@.skip(end_idx as int));
    out
}

fn append_block(c: &[char], block: &[char]) -> (r: String)
    ensures
        r@ == (if trim(c@).len() == 0 {
            block@
        } else {
            trim_end(c@) + "\n\n"@ + block@
        }),
{
    let t = trim_chars(c);
    if t.len() == 0 {
        from_chars(block)
    } else {
        let te = trim_end_chars(c);
        let mut r = from_chars(te.as_slice());
        push_str(&mut r, "\n\n");
        push_chars(&mut r, block);
        r
    }
}

/// Writes the synthesized section of a document. Fails on two begin markers,
/// on two end markers, and on a begin marker without an end marker after it.
pub fn render_with_managed_section(content: &str, path: &str, managed_body: &str) -> (r: Result<String, String>)
    ensures
        same_text_result(r, render_synth_spec(content@, path@, managed_body@)),
{
    let begin_s = managed_begin_marker(path);
    let begin = to_chars(begin_s.as_str());
    let end = to_chars(SYNTH_END_MARKER);
    let c = to_chars(content);
    let n = c.len();
    let body = trim_str(managed_body);
    let mut block_s = from_chars(begin.as_slice());
    push_str(&mut block_s, "\n");
    push_chars(&mut block_s, body.as_slice());
    push_str(&mut block_s, "\n");
    push_str(&mut block_s, SYNTH_END_MARKER);
    let block = to_chars(block_s.as_str());
    if occurs_twice_exec(c.as_slice(), begin.as_slice()) {
        let mut e = string_of("Multiple managed section starts found in ");
        push_str(&mut e, path);
        return Err(e);
    }
    if occurs_twice_exec(c.as_slice(), end.as_slice()) {
        let mut e = string_of("Multiple managed section ends found in ");
        push_str(&mut e, path);
        return Err(e);
    }
    match first_from(c.as_slice(), begin.as_slice(), 0) {
        Some(s) => {
            let after_begin = s + begin.len();
            match first_from(c.as_slice(), end.as_slice(), after_begin) {
                None => {
                    let mut e = string_of("Managed section end missing in ");
                    push_str(&mut e, path);
                    Err(e)
                },
                Some(e) => {
                    let r = splice_block(c.as_slice(), s, e + end.len(), block.as_slice());
                    proof {
                        if s > 0 {
                            assert(c@.take(s as int).last() == c@[s - 1]);
                        }
                    }
                    Ok(r)
                },
            }
        },
        None => Ok(append_block(c.as_slice(), block.as_slice())),
    }
}

/// The trimmed body of the synthesized section (empty when there is none).
pub fn extract_managed_section(content: &str, path: &str) -> (r: Result<String, String>)
    ensures
        same_text_result(r, extract_synth_spec(content@, path@)),
{
    let begin_s = managed_begin_marker(path);
    let begin = to_chars(begin_s.as_str());
    let end = to_chars(SYNTH_END_MARKER);
    let c = to_chars(content);
    let n = c.len();
    match first_from(c.as_slice(), begin.as_slice(), 0) {
        None => Ok(String::new()),
        Some(s) => {
            let after_begin = s + begin.len();
            match first_from(c.as_slice(), end.as_slice(), after_begin) {
                None => {
                    let mut e = string_of("Managed section start found but end marker missing in ");
                    push_str(&mut e, path);
                    Err(e)
                },
                Some(e) => {
                    let body = slice_chars(c.as_slice(), after_begin, e);
                    let t = trim_chars(body.as_slice());
                    Ok(from_chars(t.as_slice()))
                },
            }
        },
    }
}

/// The words of a text joined by single spaces (whitespace runs collapsed,
/// none kept at either end).
pub open spec fn collapse_ws(s: Seq<char>) -> Seq<char>
    decreases s.len(),
{
    if s.len() == 0 {
        Seq::<char>::empty()
    } else if is_ws(s.last()) {
        collapse_ws(s.drop_last())
    } else {
        let p = collapse_ws(s.drop_last());
        if s.len() >= 2 && !is_ws(s[s.len() - 2]) {
            p.push(s.last())
        } else if p.len() == 0 {
            seq![s.last()]
        } else {
            p + seq![' ', s.last()]
        }
    }
}

/// The words of a text joined by single spaces.
pub fn collapse_whitespace(s: &[char]) -> (r: Vec<char>)
    ensures
        r@ == collapse_ws(s@),
{
    let mut r: Vec<char> = Vec::new();
    let mut i: usize = 0;
    while i < s.len()
        invariant
            i <= s@.len(),
            r@ == collapse_ws(s@.take(i as int)),
        decreases s@.len() - i,
    {
        let c = s[i];
        let ghost t = s@.take(i + 1);
        assert(t.drop_last() =~= s@.take(i as int));
        assert(t.last() == c);
        if !is_ws_exec(c) {
            if i > 0 && !is_ws_exec(s[i - 1]) {
                assert(t[t.len() - 2] == s@[i - 1]);
                r.push(c);
            } else if r.len() == 0 {
                r.push(c);
                assert(r@ =~= seq![c]);
            } else {
                let ghost p = r@;
                r.push(' ');
                r.push(c);
                assert(r@ =~= p + seq![' ', c]);
            }
        }
        i = i + 1;
    }
    assert(s@.take(s@.len() as int) =~= s@);
    r
}

/// The key under which a statement about a document is kept: the document,
/// `::`, and the statement lower-cased with its whitespace collapsed.
pub open spec fn statement_key(doc: Seq<char>, statement: Seq<char>) -> Seq<char> {
    doc + "::"@ + collapse_ws(unicode_lowercase(statement))
}

/// The key under which a statement about a document is kept.
pub fn normalize_statement_key(doc: &str, statement: &str) -> (k: String)
    ensures
        k@ == statement_key(doc@, statement@),
{
    let lower = to_lowercase(statement);
    let lv = to_chars(lower.as_str());
    let c = collapse_whitespace(lv.as_slice());
    let mut k = string_of(doc);
    push_str(&mut k, "::");
    push_chars(&mut k, c.as_slice());
    k
}

/// One conversation turn handed to synthesis.
#[derive(Debug)]
pub struct SynthesisEvent {
    pub user_id: String,
    pub thread_id: String,
    pub user_input: String,
    pub assistant_response: String,
    pub timestamp: String,
}

/// A statement drawn from a turn, aimed at one document.
#[derive(Debug)]
pub struct Observation {
    pub id: String,
    pub timestamp: String,
    pub thread_id: String,
    pub category: String,
    pub target_doc: String,
    pub statement: String,
    /// In hundredths.
    pub confidence: u32,
    pub explicit: bool,
    pub evidence_excerpt: String,
}

/// A rule's document, category and confidence.
pub type Rule = (Seq<char>, Seq<char>, u32);

/// Rules for stated preferences.
pub open spec fn rules_pref(l: Seq<char>) -> Seq<Rule> {
    if contains(l, "prefer "@) || contains(l, "i prefer"@) || contains(l, "i like"@) {
        seq![(PATH_USER@, "user_pref"@, 95u32)]
    } else {
        Seq::<Rule>::empty()
    }
}

/// Rules for stated wants and needs.
pub open spec fn rules_want(l: Seq<char>) -> Seq<Rule> {
    if contains(l, "i want"@) || contains(l, "i need"@) || contains(l, "please"@) {
        seq![(PATH_USER@, "user_pref"@, 90u32), (PATH_MEMORY@, "product_goal"@, 75u32)]
    } else {
        Seq::<Rule>::empty()
    }
}

/// Rules for prohibitions.
pub open spec fn rules_dont(l: Seq<char>) -> Seq<Rule> {
    if contains(l, "don't "@) || contains(l, "dont "@) || contains(l, "do not "@) {
        seq![(PATH_AGENTS@, "operator_rule"@, 96u32)]
    } else {
        Seq::<Rule>::empty()
    }
}

/// Rules for standing instructions.
pub open spec fn rules_keep(l: Seq<char>) -> Seq<Rule> {
    if starts_with(l, "keep "@) || starts_with(l, "always "@) || starts_with(l, "never "@) {
        seq![(PATH_AGENTS@, "operator_rule"@, 93u32)]
    } else {
        Seq::<Rule>::empty()
    }
}

/// Rules for stated values.
pub open spec fn rules_value(l: Seq<char>) -> Seq<Rule> {
    if contains(l, "security first"@) || contains(l, "reliability"@) || contains(l, "truth"@) {
        seq![(PATH_SOUL@, "core_value"@, 80u32)]
    } else {
        Seq::<Rule>::empty()
    }
}

/// Rules for identity facts.
pub open spec fn rules_identity(l: Seq<char>) -> Seq<Rule> {
    if contains(l, "titanclaw"@) || contains(l, "product name"@) || contains(l, "sandbox"@) {
        seq![(PATH_IDENTITY@, "identity_fact"@, 78u32), (PATH_MEMORY@, "durable_fact"@, 70u32)]
    } else {
        Seq::<Rule>::empty()
    }
}

/// The rules that a user message (lower-cased) triggers, in order.
pub open spec fn user_rules(l: Seq<char>) -> Seq<Rule> {
    rules_pref(l) + rules_want(l) + rules_dont(l) + rules_keep(l) + rules_value(l) + rules_identity(
        l,
    )
}

/// The observation that rule `r` draws from the turn `e`.
pub open spec fn user_obs_ok(o: Observation, e: SynthesisEvent, r: Rule) -> bool {
    let user = trim(e.user_input@);
    &&& o.id@ == e.timestamp@ + ":"@ + r.0 + ":"@ + take_chars(user, 24)
    &&& o.timestamp@ == e.timestamp@
    &&& o.thread_id@ == e.thread_id@
    &&& o.category@ == r.1
    &&& o.target_doc@ == r.0
    &&& o.statement@ == user
    &&& o.confidence == r.2
    &&& o.explicit
    &&& o.evidence_excerpt@ == take_chars(user, 240)
}

/// The assistant's reply confirms durable work.
pub open spec fn assistant_confirms(e: SynthesisEvent) -> bool {
    let l = unicode_lowercase(e.assistant_response@);
    contains(l, "fixed"@) || contains(l, "implemented"@) || contains(l, "supported"@)
}

/// The observation drawn from the assistant's confirmation.
pub open spec fn assistant_obs_ok(o: Observation, e: SynthesisEvent) -> bool {
    let excerpt = take_chars(e.assistant_response@, 220);
    &&& o.id@ == e.timestamp@ + ":assistant:"@ + e.thread_id@
    &&& o.timestamp@ == e.timestamp@
    &&& o.thread_id@ == e.thread_id@
    &&& o.category@ == "assistant_summary"@
    &&& o.target_doc@ == PATH_MEMORY@
    &&& o.statement@ == excerpt
    &&& o.confidence == 55
    &&& !o.explicit
    &&& o.evidence_excerpt@ == excerpt
}

/// The observations `os` are those drawn from `e` by the rules `rs`.
pub open spec fn user_obs_list(os: Seq<Observation>, e: SynthesisEvent, rs: Seq<Rule>) -> bool {
    os.len() == rs.len() && forall|i: int| 0 <= i < rs.len() ==> user_obs_ok(#[trigger] os[i], e, rs[i])
}

fn push_user_obs(
    out: &mut Vec<Observation>,
    evt: &SynthesisEvent,
    user: &[char],
    doc: &str,
    category: &str,
    confidence: u32,
    Ghost(rs): Ghost<Seq<Rule>>,
)
    requires
        user@ == trim(evt.user_input@),
        user_obs_list(old(out)@, *evt, rs),
    ensures
        user_obs_list(final(out)@, *evt, rs.push((doc@, category@, confidence))),
{
    let mut id = string_of(evt.timestamp.as_str());
    push_str(&mut id, ":");
    push_str(&mut id, doc);
    push_str(&mut id, ":");
    let head = take_chars_exec(user, 24);
    push_chars(&mut id, head.as_slice());
    let excerpt = take_chars_exec(user, 240);
    let o = Observation {
        id,
        timestamp: evt.timestamp.clone(),
        thread_id: evt.thread_id.clone(),
        category: string_of(category),
        target_doc: string_of(doc),
        statement: from_chars(user),
        confidence,
        explicit: true,
        evidence_excerpt: from_chars(excerpt.as_slice()),
    };
    let ghost before = out@;
    out.push(o);
    proof {
        let rs2 = rs.push((doc@, category@, confidence));
        assert forall|i: int| 0 <= i < rs2.len() implies user_obs_ok(#[trigger] out@[i], *evt, rs2[i]) by {
            if i < rs.len() {
                assert(out@[i] == before[i]);
            }
        }
    }
}

fn push_rules(
    out: &mut Vec<Observation>,
    evt: &SynthesisEvent,
    user: &[char],
    l: &[char],
    group: u8,
    Ghost(rs): Ghost<Seq<Rule>>,
)
    requires
        user@ == trim(evt.user_input@),
        user_obs_list(old(out)@, *evt, rs),
    ensures
        user_obs_list(
            final(out)@,
            *evt,
            rs + if group == 0 {
                rules_pref(l@)
            } else if group == 1 {
                rules_want(l@)
            } else if group == 2 {
                rules_dont(l@)
            } else if group == 3 {
                rules_keep(l@)
            } else if group == 4 {
                rules_value(l@)
            } else {
                rules_identity(l@)
            },
        ),
{
    if group == 0 {
        if contains_str(l, "prefer ") || contains_str(l, "i prefer") || contains_str(l, "i like") {
            push_user_obs(out, evt, user, PATH_USER, "user_pref", 95, Ghost(rs));
            assert(rs.push((PATH_USER@, "user_pref"@, 95u32)) =~= rs + rules_pref(l@));
        } else {
            assert(rs + rules_pref(l@) =~= rs);
        }
    } else if group == 1 {
        if contains_str(l, "i want") || contains_str(l, "i need") || contains_str(l, "please") {
            push_user_obs(out, evt, user, PATH_USER, "user_pref", 90, Ghost(rs));
            let ghost r1 = rs.push((PATH_USER@, "user_pref"@, 90u32));
            push_user_obs(out, evt, user, PATH_MEMORY, "product_goal", 75, Ghost(r1));
            assert(r1.push((PATH_MEMORY@, "product_goal"@, 75u32)) =~= rs + rules_want(l@));
        } else {
            assert(rs + rules_want(l@) =~= rs);
        }
    } else if group == 2 {
        if contains_str(l, "don't ") || contains_str(l, "dont ") || contains_str(l, "do not ") {
            push_user_obs(out, evt, user, PATH_AGENTS, "operator_rule", 96, Ghost(rs));
            assert(rs.push((PATH_AGENTS@, "operator_rule"@, 96u32)) =~= rs + rules_dont(l@));
        } else {
            assert(rs + rules_dont(l@) =~= rs);
        }
    } else if group == 3 {
        if starts_with_str(l, "keep ") || starts_with_str(l, "always ") || starts_with_str(l, "never ") {
            push_user_obs(out, evt, user, PATH_AGENTS, "operator_rule", 93, Ghost(rs));
            assert(rs.push((PATH_AGENTS@, "operator_rule"@, 93u32)) =~= rs + rules_keep(l@));
        } else {
            assert(rs + rules_keep(l@) =~= rs);
        }
    } else if group == 4 {
        if contains_str(l, "security first") || contains_str(l, "reliability") || contains_str(l, "truth") {
            push_user_obs(out, evt, user, PATH_SOUL, "core_value", 80, Ghost(rs));
            assert(rs.push((PATH_SOUL@, "core_value"@, 80u32)) =~= rs + rules_value(l@));
        } else {
            assert(rs + rules_value(l@) =~= rs);
        }
    } else {
        if contains_str(l, "titanclaw") || contains_str(l, "product name") || contains_str(l, "sandbox") {
            push_user_obs(out, evt, user, PATH_IDENTITY, "identity_fact", 78, Ghost(rs));
            let ghost r1 = rs.push((PATH_IDENTITY@, "identity_fact"@, 78u32));
            push_user_obs(out, evt, user, PATH_MEMORY, "durable_fact", 70, Ghost(r1));
            assert(r1.push((PATH_MEMORY@, "durable_fact"@, 70u32)) =~= rs + rules_identity(l@));
        } else {
            assert(rs + rules_identity(l@) =~= rs);
        }
    }
}

/// The observations drawn from the user's message of a turn.
fn extract_user_observations(evt: &SynthesisEvent) -> (out: Vec<Observation>)
    ensures
        user_obs_list(out@, *evt, user_rules(unicode_lowercase(trim(evt.user_input@)))),
{
    let mut out: Vec<Observation> = Vec::new();
    let uv = trim_str(evt.user_input.as_str());
    let user = uv.as_slice();
    let us = from_chars(user);
    let lower_s = to_lowercase(us.as_str());
    let lv = to_chars(lower_s.as_str());
    let l = lv.as_slice();
    let ghost g0 = Seq::<Rule>::empty();
    push_rules(&mut out, evt, user, l, 0, Ghost(g0));
    let ghost g1 = g0 + rules_pref(l@);
    push_rules(&mut out, evt, user, l, 1, Ghost(g1));
    let ghost g2 = g1 + rules_want(l@);
    push_rules(&mut out, evt, user, l, 2, Ghost(g2));
    let ghost g3 = g2 + rules_dont(l@);
    push_rules(&mut out, evt, user, l, 3, Ghost(g3));
    let ghost g4 = g3 + rules_keep(l@);
    push_rules(&mut out, evt, user, l, 4, Ghost(g4));
    let ghost g5 = g4 + rules_value(l@);
    push_rules(&mut out, evt, user, l, 5, Ghost(g5));
    assert(g5 + rules_identity(l@) =~= user_rules(l@));
    out
}

/// The observations drawn from a turn: one per rule that the user's message
/// triggers, in rule order, then one for an assistant reply that confirms
/// durable work.
pub fn extract_observations(evt: &SynthesisEvent) -> (out: Vec<Observation>)
    ensures
        ({
            let rs = user_rules(unicode_lowercase(trim(evt.user_input@)));
            &&& user_obs_list(out@.take(rs.len() as int), *evt, rs)
            &&& out@.len() == rs.len() + if assistant_confirms(*evt) {
                1int
            } else {
                0int
            }
            &&& assistant_confirms(*evt) ==> assistant_obs_ok(out@.last(), *evt)
        }),
{
    let mut out = extract_user_observations(evt);
    let ghost n_user = out@.len();
    assert(out@.take(n_user as int) =~= out@);
    let resp_lower_s = to_lowercase(evt.assistant_response.as_str());
    let rl_v = to_chars(resp_lower_s.as_str());
    let rl = rl_v.as_slice();
    if contains_str(rl, "fixed") || contains_str(rl, "implemented") || contains_str(rl, "supported") {
        let rv = to_chars(evt.assistant_response.as_str());
        let ex = take_chars_exec(rv.as_slice(), 220);
        let mut id = string_of(evt.timestamp.as_str());
        push_str(&mut id, ":assistant:");
        push_str(&mut id, evt.thread_id.as_str());
        let ghost before = out@;
        out.push(Observation {
            id,
            timestamp: evt.timestamp.clone(),
            thread_id: evt.thread_id.clone(),
            category: string_of("assistant_summary"),
            target_doc: string_of(PATH_MEMORY),
            statement: from_chars(ex.as_slice()),
            confidence: 55,
            explicit: false,
            evidence_excerpt: from_chars(ex.as_slice()),
        });
        assert(out@.take(n_user as int) =~= before);
    }
    out
}

/// A statement kept across turns.
#[derive(Debug)]
pub struct StatementRecord {
    pub key: String,
    pub target_doc: String,
    pub category: String,
    pub statement: String,
    pub count: u32,
    /// In hundredths.
    pub confidence: u32,
    pub explicit: bool,
    pub last_seen: String,
}

/// Whether a statement goes into its document's synthesized section.
pub open spec fn include_spec(doc: Seq<char>, explicit: bool, confidence: u32, count: u32) -> bool {
    if doc == PATH_AGENTS@ {
        explicit && (confidence >= 90 || count >= 2)
    } else if doc == PATH_SOUL@ {
        explicit && confidence >= 80 && count >= 1
    } else if doc == PATH_IDENTITY@ {
        confidence >= 70
    } else if doc == PATH_USER@ {
        confidence >= 75
    } else if doc == PATH_MEMORY@ {
        confidence >= 60
    } else {
        false
    }
}

/// Whether a statement goes into its document's synthesized section: rules
/// for AGENTS.md and SOUL.md must be explicit; each document has its own
/// confidence floor; statements about other documents are left out.
pub fn should_include(record: &StatementRecord) -> (b: bool)
    ensures
        b == include_spec(record.target_doc@, record.explicit, record.confidence, record.count),
{
    let d = to_chars(record.target_doc.as_str());
    let doc = d.as_slice();
    if chars_eq_str(doc, PATH_AGENTS) {
        record.explicit && (record.confidence >= 90 || record.count >= 2)
    } else if chars_eq_str(doc, PATH_SOUL) {
        record.explicit && record.confidence >= 80 && record.count >= 1
    } else if chars_eq_str(doc, PATH_IDENTITY) {
        record.confidence >= 70
    } else if chars_eq_str(doc, PATH_USER) {
        record.confidence >= 75
    } else if chars_eq_str(doc, PATH_MEMORY) {
        record.confidence >= 60
    } else {
        false
    }
}

/// A statement record as plain values.
pub struct RecordView {
    pub key: Seq<char>,
    pub target_doc: Seq<char>,
    pub category: Seq<char>,
    pub statement: Seq<char>,
    pub count: u32,
    pub confidence: u32,
    pub explicit: bool,
    pub last_seen: Seq<char>,
}

impl View for StatementRecord {
    type V = RecordView;

    open spec fn view(&self) -> RecordView {
        RecordView {
            key: self.key@,
            target_doc: self.target_doc@,
            category: self.category@,
            statement: self.statement@,
            count: self.count,
            confidence: self.confidence,
            explicit: self.explicit,
            last_seen: self.last_seen@,
        }
    }
}

/// The statements kept across turns, in the order they were first seen.
#[derive(Debug)]
pub struct ProfileState {
    pub statements: Vec<StatementRecord>,
}

/// The views of the records.
pub open spec fn records_view(rs: Seq<StatementRecord>) -> Seq<RecordView> {
    rs.map_values(|r: StatementRecord| r@)
}

/// The position of the first record with the key.
pub open spec fn key_index(rs: Seq<RecordView>, k: Seq<char>) -> Option<int>
    decreases rs.len(),
{
    if rs.len() == 0 {
        None
    } else {
        match key_index(rs.drop_last(), k) {
            Some(i) => Some(i),
            None => if rs.last().key == k {
                Some(rs.len() - 1)
            } else {
                None
            },
        }
    }
}

/// A record seen once more in an observation: its count goes up (saturating),
/// its confidence is the larger one, it is explicit if either is, and it was
/// last seen at the observation's time.
pub open spec fn seen_again(r: RecordView, o: Observation) -> RecordView {
    RecordView {
        count: if r.count == u32::MAX {
            u32::MAX
        } else {
            (r.count + 1) as u32
        },
        confidence: if o.confidence > r.confidence {
            o.confidence
        } else {
            r.confidence
        },
        explicit: r.explicit || o.explicit,
        last_seen: o.timestamp@,
        ..r
    }
}

/// The record first made from an observation, before it is counted.
pub open spec fn fresh_record(k: Seq<char>, o: Observation) -> RecordView {
    RecordView {
        key: k,
        target_doc: o.target_doc@,
        category: o.category@,
        statement: o.statement@,
        count: 0,
        confidence: o.confidence,
        explicit: o.explicit,
        last_seen: o.timestamp@,
    }
}

/// The records after one observation.
pub open spec fn observe(rs: Seq<RecordView>, o: Observation) -> Seq<RecordView> {
    let k = statement_key(o.target_doc@, o.statement@);
    match key_index(rs, k) {
        Some(i) => rs.update(i, seen_again(rs[i], o)),
        None => rs.push(seen_again(fresh_record(k, o), o)),
    }
}

/// The records after the observations, in order.
pub open spec fn observe_all(rs: Seq<RecordView>, os: Seq<Observation>) -> Seq<RecordView>
    decreases os.len(),
{
    if os.len() == 0 {
        rs
    } else {
        observe(observe_all(rs, os.drop_last()), os.last())
    }
}

proof fn lemma_key_index_range(rs: Seq<RecordView>, k: Seq<char>)
    ensures
        key_index(rs, k) matches Some(i) ==> 0 <= i < rs.len() && rs[i].key == k,
    decreases rs.len(),
{
    if rs.len() > 0 {
        lemma_key_index_range(rs.drop_last(), k);
    }
}

proof fn lemma_key_index_is(rs: Seq<RecordView>, k: Seq<char>, i: int)
    requires
        0 <= i <= rs.len(),
        forall|j: int| 0 <= j < i ==> rs[j].key != k,
        i < rs.len() ==> rs[i].key == k,
    ensures
        key_index(rs, k) == (if i < rs.len() {
            Some(i)
        } else {
            None::<int>
        }),
    decreases rs.len(),
{
    if rs.len() > 0 {
        if i < rs.len() - 1 {
            lemma_key_index_is(rs.drop_last(), k, i);
        } else {
            lemma_key_index_is(rs.drop_last(), k, rs.len() - 1);
        }
    }
}

fn observe_one(rs: &mut Vec<StatementRecord>, o: &Observation)
    ensures
        records_view(final(rs)@) == observe(records_view(old(rs)@), *o),
{
    let key = normalize_statement_key(o.target_doc.as_str(), o.statement.as_str());
    let kv = to_chars(key.as_str());
    let ghost v0 = records_view(rs@);
    let mut i: usize = 0;
    while i < rs.len()
        invariant
            i <= rs@.len(),
            rs@ == old(rs)@,
            v0 == records_view(rs@),
            kv@ == key@,
            key@ == statement_key(o.target_doc@, o.statement@),
            forall|j: int| 0 <= j < i ==> v0[j].key != key@,
        decreases rs@.len() - i,
    {
        let rk = to_chars(rs[i].key.as_str());
        if chars_eq(rk.as_slice(), kv.as_slice()) {
            proof {
                lemma_key_index_is(v0, key@, i as int);
            }
            let r = &rs[i];
            let updated = StatementRecord {
                key: r.key.clone(),
                target_doc: r.target_doc.clone(),
                category: r.category.clone(),
                statement: r.statement.clone(),
                count: if r.count == u32::MAX {
                    u32::MAX
                } else {
                    r.count + 1
                },
                confidence: if o.confidence > r.confidence {
                    o.confidence
                } else {
                    r.confidence
                },
                explicit: r.explicit || o.explicit,
                last_seen: o.timestamp.clone(),
            };
            rs.set(i, updated);
            assert(records_view(rs@) =~= v0.update(i as int, seen_again(v0[i as int], *o)));
            return;
        }
        i = i + 1;
    }
    proof {
        lemma_key_index_is(v0, key@, rs@.len() as int);
    }
    rs.push(StatementRecord {
        key: key.clone(),
        target_doc: o.target_doc.clone(),
        category: o.category.clone(),
        statement: o.statement.clone(),
        count: 1,
        confidence: o.confidence,
        explicit: o.explicit,
        last_seen: o.timestamp.clone(),
    });
    assert(records_view(rs@) =~= v0.push(seen_again(fresh_record(key@, *o), *o)));
}

/// Folds the observations into the statement records, in order.
pub fn apply_observations_to_state(state: &mut ProfileState, observations: &[Observation])
    ensures
        records_view(final(state).statements@) == observe_all(
            records_view(old(state).statements@),
            observations@,
        ),
{
    let ghost start = records_view(state.statements@);
    let mut i: usize = 0;
    while i < observations.len()
        invariant
            i <= observations@.len(),
            records_view(state.statements@) == observe_all(start, observations@.take(i as int)),
        decreases observations@.len() - i,
    {
        observe_one(&mut state.statements, &observations[i]);
        assert(observations@.take(i + 1).drop_last() =~= observations@.take(i as int));
        i = i + 1;
    }
    assert(observations@.take(observations@.len() as int) =~= observations@);
}

/// The positions of the records that go into `doc`'s section, in stored order.
pub open spec fn included_positions(rs: Seq<RecordView>, doc: Seq<char>) -> Seq<int>
    decreases rs.len(),
{
    if rs.len() == 0 {
        Seq::<int>::empty()
    } else {
        let p = included_positions(rs.drop_last(), doc);
        let r = rs.last();
        if r.target_doc == doc && include_spec(r.target_doc, r.explicit, r.confidence, r.count) {
            p.push(rs.len() - 1)
        } else {
            p
        }
    }
}

/// 2^32.
pub open spec fn two32() -> int {
    0x1_0000_0000
}

/// 2^64.
pub open spec fn two64() -> int {
    0x1_0000_0000_0000_0000
}

/// The rank of the record at position `i`: higher confidence first, then
/// higher count, then earlier position. A smaller rank is listed first.
pub open spec fn rank_key(r: RecordView, i: int) -> u128 {
    (((u32::MAX - r.confidence) * two32() + (u32::MAX - r.count)) * two64() + i) as u128
}

/// The ranks of the records at the given positions.
pub open spec fn ranks(rs: Seq<RecordView>, ps: Seq<int>) -> Seq<u128> {
    ps.map_values(|i: int| rank_key(rs[i], i))
}

/// At most this many statements are listed in a section.
pub const MAX_LISTED: usize = 12;

/// The positions listed in `doc`'s section: the included records by rank,
/// the first twelve.
pub open spec fn listed_positions(rs: Seq<RecordView>, doc: Seq<char>) -> Seq<int> {
    let sorted = sorted_u128s(ranks(rs, included_positions(rs, doc)));
    let top = if sorted.len() > 12 {
        sorted.take(12)
    } else {
        sorted
    };
    top.map_values(|k: u128| (k as int) % two64())
}

/// A confidence in hundredths written with two decimals.
pub open spec fn confidence_text(h: u32) -> Seq<char> {
    decimal((h / 100) as nat) + seq!['.', digit_char(((h / 10) % 10) as nat), digit_char((h % 10) as nat)]
}

/// The line of a listed statement.
pub open spec fn statement_line(r: RecordView) -> Seq<char> {
    "- "@ + r.statement + " _(confidence "@ + confidence_text(r.confidence) + ", seen "@
        + decimal(r.count as nat) + "x)_"@
}

/// The lines of the listed statements, each after a line break.
pub open spec fn listed_lines(rs: Seq<RecordView>, ps: Seq<int>) -> Seq<char>
    decreases ps.len(),
{
    if ps.len() == 0 {
        Seq::<char>::empty()
    } else {
        listed_lines(rs, ps.drop_last()) + "\n"@ + statement_line(rs[ps.last()])
    }
}

/// The heading of a synthesized section stamped with `ts`.
pub open spec fn section_head(ts: Seq<char>) -> Seq<char> {
    "## Synthesized Profile (Managed)\n_Updated: "@ + ts + " UTC_\n"@
}

/// The synthesized section of `doc`, or none when no statement is included.
pub open spec fn section_spec(rs: Seq<RecordView>, doc: Seq<char>, ts: Seq<char>) -> Option<Seq<char>> {
    if included_positions(rs, doc).len() == 0 {
        None
    } else {
        Some(section_head(ts) + listed_lines(rs, listed_positions(rs, doc)))
    }
}

proof fn lemma_included_positions(rs: Seq<RecordView>, doc: Seq<char>)
    ensures
        forall|j: int|
            0 <= j < included_positions(rs, doc).len() ==> 0 <= #[trigger] included_positions(
                rs,
                doc,
            )[j] < rs.len(),
        included_positions(rs, doc).len() <= rs.len(),
    decreases rs.len(),
{
    if rs.len() > 0 {
        lemma_included_positions(rs.drop_last(), doc);
    }
}

proof fn lemma_rank_key(c: u32, n: u32, i: int)
    requires
        0 <= i < two64(),
    ensures
        0 <= ((u32::MAX - c) * two32() + (u32::MAX - n)) * two64() + i <= u128::MAX,
        (((u32::MAX - c) * two32() + (u32::MAX - n)) * two64() + i) % two64() == i,
{
    let a = (u32::MAX - c) * two32() + (u32::MAX - n);
    assert(0 <= a < two64()) by (nonlinear_arith)
        requires
            0 <= u32::MAX - c < two32(),
            0 <= u32::MAX - n < two32(),
            a == (u32::MAX - c) * two32() + (u32::MAX - n),
            two32() * two32() == two64(),
    ;
    assert(0 <= a * two64() + i <= u128::MAX) by (nonlinear_arith)
        requires
            0 <= a < two64(),
            0 <= i < two64(),
            two64() * two64() == u128::MAX + 1,
    ;
    vstd::arithmetic::div_mod::lemma_fundamental_div_mod_converse(a * two64() + i, two64(), a, i);
}

fn push_confidence(out: &mut String, h: u32)
    ensures
        final(out)@ == old(out)@ + confidence_text(h),
{
    let ghost start = out@;
    push_decimal(out, (h / 100) as u64);
    assert((((h / 100) as u64) as nat) == (h / 100) as nat);
    push_char(out, '.');
    let d1 = ((h / 10) % 10) as u8;
    let d2 = (h % 10) as u8;
    let c1 = (d1 + 48) as char;
    let c2 = (d2 + 48) as char;
    assert(c1 == digit_char(((h / 10) % 10) as nat)) by {
        assert(((h / 10) % 10) as nat % 10 == d1);
    }
    assert(c2 == digit_char((h % 10) as nat)) by {
        assert((h % 10) as nat % 10 == d2);
    }
    let ghost before = out@;
    push_char(out, c1);
    push_char(out, c2);
    assert(out@ =~= start + confidence_text(h));
}

/// The synthesized section of `doc` over the statement records, stamped with
/// `ts`: the heading, then up to twelve included statements, higher
/// confidence first, then higher count, then first seen; none when no
/// statement of `doc` is included.
#[verifier::rlimit(40)]
pub fn build_section(state: &ProfileState, doc: &str, ts: &str) -> (r: Option<String>)
    ensures
        match (r, section_spec(records_view(state.statements@), doc@, ts@)) {
            (Some(a), Some(b)) => a@ == b,
            (None, None) => true,
            _ => false,
        },
{
    let rs = &state.statements;
    let ghost v = records_view(rs@);
    let dv = to_chars(doc);
    let mut positions: Vec<usize> = Vec::new();
    let mut keys: Vec<u128> = Vec::new();
    let mut i: usize = 0;
    while i < rs.len()
        invariant
            i <= rs@.len(),
            v == records_view(rs@),
            dv@ == doc@,
            positions@.map_values(|p: usize| p as int) == included_positions(v.take(i as int), doc@),
            keys@ == ranks(v, positions@.map_values(|p: usize| p as int)),
        decreases rs@.len() - i,
    {
        let r = &rs[i];
        let td = to_chars(r.target_doc.as_str());
        assert(v.take(i + 1).drop_last() =~= v.take(i as int));
        if chars_eq(td.as_slice(), dv.as_slice()) && should_include(r) {
            let ghost old_pos = positions@;
            positions.push(i);
            proof {
                lemma_rank_key(r.confidence, r.count, i as int);
            }
            let a: u128 = ((u32::MAX - r.confidence) as u128) * 0x1_0000_0000u128 + ((u32::MAX
                - r.count) as u128);
            let k: u128 = a * 0x1_0000_0000_0000_0000u128 + (i as u128);
            keys.push(k);
            assert(positions@.map_values(|p: usize| p as int) =~= old_pos.map_values(
                |p: usize| p as int,
            ).push(i as int));
            assert(keys@ =~= ranks(v, positions@.map_values(|p: usize| p as int)));
        }
        i = i + 1;
    }
    assert(v.take(rs@.len() as int) =~= v);
    if positions.len() == 0 {
        return None;
    }
    let ghost ps = positions@.map_values(|p: usize| p as int);
    proof {
        lemma_included_positions(v, doc@);
    }
    let sorted = sort_u128(keys);
    let n = if sorted.len() > MAX_LISTED {
        MAX_LISTED
    } else {
        sorted.len()
    };
    let mut out = string_of("## Synthesized Profile (Managed)\n_Updated: ");
    push_str(&mut out, ts);
    push_str(&mut out, " UTC_\n");
    let ghost listed = listed_positions(v, doc@);
    assert(listed.len() == n);
    let total = rs.len();
    assert(listed.take(0) =~= Seq::<int>::empty());
    assert(out@ =~= section_head(ts@) + listed_lines(v, listed.take(0)));
    let mut j: usize = 0;
    while j < n
        invariant
            j <= n <= sorted@.len(),
            sorted@ == sorted_u128s(ranks(v, ps)),
            ps == included_positions(v, doc@),
            forall|q: int| 0 <= q < ps.len() ==> 0 <= #[trigger] ps[q] < v.len(),
            v == records_view(rs@),
            v.len() <= usize::MAX,
            listed == listed_positions(v, doc@),
            listed.len() == n,
            out@ == section_head(ts@) + listed_lines(v, listed.take(j as int)),
        decreases n - j,
    {
        let k = sorted[j];
        proof {
            broadcast use vstd::seq_lib::group_to_multiset_ensures;
            let rk = ranks(v, ps);
            rk.lemma_sort_by_ensures(|a: u128, b: u128| le_u128(a, b));
            assert(sorted@[j as int] == k);
            assert(sorted@.contains(k));
            assert(sorted@.to_multiset().count(k) > 0);
            assert(rk.to_multiset().count(k) > 0);
            assert(rk.contains(k));
            let q = choose|q: int| 0 <= q < rk.len() && rk[q] == k;
            lemma_rank_key(v[ps[q]].confidence, v[ps[q]].count, ps[q]);
            assert((k as int) % two64() == ps[q]);
            assert(listed[j as int] == (k as int) % two64());
        }
        let idx = (k % 0x1_0000_0000_0000_0000u128) as usize;
        let r = &rs[idx];
        let ghost before = out@;
        push_str(&mut out, "\n");
        push_str(&mut out, "- ");
        push_str(&mut out, r.statement.as_str());
        push_str(&mut out, " _(confidence ");
        push_confidence(&mut out, r.confidence);
        push_str(&mut out, ", seen ");
        push_decimal(&mut out, r.count as u64);
        push_str(&mut out, "x)_");
        assert(listed.take(j + 1).drop_last() =~= listed.take(j as int));
        assert(v[listed[j as int]] == r@);
        assert(out@ =~= before + "\n"@ + statement_line(r@));
        j = j + 1;
    }
    assert(listed.take(n as int) =~= listed);
    Some(out)
}

/// The body written into a document's synthesized section: the language
/// model's proposal when it is not blank, else the deterministic section,
/// else a placeholder.
pub fn managed_body_for(deterministic: Option<String>, proposed: Option<&str>) -> (b: String)
    ensures
        b@ == (match proposed {
            Some(p) => if trim(p@).len() > 0 {
                p@
            } else {
                match deterministic {
                    Some(d) => d@,
                    None => NO_UPDATES@,
                }
            },
            None => match deterministic {
                Some(d) => d@,
                None => NO_UPDATES@,
            },
        }),
{
    match proposed {
        Some(p) => {
            let t = trim_str(p);
            if t.len() > 0 {
                return string_of(p);
            }
        },
        None => {},
    }
    match deterministic {
        Some(d) => d,
        None => string_of(NO_UPDATES),
    }
}

/// The entries as a map (a later entry wins).
pub open spec fn entries_map(v: Seq<(String, String)>) -> Map<Seq<char>, Seq<char>>
    decreases v.len(),
{
    if v.len() == 0 {
        Map::empty()
    } else {
        entries_map(v.drop_last()).insert(v.last().0@, v.last().1@)
    }
}

/// What `serde_json::from_str` makes of a text as a JSON object of strings:
/// the map, or the error's message.
pub uninterp spec fn string_map_json(raw: Seq<char>) -> Result<Map<Seq<char>, Seq<char>>, Seq<char>>;

/// `serde_json::from_str::<HashMap<String, String>>`, with the map handed out
/// as its entries and the error as its message. The result is named
/// `string_map_json` of the text; the entries have distinct keys, as a
/// `HashMap`'s do. Their order, that of the map's walk, is not stated.
#[verifier::external_body]
fn parse_string_map(raw: &str) -> (r: Result<Vec<(String, String)>, String>)
    ensures
        match (r, string_map_json(raw@)) {
            (Ok(v), Ok(m)) => entries_map(v@) == m && forall|i: int, j: int|
                0 <= i < j < v@.len() ==> v@[i].0@ != v@[j].0@,
            (Err(e), Err(t)) => e@ == t,
            _ => false,
        },
{
    match serde_json::from_str::<std::collections::HashMap<String, String>>(raw) {
        Ok(m) => Ok(m.into_iter().collect()),
        Err(e) => Err(e.to_string()),
    }
}

/// The first position of a character.
pub open spec fn first_char_index(s: Seq<char>, c: char) -> Option<int>
    decreases s.len(),
{
    if s.len() == 0 {
        None
    } else {
        match first_char_index(s.drop_last(), c) {
            Some(i) => Some(i),
            None => if s.last() == c {
                Some(s.len() - 1)
            } else {
                None
            },
        }
    }
}

/// The last position of a character.
pub open spec fn last_char_index(s: Seq<char>, c: char) -> Option<int>
    decreases s.len(),
{
    if s.len() == 0 {
        None
    } else if s.last() == c {
        Some(s.len() - 1)
    } else {
        last_char_index(s.drop_last(), c)
    }
}

/// The text's last `}` stands before its first `{` with at least one
/// character between them, so that the span from the first `{` to the last
/// `}` runs backwards (a `}` directly before the `{` gives an empty span).
pub open spec fn braces_inverted(s: Seq<char>) -> bool {
    match (first_char_index(s, '{'), last_char_index(s, '}')) {
        (Some(a), Some(b)) => b + 1 < a,
        _ => false,
    }
}

/// What a language model's reply gives as section bodies: the reply parsed
/// as a JSON object of strings, or else the span from its first `{` to its
/// last `}` parsed so.
pub open spec fn parse_sections_spec(raw: Seq<char>) -> Result<Map<Seq<char>, Seq<char>>, Seq<char>> {
    match string_map_json(raw) {
        Ok(m) => Ok(m),
        Err(_) => match first_char_index(raw, '{') {
            None => Err("No JSON object found in LLM response"@),
            Some(a) => match last_char_index(raw, '}') {
                None => Err("No JSON object end found in LLM response"@),
                Some(b) => string_map_json(raw.subrange(a, b + 1)),
            },
        },
    }
}

fn find_char(s: &[char], c: char) -> (r: Option<usize>)
    ensures
        r == (match first_char_index(s@, c) {
            Some(i) => Some(i as usize),
            None => None::<usize>,
        }),
        r matches Some(i) ==> i < s@.len(),
        first_char_index(s@, c) matches Some(i) ==> 0 <= i < s@.len(),
{
    proof {
        lemma_char_index_range(s@, c);
    }
    let mut i: usize = 0;
    while i < s.len()
        invariant
            i <= s@.len(),
            first_char_index(s@.take(i as int), c) is None,
        decreases s@.len() - i,
    {
        assert(s@.take(i + 1).drop_last() =~= s@.take(i as int));
        if s[i] == c {
            proof {
                lemma_first_char_prefix(s@, c, i as int + 1, i as int);
            }
            return Some(i);
        }
        i = i + 1;
    }
    assert(s@.take(s@.len() as int) =~= s@);
    None
}

proof fn lemma_first_char_prefix(s: Seq<char>, c: char, k: int, i: int)
    requires
        0 <= i < k <= s.len(),
        first_char_index(s.take(k), c) == Some(i),
    ensures
        first_char_index(s, c) == Some(i),
    decreases s.len() - k,
{
    if k < s.len() {
        assert(s.take(k + 1).drop_last() =~= s.take(k));
        lemma_first_char_prefix(s, c, k + 1, i);
    } else {
        assert(s.take(k) =~= s);
    }
}

pub proof fn lemma_char_index_range(s: Seq<char>, c: char)
    ensures
        first_char_index(s, c) matches Some(i) ==> 0 <= i < s.len(),
        last_char_index(s, c) matches Some(i) ==> 0 <= i < s.len(),
    decreases s.len(),
{
    if s.len() > 0 {
        lemma_char_index_range(s.drop_last(), c);
    }
}

fn rfind_char(s: &[char], c: char) -> (r: Option<usize>)
    ensures
        r == (match last_char_index(s@, c) {
            Some(i) => Some(i as usize),
            None => None::<usize>,
        }),
        r matches Some(i) ==> i < s@.len(),
        last_char_index(s@, c) matches Some(i) ==> 0 <= i < s@.len(),
{
    proof {
        lemma_char_index_range(s@, c);
    }
    let mut i: usize = s.len();
    assert(s@.take(s@.len() as int) =~= s@);
    while i > 0
        invariant
            i <= s@.len(),
            last_char_index(s@, c) == last_char_index(s@.take(i as int), c),
        decreases i,
    {
        assert(s@.take(i as int).drop_last() =~= s@.take(i - 1));
        if s[i - 1] == c {
            return Some(i - 1);
        }
        i = i - 1;
    }
    None
}

/// Reads section bodies out of a language model's reply: the whole reply as
/// a JSON object of strings, or else the span from its first `{` to its last
/// `}`.
pub fn parse_llm_section_json(raw: &str) -> (r: Result<Vec<(String, String)>, String>)
    requires
        !braces_inverted(raw@),
    ensures
        match (r, parse_sections_spec(raw@)) {
            (Ok(v), Ok(m)) => entries_map(v@) == m,
            (Err(e), Err(t)) => e@ == t,
            _ => false,
        },
{
    match parse_string_map(raw) {
        Ok(v) => return Ok(v),
        Err(_) => {},
    }
    let rv = to_chars(raw);
    let rs = rv.as_slice();
    assert(rs@ == raw@);
    let n = rs.len();
    let fa = find_char(rs, '{');
    let fb = rfind_char(rs, '}');
    let start = match fa {
        Some(a) => a,
        None => {
            return Err(string_of("No JSON object found in LLM response"));
        },
    };
    let end = match fb {
        Some(b) => b,
        None => {
            return Err(string_of("No JSON object end found in LLM response"));
        },
    };
    let span = slice_chars(rv.as_slice(), start, end + 1);
    let ss = from_chars(span.as_slice());
    match parse_string_map(ss.as_str()) {
        Ok(v) => Ok(v),
        Err(e) => Err(e),
    }
}

} // verus!
