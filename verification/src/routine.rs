//! Routine engine decisions: when a routine fires, how a run is judged and
//! when its outcome is announced.
use vstd::prelude::*;
use vstd::utf8::encode_utf8;
use crate::text::{
    contains, contains_str, from_chars, push_chars, push_str, slice_chars, string_of, to_chars,
    trim, trim_str,
};

verus! {

/// How a routine run ended (or that it is still running).
#[derive(Debug, Clone, Copy, PartialEq, Eq, Structural)]
pub enum RunStatus {
    Success,
    Attention,
    Failed,
    Running,
}

/// The name of a run status.
pub open spec fn status_name(s: RunStatus) -> Seq<char> {
    match s {
        RunStatus::Success => "ok"@,
        RunStatus::Attention => "attention"@,
        RunStatus::Failed => "failed"@,
        RunStatus::Running => "running"@,
    }
}

impl RunStatus {
    /// The name of the status.
    pub fn to_string(&self) -> (s: String)
        ensures
            s@ == status_name(*self),
    {
        match self {
            RunStatus::Success => string_of("ok"),
            RunStatus::Attention => string_of("attention"),
            RunStatus::Failed => string_of("failed"),
            RunStatus::Running => string_of("running"),
        }
    }
}

/// Which run outcomes of a routine are announced.
#[derive(Debug, Clone, Copy)]
pub struct NotifyConfig {
    pub on_success: bool,
    pub on_failure: bool,
    pub on_attention: bool,
}

impl Default for NotifyConfig {
    /// Nothing is announced.
    fn default() -> (c: Self)
        ensures
            !c.on_success && !c.on_failure && !c.on_attention,
    {
        NotifyConfig { on_success: false, on_failure: false, on_attention: false }
    }
}

/// Whether a run outcome is announced: by the routine's settings; a run
/// still in progress never is.
pub fn should_notify(notify: &NotifyConfig, status: RunStatus) -> (b: bool)
    ensures
        b == match status {
            RunStatus::Success => notify.on_success,
            RunStatus::Attention => notify.on_attention,
            RunStatus::Failed => notify.on_failure,
            RunStatus::Running => false,
        },
{
    match status {
        RunStatus::Success => notify.on_success,
        RunStatus::Attention => notify.on_attention,
        RunStatus::Failed => notify.on_failure,
        RunStatus::Running => false,
    }
}

/// The icon of a run status.
pub open spec fn icon_spec(s: RunStatus) -> Seq<char> {
    match s {
        RunStatus::Success => "✅"@,
        RunStatus::Attention => "🔔"@,
        RunStatus::Failed => "❌"@,
        RunStatus::Running => "⏳"@,
    }
}

/// The icon of a run status.
pub fn status_icon(status: RunStatus) -> (s: &'static str)
    ensures
        s@ == icon_spec(status),
{
    match status {
        RunStatus::Success => "✅",
        RunStatus::Attention => "🔔",
        RunStatus::Failed => "❌",
        RunStatus::Running => "⏳",
    }
}

/// The announcement of a run outcome.
pub open spec fn notification_spec(name: Seq<char>, status: RunStatus, summary: Option<Seq<char>>) -> Seq<char> {
    let head = icon_spec(status) + " *Routine '"@ + name + "'*: "@ + status_name(status);
    match summary {
        Some(s) => head + "\n\n"@ + s,
        None => head,
    }
}

/// The announcement of a run outcome.
pub fn notification_text(routine_name: &str, status: RunStatus, summary: Option<&str>) -> (s: String)
    ensures
        s@ == notification_spec(
            routine_name@,
            status,
            match summary {
                Some(x) => Some(x@),
                None => None,
            },
        ),
{
    let mut s = string_of(status_icon(status));
    push_str(&mut s, " *Routine '");
    push_str(&mut s, routine_name);
    push_str(&mut s, "'*: ");
    let st = status.to_string();
    push_str(&mut s, st.as_str());
    match summary {
        Some(x) => {
            push_str(&mut s, "\n\n");
            push_str(&mut s, x);
        },
        None => {},
    }
    s
}

/// The number of UTF-8 bytes of a text.
pub open spec fn byte_len(s: Seq<char>) -> nat {
    encode_utf8(s).len()
}

/// The longest prefix of a text whose UTF-8 encoding fits in `max` bytes.
pub open spec fn byte_prefix(s: Seq<char>, max: nat) -> Seq<char>
    decreases s.len(),
{
    if byte_len(s) <= max {
        s
    } else {
        byte_prefix(s.drop_last(), max)
    }
}

/// A text cut to at most `max` bytes at a character boundary, with `...`
/// when it was longer.
pub open spec fn truncate_bytes_spec(s: Seq<char>, max: nat) -> Seq<char> {
    if byte_len(s) <= max {
        s
    } else {
        byte_prefix(s, max) + "..."@
    }
}

fn utf8_width(c: char) -> (w: usize)
    ensures
        w == encode_utf8(seq![c]).len(),
        1 <= w <= 4,
{
    proof {
        vstd::utf8::char_is_scalar(c);
    }
    let u = c as u32;
    assert(encode_utf8(seq![c]) =~= vstd::utf8::encode_scalar(c as u32) + encode_utf8(Seq::<char>::empty())) by {
        reveal_with_fuel(encode_utf8, 2);
        assert(seq![c].drop_first() =~= Seq::<char>::empty());
    }
    if u < 0x80 {
        1
    } else if u < 0x800 {
        2
    } else if u < 0x10000 {
        3
    } else {
        4
    }
}

proof fn lemma_encode_push(s: Seq<char>, c: char)
    ensures
        encode_utf8(s.push(c)) == encode_utf8(s) + encode_utf8(seq![c]),
    decreases s.len(),
{
    if s.len() == 0 {
        assert(s.push(c) =~= seq![c]);
    } else {
        assert(s.push(c).drop_first() =~= s.drop_first().push(c));
        lemma_encode_push(s.drop_first(), c);
        assert(encode_utf8(s.push(c)) =~= encode_utf8(s) + encode_utf8(seq![c]));
    }
}

proof fn lemma_byte_prefix_of_take(s: Seq<char>, k: int, max: nat)
    requires
        0 <= k <= s.len(),
        byte_len(s.take(k)) <= max,
        k == s.len() || byte_len(s.take(k + 1)) > max,
    ensures
        byte_prefix(s, max) == s.take(k),
    decreases s.len(),
{
    if byte_len(s) <= max {
        if k < s.len() {
            lemma_byte_len_monotone(s, k + 1, s.len() as int);
        }
        assert(s.take(s.len() as int) =~= s);
    } else {
        assert(k < s.len()) by {
            if k == s.len() {
                assert(s.take(k) =~= s);
            }
        }
        let d = s.drop_last();
        assert(d.take(k) =~= s.take(k));
        if k < d.len() {
            assert(d.take(k + 1) =~= s.take(k + 1));
        }
        lemma_byte_prefix_of_take(d, k, max);
    }
}

proof fn lemma_byte_len_monotone(s: Seq<char>, a: int, b: int)
    requires
        0 <= a <= b <= s.len(),
    ensures
        byte_len(s.take(a)) <= byte_len(s.take(b)),
    decreases b - a,
{
    if a < b {
        lemma_byte_len_monotone(s, a, b - 1);
        assert(s.take(b) =~= s.take(b - 1).push(s[b - 1]));
        lemma_encode_push(s.take(b - 1), s[b - 1]);
    }
}

/// A text cut to at most `max` bytes at a character boundary, with `...`
/// when it was longer.
pub fn truncate(s: &str, max: usize) -> (r: String)
    ensures
        r@ == truncate_bytes_spec(s@, max as nat),
{
    let v = to_chars(s);
    let n = v.len();
    let mut k: usize = 0;
    let mut bytes: usize = 0;
    let mut stop = false;
    assert(v@.take(0) =~= Seq::<char>::empty());
    while k < n && !stop
        invariant
            n == v@.len(),
            v@ == s@,
            k <= n,
            bytes == byte_len(v@.take(k as int)),
            bytes <= max,
            stop ==> k < n && byte_len(v@.take(k + 1)) > max,
        decreases n - k + (if stop { 0int } else { 1int }),
    {
        let w = utf8_width(v[k]);
        proof {
            assert(v@.take(k + 1) =~= v@.take(k as int).push(v@[k as int]));
            lemma_encode_push(v@.take(k as int), v@[k as int]);
        }
        if w > max - bytes {
            stop = true;
        } else {
            bytes = bytes + w;
            k = k + 1;
        }
    }
    proof {
        lemma_byte_prefix_of_take(s@, k as int, max as nat);
    }
    if k == n {
        assert(v@.take(n as int) =~= s@);
        return string_of(s);
    }
    let head = slice_chars(v.as_slice(), 0, k);
    let mut r = from_chars(head.as_slice());
    push_str(&mut r, "...");
    proof {
        assert(head@ =~= s@.take(k as int));
        if byte_len(s@) <= max as nat {
            lemma_byte_len_monotone(s@, k as int + 1, s@.len() as int);
            assert(s@.take(s@.len() as int) =~= s@);
        }
    }
    r
}

/// Whether a routine is out of its cooldown: it never ran, or at least the
/// cooldown has passed since its last run (times in milliseconds).
pub fn cooldown_elapsed(last_run_ms: Option<i64>, now_ms: i64, cooldown_ms: i64) -> (b: bool)
    ensures
        b == match last_run_ms {
            Some(t) => now_ms - t >= cooldown_ms,
            None => true,
        },
{
    match last_run_ms {
        Some(t) => (now_ms as i128) - (t as i128) >= (cooldown_ms as i128),
        None => true,
    }
}

/// The routine's counters after a run: one more run; failures in a row grow
/// on failure and reset otherwise.
pub fn runtime_after_run(status: RunStatus, run_count: u64, consecutive_failures: u32) -> (r: (u64, u32))
    requires
        run_count < u64::MAX,
        status == RunStatus::Failed ==> consecutive_failures < u32::MAX,
    ensures
        r.0 == run_count + 1,
        r.1 == if status == RunStatus::Failed {
            consecutive_failures + 1
        } else {
            0
        },
{
    let failures = if status == RunStatus::Failed {
        consecutive_failures + 1
    } else {
        0
    };
    (run_count + 1, failures)
}

/// The view of an optional text.
pub open spec fn opt_text(o: Option<String>) -> Option<Seq<char>> {
    match o {
        Some(s) => Some(s@),
        None => None,
    }
}

/// The reply a lightweight routine expects when nothing needs attention.
pub const ROUTINE_OK: &'static str = "ROUTINE_OK";

/// How a lightweight routine's reply is judged: an empty reply is an error
/// (a cut-off one says so); one that holds `ROUTINE_OK` is fine; anything
/// else needs attention, with the trimmed reply as its summary.
pub fn interpret_lightweight_reply(content: &str, cut_off: bool) -> (r: Result<(RunStatus, Option<String>), String>)
    ensures
        match r {
            Err(e) => trim(content@).len() == 0 && e@ == if cut_off {
                "LLM response truncated (finish_reason=length) with no content. Model may have exhausted token budget on reasoning."@
            } else {
                "LLM returned empty content."@
            },
            Ok((st, summary)) => trim(content@).len() > 0 && if contains(trim(content@), ROUTINE_OK@) {
                st == RunStatus::Success && summary is None
            } else {
                st == RunStatus::Attention && opt_text(summary) == Some(trim(content@))
            },
        },
{
    let t = trim_str(content);
    if t.len() == 0 {
        if cut_off {
            return Err(string_of(
                "LLM response truncated (finish_reason=length) with no content. Model may have exhausted token budget on reasoning.",
            ));
        }
        return Err(string_of("LLM returned empty content."));
    }
    if contains_str(t.as_slice(), ROUTINE_OK) {
        return Ok((RunStatus::Success, None));
    }
    Ok((RunStatus::Attention, Some(from_chars(t.as_slice()))))
}

/// Whether a successful routine has run often enough to suggest a playbook.
pub fn playbook_candidate_due(status: RunStatus, run_count: u64, min_repetitions: u64) -> (b: bool)
    ensures
        b == (status == RunStatus::Success && (if run_count == u64::MAX {
            run_count as int
        } else {
            run_count + 1
        }) >= min_repetitions),
{
    let next = if run_count == u64::MAX {
        run_count
    } else {
        run_count + 1
    };
    status == RunStatus::Success && next >= min_repetitions
}

/// What `regex::Regex::new(pattern)` then `is_match(text)` give: none when
/// the pattern does not compile.
pub uninterp spec fn regex_match(pattern: Seq<char>, text: Seq<char>) -> Option<bool>;

/// `regex::Regex::new` of the pattern and `Regex::is_match` of the text: the
/// result is named `regex_match` of the two; none when the pattern is
/// refused.
#[verifier::external_body]
fn regex_is_match(pattern: &str, text: &str) -> (r: Option<bool>)
    ensures
        r == regex_match(pattern@, text@),
{
    match regex::Regex::new(pattern) {
        Ok(re) => Some(re.is_match(text)),
        Err(_) => None,
    }
}

/// Whether an event routine fires on a message: its channel filter (if any)
/// names the message's channel, its pattern compiles and matches the text,
/// it is out of cooldown, under its own concurrency limit, and the engine is
/// under its global limit.
pub fn event_routine_fires(
    channel_filter: Option<&str>,
    message_channel: &str,
    pattern: &str,
    content: &str,
    cooldown_ok: bool,
    concurrent_ok: bool,
    running: usize,
    max_running: usize,
) -> (b: bool)
    ensures
        b == ((match channel_filter {
            Some(c) => c@ == message_channel@,
            None => true,
        }) && regex_match(pattern@, content@) == Some(true) && cooldown_ok && concurrent_ok
            && running < max_running),
{
    match channel_filter {
        Some(c) => {
            let cv = to_chars(c);
            let mv = to_chars(message_channel);
            if !crate::text::chars_eq(cv.as_slice(), mv.as_slice()) {
                return false;
            }
        },
        None => {},
    }
    match regex_is_match(pattern, content) {
        Some(true) => {},
        _ => {
            return false;
        },
    }
    cooldown_ok && concurrent_ok && running < max_running
}

/// A routine may start another run while fewer than its limit are running.
pub fn concurrent_ok(running_runs: i64, max_concurrent: u32) -> (b: bool)
    ensures
        b == (running_runs < max_concurrent),
{
    running_runs < max_concurrent as i64
}

/// Whether a routine may be fired by hand: it must be enabled and under its
/// concurrency limit; otherwise the refusal names it.
pub fn manual_fire_gate(name: &str, enabled: bool, under_concurrency_limit: bool) -> (r: Result<(), String>)
    ensures
        !enabled ==> (r matches Err(m) && m@ == "routine '"@ + name@ + "' is disabled"@),
        enabled && !under_concurrency_limit ==> (r matches Err(m) && m@ == "routine '"@ + name@
            + "' already at max concurrent runs"@),
        enabled && under_concurrency_limit ==> r is Ok,
{
    if !enabled {
        let mut m = String::new();
        push_str(&mut m, "routine '");
        push_str(&mut m, name);
        push_str(&mut m, "' is disabled");
        return Err(m);
    }
    if !under_concurrency_limit {
        let mut m = String::new();
        push_str(&mut m, "routine '");
        push_str(&mut m, name);
        push_str(&mut m, "' already at max concurrent runs");
        return Err(m);
    }
    Ok(())
}

} // verus!
