//! Dispatcher helpers: tool result previews, fallback candidates and the
//! tool routing decision.
use vstd::prelude::*;
use crate::error::Error;
use crate::json::{
    flag_member_is_true, json_shape_of, json_text_field, parse_json_shape, shape_field,
    shape_text, text_member, JsonLeafView,
};
use crate::policy::{ToolContractV2Descriptor, ToolIdempotency, ToolSideEffectLevel};
use crate::text::{
    chars_eq, chars_eq_str, decimal, from_chars, push_chars, push_decimal, push_str, slice_chars,
    starts_with, string_of, take_chars, take_chars_exec, to_chars, trim, trim_chars, trim_str,
};

verus! {

/// Characters per tool result preview chunk.
pub const TOOL_RESULT_CHUNK_CHARS: usize = 700;
/// At most this many preview chunks.
pub const TOOL_RESULT_MAX_CHUNKS: usize = 12;
/// The prefix that marks a streamed tool event.
pub const TOOL_STREAM_EVENT_PREFIX: &'static str = "\u{001e}IRON_TOOL_EVENT:";
/// Characters in a tool draft preview.
pub const TOOL_DRAFT_PREVIEW_CHARS: usize = 240;

/// A tool call being assembled from streamed pieces.
#[derive(Debug)]
pub struct StreamedToolCallState {
    pub provider_call_id: Option<String>,
    pub name: Option<String>,
    pub args_buffer: String,
    pub last_preview: Option<String>,
    pub early_started: bool,
}

impl StreamedToolCallState {
    /// A call with nothing received yet.
    pub fn new() -> (s: Self)
        ensures
            s.provider_call_id is None,
            s.name is None,
            s.args_buffer@ == Seq::<char>::empty(),
            s.last_preview is None,
            !s.early_started,
    {
        StreamedToolCallState {
            provider_call_id: None,
            name: None,
            args_buffer: String::new(),
            last_preview: None,
            early_started: false,
        }
    }
}

/// The payload of a streamed tool event: the chunk without its marker, when
/// it carries one.
pub fn tool_stream_payload(chunk: &str) -> (r: Option<String>)
    ensures
        match r {
            Some(p) => starts_with(chunk@, TOOL_STREAM_EVENT_PREFIX@) && p@ == chunk@.skip(
                TOOL_STREAM_EVENT_PREFIX@.len() as int,
            ),
            None => !starts_with(chunk@, TOOL_STREAM_EVENT_PREFIX@),
        },
{
    let c = to_chars(chunk);
    let p = to_chars(TOOL_STREAM_EVENT_PREFIX);
    let n = c.len();
    if p.len() <= c.len() {
        let head = slice_chars(c.as_slice(), 0, p.len());
        if chars_eq(head.as_slice(), p.as_slice()) {
            let rest = slice_chars(c.as_slice(), p.len(), c.len());
            assert(head@ =~= chunk@.take(p@.len() as int));
            assert(rest@ =~= chunk@.skip(p@.len() as int));
            return Some(from_chars(rest.as_slice()));
        }
        assert(head@ =~= chunk@.take(p@.len() as int));
    }
    None
}

/// A text cut to `max` characters, with `…` when it was longer.
pub open spec fn preview_spec(s: Seq<char>, max: nat) -> Seq<char> {
    if s.len() <= max {
        s
    } else {
        s.take(max as int) + seq!['…']
    }
}

/// A text cut to `max` characters, with `…` when it was longer.
pub fn truncate_preview_chars(s: &str, max_chars: usize) -> (r: String)
    ensures
        r@ == preview_spec(s@, max_chars as nat),
{
    let v = to_chars(s);
    if v.len() <= max_chars {
        string_of(s)
    } else {
        let head = slice_chars(v.as_slice(), 0, max_chars);
        let mut r = from_chars(head.as_slice());
        let ghost before = r@;
        crate::text::push_char(&mut r, '…');
        assert(head@ =~= s@.take(max_chars as int));
        r
    }
}

/// The preview of a shell command: trimmed and cut to the preview length;
/// none when there is no command or it is blank.
pub open spec fn command_preview(command: Option<Seq<char>>) -> Option<Seq<char>> {
    match command {
        None => None,
        Some(c) => if trim(c).len() == 0 {
            None
        } else {
            Some(preview_spec(trim(c), TOOL_DRAFT_PREVIEW_CHARS as nat))
        },
    }
}

/// The preview of a shell call's JSON arguments: that of its `command`
/// string.
pub open spec fn shell_preview_spec(args: Seq<char>) -> Option<Seq<char>> {
    command_preview(json_text_field(args, "command"@))
}

/// The preview of a shell command: trimmed and cut to the preview length;
/// none when there is no command or it is blank.
pub fn shell_preview_from_command(command: Option<&str>) -> (r: Option<String>)
    ensures
        r.deep_view() == command_preview(
            match command {
                Some(c) => Some(c@),
                None => None,
            },
        ),
{
    match command {
        None => None,
        Some(c) => {
            let t = trim_str(c);
            if t.len() == 0 {
                None
            } else {
                let ts = from_chars(t.as_slice());
                Some(truncate_preview_chars(ts.as_str(), TOOL_DRAFT_PREVIEW_CHARS))
            }
        },
    }
}

/// The preview of a shell call, read from its JSON arguments: the trimmed
/// `command` string cut to the preview length; none when the arguments are
/// not an object with a non-blank `command` string.
pub fn shell_preview_from_args(args_json: &str) -> (r: Option<String>)
    ensures
        r.deep_view() == shell_preview_spec(args_json@),
{
    let shape = parse_json_shape(args_json);
    match text_member(&shape, "command") {
        Some(c) => shell_preview_from_command(Some(c.as_str())),
        None => None,
    }
}

/// The status text of a draft preview.
pub open spec fn draft_text(p: Seq<char>) -> Seq<char> {
    "[draft] "@ + p
}

fn draft_of(p: &str) -> (r: String)
    ensures
        r@ == draft_text(p@),
{
    let mut r = String::new();
    push_str(&mut r, "[draft] ");
    push_str(&mut r, p);
    r
}

fn is_shell(name: &str) -> (b: bool)
    ensures
        b == (name@ == "shell"@),
{
    let v = to_chars(name);
    chars_eq_str(v.as_slice(), "shell")
}

fn opt_is_shell(name: &Option<String>) -> (b: bool)
    ensures
        b == (name.deep_view() == Some("shell"@)),
{
    match name {
        Some(n) => is_shell(n.as_str()),
        None => false,
    }
}

fn opt_text_eq(a: &Option<String>, b: &Option<String>) -> (r: bool)
    ensures
        r == (a.deep_view() == b.deep_view()),
{
    match (a, b) {
        (Some(x), Some(y)) => {
            let xv = to_chars(x.as_str());
            let yv = to_chars(y.as_str());
            chars_eq(xv.as_slice(), yv.as_slice())
        },
        (None, None) => true,
        _ => false,
    }
}

/// What the stream handler does after a tool event: the draft preview to
/// show, and the shell call (provider call id, arguments) to start before
/// the response is complete.
#[derive(Debug)]
pub struct StreamStep {
    pub draft_preview: Option<String>,
    pub start_early: Option<(String, String)>,
}

/// A shell call may start early: piped execution is on, the call is a shell
/// call not yet started, and its arguments hold a non-blank command.
pub open spec fn may_start_early(piped: bool, shell: bool, started: bool, args: Seq<char>) -> bool {
    piped && shell && !started && shell_preview_spec(args) is Some
}

impl StreamedToolCallState {
    /// A complete tool call arrived: the call takes its id, name and
    /// arguments; a shell call's preview is shown as a draft and remembered;
    /// a shell call with a command starts early once, when piped execution
    /// is on.
    pub fn apply_tool_call(&mut self, id: &str, name: &str, arguments: &str, piped_exec_enabled: bool) -> (step: StreamStep)
        ensures
            final(self).provider_call_id.deep_view() == Some(id@),
            final(self).name.deep_view() == Some(name@),
            final(self).args_buffer@ == arguments@,
            ({
                let preview = if name@ == "shell"@ {
                    shell_preview_spec(arguments@)
                } else {
                    None
                };
                &&& final(self).last_preview.deep_view() == (if preview is Some {
                    preview
                } else {
                    old(self).last_preview.deep_view()
                })
                &&& step.draft_preview.deep_view() == (match preview {
                    Some(p) => Some(draft_text(p)),
                    None => None,
                })
            }),
            ({
                let start = may_start_early(
                    piped_exec_enabled,
                    name@ == "shell"@,
                    old(self).early_started,
                    arguments@,
                );
                &&& final(self).early_started == (old(self).early_started || start)
                &&& step.start_early.deep_view() == (if start {
                    Some((id@, arguments@))
                } else {
                    None
                })
            }),
    {
        let shell = is_shell(name);
        let preview = if shell {
            shell_preview_from_args(arguments)
        } else {
            None
        };
        self.provider_call_id = Some(string_of(id));
        self.name = Some(string_of(name));
        self.args_buffer = string_of(arguments);
        let draft = match &preview {
            Some(p) => {
                self.last_preview = Some(string_of(p.as_str()));
                Some(draft_of(p.as_str()))
            },
            None => None,
        };
        let start_early = if piped_exec_enabled && shell && !self.early_started && preview.is_some() {
            self.early_started = true;
            Some((string_of(id), string_of(arguments)))
        } else {
            None
        };
        StreamStep { draft_preview: draft, start_early }
    }

    /// A piece of a tool call arrived: a `name` piece sets the name, any other
    /// piece extends the arguments. For a shell call whose arguments now
    /// parse with a command, a preview that differs from the last one is
    /// shown as a draft and remembered, and the call starts early once, when
    /// piped execution is on.
    pub fn apply_delta(&mut self, id: &str, delta_type: &str, content: &str, piped_exec_enabled: bool) -> (step: StreamStep)
        ensures
            final(self).provider_call_id.deep_view() == Some(id@),
            final(self).name.deep_view() == (if delta_type@ == "name"@ {
                Some(content@)
            } else {
                old(self).name.deep_view()
            }),
            final(self).args_buffer@ == (if delta_type@ == "name"@ {
                old(self).args_buffer@
            } else {
                old(self).args_buffer@ + content@
            }),
            ({
                let shell = final(self).name.deep_view() == Some("shell"@);
                let preview = if shell {
                    shell_preview_spec(final(self).args_buffer@)
                } else {
                    None
                };
                let emit = preview is Some && old(self).last_preview.deep_view() != preview;
                &&& final(self).last_preview.deep_view() == (if emit {
                    preview
                } else {
                    old(self).last_preview.deep_view()
                })
                &&& step.draft_preview.deep_view() == (if emit {
                    Some(draft_text(preview->0))
                } else {
                    None
                })
            }),
            ({
                let start = may_start_early(
                    piped_exec_enabled,
                    final(self).name.deep_view() == Some("shell"@),
                    old(self).early_started,
                    final(self).args_buffer@,
                );
                &&& final(self).early_started == (old(self).early_started || start)
                &&& step.start_early.deep_view() == (if start {
                    Some((id@, final(self).args_buffer@))
                } else {
                    None
                })
            }),
    {
        self.provider_call_id = Some(string_of(id));
        let dv = to_chars(delta_type);
        if chars_eq_str(dv.as_slice(), "name") {
            self.name = Some(string_of(content));
        } else {
            let mut buf = string_of(self.args_buffer.as_str());
            push_str(&mut buf, content);
            self.args_buffer = buf;
        }
        let shell = opt_is_shell(&self.name);
        let preview = if shell {
            shell_preview_from_args(self.args_buffer.as_str())
        } else {
            None
        };
        let mut draft: Option<String> = None;
        if preview.is_some() && !opt_text_eq(&self.last_preview, &preview) {
            match &preview {
                Some(p) => {
                    self.last_preview = Some(string_of(p.as_str()));
                    draft = Some(draft_of(p.as_str()));
                },
                None => {},
            }
        }
        let start_early = if piped_exec_enabled && shell && !self.early_started && preview.is_some() {
            self.early_started = true;
            Some((string_of(id), string_of(self.args_buffer.as_str())))
        } else {
            None
        };
        StreamStep { draft_preview: draft, start_early }
    }
}

/// The extension name and instructions of a tool result that awaits a token:
/// only for `tool_auth` and `tool_activate`, whose successful output is a
/// JSON object with `awaiting_token: true` and a string `name`; the
/// instructions default to asking for an API token.
pub open spec fn auth_awaiting_spec(tool_name: Seq<char>, result: Result<String, Error>) -> Option<(Seq<char>, Seq<char>)> {
    if tool_name != "tool_auth"@ && tool_name != "tool_activate"@ {
        None
    } else {
        match result {
            Err(_) => None,
            Ok(out) => {
                let shape = json_shape_of(out@);
                if shape_field(shape, "awaiting_token"@) == Some(JsonLeafView::Flag(true)) {
                    match shape_text(shape, "name"@) {
                        Some(n) => Some((n, match shape_text(shape, "instructions"@) {
                            Some(i) => i,
                            None => "Please provide your API token/key."@,
                        })),
                        None => None,
                    }
                } else {
                    None
                }
            },
        }
    }
}

/// Whether a tool result asks the user for a token, and with which
/// extension name and instructions.
pub fn detect_auth_awaiting(tool_name: &str, result: &Result<String, Error>) -> (r: Option<(String, String)>)
    ensures
        r.deep_view() == auth_awaiting_spec(tool_name@, *result),
{
    let tv = to_chars(tool_name);
    if !chars_eq_str(tv.as_slice(), "tool_auth") && !chars_eq_str(tv.as_slice(), "tool_activate") {
        return None;
    }
    let output = match result {
        Ok(o) => o,
        Err(_) => return None,
    };
    let shape = parse_json_shape(output.as_str());
    if !flag_member_is_true(&shape, "awaiting_token") {
        return None;
    }
    let name = match text_member(&shape, "name") {
        Some(n) => n,
        None => return None,
    };
    let instructions = match text_member(&shape, "instructions") {
        Some(i) => i,
        None => string_of("Please provide your API token/key."),
    };
    Some((name, instructions))
}

/// The links offered with an authentication request.
#[derive(Debug)]
pub struct ParsedAuthData {
    pub auth_url: Option<String>,
    pub setup_url: Option<String>,
}

/// The `auth_url` and `setup_url` strings of a successful tool result that is
/// a JSON object; none for anything else.
pub fn parse_auth_result(result: &Result<String, Error>) -> (r: ParsedAuthData)
    ensures
        r.auth_url.deep_view() == (match result {
            Ok(out) => json_text_field(out@, "auth_url"@),
            Err(_) => None,
        }),
        r.setup_url.deep_view() == (match result {
            Ok(out) => json_text_field(out@, "setup_url"@),
            Err(_) => None,
        }),
{
    match result {
        Ok(out) => {
            let shape = parse_json_shape(out.as_str());
            ParsedAuthData {
                auth_url: text_member(&shape, "auth_url"),
                setup_url: text_member(&shape, "setup_url"),
            }
        },
        Err(_) => ParsedAuthData { auth_url: None, setup_url: None },
    }
}

/// The trimmed, non-blank texts of a list, in order; entries that are not
/// texts (`None`) are skipped.
pub open spec fn clean_names(list: Seq<Option<String>>) -> Seq<Seq<char>>
    decreases list.len(),
{
    if list.len() == 0 {
        Seq::<Seq<char>>::empty()
    } else {
        let p = clean_names(list.drop_last());
        match list.last() {
            Some(s) => if trim(s@).len() > 0 {
                p.push(trim(s@))
            } else {
                p
            },
            None => p,
        }
    }
}

fn clean_name_list(list: &Vec<Option<String>>) -> (r: Vec<String>)
    ensures
        r.deep_view() == clean_names(list@),
{
    let mut r: Vec<String> = Vec::new();
    let mut i: usize = 0;
    while i < list.len()
        invariant
            i <= list@.len(),
            r.deep_view() == clean_names(list@.take(i as int)),
        decreases list@.len() - i,
    {
        assert(list@.take(i + 1).drop_last() =~= list@.take(i as int));
        match &list[i] {
            Some(s) => {
                let t = trim_str(s.as_str());
                if t.len() > 0 {
                    let ghost before = r.deep_view();
                    r.push(from_chars(t.as_slice()));
                    assert(r.deep_view() =~= before.push(t@));
                }
            },
            None => {},
        }
        i = i + 1;
    }
    assert(list@.take(list@.len() as int) =~= list@);
    r
}

/// The fallback tools recorded in a reliability profile, as far as the
/// routing reads the JSON value: a list, or an object with a `tools`,
/// `fallback_tools` or `safe_tools` list. List entries that are not strings
/// are `None`; a key that is missing or not a list is `None`.
#[derive(Debug)]
pub enum FallbackValue {
    List(Vec<Option<String>>),
    Object {
        tools: Option<Vec<Option<String>>>,
        fallback_tools: Option<Vec<Option<String>>>,
        safe_tools: Option<Vec<Option<String>>>,
    },
    Other,
}

/// The fallback tools of a profile: the first list found, trimmed, without
/// blanks.
pub open spec fn profile_fallbacks_spec(raw: FallbackValue) -> Seq<Seq<char>> {
    match raw {
        FallbackValue::List(l) => clean_names(l@),
        FallbackValue::Object { tools, fallback_tools, safe_tools } => match tools {
            Some(l) => clean_names(l@),
            None => match fallback_tools {
                Some(l) => clean_names(l@),
                None => match safe_tools {
                    Some(l) => clean_names(l@),
                    None => Seq::<Seq<char>>::empty(),
                },
            },
        },
        FallbackValue::Other => Seq::<Seq<char>>::empty(),
    }
}

/// The fallback tools recorded in a reliability profile.
pub fn parse_profile_fallback_tools(raw: &FallbackValue) -> (r: Vec<String>)
    ensures
        r.deep_view() == profile_fallbacks_spec(*raw),
{
    match raw {
        FallbackValue::List(l) => clean_name_list(l),
        FallbackValue::Object { tools, fallback_tools, safe_tools } => {
            match tools {
                Some(l) => return clean_name_list(l),
                None => {},
            }
            match fallback_tools {
                Some(l) => return clean_name_list(l),
                None => {},
            }
            match safe_tools {
                Some(l) => clean_name_list(l),
                None => Vec::new(),
            }
        },
        FallbackValue::Other => Vec::new(),
    }
}

/// The trimmed, non-blank texts, in order.
pub open spec fn clean_texts(list: Seq<Seq<char>>) -> Seq<Seq<char>>
    decreases list.len(),
{
    if list.len() == 0 {
        Seq::<Seq<char>>::empty()
    } else {
        let p = clean_texts(list.drop_last());
        if trim(list.last()).len() > 0 {
            p.push(trim(list.last()))
        } else {
            p
        }
    }
}

/// The fallback tools named by a tool contract, trimmed, without blanks.
pub fn parse_contract_fallback_tools(contract: Option<&ToolContractV2Descriptor>) -> (r: Vec<String>)
    ensures
        r.deep_view() == (match contract {
            Some(c) => clean_texts(c.fallback_candidates.deep_view()),
            None => Seq::<Seq<char>>::empty(),
        }),
{
    match contract {
        None => Vec::new(),
        Some(c) => {
            let list = &c.fallback_candidates;
            let mut r: Vec<String> = Vec::new();
            let mut i: usize = 0;
            while i < list.len()
                invariant
                    i <= list@.len(),
                    r.deep_view() == clean_texts(list.deep_view().take(i as int)),
                decreases list@.len() - i,
            {
                assert(list.deep_view().take(i + 1).drop_last() =~= list.deep_view().take(
                    i as int,
                ));
                let t = trim_str(list[i].as_str());
                if t.len() > 0 {
                    let ghost before = r.deep_view();
                    r.push(from_chars(t.as_slice()));
                    assert(r.deep_view() =~= before.push(t@));
                }
                i = i + 1;
            }
            assert(list.deep_view().take(list@.len() as int) =~= list.deep_view());
            r
        },
    }
}

/// The candidates after `seen`, in order, each kept at its first appearance
/// and only when not seen before.
pub open spec fn first_appearances(seen: Seq<Seq<char>>, cands: Seq<Seq<char>>) -> Seq<Seq<char>>
    decreases cands.len(),
{
    if cands.len() == 0 {
        Seq::<Seq<char>>::empty()
    } else {
        let p = first_appearances(seen, cands.drop_last());
        let c = cands.last();
        if seen.contains(c) || p.contains(c) {
            p
        } else {
            p.push(c)
        }
    }
}

fn contains_text(v: &Vec<String>, x: &[char]) -> (b: bool)
    ensures
        b == v.deep_view().contains(x@),
{
    let mut i: usize = 0;
    while i < v.len()
        invariant
            i <= v@.len(),
            forall|j: int| 0 <= j < i ==> v@[j]@ != x@,
        decreases v@.len() - i,
    {
        let c = to_chars(v[i].as_str());
        if chars_eq(c.as_slice(), x) {
            assert(v.deep_view()[i as int] == x@);
            return true;
        }
        i = i + 1;
    }
    assert(!v.deep_view().contains(x@)) by {
        if v.deep_view().contains(x@) {
            let j = choose|j: int| 0 <= j < v.deep_view().len() && v.deep_view()[j] == x@;
            assert(v@[j]@ == x@);
        }
    }
    false
}

fn absorb_candidates(
    seen: &mut Vec<String>,
    out: &mut Vec<String>,
    list: &[String],
    Ghost(primary): Ghost<Seq<char>>,
    Ghost(done): Ghost<Seq<Seq<char>>>,
)
    requires
        old(out).deep_view() == first_appearances(seq![primary], done),
        old(seen).deep_view() == seq![primary] + old(out).deep_view(),
    ensures
        final(out).deep_view() == first_appearances(seq![primary], done + list.deep_view()),
        final(seen).deep_view() == seq![primary] + final(out).deep_view(),
{
    let n = list.len();
    let mut i: usize = 0;
    while i < n
        invariant
            n == list@.len(),
            i <= n,
            out.deep_view() == first_appearances(seq![primary], done + list.deep_view().take(i as int)),
            seen.deep_view() == seq![primary] + out.deep_view(),
        decreases n - i,
    {
        let cand = &list[i];
        let ghost all = done + list.deep_view().take(i + 1);
        assert(all.drop_last() =~= done + list.deep_view().take(i as int));
        assert(all.last() == cand@);
        let cv = to_chars(cand.as_str());
        let ghost p = out.deep_view();
        let ghost old_seen = seen.deep_view();
        if !contains_text(seen, cv.as_slice()) {
            proof {
                assert forall|x: Seq<char>| p.contains(x) implies (seq![primary] + p).contains(x) by {
                    let j = choose|j: int| 0 <= j < p.len() && p[j] == x;
                    assert((seq![primary] + p)[j + 1] == x);
                }
                assert(!seq![primary].contains(cand@)) by {
                    if seq![primary].contains(cand@) {
                        assert((seq![primary] + p)[0] == cand@);
                    }
                }
            }
            out.push(cand.clone());
            seen.push(cand.clone());
            assert(out.deep_view() =~= p.push(cand@));
            assert(seen.deep_view() =~= old_seen.push(cand@));
            assert(seen.deep_view() =~= seq![primary] + out.deep_view());
        } else {
            proof {
                let s = seq![primary] + p;
                let j = choose|j: int| 0 <= j < s.len() && s[j] == cand@;
                if j == 0 {
                    assert(seq![primary][0] == cand@);
                } else {
                    assert(p[j - 1] == cand@);
                }
            }
        }
        i = i + 1;
    }
    assert(list.deep_view().take(n as int) =~= list.deep_view());
}

/// The fallback candidates: the profile's, then the contract's, without the
/// primary tool and without repeats, in order of first appearance.
pub fn merge_fallback_candidates(
    primary_tool: &str,
    profile_fallbacks: &[String],
    contract_fallbacks: &[String],
) -> (out: Vec<String>)
    ensures
        out.deep_view() == first_appearances(
            seq![primary_tool@],
            profile_fallbacks.deep_view() + contract_fallbacks.deep_view(),
        ),
{
    let mut seen: Vec<String> = Vec::new();
    seen.push(string_of(primary_tool));
    let mut out: Vec<String> = Vec::new();
    assert(seen.deep_view() =~= seq![primary_tool@] + out.deep_view());
    let ghost e = Seq::<Seq<char>>::empty();
    assert(out.deep_view() =~= first_appearances(seq![primary_tool@], e));
    absorb_candidates(&mut seen, &mut out, profile_fallbacks, Ghost(primary_tool@), Ghost(e));
    assert(e + profile_fallbacks.deep_view() =~= profile_fallbacks.deep_view());
    absorb_candidates(
        &mut seen,
        &mut out,
        contract_fallbacks,
        Ghost(primary_tool@),
        Ghost(profile_fallbacks.deep_view()),
    );
    out
}

/// The routing biases of a contract in hundredths: by side-effect reach
/// (+4 read-only, 0 workspace writes, -4 system or external mutation, -10
/// financial or credential) and by retry safety (+3 safe, 0 unknown, -3
/// unsafe); none without a contract.
pub open spec fn routing_bias_spec(contract: Option<ToolContractV2Descriptor>) -> (int, int) {
    match contract {
        None => (0, 0),
        Some(c) => (
            match c.side_effect_level {
                ToolSideEffectLevel::ReadOnly => 4,
                ToolSideEffectLevel::WorkspaceWrite => 0,
                ToolSideEffectLevel::SystemMutation => -4,
                ToolSideEffectLevel::ExternalMutation => -4,
                ToolSideEffectLevel::Financial => -10,
                ToolSideEffectLevel::Credential => -10,
            },
            match c.idempotency {
                ToolIdempotency::SafeRetry => 3,
                ToolIdempotency::Unknown => 0,
                ToolIdempotency::UnsafeRetry => -3,
            },
        ),
    }
}

/// The routing biases of a contract in hundredths (side effects, retry
/// safety); the routing bonus is their sum.
pub fn contract_routing_bias(contract: Option<&ToolContractV2Descriptor>) -> (r: (i32, i32))
    ensures
        (r.0 as int, r.1 as int) == routing_bias_spec(
            match contract {
                Some(c) => Some(*c),
                None => None,
            },
        ),
{
    match contract {
        None => (0, 0),
        Some(c) => {
            let side: i32 = match c.side_effect_level {
                ToolSideEffectLevel::ReadOnly => 4,
                ToolSideEffectLevel::WorkspaceWrite => 0,
                ToolSideEffectLevel::SystemMutation => -4,
                ToolSideEffectLevel::ExternalMutation => -4,
                ToolSideEffectLevel::Financial => -10,
                ToolSideEffectLevel::Credential => -10,
            };
            let idem: i32 = match c.idempotency {
                ToolIdempotency::SafeRetry => 3,
                ToolIdempotency::Unknown => 0,
                ToolIdempotency::UnsafeRetry => -3,
            };
            (side, idem)
        },
    }
}

/// The view of an optional text.
pub open spec fn opt_text(o: Option<String>) -> Option<Seq<char>> {
    match o {
        Some(s) => Some(s@),
        None => None,
    }
}

/// Where a chat tool call goes.
#[derive(Debug)]
pub enum ChatToolRoutingDecision {
    Use { tool_name: String, routed_from: Option<String>, reason_codes: Vec<String> },
    Deny { reason_codes: Vec<String>, detail: String },
}

/// The routing of a chat tool call, given what the reliability data says:
/// whether the primary tool's breaker is open, the best usable fallback (if
/// any), whether the scores call for a proactive reroute, and whether the
/// primary breaker is half open.
pub fn routing_decision(
    requested_tool: &str,
    primary_open: bool,
    best_fallback: Option<&str>,
    proactive_reroute: bool,
    primary_half_open: bool,
) -> (d: ChatToolRoutingDecision)
    ensures
        match best_fallback {
            Some(f) if primary_open => d matches ChatToolRoutingDecision::Use {
                tool_name,
                routed_from,
                reason_codes,
            } && tool_name@ == f@ && opt_text(routed_from) == Some(requested_tool@)
                && reason_codes.deep_view() == seq![
                "circuit_breaker_open"@,
                "tool_routing_v2_fallback"@,
            ],
            Some(f) if proactive_reroute => d matches ChatToolRoutingDecision::Use {
                tool_name,
                routed_from,
                reason_codes,
            } && tool_name@ == f@ && opt_text(routed_from) == Some(requested_tool@)
                && reason_codes.deep_view() == (if primary_half_open {
                seq!["tool_routing_v2_prefer_reliable_fallback"@, "circuit_breaker_half_open"@]
            } else {
                seq!["tool_routing_v2_prefer_reliable_fallback"@]
            }),
            _ => if primary_open {
                d matches ChatToolRoutingDecision::Deny { reason_codes, detail }
                    && reason_codes.deep_view() == seq!["circuit_breaker_open"@] && detail@ == "tool '"@
                    + requested_tool@ + "' is temporarily blocked by reliability circuit breaker"@
            } else {
                d matches ChatToolRoutingDecision::Use { tool_name, routed_from, reason_codes }
                    && tool_name@ == requested_tool@ && routed_from is None
                    && reason_codes@.len() == 0
            },
        },
{
    match best_fallback {
        Some(f) => {
            if primary_open {
                let codes = vec![string_of("circuit_breaker_open"), string_of("tool_routing_v2_fallback")];
                assert(codes.deep_view() =~= seq!["circuit_breaker_open"@, "tool_routing_v2_fallback"@]);
                return ChatToolRoutingDecision::Use {
                    tool_name: string_of(f),
                    routed_from: Some(string_of(requested_tool)),
                    reason_codes: codes,
                };
            }
            if proactive_reroute {
                let mut codes = vec![string_of("tool_routing_v2_prefer_reliable_fallback")];
                if primary_half_open {
                    codes.push(string_of("circuit_breaker_half_open"));
                }
                assert(codes.deep_view() =~= (if primary_half_open {
                    seq!["tool_routing_v2_prefer_reliable_fallback"@, "circuit_breaker_half_open"@]
                } else {
                    seq!["tool_routing_v2_prefer_reliable_fallback"@]
                }));
                return ChatToolRoutingDecision::Use {
                    tool_name: string_of(f),
                    routed_from: Some(string_of(requested_tool)),
                    reason_codes: codes,
                };
            }
        },
        None => {},
    }
    if primary_open {
        let codes = vec![string_of("circuit_breaker_open")];
        assert(codes.deep_view() =~= seq!["circuit_breaker_open"@]);
        let mut detail = string_of("tool '");
        push_str(&mut detail, requested_tool);
        push_str(&mut detail, "' is temporarily blocked by reliability circuit breaker");
        return ChatToolRoutingDecision::Deny { reason_codes: codes, detail };
    }
    ChatToolRoutingDecision::Use {
        tool_name: string_of(requested_tool),
        routed_from: None,
        reason_codes: Vec::new(),
    }
}

/// The number of preview chunks of `n` characters.
pub open spec fn chunk_count(n: nat) -> nat
    decreases n,
{
    if n == 0 {
        0
    } else if n <= 700 {
        1
    } else {
        1 + chunk_count((n - 700) as nat)
    }
}

/// The `i`-th chunk of 700 characters (the last may be shorter).
pub open spec fn chunk_of(t: Seq<char>, i: int) -> Seq<char> {
    t.subrange(700 * i, if 700 * (i + 1) < t.len() {
        700 * (i + 1)
    } else {
        t.len() as int
    })
}

/// A chunk with its number, and `…` after the last one when the output was
/// cut.
pub open spec fn numbered_chunk(t: Seq<char>, i: int, total: nat, cut: bool) -> Seq<char> {
    "["@ + decimal((i + 1) as nat) + "/"@ + decimal(total) + "] "@ + chunk_of(t, i) + if cut && i + 1
        == total {
        seq!['…']
    } else {
        Seq::<char>::empty()
    }
}

/// The shown part of a tool's output: at most twelve chunks of 700.
pub open spec fn shown_output(s: Seq<char>) -> Seq<char> {
    if s.len() > 8400 {
        s.take(8400)
    } else {
        s
    }
}

proof fn lemma_chunk_count_at_most(n: nat, m: nat)
    requires
        n <= 700 * m,
    ensures
        chunk_count(n) <= m,
    decreases n,
{
    if n > 700 {
        lemma_chunk_count_at_most((n - 700) as nat, (m - 1) as nat);
    }
}

proof fn lemma_chunk_count_bound(n: nat)
    ensures
        n <= 8400 ==> chunk_count(n) <= 12,
        n > 0 ==> chunk_count(n) >= 1,
        n > 700 ==> chunk_count(n) >= 2,
    decreases n,
{
    if n <= 8400 {
        lemma_chunk_count_at_most(n, 12);
    }
    if n > 700 {
        lemma_chunk_count_bound((n - 700) as nat);
    }
}

/// The preview of a tool's output in chunks of 700 characters, at most
/// twelve; numbered `[i/n]` when there is more than one or the output was
/// cut, with `…` after the last chunk of a cut output.
pub fn chunk_tool_result_preview(output: &str) -> (r: Vec<String>)
    ensures
        ({
            let t = shown_output(output@);
            let cut = output@.len() > 8400;
            let k = chunk_count(t.len());
            if output@.len() == 0 {
                r@.len() == 0
            } else if k <= 1 && !cut {
                r@.len() == 1 && r@[0]@ == output@
            } else {
                r@.len() == k && forall|i: int| 0 <= i < k ==> (#[trigger] r@[i])@ == numbered_chunk(t, i, k, cut)
            }
        }),
{
    let v = to_chars(output);
    let n = v.len();
    if n == 0 {
        return Vec::new();
    }
    let cut = n > 8400;
    let len = if cut {
        8400
    } else {
        n
    };
    let t = slice_chars(v.as_slice(), 0, len);
    let ghost tg = shown_output(output@);
    assert(t@ =~= tg);
    let mut raw: Vec<Vec<char>> = Vec::new();
    let mut start: usize = 0;
    proof {
        lemma_chunk_count_bound(len as nat);
    }
    while start < len
        invariant
            len == t@.len(),
            len <= 8400,
            start <= len,
            start < len ==> start == 700 * raw@.len(),
            chunk_count(len as nat) == raw@.len() + chunk_count((len - start) as nat),
            forall|j: int| 0 <= j < raw@.len() ==> (#[trigger] raw@[j])@ == chunk_of(t@, j),
        decreases len - start,
    {
        let end = if start + 700 < len {
            start + 700
        } else {
            len
        };
        let piece = slice_chars(t.as_slice(), start, end);
        let ghost i = raw@.len() as int;
        assert(piece@ == chunk_of(t@, i));
        raw.push(piece);
        start = end;
        if end == len {
            assert(chunk_count(0) == 0);
        }
    }
    let k = raw.len();
    assert(k == chunk_count(len as nat));
    proof {
        lemma_chunk_count_bound(len as nat);
    }
    if k <= 1 && !cut {
        let only = from_chars(raw[0].as_slice());
        assert(raw@[0]@ == chunk_of(t@, 0));
        assert(chunk_of(t@, 0) =~= output@);
        let mut r: Vec<String> = Vec::new();
        r.push(only);
        return r;
    }
    let mut r: Vec<String> = Vec::new();
    let mut i: usize = 0;
    while i < k
        invariant
            k == raw@.len(),
            k == chunk_count(len as nat),
            k <= 12,
            i <= k,
            len == t@.len(),
            t@ == tg,
            r@.len() == i,
            forall|j: int| 0 <= j < raw@.len() ==> (#[trigger] raw@[j])@ == chunk_of(t@, j),
            forall|j: int| 0 <= j < i ==> (#[trigger] r@[j])@ == numbered_chunk(t@, j, k as nat, cut),
        decreases k - i,
    {
        let mut line = string_of("[");
        push_decimal(&mut line, (i + 1) as u64);
        push_str(&mut line, "/");
        push_decimal(&mut line, k as u64);
        push_str(&mut line, "] ");
        push_chars(&mut line, raw[i].as_slice());
        if cut && i + 1 == k {
            crate::text::push_char(&mut line, '…');
        }
        assert(line@ =~= numbered_chunk(t@, i as int, k as nat, cut));
        r.push(line);
        i = i + 1;
    }
    r
}

} // verus!
