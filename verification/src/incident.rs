//! Incident classification: severities and deduplication fingerprints of
//! tool failures and policy denials.
use vstd::prelude::*;
use vstd::utf8::encode_utf8;
use crate::text::{chars_eq_str, push_str, sort_strings, sorted_texts, string_of, to_chars};

verus! {

/// The status of a newly recorded incident.
pub const INCIDENT_STATUS_OPEN: &'static str = "open";

/// The BLAKE3 hash of a byte string in lowercase hexadecimal.
pub uninterp spec fn blake3_hex_of(data: Seq<u8>) -> Seq<char>;

/// `blake3::hash` of the bytes, rendered by `Hash::to_hex`: the result is
/// named `blake3_hex_of` of the bytes; the source shows 64 characters, each
/// a lowercase hexadecimal digit.
#[verifier::external_body]
fn blake3_hex(data: &[u8]) -> (r: String)
    ensures
        r@ == blake3_hex_of(data@),
        r@.len() == 64,
        forall|i: int| 0 <= i < 64 ==> ('0' <= #[trigger] r@[i] <= '9' || 'a' <= r@[i] <= 'f'),
{
    blake3::hash(data).to_hex().to_string()
}

/// The bytes hashed for a fingerprint: each part in UTF-8 followed by a zero
/// byte.
pub open spec fn fingerprint_message(parts: Seq<Seq<char>>) -> Seq<u8>
    decreases parts.len(),
{
    if parts.len() == 0 {
        Seq::<u8>::empty()
    } else {
        fingerprint_message(parts.drop_last()) + encode_utf8(parts.last()) + seq![0u8]
    }
}

/// The views of a list of texts.
pub open spec fn views_of(parts: Seq<&str>) -> Seq<Seq<char>> {
    parts.map_values(|p: &str| p@)
}

/// The fingerprint of a list of parts: the hash of each part followed by a
/// zero byte.
pub fn fingerprint_hex(parts: &[&str]) -> (r: String)
    ensures
        r@ == blake3_hex_of(fingerprint_message(views_of(parts@))),
        r@.len() == 64,
{
    let mut msg: Vec<u8> = Vec::new();
    let mut i: usize = 0;
    while i < parts.len()
        invariant
            i <= parts@.len(),
            msg@ == fingerprint_message(views_of(parts@.take(i as int))),
        decreases parts@.len() - i,
    {
        let bytes = parts[i].as_bytes();
        let ghost before = msg@;
        let mut k: usize = 0;
        while k < bytes.len()
            invariant
                k <= bytes@.len(),
                msg@ == before + bytes@.take(k as int),
            decreases bytes@.len() - k,
        {
            msg.push(bytes[k]);
            k = k + 1;
            assert(msg@ =~= before + bytes@.take(k as int));
        }
        msg.push(0u8);
        proof {
            assert(bytes@.take(bytes@.len() as int) =~= bytes@);
            let t = views_of(parts@.take(i + 1));
            assert(t.drop_last() =~= views_of(parts@.take(i as int)));
            assert(t.last() == parts@[i as int]@);
            assert(msg@ =~= fingerprint_message(t));
        }
        i = i + 1;
    }
    assert(parts@.take(parts@.len() as int) =~= parts@);
    blake3_hex(msg.as_slice())
}

/// The severity of a tool failure of the given class.
pub open spec fn tool_failure_severity(class: Option<Seq<char>>) -> Seq<char> {
    match class {
        Some(c) => if c == "tool_not_found"@ || c == "tool_disabled"@ || c
            == "tool_invalid_parameters"@ || c == "tool_builder_failed"@ || c
            == "tool_auth_required"@ || c == "safety"@ {
            "high"@
        } else {
            "medium"@
        },
        None => "medium"@,
    }
}

/// The severity of a tool failure: `high` for classes that a retry cannot
/// fix, `medium` otherwise.
pub fn severity_for_tool_failure_class(failure_class: Option<&str>) -> (s: &'static str)
    ensures
        s@ == tool_failure_severity(
            match failure_class {
                Some(c) => Some(c@),
                None => None,
            },
        ),
{
    match failure_class {
        None => "medium",
        Some(c) => {
            let v = to_chars(c);
            let x = v.as_slice();
            if chars_eq_str(x, "tool_not_found") || chars_eq_str(x, "tool_disabled")
                || chars_eq_str(x, "tool_invalid_parameters") || chars_eq_str(
                x,
                "tool_builder_failed",
            ) || chars_eq_str(x, "tool_auth_required") || chars_eq_str(x, "safety") {
                "high"
            } else {
                "medium"
            }
        },
    }
}

/// Exactly the failure classes `tool_not_found`, `tool_disabled`,
/// `tool_invalid_parameters`, `tool_builder_failed`, `tool_auth_required` and
/// `safety` make a tool failure high severity; every other class, and a
/// failure without a class, is medium.
pub proof fn law_high_severity_classes(class: Option<Seq<char>>)
    ensures
        tool_failure_severity(class) == "high"@ || tool_failure_severity(class) == "medium"@,
        tool_failure_severity(class) == "high"@ <==> (class matches Some(c) && set![
            "tool_not_found"@,
            "tool_disabled"@,
            "tool_invalid_parameters"@,
            "tool_builder_failed"@,
            "tool_auth_required"@,
            "safety"@,
        ].contains(c)),
{
    reveal_strlit("high");
    reveal_strlit("medium");
    assert("high"@.len() != "medium"@.len());
}

/// A reason code that makes a policy denial severe.
pub open spec fn severe_denial_code(r: Seq<char>) -> bool {
    r == "hook_policy_error"@ || r == "hook_rejected"@ || r
        == "destructive_params_override_auto_approval"@
}

/// The severity of a policy denial: `high` when a hook failed or rejected,
/// or a destructive call overrode auto-approval; `medium` otherwise.
pub fn severity_for_policy_denial(reason_codes: &[String]) -> (s: &'static str)
    ensures
        s@ == (if exists|i: int|
            0 <= i < reason_codes@.len() && severe_denial_code(#[trigger] reason_codes@[i]@) {
            "high"@
        } else {
            "medium"@
        }),
{
    let mut i: usize = 0;
    while i < reason_codes.len()
        invariant
            i <= reason_codes@.len(),
            forall|j: int| 0 <= j < i ==> !severe_denial_code(#[trigger] reason_codes@[j]@),
        decreases reason_codes@.len() - i,
    {
        let v = to_chars(reason_codes[i].as_str());
        let x = v.as_slice();
        if chars_eq_str(x, "hook_policy_error") || chars_eq_str(x, "hook_rejected")
            || chars_eq_str(x, "destructive_params_override_auto_approval") {
            return "high";
        }
        i = i + 1;
    }
    "medium"
}

/// Exactly the reason codes `hook_policy_error`, `hook_rejected` and
/// `destructive_params_override_auto_approval` make a policy denial severe.
pub proof fn law_severe_denial_codes(r: Seq<char>)
    ensures
        severe_denial_code(r) <==> set![
            "hook_policy_error"@,
            "hook_rejected"@,
            "destructive_params_override_auto_approval"@,
        ].contains(r),
{
}

/// The texts joined with `,`.
pub open spec fn join_commas(s: Seq<Seq<char>>) -> Seq<char>
    decreases s.len(),
{
    if s.len() == 0 {
        Seq::<char>::empty()
    } else if s.len() == 1 {
        s[0]
    } else {
        join_commas(s.drop_last()) + ","@ + s.last()
    }
}

/// The reason signature of a denial: its sorted codes joined with `,`, or
/// `none` when there are none.
pub open spec fn reason_signature_spec(sorted: Seq<Seq<char>>) -> Seq<char> {
    if sorted.len() == 0 {
        "none"@
    } else {
        join_commas(sorted)
    }
}

/// What an incident is recorded with.
#[derive(Debug)]
pub struct IncidentSignature {
    /// The deduplication fingerprint.
    pub fingerprint: String,
    /// `high` or `medium`.
    pub severity: &'static str,
}

/// The view of an optional text.
pub open spec fn opt_str(o: Option<&str>) -> Option<Seq<char>> {
    match o {
        Some(x) => Some(x@),
        None => None,
    }
}

/// An optional text, or `none`.
pub open spec fn or_none(o: Option<Seq<char>>) -> Seq<char> {
    match o {
        Some(s) => s,
        None => "none"@,
    }
}

fn or_none_str(o: Option<&str>) -> (s: &str)
    ensures
        s@ == or_none(
            match o {
                Some(x) => Some(x@),
                None => None,
            },
        ),
{
    match o {
        Some(x) => x,
        None => "none",
    }
}

/// The signature of a tool failure: the fingerprint of (`tool_failure`,
/// user, surface, tool, channel, failure class), with `none` for what is
/// missing, and the severity of the class.
pub fn tool_failure_signature(
    user_id: &str,
    surface: &str,
    tool_name: &str,
    channel: Option<&str>,
    failure_class: Option<&str>,
) -> (r: IncidentSignature)
    ensures
        r.fingerprint@ == blake3_hex_of(
            fingerprint_message(
                seq![
                    "tool_failure"@,
                    user_id@,
                    surface@,
                    tool_name@,
                    or_none(opt_str(channel)),
                    or_none(opt_str(failure_class)),
                ],
            ),
        ),
        r.severity@ == tool_failure_severity(
            match failure_class {
                Some(c) => Some(c@),
                None => None,
            },
        ),
{
    let ch = or_none_str(channel);
    let fc = or_none_str(failure_class);
    let parts: Vec<&str> = vec!["tool_failure", user_id, surface, tool_name, ch, fc];
    let ps = parts.as_slice();
    let fingerprint = fingerprint_hex(ps);
    proof {
        assert(views_of(ps@) =~= seq!["tool_failure"@, user_id@, surface@, tool_name@, ch@, fc@]);
        assert(fingerprint@ == blake3_hex_of(fingerprint_message(seq!["tool_failure"@, user_id@, surface@, tool_name@, ch@, fc@])));
        assert(ch@ == or_none(opt_str(channel)));
    }
    IncidentSignature { fingerprint, severity: severity_for_tool_failure_class(failure_class) }
}

/// The reason codes sorted and joined with `,` (`none` when empty).
pub fn reason_signature(sorted: &[String]) -> (s: String)
    ensures
        s@ == reason_signature_spec(sorted.deep_view()),
{
    if sorted.len() == 0 {
        return string_of("none");
    }
    let mut s = string_of(sorted[0].as_str());
    let mut i: usize = 1;
    while i < sorted.len()
        invariant
            1 <= i <= sorted@.len(),
            s@ == join_commas(sorted.deep_view().take(i as int)),
        decreases sorted@.len() - i,
    {
        push_str(&mut s, ",");
        push_str(&mut s, sorted[i].as_str());
        proof {
            let t = sorted.deep_view().take(i + 1);
            assert(t.drop_last() =~= sorted.deep_view().take(i as int));
        }
        i = i + 1;
    }
    assert(sorted.deep_view().take(sorted@.len() as int) =~= sorted.deep_view());
    s
}

/// The signature of a policy denial: the fingerprint of (`policy_denial`,
/// user, surface, tool or `none`, action kind, reason signature) over the
/// sorted reason codes, and the severity of those codes.
pub fn policy_denial_signature(
    user_id: &str,
    surface: &str,
    tool_name: Option<&str>,
    action_kind: &str,
    reason_codes: Vec<String>,
) -> (r: IncidentSignature)
    ensures
        exists|sorted: Seq<Seq<char>>|
            {
                &&& sorted_texts(sorted)
                &&& sorted.to_multiset() == reason_codes.deep_view().to_multiset()
                &&& r.fingerprint@ == blake3_hex_of(
                    fingerprint_message(
                        seq![
                            "policy_denial"@,
                            user_id@,
                            surface@,
                            or_none(opt_str(tool_name)),
                            action_kind@,
                            reason_signature_spec(sorted),
                        ],
                    ),
                )
            },
        r.severity@ == (if exists|i: int|
            0 <= i < reason_codes@.len() && severe_denial_code(#[trigger] reason_codes@[i]@) {
            "high"@
        } else {
            "medium"@
        }),
{
    let severity = severity_for_policy_denial(reason_codes.as_slice());
    let sorted = sort_strings(reason_codes);
    let ss = sorted.as_slice();
    assert(ss.deep_view() =~= sorted.deep_view());
    let sig = reason_signature(ss);
    let tn = or_none_str(tool_name);
    let parts: Vec<&str> = vec!["policy_denial", user_id, surface, tn, action_kind, sig.as_str()];
    let ps = parts.as_slice();
    let fingerprint = fingerprint_hex(ps);
    proof {
        assert(views_of(ps@) =~= seq!["policy_denial"@, user_id@, surface@, tn@, action_kind@, sig@]);
        assert(sorted_texts(sorted.deep_view()));
    }
    IncidentSignature { fingerprint, severity }
}

} // verus!
