//! Bearer token checks of the web gateway.
use vstd::prelude::*;
use crate::text::{chars_eq_str, from_chars, slice_chars, starts_with, starts_with_str, to_chars};

verus! {

/// The gateway's expected token.
#[derive(Debug)]
pub struct AuthState {
    pub token: String,
}

impl Clone for AuthState {
    fn clone(&self) -> (r: Self)
        ensures
            r == *self,
    {
        AuthState { token: self.token.clone() }
    }
}

/// `subtle::ConstantTimeEq::ct_eq` on two byte slices, as a `bool`: the
/// source shows it true exactly when the lengths agree and every byte does.
#[verifier::external_body]
fn ct_eq_bytes(a: &[u8], b: &[u8]) -> (r: bool)
    ensures
        r == (a@ == b@),
{
    bool::from(subtle::ConstantTimeEq::ct_eq(a, b))
}

/// Whether two texts are equal, compared in constant time over their bytes.
pub fn tokens_equal(a: &str, b: &str) -> (r: bool)
    ensures
        r == (a@ == b@),
{
    let r = ct_eq_bytes(a.as_bytes(), b.as_bytes());
    proof {
        vstd::utf8::encode_utf8_decode_utf8(a@);
        vstd::utf8::encode_utf8_decode_utf8(b@);
    }
    r
}

/// The name/value pairs of a query string as `form_urlencoded::parse` reads
/// them (split on `&` and `=`, `+` as a space, percent-decoded).
pub uninterp spec fn form_pairs(query: Seq<char>) -> Seq<(Seq<char>, Seq<char>)>;

/// The views of name/value pairs.
pub open spec fn pairs_view(v: Seq<(String, String)>) -> Seq<(Seq<char>, Seq<char>)> {
    v.map_values(|p: (String, String)| (p.0@, p.1@))
}

/// `url::form_urlencoded::parse` of the query's bytes, each decoded pair
/// made owned: the result is named `form_pairs` of the query.
#[verifier::external_body]
fn parse_query_pairs(query: &str) -> (r: Vec<(String, String)>)
    ensures
        pairs_view(r@) == form_pairs(query@),
{
    url::form_urlencoded::parse(query.as_bytes()).map(|(k, v)| (k.into_owned(), v.into_owned())).collect()
}

/// Some `token` parameter of the query carries the expected value.
pub open spec fn query_has_token(query: Seq<char>, expected: Seq<char>) -> bool {
    exists|i: int|
        0 <= i < form_pairs(query).len() && (#[trigger] form_pairs(query)[i]).0 == "token"@
            && form_pairs(query)[i].1 == expected
}

/// Whether some `token` parameter of the query carries the expected value
/// (compared in constant time).
pub fn query_token_matches(query: &str, expected: &str) -> (b: bool)
    ensures
        b == query_has_token(query@, expected@),
{
    let pairs = parse_query_pairs(query);
    let ghost pv = pairs_view(pairs@);
    let mut i: usize = 0;
    while i < pairs.len()
        invariant
            i <= pairs@.len(),
            pv == pairs_view(pairs@),
            pv == form_pairs(query@),
            forall|j: int| 0 <= j < i ==> !(pv[j].0 == "token"@ && pv[j].1 == expected@),
        decreases pairs@.len() - i,
    {
        let k = to_chars(pairs[i].0.as_str());
        if chars_eq_str(k.as_slice(), "token") && tokens_equal(pairs[i].1.as_str(), expected) {
            assert(pv[i as int].0 == "token"@ && pv[i as int].1 == expected@);
            return true;
        }
        i = i + 1;
    }
    false
}

/// The header carries `Bearer ` and the expected token.
pub open spec fn bearer_matches(header: Seq<char>, expected: Seq<char>) -> bool {
    starts_with(header, "Bearer "@) && header.skip(7) == expected
}

/// Whether an `Authorization` header value is `Bearer ` followed by the
/// expected token (compared in constant time).
pub fn bearer_token_matches(header: &str, expected: &str) -> (b: bool)
    ensures
        b == bearer_matches(header@, expected@),
{
    let hv = to_chars(header);
    let n = hv.len();
    if !starts_with_str(hv.as_slice(), "Bearer ") {
        return false;
    }
    proof {
        reveal_strlit("Bearer ");
    }
    let rest = slice_chars(hv.as_slice(), 7, n);
    let rs = from_chars(rest.as_slice());
    assert(rest@ =~= header@.skip(7));
    tokens_equal(rs.as_str(), expected)
}

/// The body of the `401 Unauthorized` answer to a request that may not pass.
pub const UNAUTHORIZED_MESSAGE: &'static str = "Invalid or missing auth token";

/// Whether a request may pass: its `Authorization` header (when readable as
/// text) carries the bearer token, or its query carries it as `token`.
pub fn is_authorized(auth: &AuthState, authorization: Option<&str>, query: Option<&str>) -> (b: bool)
    ensures
        b == ((authorization matches Some(h) && bearer_matches(h@, auth.token@)) || (query matches Some(
            q,
        ) && query_has_token(q@, auth.token@))),
{
    match authorization {
        Some(h) => {
            if bearer_token_matches(h, auth.token.as_str()) {
                return true;
            }
        },
        None => {},
    }
    match query {
        Some(q) => query_token_matches(q, auth.token.as_str()),
        None => false,
    }
}

} // verus!
