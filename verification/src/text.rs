//! Character-level text helpers shared by the agent modules.
//!
//! Strings are modelled by their `Seq<char>` view. The executable helpers work
//! on `Vec<char>` buffers and convert at the edges.
use vstd::prelude::*;

verus! {

/// ASCII lower-casing of one character (non-ASCII characters are unchanged).
pub open spec fn ascii_lower_char(c: char) -> char {
    if 'A' <= c && c <= 'Z' {
        ((c as u32) + 32) as char
    } else {
        c
    }
}

/// ASCII lower-casing of a whole text.
pub open spec fn ascii_lower(s: Seq<char>) -> Seq<char> {
    s.map_values(|c: char| ascii_lower_char(c))
}

/// `needle` occurs in `hay` starting at index `i`.
pub open spec fn occurs_at(hay: Seq<char>, needle: Seq<char>, i: int) -> bool {
    &&& 0 <= i
    &&& i + needle.len() <= hay.len()
    &&& hay.subrange(i, i + needle.len()) == needle
}

/// `needle` occurs somewhere in `hay`.
pub open spec fn contains(hay: Seq<char>, needle: Seq<char>) -> bool {
    exists|i: int| occurs_at(hay, needle, i)
}

/// Lower-casing a joined text lower-cases each part.
pub proof fn lemma_ascii_lower_concat(a: Seq<char>, b: Seq<char>)
    ensures
        ascii_lower(a + b) == ascii_lower(a) + ascii_lower(b),
{
    assert(ascii_lower(a + b) =~= ascii_lower(a) + ascii_lower(b));
}

/// A text found in a part is found in the joined text.
pub proof fn lemma_contains_concat(a: Seq<char>, b: Seq<char>, needle: Seq<char>)
    ensures
        contains(a, needle) ==> contains(a + b, needle),
        contains(b, needle) ==> contains(a + b, needle),
{
    if contains(a, needle) {
        let i = choose|i: int| occurs_at(a, needle, i);
        assert((a + b).subrange(i, i + needle.len()) =~= a.subrange(i, i + needle.len()));
        assert(occurs_at(a + b, needle, i));
    }
    if contains(b, needle) {
        let i = choose|i: int| occurs_at(b, needle, i);
        let j = a.len() + i;
        assert((a + b).subrange(j, j + needle.len()) =~= b.subrange(i, i + needle.len()));
        assert(occurs_at(a + b, needle, j));
    }
}

/// `hay` begins with `prefix`.
pub open spec fn starts_with(hay: Seq<char>, prefix: Seq<char>) -> bool {
    prefix.len() <= hay.len() && hay.take(prefix.len() as int) == prefix
}

/// `hay` ends with `suffix`.
pub open spec fn ends_with(hay: Seq<char>, suffix: Seq<char>) -> bool {
    suffix.len() <= hay.len() && hay.skip(hay.len() - suffix.len()) == suffix
}

/// The first index at or after `from` where `needle` occurs, if any.
pub open spec fn first_occurrence_from(hay: Seq<char>, needle: Seq<char>, from: int) -> Option<int>
    decreases hay.len() + 1 - from,
{
    if from + needle.len() > hay.len() {
        None
    } else if occurs_at(hay, needle, from) {
        Some(from)
    } else {
        first_occurrence_from(hay, needle, from + 1)
    }
}

/// The Unicode `White_Space` property, as `char::is_whitespace` documents it.
pub open spec fn is_ws(c: char) -> bool {
    ||| ('\u{9}' <= c && c <= '\u{d}')
    ||| c == ' '
    ||| c == '\u{85}'
    ||| c == '\u{a0}'
    ||| c == '\u{1680}'
    ||| ('\u{2000}' <= c && c <= '\u{200a}')
    ||| c == '\u{2028}'
    ||| c == '\u{2029}'
    ||| c == '\u{202f}'
    ||| c == '\u{205f}'
    ||| c == '\u{3000}'
}

/// The text with leading whitespace removed.
pub open spec fn trim_start(s: Seq<char>) -> Seq<char>
    decreases s.len(),
{
    if s.len() > 0 && is_ws(s[0]) {
        trim_start(s.drop_first())
    } else {
        s
    }
}

/// The text with trailing whitespace removed.
pub open spec fn trim_end(s: Seq<char>) -> Seq<char>
    decreases s.len(),
{
    if s.len() > 0 && is_ws(s.last()) {
        trim_end(s.drop_last())
    } else {
        s
    }
}

/// The text with whitespace removed at both ends.
pub open spec fn trim(s: Seq<char>) -> Seq<char> {
    trim_end(trim_start(s))
}

/// At most the first `n` characters.
pub open spec fn take_chars(s: Seq<char>, n: nat) -> Seq<char> {
    if s.len() <= n {
        s
    } else {
        s.take(n as int)
    }
}

/// A decimal digit character.
pub open spec fn digit_char(d: nat) -> char {
    ((d % 10) + 48) as char
}

/// The decimal rendering of a natural number, as `Display` writes it.
pub open spec fn decimal(n: nat) -> Seq<char>
    decreases n,
{
    if n < 10 {
        seq![digit_char(n)]
    } else {
        decimal(n / 10).push(digit_char(n % 10))
    }
}

/// The decimal rendering of an integer, with a leading `-` when negative.
pub open spec fn decimal_int(n: int) -> Seq<char> {
    if n < 0 {
        seq!['-'].add(decimal((-n) as nat))
    } else {
        decimal(n as nat)
    }
}

/// The Unicode lower-casing of a text (`str::to_lowercase`).
pub uninterp spec fn unicode_lowercase(s: Seq<char>) -> Seq<char>;

/// `str::to_lowercase`: its result is named `unicode_lowercase` of the input.
#[verifier::external_body]
pub(crate) fn to_lowercase(s: &str) -> (r: String)
    ensures
        r@ == unicode_lowercase(s@),
{
    s.to_lowercase()
}

/// Appends one character to a `String`.
#[verifier::external_body]
pub(crate) fn push_char(s: &mut String, c: char)
    ensures
        final(s)@ == old(s)@.push(c),
{
    s.push(c);
}

/// The characters of a text, in order.
pub fn to_chars(s: &str) -> (v: Vec<char>)
    ensures
        v@ == s@,
{
    let n = s.unicode_len();
    let mut v: Vec<char> = Vec::new();
    let mut i: usize = 0;
    while i < n
        invariant
            n == s@.len(),
            i <= n,
            v@ == s@.take(i as int),
        decreases n - i,
    {
        let c = s.get_char(i);
        v.push(c);
        i = i + 1;
        assert(v@ =~= s@.take(i as int));
    }
    assert(v@ =~= s@);
    v
}

/// Appends characters to a `String`.
pub fn push_chars(out: &mut String, v: &[char])
    ensures
        final(out)@ == old(out)@ + v@,
{
    let ghost start = out@;
    let mut i: usize = 0;
    while i < v.len()
        invariant
            i <= v@.len(),
            out@ == start + v@.take(i as int),
        decreases v@.len() - i,
    {
        push_char(out, v[i]);
        i = i + 1;
        assert(out@ =~= start + v@.take(i as int));
    }
    assert(v@.take(v@.len() as int) =~= v@);
}

/// A `String` holding the given characters.
pub fn from_chars(v: &[char]) -> (s: String)
    ensures
        s@ == v@,
{
    let mut s = String::new();
    push_chars(&mut s, v);
    s
}

/// Appends a text to a `String`.
pub fn push_str(out: &mut String, t: &str)
    ensures
        final(out)@ == old(out)@ + t@,
{
    let v = to_chars(t);
    push_chars(out, v.as_slice());
}

/// A `String` copy of a text.
pub fn string_of(t: &str) -> (s: String)
    ensures
        s@ == t@,
{
    let mut s = String::new();
    push_str(&mut s, t);
    assert(s@ =~= t@);
    s
}

/// A copy of a list of texts.
pub fn clone_strings(v: &Vec<String>) -> (r: Vec<String>)
    ensures
        r.deep_view() == v.deep_view(),
{
    let mut r: Vec<String> = Vec::new();
    let mut i: usize = 0;
    while i < v.len()
        invariant
            i <= v@.len(),
            r.deep_view() == v.deep_view().take(i as int),
        decreases v@.len() - i,
    {
        let ghost before = r.deep_view();
        r.push(string_of(v[i].as_str()));
        assert(r.deep_view() =~= v.deep_view().take(i + 1)) by {
            assert(v.deep_view().take(i + 1) =~= before.push(v.deep_view()[i as int]));
        }
        i = i + 1;
    }
    assert(v.deep_view().take(v@.len() as int) =~= v.deep_view());
    r
}

/// ASCII lower-casing of one character.
pub fn lower_char(c: char) -> (r: char)
    ensures
        r == ascii_lower_char(c),
{
    if 'A' <= c && c <= 'Z' {
        let u: u8 = (c as u32 + 32) as u8;
        u as char
    } else {
        c
    }
}

/// ASCII lower-casing of a character buffer.
pub fn lower_chars(s: &[char]) -> (r: Vec<char>)
    ensures
        r@ == ascii_lower(s@),
{
    let mut r: Vec<char> = Vec::new();
    let mut i: usize = 0;
    while i < s.len()
        invariant
            i <= s@.len(),
            r@ == ascii_lower(s@.take(i as int)),
        decreases s@.len() - i,
    {
        let c = lower_char(s[i]);
        r.push(c);
        i = i + 1;
        assert(r@ =~= ascii_lower(s@.take(i as int)));
    }
    assert(s@.take(s@.len() as int) =~= s@);
    r
}

/// ASCII lower-casing of a text, as a character buffer.
pub fn lower_str(s: &str) -> (r: Vec<char>)
    ensures
        r@ == ascii_lower(s@),
{
    let v = to_chars(s);
    lower_chars(v.as_slice())
}

/// Whether `needle` occurs in `hay` starting at `i`.
pub fn occurs_at_exec(hay: &[char], needle: &[char], i: usize) -> (b: bool)
    ensures
        b == occurs_at(hay@, needle@, i as int),
{
    if needle.len() > hay.len() || i > hay.len() - needle.len() {
        return false;
    }
    let hl = hay.len();
    let mut k: usize = 0;
    while k < needle.len()
        invariant
            hl == hay@.len(),
            i + needle@.len() <= hay@.len(),
            k <= needle@.len(),
            forall|j: int| 0 <= j < k ==> hay@[i + j] == needle@[j],
        decreases needle@.len() - k,
    {
        if hay[i + k] != needle[k] {
            assert(hay@.subrange(i as int, i + needle@.len())[k as int] != needle@[k as int]);
            return false;
        }
        k = k + 1;
    }
    assert(hay@.subrange(i as int, i + needle@.len()) =~= needle@);
    true
}

/// The first index at or after `from` where `needle` occurs.
pub fn find_from(hay: &[char], needle: &[char], from: usize) -> (r: Option<usize>)
    ensures
        match r {
            Some(i) => from <= i && occurs_at(hay@, needle@, i as int) && forall|j: int|
                from <= j < i ==> !occurs_at(hay@, needle@, j),
            None => forall|j: int| from <= j ==> !occurs_at(hay@, needle@, j),
        },
        r == (match first_occurrence_from(hay@, needle@, from as int) {
            Some(i) => Some(i as usize),
            None => None::<usize>,
        }),
{
    let mut i: usize = from;
    while i <= hay.len()
        invariant
            from <= i,
            forall|j: int| from <= j < i ==> !occurs_at(hay@, needle@, j),
        decreases hay@.len() + 1 - i,
    {
        if occurs_at_exec(hay, needle, i) {
            proof {
                lemma_first_occurrence_is(hay@, needle@, from as int, i as int);
            }
            return Some(i);
        }
        if i == hay.len() {
            proof {
                lemma_first_occurrence_skip(hay@, needle@, from as int, i as int);
                assert(first_occurrence_from(hay@, needle@, i + 1) is None);
            }
            return None;
        }
        i = i + 1;
    }
    proof {
        lemma_first_occurrence_skip(hay@, needle@, from as int, i as int);
    }
    None
}

/// The first occurrence found is an occurrence at or after `from`, and none
/// lies before it.
pub proof fn lemma_first_occurrence_found(hay: Seq<char>, needle: Seq<char>, from: int)
    ensures
        first_occurrence_from(hay, needle, from) matches Some(i) ==> {
            &&& from <= i
            &&& occurs_at(hay, needle, i)
            &&& forall|j: int| from <= j < i ==> !occurs_at(hay, needle, j)
        },
        first_occurrence_from(hay, needle, from) is None ==> forall|j: int|
            from <= j ==> !occurs_at(hay, needle, j),
    decreases hay.len() + 1 - from,
{
    if from + needle.len() > hay.len() {
    } else if occurs_at(hay, needle, from) {
    } else {
        lemma_first_occurrence_found(hay, needle, from + 1);
        assert forall|j: int| from <= j && occurs_at(hay, needle, j) implies j >= from + 1 by {}
    }
}

/// Skipping positions where `needle` does not occur keeps the first occurrence.
pub proof fn lemma_first_occurrence_skip(hay: Seq<char>, needle: Seq<char>, from: int, i: int)
    requires
        from <= i,
        forall|j: int| from <= j < i ==> !occurs_at(hay, needle, j),
    ensures
        first_occurrence_from(hay, needle, from) == first_occurrence_from(hay, needle, i),
    decreases i - from,
{
    if from < i {
        lemma_first_occurrence_skip(hay, needle, from + 1, i);
        if from + needle.len() > hay.len() {
            lemma_first_occurrence_found(hay, needle, i);
            assert(!occurs_at(hay, needle, i));
            match first_occurrence_from(hay, needle, i) {
                Some(k) => {
                    assert(occurs_at(hay, needle, k));
                },
                None => {},
            }
        }
    }
}

/// When `i` is an occurrence and none lies in `[from, i)`, it is the first one.
pub proof fn lemma_first_occurrence_is(hay: Seq<char>, needle: Seq<char>, from: int, i: int)
    requires
        from <= i,
        occurs_at(hay, needle, i),
        forall|j: int| from <= j < i ==> !occurs_at(hay, needle, j),
    ensures
        first_occurrence_from(hay, needle, from) == Some(i),
{
    lemma_first_occurrence_skip(hay, needle, from, i);
}

/// Whether `needle` occurs in `hay`.
pub fn contains_exec(hay: &[char], needle: &[char]) -> (b: bool)
    ensures
        b == contains(hay@, needle@),
{
    match find_from(hay, needle, 0) {
        Some(i) => true,
        None => {
            assert(!contains(hay@, needle@)) by {
                if contains(hay@, needle@) {
                    let j = choose|j: int| occurs_at(hay@, needle@, j);
                }
            }
            false
        }
    }
}

/// Whether a text contains a literal pattern.
pub fn contains_str(hay: &[char], needle: &str) -> (b: bool)
    ensures
        b == contains(hay@, needle@),
{
    let n = to_chars(needle);
    contains_exec(hay, n.as_slice())
}

/// Whether `hay` begins with `prefix`.
pub fn starts_with_exec(hay: &[char], prefix: &[char]) -> (b: bool)
    ensures
        b == starts_with(hay@, prefix@),
{
    let b = occurs_at_exec(hay, prefix, 0);
    assert(hay@.subrange(0, prefix@.len() as int) == hay@.take(prefix@.len() as int));
    b
}

/// Whether a text begins with a literal prefix.
pub fn starts_with_str(hay: &[char], prefix: &str) -> (b: bool)
    ensures
        b == starts_with(hay@, prefix@),
{
    let p = to_chars(prefix);
    starts_with_exec(hay, p.as_slice())
}

/// Whether two character buffers are equal.
pub fn chars_eq(a: &[char], b: &[char]) -> (r: bool)
    ensures
        r == (a@ == b@),
{
    if a.len() != b.len() {
        return false;
    }
    let r = occurs_at_exec(a, b, 0);
    assert(a@.subrange(0, b@.len() as int) =~= a@);
    r
}

/// Whether a buffer equals a literal text.
pub fn chars_eq_str(a: &[char], b: &str) -> (r: bool)
    ensures
        r == (a@ == b@),
{
    let bv = to_chars(b);
    chars_eq(a, bv.as_slice())
}

/// `char::is_whitespace`.
pub fn is_ws_exec(c: char) -> (b: bool)
    ensures
        b == is_ws(c),
{
    ('\u{9}' <= c && c <= '\u{d}') || c == ' ' || c == '\u{85}' || c == '\u{a0}' || c
        == '\u{1680}' || ('\u{2000}' <= c && c <= '\u{200a}') || c == '\u{2028}' || c
        == '\u{2029}' || c == '\u{202f}' || c == '\u{205f}' || c == '\u{3000}'
}

/// Dropping leading whitespace from `s.skip(i)` when `s[i]` is whitespace.
proof fn lemma_trim_start_step(s: Seq<char>, i: int)
    requires
        0 <= i < s.len(),
        is_ws(s[i]),
    ensures
        trim_start(s.skip(i)) == trim_start(s.skip(i + 1)),
{
    assert(s.skip(i).drop_first() =~= s.skip(i + 1));
}

/// Dropping trailing whitespace from `s.take(j)` when `s[j-1]` is whitespace.
proof fn lemma_trim_end_step(s: Seq<char>, j: int)
    requires
        0 < j <= s.len(),
        is_ws(s[j - 1]),
    ensures
        trim_end(s.take(j)) == trim_end(s.take(j - 1)),
{
    assert(s.take(j).drop_last() =~= s.take(j - 1));
}

/// The start index of `trim_start(s)` inside `s`.
pub fn trim_start_index(s: &[char]) -> (i: usize)
    ensures
        i <= s@.len(),
        trim_start(s@) == s@.skip(i as int),
        forall|k: int| 0 <= k < i ==> is_ws(s@[k]),
        i < s@.len() ==> !is_ws(s@[i as int]),
{
    let mut i: usize = 0;
    assert(s@.skip(0) =~= s@);
    while i < s.len() && is_ws_exec(s[i])
        invariant
            i <= s@.len(),
            trim_start(s@) == trim_start(s@.skip(i as int)),
            forall|k: int| 0 <= k < i ==> is_ws(s@[k]),
        decreases s@.len() - i,
    {
        proof {
            lemma_trim_start_step(s@, i as int);
        }
        i = i + 1;
    }
    i
}

/// The end index of `trim_end(s)` inside `s`.
pub fn trim_end_index(s: &[char]) -> (j: usize)
    ensures
        j <= s@.len(),
        trim_end(s@) == s@.take(j as int),
        forall|k: int| j <= k < s@.len() ==> is_ws(s@[k]),
        j > 0 ==> !is_ws(s@[j - 1]),
{
    let mut j: usize = s.len();
    assert(s@.take(s@.len() as int) =~= s@);
    while j > 0 && is_ws_exec(s[j - 1])
        invariant
            j <= s@.len(),
            trim_end(s@) == trim_end(s@.take(j as int)),
            forall|k: int| j <= k < s@.len() ==> is_ws(s@[k]),
        decreases j,
    {
        proof {
            lemma_trim_end_step(s@, j as int);
        }
        j = j - 1;
    }
    j
}

/// Copies a slice range into a fresh buffer.
pub fn slice_chars(s: &[char], from: usize, to: usize) -> (r: Vec<char>)
    requires
        from <= to <= s@.len(),
    ensures
        r@ == s@.subrange(from as int, to as int),
{
    let mut r: Vec<char> = Vec::new();
    let mut i: usize = from;
    while i < to
        invariant
            from <= i <= to <= s@.len(),
            r@ == s@.subrange(from as int, i as int),
        decreases to - i,
    {
        r.push(s[i]);
        i = i + 1;
        assert(r@ =~= s@.subrange(from as int, i as int));
    }
    r
}

/// Removes trailing whitespace.
pub fn trim_end_chars(s: &[char]) -> (r: Vec<char>)
    ensures
        r@ == trim_end(s@),
{
    let j = trim_end_index(s);
    let r = slice_chars(s, 0, j);
    assert(r@ =~= s@.take(j as int));
    r
}

/// Removes leading whitespace.
pub fn trim_start_chars(s: &[char]) -> (r: Vec<char>)
    ensures
        r@ == trim_start(s@),
{
    let i = trim_start_index(s);
    let r = slice_chars(s, i, s.len());
    assert(r@ =~= s@.skip(i as int));
    r
}

/// Removes whitespace at both ends.
pub fn trim_chars(s: &[char]) -> (r: Vec<char>)
    ensures
        r@ == trim(s@),
{
    let a = trim_start_chars(s);
    trim_end_chars(a.as_slice())
}

/// Removes whitespace at both ends of a text.
pub fn trim_str(s: &str) -> (r: Vec<char>)
    ensures
        r@ == trim(s@),
{
    let v = to_chars(s);
    trim_chars(v.as_slice())
}

/// The first `n` characters (all of them when there are fewer).
pub fn take_chars_exec(s: &[char], n: usize) -> (r: Vec<char>)
    ensures
        r@ == take_chars(s@, n as nat),
{
    if s.len() <= n {
        let r = slice_chars(s, 0, s.len());
        assert(r@ =~= s@);
        r
    } else {
        let r = slice_chars(s, 0, n);
        assert(r@ =~= s@.take(n as int));
        r
    }
}

/// The decimal digits of `n`.
pub fn decimal_u64(n: u64) -> (r: Vec<char>)
    ensures
        r@ == decimal(n as nat),
    decreases n,
{
    let d: u8 = (n % 10) as u8;
    let c = (d + 48) as char;
    assert(c == digit_char(n as nat)) by {
        assert((n as nat % 10) == d);
    }
    if n < 10 {
        let mut r: Vec<char> = Vec::new();
        r.push(c);
        assert(r@ =~= seq![digit_char(n as nat)]);
        r
    } else {
        let mut r = decimal_u64(n / 10);
        r.push(c);
        assert(digit_char(n as nat) == digit_char((n % 10) as nat));
        r
    }
}

/// The decimal rendering of a signed integer.
pub fn decimal_i64(n: i64) -> (r: Vec<char>)
    ensures
        r@ == decimal_int(n as int),
{
    if n < 0 {
        let m: u64 = if n == i64::MIN {
            9223372036854775808u64
        } else {
            (-n) as u64
        };
        let d = decimal_u64(m);
        let mut r: Vec<char> = Vec::new();
        r.push('-');
        let mut i: usize = 0;
        while i < d.len()
            invariant
                i <= d@.len(),
                r@ == seq!['-'].add(d@.take(i as int)),
            decreases d@.len() - i,
        {
            r.push(d[i]);
            i = i + 1;
            assert(r@ =~= seq!['-'].add(d@.take(i as int)));
        }
        assert(d@.take(d@.len() as int) =~= d@);
        r
    } else {
        decimal_u64(n as u64)
    }
}

/// Appends the decimal rendering of `n`.
pub fn push_decimal(out: &mut String, n: u64)
    ensures
        final(out)@ == old(out)@ + decimal(n as nat),
{
    let d = decimal_u64(n);
    push_chars(out, d.as_slice());
}


/// Lexicographic order on texts (by code point), as `Ord` orders `String`s.
pub open spec fn lex_lt(a: Seq<char>, b: Seq<char>) -> bool
    decreases a.len(),
{
    if a.len() == 0 {
        b.len() > 0
    } else if b.len() == 0 {
        false
    } else if a[0] != b[0] {
        a[0] < b[0]
    } else {
        lex_lt(a.drop_first(), b.drop_first())
    }
}

/// `lex_lt` is irreflexive.
pub proof fn lemma_lex_lt_irreflexive(a: Seq<char>)
    ensures
        !lex_lt(a, a),
    decreases a.len(),
{
    if a.len() > 0 {
        lemma_lex_lt_irreflexive(a.drop_first());
    }
}

/// `lex_lt` is transitive.
pub proof fn lemma_lex_lt_transitive(a: Seq<char>, b: Seq<char>, c: Seq<char>)
    requires
        lex_lt(a, b),
        lex_lt(b, c),
    ensures
        lex_lt(a, c),
    decreases a.len(),
{
    if a.len() > 0 && b.len() > 0 && c.len() > 0 && a[0] == b[0] && b[0] == c[0] {
        lemma_lex_lt_transitive(a.drop_first(), b.drop_first(), c.drop_first());
    }
}

/// Distinct texts are ordered one way or the other.
pub proof fn lemma_lex_lt_total(a: Seq<char>, b: Seq<char>)
    requires
        a != b,
    ensures
        lex_lt(a, b) || lex_lt(b, a),
    decreases a.len(),
{
    if a.len() > 0 && b.len() > 0 && a[0] == b[0] {
        if a.drop_first() == b.drop_first() {
            assert(a =~= seq![a[0]] + a.drop_first());
            assert(b =~= seq![b[0]] + b.drop_first());
        }
        lemma_lex_lt_total(a.drop_first(), b.drop_first());
    } else if a.len() == 0 && b.len() == 0 {
        assert(a =~= b);
    }
}

/// `lex_lt` is asymmetric.
pub proof fn lemma_lex_lt_asymmetric(a: Seq<char>, b: Seq<char>)
    requires
        lex_lt(a, b),
    ensures
        !lex_lt(b, a),
{
    if lex_lt(b, a) {
        lemma_lex_lt_transitive(a, b, a);
        lemma_lex_lt_irreflexive(a);
    }
}

/// Whether `a` orders strictly before `b`.
pub fn lex_lt_exec(a: &[char], b: &[char]) -> (r: bool)
    ensures
        r == lex_lt(a@, b@),
{
    let mut i: usize = 0;
    assert(a@.skip(0) =~= a@);
    assert(b@.skip(0) =~= b@);
    loop
        invariant
            i <= a@.len(),
            i <= b@.len(),
            lex_lt(a@, b@) == lex_lt(a@.skip(i as int), b@.skip(i as int)),
        decreases a@.len() - i,
    {
        if i == a.len() {
            return i < b.len();
        }
        if i == b.len() {
            return false;
        }
        if a[i] != b[i] {
            return a[i] < b[i];
        }
        assert(a@.skip(i as int).drop_first() =~= a@.skip(i + 1));
        assert(b@.skip(i as int).drop_first() =~= b@.skip(i + 1));
        i = i + 1;
    }
}

/// A sequence of texts in strictly increasing order (so without repeats).
pub open spec fn strictly_sorted(s: Seq<Seq<char>>) -> bool {
    forall|i: int, j: int| 0 <= i < j < s.len() ==> lex_lt(s[i], s[j])
}

/// `out` holds exactly the texts of `raw`, sorted and without repeats.
pub open spec fn sorted_unique_of(raw: Seq<Seq<char>>, out: Seq<Seq<char>>) -> bool {
    &&& strictly_sorted(out)
    &&& forall|t: Seq<char>| #[trigger] out.contains(t) <==> raw.contains(t)
}

/// Inserts a text into a strictly sorted list unless it is already there.
fn insert_sorted_unique(v: &mut Vec<String>, t: String)
    requires
        strictly_sorted(old(v).deep_view()),
    ensures
        strictly_sorted(final(v).deep_view()),
        forall|u: Seq<char>| #[trigger] final(v).deep_view().contains(u) <==> (old(
            v,
        ).deep_view().contains(u) || u == t@),
{
    let tc = to_chars(t.as_str());
    let ghost old_dv = v.deep_view();
    let mut i: usize = 0;
    let mut stop = false;
    while i < v.len() && !stop
        invariant
            v.deep_view() == old_dv,
            strictly_sorted(old_dv),
            tc@ == t@,
            i <= v.len(),
            forall|k: int| 0 <= k < i ==> lex_lt(#[trigger] old_dv[k], t@),
            stop ==> i < v.len() && lex_lt(t@, old_dv[i as int]),
        decreases v.len() - i + (if stop { 0int } else { 1int }),
    {
        let cur = to_chars(v[i].as_str());
        assert(cur@ == old_dv[i as int]);
        if chars_eq(cur.as_slice(), tc.as_slice()) {
            assert(old_dv.contains(t@));
            return;
        }
        if lex_lt_exec(tc.as_slice(), cur.as_slice()) {
            stop = true;
        } else {
            proof {
                lemma_lex_lt_total(cur@, t@);
            }
            i = i + 1;
        }
    }
    // every entry from `i` on is above `t`
    assert forall|k: int| i <= k < old_dv.len() implies lex_lt(t@, #[trigger] old_dv[k]) by {
        if k > i {
            lemma_lex_lt_transitive(t@, old_dv[i as int], old_dv[k]);
        }
    }
    v.insert(i, t);
    proof {
        let nv = v.deep_view();
        assert(nv =~= old_dv.insert(i as int, t@));
        assert forall|a: int, b: int| 0 <= a < b < nv.len() implies lex_lt(nv[a], nv[b]) by {
            if b < i {
                assert(nv[a] == old_dv[a] && nv[b] == old_dv[b]);
            } else if a < i && b == i {
                assert(nv[a] == old_dv[a]);
            } else if a < i && b > i {
                assert(nv[a] == old_dv[a] && nv[b] == old_dv[b - 1]);
                lemma_lex_lt_transitive(old_dv[a], t@, old_dv[b - 1]);
            } else if a == i {
                assert(nv[b] == old_dv[b - 1]);
            } else {
                assert(nv[a] == old_dv[a - 1] && nv[b] == old_dv[b - 1]);
            }
        }
        assert forall|u: Seq<char>| #[trigger] nv.contains(u) <==> (old_dv.contains(u) || u == t@) by {
            if nv.contains(u) {
                let k = choose|k: int| 0 <= k < nv.len() && nv[k] == u;
                if k < i {
                    assert(old_dv[k] == u);
                } else if k > i {
                    assert(old_dv[k - 1] == u);
                }
            }
            if old_dv.contains(u) {
                let k = choose|k: int| 0 <= k < old_dv.len() && old_dv[k] == u;
                if k < i {
                    assert(nv[k] == u);
                } else {
                    assert(nv[k + 1] == u);
                }
            }
            if u == t@ {
                assert(nv[i as int] == u);
            }
        }
    }
}

/// Sorts texts and drops repeats (`sort` followed by `dedup`).
pub fn sort_dedup(raw: Vec<String>) -> (out: Vec<String>)
    ensures
        sorted_unique_of(raw.deep_view(), out.deep_view()),
{
    let mut out: Vec<String> = Vec::new();
    let mut i: usize = 0;
    while i < raw.len()
        invariant
            i <= raw.len(),
            strictly_sorted(out.deep_view()),
            forall|u: Seq<char>| #[trigger] out.deep_view().contains(u) <==> raw.deep_view().take(
                i as int,
            ).contains(u),
        decreases raw.len() - i,
    {
        let t = raw[i].clone();
        assert(t@ == raw.deep_view()[i as int]);
        let ghost before = out.deep_view();
        insert_sorted_unique(&mut out, t);
        proof {
            let p = raw.deep_view().take(i as int);
            let q = raw.deep_view().take(i + 1);
            assert(q =~= p.push(raw.deep_view()[i as int]));
            assert forall|u: Seq<char>| #[trigger] out.deep_view().contains(u) <==> q.contains(u) by {
                assert(before.contains(u) <==> p.contains(u));
                if u == raw.deep_view()[i as int] {
                    assert(q[i as int] == u);
                }
                if q.contains(u) {
                    let k = choose|k: int| 0 <= k < q.len() && q[k] == u;
                    if k < i {
                        assert(p[k] == u);
                        assert(p.contains(u));
                    }
                }
                if p.contains(u) {
                    let k = choose|k: int| 0 <= k < p.len() && p[k] == u;
                    assert(q[k] == u);
                }
            }
        }
        i = i + 1;
    }
    assert(raw.deep_view().take(raw.len() as int) =~= raw.deep_view());
    out
}

/// The texts are in non-decreasing order.
pub open spec fn sorted_texts(s: Seq<Seq<char>>) -> bool {
    forall|i: int, j: int| 0 <= i < j < s.len() ==> !lex_lt(#[trigger] s[j], #[trigger] s[i])
}

/// Sorts texts in non-decreasing order, as `sort` orders `String`s; equal
/// texts stay.
pub fn sort_strings(v: Vec<String>) -> (r: Vec<String>)
    ensures
        sorted_texts(r.deep_view()),
        r.deep_view().to_multiset() == v.deep_view().to_multiset(),
        r@.len() == v@.len(),
{
    broadcast use vstd::seq_lib::group_to_multiset_ensures;
    let mut r: Vec<String> = Vec::new();
    let mut i: usize = 0;
    while i < v.len()
        invariant
            i <= v@.len(),
            sorted_texts(r.deep_view()),
            r.deep_view().to_multiset() == v.deep_view().take(i as int).to_multiset(),
            r@.len() == i,
        decreases v@.len() - i,
    {
        let x = v[i].clone();
        let xv = to_chars(x.as_str());
        let mut j: usize = 0;
        let mut stop = false;
        while j < r.len() && !stop
            invariant
                j <= r@.len(),
                xv@ == x@,
                sorted_texts(r.deep_view()),
                forall|k: int| 0 <= k < j ==> !lex_lt(x@, #[trigger] r.deep_view()[k]),
                stop ==> j < r@.len() && lex_lt(x@, r.deep_view()[j as int]),
            decreases r@.len() - j + (if stop { 0int } else { 1int }),
        {
            let rv = to_chars(r[j].as_str());
            if lex_lt_exec(xv.as_slice(), rv.as_slice()) {
                stop = true;
            } else {
                j = j + 1;
            }
        }
        let ghost old_r = r.deep_view();
        r.insert(j, x);
        proof {
            let nr = r.deep_view();
            assert(nr =~= old_r.insert(j as int, x@));
            assert forall|a: int, b: int| 0 <= a < b < nr.len() implies !lex_lt(
                #[trigger] nr[b],
                #[trigger] nr[a],
            ) by {
                if b < j {
                    assert(nr[a] == old_r[a] && nr[b] == old_r[b]);
                } else if b == j {
                    assert(nr[a] == old_r[a]);
                } else if a < j {
                    assert(nr[a] == old_r[a] && nr[b] == old_r[b - 1]);
                    if lex_lt(nr[b], nr[a]) {
                        if (j as int) < b - 1 {
                            assert(!lex_lt(old_r[b - 1], old_r[j as int]));
                            assert(lex_lt(x@, old_r[j as int]));
                            if lex_lt(old_r[b - 1], x@) {
                                lemma_lex_lt_transitive(old_r[b - 1], x@, old_r[j as int]);
                            }
                            lemma_lex_lt_total(old_r[a], x@);
                            if lex_lt(old_r[a], x@) {
                            } else if old_r[a] != x@ {
                                lemma_lex_lt_transitive(old_r[b - 1], old_r[a], x@);
                            }
                            assert(!lex_lt(old_r[b - 1], old_r[a]));
                        }
                    }
                } else if a == j {
                    assert(nr[a] == x@ && nr[b] == old_r[b - 1]);
                    assert(lex_lt(x@, old_r[j as int]));
                    if lex_lt(old_r[b - 1], x@) {
                        lemma_lex_lt_transitive(old_r[b - 1], x@, old_r[j as int]);
                        if (j as int) == b - 1 {
                            lemma_lex_lt_irreflexive(old_r[j as int]);
                        }
                    }
                } else {
                    assert(nr[a] == old_r[a - 1] && nr[b] == old_r[b - 1]);
                }
            }
            vstd::seq_lib::to_multiset_insert(old_r, j as int, x@);
            assert(v.deep_view().take(i + 1) =~= v.deep_view().take(i as int).push(x@));
            vstd::seq_lib::to_multiset_build(v.deep_view().take(i as int), x@);
        }
        i = i + 1;
    }
    assert(v.deep_view().take(v@.len() as int) =~= v.deep_view());
    r
}

} // verus!
