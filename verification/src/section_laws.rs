//! Laws of managed sections: a written section reads back as its body, and
//! writing a section again replaces it and keeps the text around it.
use vstd::prelude::*;
use crate::onboarding::{
    begin_marker_spec, line_sep, onboarding_block, render_onboarding_spec, replace_section_spec,
    MANAGED_BEGIN_PREFIX, MANAGED_END_MARKER,
};
use crate::synthesis::{
    extract_synth_spec, occurs_twice, render_synth_spec, synth_begin_spec, SYNTH_BEGIN_PREFIX,
    SYNTH_END_MARKER,
};
use crate::text::{
    contains, first_occurrence_from, is_ws, lemma_first_occurrence_found,
    lemma_first_occurrence_is, occurs_at, trim, trim_end, trim_start,
};

verus! {

/// Markers that are found unambiguously: each starts with `<`, which occurs
/// nowhere else in either; neither holds a line break; and they differ within
/// their common length.
pub open spec fn distinct_markers(b: Seq<char>, e: Seq<char>) -> bool {
    &&& b.len() > 0
    &&& e.len() > 0
    &&& b[0] == '<'
    &&& e[0] == '<'
    &&& forall|k: int| 1 <= k < b.len() ==> b[k] != '<'
    &&& forall|k: int| 1 <= k < e.len() ==> e[k] != '<'
    &&& forall|k: int| 0 <= k < b.len() ==> b[k] != '\n'
    &&& forall|k: int| 0 <= k < e.len() ==> e[k] != '\n'
    &&& exists|j: int| 0 <= j < b.len() && j < e.len() && b[j] != e[j]
}

/// Empty, or ending a line.
pub open spec fn ends_line(p: Seq<char>) -> bool {
    p.len() == 0 || p.last() == '\n'
}

/// A document with one managed section holding `t`.
pub open spec fn section_doc(pre: Seq<char>, b: Seq<char>, t: Seq<char>, e: Seq<char>, suf: Seq<char>) -> Seq<char> {
    pre + b + "\n"@ + t + "\n"@ + e + suf
}

/// No occurrence of a needle without line breaks covers a line break.
proof fn lemma_no_cross(hay: Seq<char>, n: Seq<char>, j: int, k: int)
    requires
        forall|q: int| 0 <= q < n.len() ==> n[q] != '\n',
        0 <= k < hay.len(),
        hay[k] == '\n',
        j <= k < j + n.len(),
    ensures
        !occurs_at(hay, n, j),
{
    if occurs_at(hay, n, j) {
        assert(hay.subrange(j, j + n.len())[k - j] == hay[k]);
    }
}

/// An occurrence starts with the needle's first character.
proof fn lemma_first_char(hay: Seq<char>, n: Seq<char>, j: int)
    requires
        n.len() > 0,
        occurs_at(hay, n, j),
    ensures
        hay[j] == n[0],
{
    assert(hay.subrange(j, j + n.len())[0] == hay[j]);
}

/// An occurrence inside a part of a text is an occurrence in that part.
proof fn lemma_occurs_in_part(hay: Seq<char>, n: Seq<char>, lo: int, hi: int, j: int)
    requires
        0 <= lo <= j,
        j + n.len() <= hi <= hay.len(),
        occurs_at(hay, n, j),
    ensures
        occurs_at(hay.subrange(lo, hi), n, j - lo),
        contains(hay.subrange(lo, hi), n),
{
    assert(hay.subrange(lo, hi).subrange(j - lo, j - lo + n.len()) =~= hay.subrange(j, j + n.len()));
}

/// In a document with one managed section, the begin marker is first found
/// at the section's start and the end marker right after its body; with no
/// further markers in the body and after the section, no second one is
/// found.
proof fn lemma_section_doc(pre: Seq<char>, b: Seq<char>, t: Seq<char>, e: Seq<char>, suf: Seq<char>)
    requires
        distinct_markers(b, e),
        ends_line(pre),
        !contains(pre, b),
        !contains(t, e),
    ensures
        ({
            let x = section_doc(pre, b, t, e, suf);
            let l = pre.len() as int;
            let p0 = l + b.len();
            let pe = p0 + t.len() + 2;
            let pz = pe + e.len();
            &&& x.len() == pz + suf.len()
            &&& x.take(l) == pre
            &&& x.subrange(p0, pe) == "\n"@ + t + "\n"@
            &&& x.skip(pz) == suf
            &&& first_occurrence_from(x, b, 0) == Some(l)
            &&& first_occurrence_from(x, e, p0) == Some(pe)
            &&& (!contains(t, b) && !contains(suf, b)) ==> first_occurrence_from(x, b, p0) is None
            &&& !contains(pre, e) ==> first_occurrence_from(x, e, 0) == Some(pe)
            &&& !contains(suf, e) ==> first_occurrence_from(x, e, pz) is None
        }),
{
    reveal_strlit("\n");
    let x = section_doc(pre, b, t, e, suf);
    let l = pre.len() as int;
    let p0 = l + b.len();
    let pe = p0 + t.len() + 2;
    let pz = pe + e.len();
    let nl = "\n"@;
    assert(nl.len() == 1 && nl[0] == '\n');
    assert(x.len() == pz + suf.len());
    assert forall|k: int| 0 <= k < l implies x[k] == pre[k] by {}
    assert forall|k: int| 0 <= k < b.len() implies x[l + k] == b[k] by {}
    assert(x[p0] == '\n');
    assert forall|k: int| 0 <= k < t.len() implies x[p0 + 1 + k] == t[k] by {}
    assert(x[pe - 1] == '\n');
    assert forall|k: int| 0 <= k < e.len() implies x[pe + k] == e[k] by {}
    assert forall|k: int| 0 <= k < suf.len() implies x[pz + k] == suf[k] by {}
    assert(x.take(l) =~= pre);
    assert(x.subrange(l, p0) =~= b);
    assert(x.subrange(p0, pe) =~= nl + t + nl);
    assert(x.subrange(p0 + 1, pe - 1) =~= t);
    assert(x.subrange(pe, pz) =~= e);
    assert(x.skip(pz) =~= suf);
    assert(x.subrange(pz, x.len() as int) =~= suf);
    let j0 = choose|j: int| 0 <= j < b.len() && j < e.len() && b[j] != e[j];

    // The begin marker is first found at the section's start.
    assert(occurs_at(x, b, l));
    assert forall|j: int| 0 <= j < l implies !occurs_at(x, b, j) by {
        if occurs_at(x, b, j) {
            if j + b.len() <= l {
                lemma_occurs_in_part(x, b, 0, l, j);
                assert(x.subrange(0, l) =~= pre);
            } else {
                lemma_no_cross(x, b, j, l - 1);
            }
        }
    }
    lemma_first_occurrence_is(x, b, 0, l);

    // Within the section body no marker starts, but inside a body holding it.
    assert forall|j: int| p0 <= j < pe && occurs_at(x, e, j) implies false by {
        if j == p0 || j == pe - 1 {
            lemma_first_char(x, e, j);
        } else if j + e.len() <= pe - 1 {
            lemma_occurs_in_part(x, e, p0 + 1, pe - 1, j);
        } else {
            lemma_no_cross(x, e, j, pe - 1);
        }
    }
    assert(occurs_at(x, e, pe));
    lemma_first_occurrence_is(x, e, p0, pe);

    if !contains(t, b) && !contains(suf, b) {
        assert forall|j: int| p0 <= j && occurs_at(x, b, j) implies false by {
            if j == p0 || j == pe - 1 {
                lemma_first_char(x, b, j);
            } else if p0 < j < pe - 1 {
                if j + b.len() <= pe - 1 {
                    lemma_occurs_in_part(x, b, p0 + 1, pe - 1, j);
                } else {
                    lemma_no_cross(x, b, j, pe - 1);
                }
            } else if j == pe {
                assert(x.subrange(j, j + b.len())[j0] == x[pe + j0]);
            } else if pe < j < pz {
                lemma_first_char(x, b, j);
                assert(x[j] == e[j - pe]);
            } else {
                lemma_occurs_in_part(x, b, pz, x.len() as int, j);
            }
        }
        lemma_first_occurrence_found(x, b, p0);
    }
    if !contains(pre, e) {
        assert forall|j: int| 0 <= j < pe && occurs_at(x, e, j) implies false by {
            if j < l {
                if j + e.len() <= l {
                    lemma_occurs_in_part(x, e, 0, l, j);
                    assert(x.subrange(0, l) =~= pre);
                } else {
                    lemma_no_cross(x, e, j, l - 1);
                }
            } else if j == l {
                assert(x.subrange(j, j + e.len())[j0] == x[l + j0]);
            } else if j < p0 {
                lemma_first_char(x, e, j);
                assert(x[j] == b[j - l]);
            }
        }
        lemma_first_occurrence_is(x, e, 0, pe);
    }
    if !contains(suf, e) {
        assert forall|j: int| pz <= j && occurs_at(x, e, j) implies false by {
            lemma_occurs_in_part(x, e, pz, x.len() as int, j);
        }
        lemma_first_occurrence_found(x, e, pz);
    }
}

/// A text without line breaks or `<`, as file paths are.
pub open spec fn plain_path(path: Seq<char>) -> bool {
    forall|k: int| 0 <= k < path.len() ==> path[k] != '\n' && path[k] != '<'
}

proof fn lemma_trim_start_shape(s: Seq<char>)
    ensures
        trim_start(s).len() <= s.len(),
        trim_start(s) == s.skip(s.len() - trim_start(s).len()),
        trim_start(s).len() > 0 ==> !is_ws(trim_start(s)[0]),
    decreases s.len(),
{
    if s.len() > 0 && is_ws(s[0]) {
        lemma_trim_start_shape(s.drop_first());
        assert(s.drop_first().skip(s.drop_first().len() - trim_start(s).len()) =~= s.skip(
            s.len() - trim_start(s).len(),
        ));
    } else {
        assert(s.skip(0) =~= s);
    }
}

proof fn lemma_trim_end_shape(s: Seq<char>)
    ensures
        trim_end(s).len() <= s.len(),
        trim_end(s) == s.take(trim_end(s).len() as int),
        trim_end(s).len() > 0 ==> !is_ws(trim_end(s).last()),
    decreases s.len(),
{
    if s.len() > 0 && is_ws(s.last()) {
        lemma_trim_end_shape(s.drop_last());
        assert(s.drop_last().take(trim_end(s).len() as int) =~= s.take(trim_end(s).len() as int));
    } else {
        assert(s.take(s.len() as int) =~= s);
    }
}

/// A trimmed text neither starts nor ends with whitespace.
proof fn lemma_trim_edges(a: Seq<char>)
    ensures
        trim(a).len() > 0 ==> !is_ws(trim(a)[0]) && !is_ws(trim(a).last()),
{
    let u = trim_start(a);
    lemma_trim_start_shape(a);
    lemma_trim_end_shape(u);
    if trim(a).len() > 0 {
        assert(trim(a)[0] == u[0]);
    }
}

/// A trimmed text between two line breaks trims back to itself.
proof fn lemma_trim_wrapped(a: Seq<char>)
    ensures
        trim("\n"@ + trim(a) + "\n"@) == trim(a),
{
    reveal_strlit("\n");
    let nl = "\n"@;
    let u = trim(a);
    lemma_trim_edges(a);
    let w = nl + u + nl;
    assert(is_ws('\n'));
    assert(w.drop_first() =~= u + nl);
    assert(trim_start(w) == trim_start(u + nl));
    if u.len() == 0 {
        assert(u + nl =~= nl);
        assert(nl.drop_first() =~= Seq::<char>::empty());
        assert(trim_start(nl) == trim_start(Seq::<char>::empty()));
        assert(trim_end(Seq::<char>::empty()) == Seq::<char>::empty());
    } else {
        assert((u + nl)[0] == u[0]);
        assert(trim_start(u + nl) == u + nl);
        assert((u + nl).drop_last() =~= u);
        assert(trim_end(u + nl) == trim_end(u));
        assert(trim_end(u) == u);
    }
}

/// A text without a needle has none in its prefixes.
proof fn lemma_prefix_free(c: Seq<char>, k: int, n: Seq<char>)
    requires
        0 <= k <= c.len(),
        !contains(c, n),
    ensures
        !contains(c.take(k), n),
{
    if contains(c.take(k), n) {
        let j = choose|j: int| occurs_at(c.take(k), n, j);
        assert(c.subrange(j, j + n.len()) =~= c.take(k).subrange(j, j + n.len()));
        assert(occurs_at(c, n, j));
    }
}

/// Line breaks after a text add no occurrence of a needle without line
/// breaks.
proof fn lemma_newlines_free(p: Seq<char>, q: Seq<char>, n: Seq<char>)
    requires
        !contains(p, n),
        n.len() > 0,
        forall|k: int| 0 <= k < n.len() ==> n[k] != '\n',
        forall|k: int| 0 <= k < q.len() ==> q[k] == '\n',
    ensures
        !contains(p + q, n),
{
    let x = p + q;
    if contains(x, n) {
        let j = choose|j: int| occurs_at(x, n, j);
        if j + n.len() <= p.len() {
            lemma_occurs_in_part(x, n, 0, p.len() as int, j);
            assert(x.subrange(0, p.len() as int) =~= p);
        } else {
            let k = if j >= p.len() { j } else { p.len() as int };
            assert(x[k] == q[k - p.len()]);
            lemma_no_cross(x, n, j, k);
        }
    }
}

/// No occurrence of a needle at all when none is found from the start.
proof fn lemma_none_found(c: Seq<char>, n: Seq<char>)
    requires
        first_occurrence_from(c, n, 0) is None,
    ensures
        !contains(c, n),
{
    lemma_first_occurrence_found(c, n, 0);
}

/// Before the first occurrence of a needle, the text holds none.
proof fn lemma_before_first_free(c: Seq<char>, n: Seq<char>, s: int)
    requires
        n.len() > 0,
        first_occurrence_from(c, n, 0) == Some(s),
    ensures
        0 <= s <= c.len(),
        !contains(c.take(s), n),
{
    lemma_first_occurrence_found(c, n, 0);
    if contains(c.take(s), n) {
        let j = choose|j: int| occurs_at(c.take(s), n, j);
        assert(c.subrange(j, j + n.len()) =~= c.take(s).subrange(j, j + n.len()));
        assert(occurs_at(c, n, j));
    }
}

/// After a point from which a needle is not found, a tail holds none.
proof fn lemma_tail_free(c: Seq<char>, n: Seq<char>, from: int, t: int)
    requires
        0 <= from <= t <= c.len(),
        first_occurrence_from(c, n, from) is None,
    ensures
        !contains(c.skip(t), n),
{
    lemma_first_occurrence_found(c, n, from);
    if contains(c.skip(t), n) {
        let j = choose|j: int| occurs_at(c.skip(t), n, j);
        assert(c.subrange(t + j, t + j + n.len()) =~= c.skip(t).subrange(j, j + n.len()));
        assert(occurs_at(c, n, t + j));
    }
}

/// The markers of synthesized sections are unambiguous.
proof fn lemma_synth_markers(path: Seq<char>)
    requires
        plain_path(path),
    ensures
        distinct_markers(synth_begin_spec(path), SYNTH_END_MARKER@),
{
    reveal_strlit("<!-- titanclaw:managed-begin profile-synthesis:v1");
    reveal_strlit("<!-- titanclaw:managed-end profile-synthesis:v1 -->");
    reveal_strlit(" file=");
    reveal_strlit(" -->");
    let a = SYNTH_BEGIN_PREFIX@;
    let f = " file="@;
    let z = " -->"@;
    let e = SYNTH_END_MARKER@;
    let b = synth_begin_spec(path);
    assert(forall|k: int| 1 <= k < a.len() ==> a[k] != '<' && a[k] != '\n');
    assert(forall|k: int| 0 <= k < f.len() ==> f[k] != '<' && f[k] != '\n');
    assert(forall|k: int| 0 <= k < z.len() ==> z[k] != '<' && z[k] != '\n');
    assert(forall|k: int| 1 <= k < e.len() ==> e[k] != '<' && e[k] != '\n');
    assert forall|k: int| 1 <= k < b.len() implies b[k] != '<' && b[k] != '\n' by {
        if k < a.len() {
            assert(b[k] == a[k]);
        } else if k < a.len() + f.len() {
            assert(b[k] == f[k - a.len()]);
        } else if k < a.len() + f.len() + path.len() {
            assert(b[k] == path[k - a.len() - f.len()]);
        } else {
            assert(b[k] == z[k - a.len() - f.len() - path.len()]);
        }
    }
    assert(b[0] == a[0]);
    assert(b[23] == a[23]);
    assert(b[23] != e[23]);
}

/// The markers of onboarding sections are unambiguous.
proof fn lemma_onboarding_markers(path: Seq<char>)
    requires
        plain_path(path),
    ensures
        distinct_markers(begin_marker_spec(path), MANAGED_END_MARKER@),
{
    reveal_strlit("<!-- titanclaw:managed-begin profile-onboarding:v1");
    reveal_strlit("<!-- titanclaw:managed-end profile-onboarding:v1 -->");
    reveal_strlit(" file=");
    reveal_strlit(" source=profile-onboarding -->");
    let a = MANAGED_BEGIN_PREFIX@;
    let f = " file="@;
    let z = " source=profile-onboarding -->"@;
    let e = MANAGED_END_MARKER@;
    let b = begin_marker_spec(path);
    assert(forall|k: int| 1 <= k < a.len() ==> a[k] != '<' && a[k] != '\n');
    assert(forall|k: int| 0 <= k < f.len() ==> f[k] != '<' && f[k] != '\n');
    assert(forall|k: int| 0 <= k < z.len() ==> z[k] != '<' && z[k] != '\n');
    assert(forall|k: int| 1 <= k < e.len() ==> e[k] != '<' && e[k] != '\n');
    assert forall|k: int| 1 <= k < b.len() implies b[k] != '<' && b[k] != '\n' by {
        if k < a.len() {
            assert(b[k] == a[k]);
        } else if k < a.len() + f.len() {
            assert(b[k] == f[k - a.len()]);
        } else if k < a.len() + f.len() + path.len() {
            assert(b[k] == path[k - a.len() - f.len()]);
        } else {
            assert(b[k] == z[k - a.len() - f.len() - path.len()]);
        }
    }
    assert(b[0] == a[0]);
    assert(b[23] == a[23]);
    assert(b[23] != e[23]);
}

/// A written synthesized section: the text before it, the section, and the
/// text after it; the same split serves any body. Neither outer part holds
/// a begin marker; neither holds an end marker unless the given document
/// had an end marker and no begin marker.
#[verifier::rlimit(80)]
#[verifier::spinoff_prover]
proof fn lemma_synth_layout(content: Seq<char>, path: Seq<char>, body: Seq<char>, body2: Seq<char>) -> (parts: (Seq<char>, Seq<char>))
    requires
        plain_path(path),
        render_synth_spec(content, path, body) is Ok,
    ensures
        render_synth_spec(content, path, body) == Ok::<Seq<char>, Seq<char>>(
            section_doc(parts.0, synth_begin_spec(path), trim(body), SYNTH_END_MARKER@, parts.1),
        ),
        render_synth_spec(content, path, body2) == Ok::<Seq<char>, Seq<char>>(
            section_doc(parts.0, synth_begin_spec(path), trim(body2), SYNTH_END_MARKER@, parts.1),
        ),
        ends_line(parts.0),
        !contains(parts.0, synth_begin_spec(path)),
        !contains(parts.1, synth_begin_spec(path)),
        (contains(content, SYNTH_END_MARKER@) ==> contains(content, synth_begin_spec(path))) ==> (
        !contains(parts.0, SYNTH_END_MARKER@) && !contains(parts.1, SYNTH_END_MARKER@)),
{
    reveal_strlit("\n");
    reveal_strlit("\n\n");
    let b = synth_begin_spec(path);
    let e = SYNTH_END_MARKER@;
    let nl = "\n"@;
    let nl2 = "\n\n"@;
    lemma_synth_markers(path);
    assert(forall|k: int| 0 <= k < nl.len() ==> nl[k] == '\n');
    assert(forall|k: int| 0 <= k < nl2.len() ==> nl2[k] == '\n');
    let empty = Seq::<char>::empty();
    assert(!contains(empty, e)) by {
        if contains(empty, e) {
            let j = choose|j: int| occurs_at(empty, e, j);
        }
    }
    assert(!contains(empty, b)) by {
        if contains(empty, b) {
            let j = choose|j: int| occurs_at(empty, b, j);
        }
    }
    match first_occurrence_from(content, b, 0) {
        Some(st) => {
            lemma_before_first_free(content, b, st);
            lemma_first_occurrence_found(content, b, 0);
            let ep = first_occurrence_from(content, e, st + b.len())->0;
            lemma_first_occurrence_found(content, e, st + b.len());
            let p = content.take(st);
            let sep = if p.len() > 0 && p.last() != '\n' {
                nl
            } else {
                empty
            };
            assert(forall|k: int| 0 <= k < sep.len() ==> sep[k] == '\n');
            let pre = p + sep;
            let suf = content.skip(ep + e.len());
            lemma_newlines_free(p, sep, b);
            lemma_tail_free(content, b, st + b.len(), ep + e.len());
            assert(ends_line(pre)) by {
                if sep.len() > 0 {
                    assert(pre.last() == sep.last());
                } else {
                    assert(pre =~= p);
                }
            }
            assert(p + sep + (b + nl + trim(body) + nl + e) + suf =~= section_doc(pre, b, trim(body), e, suf));
            assert(p + sep + (b + nl + trim(body2) + nl + e) + suf =~= section_doc(pre, b, trim(body2), e, suf));
            lemma_first_occurrence_found(content, e, 0);
            let i = first_occurrence_from(content, e, 0)->0;
            lemma_first_occurrence_found(content, e, i + e.len());
            lemma_tail_free(content, e, i + e.len(), ep + e.len());
            assert(!contains(p, e)) by {
                if contains(p, e) {
                    let j = choose|j: int| occurs_at(p, e, j);
                    assert(content.subrange(j, j + e.len()) =~= p.subrange(j, j + e.len()));
                    assert(occurs_at(content, e, j));
                }
            }
            lemma_newlines_free(p, sep, e);
            (pre, suf)
        },
        None => {
            lemma_none_found(content, b);
            if trim(content).len() == 0 {
                assert(b + nl + trim(body) + nl + e =~= section_doc(empty, b, trim(body), e, empty));
                assert(b + nl + trim(body2) + nl + e =~= section_doc(empty, b, trim(body2), e, empty));
                (empty, empty)
            } else {
                let te = trim_end(content);
                lemma_trim_end_shape(content);
                lemma_prefix_free(content, te.len() as int, b);
                lemma_newlines_free(te, nl2, b);
                let pre = te + nl2;
                assert(pre.last() == nl2.last());
                assert(te + nl2 + (b + nl + trim(body) + nl + e) =~= section_doc(pre, b, trim(body), e, empty));
                assert(te + nl2 + (b + nl + trim(body2) + nl + e) =~= section_doc(pre, b, trim(body2), e, empty));
                if contains(content, e) ==> contains(content, b) {
                    lemma_prefix_free(content, te.len() as int, e);
                    lemma_newlines_free(te, nl2, e);
                }
                (pre, empty)
            }
        },
    }
}

/// A written onboarding section: the text before it, the section, and the
/// text after it; the same split serves any body. Neither outer part holds
/// a begin marker.
#[verifier::rlimit(80)]
#[verifier::spinoff_prover]
proof fn lemma_onboarding_layout(content: Seq<char>, path: Seq<char>, body: Seq<char>, body2: Seq<char>) -> (parts: (Seq<char>, Seq<char>))
    requires
        plain_path(path),
        render_onboarding_spec(content, path, body) is Ok,
    ensures
        render_onboarding_spec(content, path, body) == Ok::<Seq<char>, Seq<char>>(
            section_doc(parts.0, begin_marker_spec(path), trim(body), MANAGED_END_MARKER@, parts.1),
        ),
        render_onboarding_spec(content, path, body2) == Ok::<Seq<char>, Seq<char>>(
            section_doc(parts.0, begin_marker_spec(path), trim(body2), MANAGED_END_MARKER@, parts.1),
        ),
        ends_line(parts.0),
        !contains(parts.0, begin_marker_spec(path)),
        !contains(parts.1, begin_marker_spec(path)),
{
    reveal_strlit("\n");
    reveal_strlit("\n\n");
    let b = begin_marker_spec(path);
    let e = MANAGED_END_MARKER@;
    let nl = "\n"@;
    let nl2 = "\n\n"@;
    lemma_onboarding_markers(path);
    assert(forall|k: int| 0 <= k < nl.len() ==> nl[k] == '\n');
    assert(forall|k: int| 0 <= k < nl2.len() ==> nl2[k] == '\n');
    let empty = Seq::<char>::empty();
    assert(!contains(empty, b)) by {
        if contains(empty, b) {
            let j = choose|j: int| occurs_at(empty, b, j);
        }
    }
    match first_occurrence_from(content, b, 0) {
        Some(st) => {
            lemma_before_first_free(content, b, st);
            lemma_first_occurrence_found(content, b, 0);
            let ep = first_occurrence_from(content, e, st + b.len())->0;
            lemma_first_occurrence_found(content, e, st + b.len());
            let p = content.take(st);
            let sep = line_sep(p);
            assert(forall|k: int| 0 <= k < sep.len() ==> sep[k] == '\n');
            let pre = p + sep;
            let suf = content.skip(ep + e.len());
            lemma_newlines_free(p, sep, b);
            lemma_tail_free(content, b, st + b.len(), ep + e.len());
            assert(ends_line(pre)) by {
                if sep.len() > 0 {
                    assert(pre.last() == sep.last());
                } else {
                    assert(pre =~= p);
                }
            }
            assert(p + sep + onboarding_block(path, body) + suf =~= section_doc(pre, b, trim(body), e, suf));
            assert(p + sep + onboarding_block(path, body2) + suf =~= section_doc(pre, b, trim(body2), e, suf));
            (pre, suf)
        },
        None => {
            lemma_none_found(content, b);
            if trim(content).len() == 0 {
                assert(onboarding_block(path, body) =~= section_doc(empty, b, trim(body), e, empty));
                assert(onboarding_block(path, body2) =~= section_doc(empty, b, trim(body2), e, empty));
                (empty, empty)
            } else {
                let te = trim_end(content);
                lemma_trim_end_shape(content);
                lemma_prefix_free(content, te.len() as int, b);
                lemma_newlines_free(te, nl2, b);
                let pre = te + nl2;
                assert(pre.last() == nl2.last());
                assert(te + nl2 + onboarding_block(path, body) =~= section_doc(pre, b, trim(body), e, empty));
                assert(te + nl2 + onboarding_block(path, body2) =~= section_doc(pre, b, trim(body2), e, empty));
                (pre, empty)
            }
        },
    }
}

/// Reading back a freshly written synthesized section gives its body,
/// trimmed: for a file path without line breaks or `<` and a body that does
/// not hold the end marker, `extract(render(content, body)) == trim(body)`.
pub proof fn law_synth_section_read_back(content: Seq<char>, path: Seq<char>, body: Seq<char>)
    requires
        plain_path(path),
        !contains(trim(body), SYNTH_END_MARKER@),
        render_synth_spec(content, path, body) is Ok,
    ensures
        extract_synth_spec(render_synth_spec(content, path, body)->Ok_0, path) == Ok::<Seq<char>, Seq<char>>(
            trim(body),
        ),
{
    let parts = lemma_synth_layout(content, path, body, body);
    lemma_synth_markers(path);
    lemma_section_doc(parts.0, synth_begin_spec(path), trim(body), SYNTH_END_MARKER@, parts.1);
    lemma_trim_wrapped(body);
}

/// Rendering a document laid out around one synthesized section, with no
/// marker outside it, replaces that section.
#[verifier::rlimit(80)]
#[verifier::spinoff_prover]
proof fn lemma_synth_rerender(pre: Seq<char>, suf: Seq<char>, path: Seq<char>, body: Seq<char>, body2: Seq<char>)
    requires
        plain_path(path),
        ends_line(pre),
        !contains(pre, synth_begin_spec(path)),
        !contains(suf, synth_begin_spec(path)),
        !contains(pre, SYNTH_END_MARKER@),
        !contains(suf, SYNTH_END_MARKER@),
        !contains(trim(body), synth_begin_spec(path)),
        !contains(trim(body), SYNTH_END_MARKER@),
    ensures
        render_synth_spec(
            section_doc(pre, synth_begin_spec(path), trim(body), SYNTH_END_MARKER@, suf),
            path,
            body2,
        ) == Ok::<Seq<char>, Seq<char>>(
            section_doc(pre, synth_begin_spec(path), trim(body2), SYNTH_END_MARKER@, suf),
        ),
{
    let b = synth_begin_spec(path);
    let e = SYNTH_END_MARKER@;
    let d = section_doc(pre, b, trim(body), e, suf);
    let d2 = section_doc(pre, b, trim(body2), e, suf);
    lemma_synth_markers(path);
    lemma_section_doc(pre, b, trim(body), e, suf);
    let l = pre.len() as int;
    let pz = l + b.len() + trim(body).len() + 2 + e.len();
    assert(!occurs_twice(d, b));
    assert(!occurs_twice(d, e));
    assert(d.take(l) + Seq::<char>::empty() + (b + "\n"@ + trim(body2) + "\n"@ + e) + d.skip(pz) =~= d2);
}

/// Writing a synthesized section again replaces it: rendering a rendered
/// document with a new body gives what rendering the starting document with
/// that body gives, so the text around the section is kept. This holds for a
/// file path without line breaks or `<`, a first body that holds neither
/// marker, and a document that has no stray end marker without a begin
/// marker.
pub proof fn law_synth_section_rewrite(content: Seq<char>, path: Seq<char>, body: Seq<char>, body2: Seq<char>)
    requires
        plain_path(path),
        !contains(trim(body), synth_begin_spec(path)),
        !contains(trim(body), SYNTH_END_MARKER@),
        contains(content, SYNTH_END_MARKER@) ==> contains(content, synth_begin_spec(path)),
        render_synth_spec(content, path, body) is Ok,
    ensures
        render_synth_spec(render_synth_spec(content, path, body)->Ok_0, path, body2)
            == render_synth_spec(content, path, body2),
{
    let parts = lemma_synth_layout(content, path, body, body2);
    lemma_synth_rerender(parts.0, parts.1, path, body, body2);
}

/// Rendering a document laid out around one onboarding section replaces
/// that section.
#[verifier::rlimit(80)]
#[verifier::spinoff_prover]
proof fn lemma_onboarding_rerender(pre: Seq<char>, suf: Seq<char>, path: Seq<char>, body: Seq<char>, body2: Seq<char>)
    requires
        plain_path(path),
        ends_line(pre),
        !contains(pre, begin_marker_spec(path)),
        !contains(suf, begin_marker_spec(path)),
        !contains(trim(body), begin_marker_spec(path)),
        !contains(trim(body), MANAGED_END_MARKER@),
    ensures
        render_onboarding_spec(
            section_doc(pre, begin_marker_spec(path), trim(body), MANAGED_END_MARKER@, suf),
            path,
            body2,
        ) == Ok::<Seq<char>, Seq<char>>(
            section_doc(pre, begin_marker_spec(path), trim(body2), MANAGED_END_MARKER@, suf),
        ),
{
    let b = begin_marker_spec(path);
    let e = MANAGED_END_MARKER@;
    let d = section_doc(pre, b, trim(body), e, suf);
    let d2 = section_doc(pre, b, trim(body2), e, suf);
    lemma_onboarding_markers(path);
    lemma_section_doc(pre, b, trim(body), e, suf);
    let l = pre.len() as int;
    let pe = l + b.len() + trim(body).len() + 2;
    let pz = pe + e.len();
    assert(line_sep(d.take(l)) =~= Seq::<char>::empty());
    assert(d.take(l) + line_sep(d.take(l)) + onboarding_block(path, body2) + d.skip(pz) =~= d2);
    assert(replace_section_spec(d, path, body2, l) == Ok::<Seq<char>, Seq<char>>(d2));
}

/// Writing an onboarding section again replaces it: rendering a rendered
/// document with a new body gives what rendering the starting document with
/// that body gives, so the text around the section is kept. This holds for a
/// file path without line breaks or `<` and a first body that holds neither
/// marker.
pub proof fn law_onboarding_section_rewrite(content: Seq<char>, path: Seq<char>, body: Seq<char>, body2: Seq<char>)
    requires
        plain_path(path),
        !contains(trim(body), begin_marker_spec(path)),
        !contains(trim(body), MANAGED_END_MARKER@),
        render_onboarding_spec(content, path, body) is Ok,
    ensures
        render_onboarding_spec(render_onboarding_spec(content, path, body)->Ok_0, path, body2)
            == render_onboarding_spec(content, path, body2),
{
    let parts = lemma_onboarding_layout(content, path, body, body2);
    lemma_onboarding_rerender(parts.0, parts.1, path, body, body2);
}

} // verus!
