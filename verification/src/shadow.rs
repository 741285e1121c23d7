//! Shadow engine: speculative answers to likely follow-up prompts, kept in a
//! cache keyed by the normalized prompt; and the reflex pattern key.
use vstd::prelude::*;
use crate::json::{parse_string_list, string_list_of};
use crate::synthesis::{collapse_whitespace, collapse_ws};
use crate::text::{
    chars_eq, from_chars, push_chars, push_str, slice_chars, string_of, take_chars,
    take_chars_exec, to_chars, to_lowercase, trim, trim_chars, trim_str, unicode_lowercase,
};

verus! {

/// The cache key of a prompt: lower-cased, whitespace collapsed.
pub open spec fn prompt_key(s: Seq<char>) -> Seq<char> {
    collapse_ws(unicode_lowercase(s))
}

/// The cache key of a prompt: lower-cased, whitespace collapsed.
pub fn normalize(input: &str) -> (k: String)
    ensures
        k@ == prompt_key(input@),
{
    let lower = to_lowercase(input);
    let lv = to_chars(lower.as_str());
    let c = collapse_whitespace(lv.as_slice());
    from_chars(c.as_slice())
}

/// The key of a recurring job pattern: lower-cased, whitespace collapsed.
pub fn normalize_pattern(input: &str) -> (k: String)
    ensures
        k@ == prompt_key(input@),
{
    normalize(input)
}

/// What the reflex compiler builds for a recurring job pattern: nothing when
/// a tool already has the pattern's name; otherwise a tool named `reflex_`
/// and the first eight characters of a fresh id, described as handling the
/// pattern.
pub fn reflex_build_request(description: &str, known_tools: &Vec<String>, fresh_id: &str) -> (r: Option<(String, String)>)
    ensures
        known_tools.deep_view().contains(description@) ==> r is None,
        !known_tools.deep_view().contains(description@) ==> (r matches Some((name, desc)) && name@
            == "reflex_"@ + take_chars(fresh_id@, 8) && desc@ == "A specialized tool to handle: "@ + description@),
{
    let dv = to_chars(description);
    let mut i: usize = 0;
    while i < known_tools.len()
        invariant
            i <= known_tools@.len(),
            dv@ == description@,
            forall|j: int| 0 <= j < i ==> known_tools.deep_view()[j] != description@,
        decreases known_tools@.len() - i,
    {
        let t = to_chars(known_tools[i].as_str());
        if chars_eq(t.as_slice(), dv.as_slice()) {
            assert(known_tools.deep_view()[i as int] == description@);
            return None;
        }
        i = i + 1;
    }
    let mut name = string_of("reflex_");
    let idv = to_chars(fresh_id);
    let head = take_chars_exec(idv.as_slice(), 8);
    push_chars(&mut name, head.as_slice());
    let mut desc = string_of("A specialized tool to handle: ");
    push_str(&mut desc, description);
    Some((name, desc))
}

/// A cached speculative answer.
#[derive(Debug)]
pub struct ShadowCacheEntry {
    pub key: String,
    pub response: String,
    /// When it was computed, in nanoseconds of the caller's monotonic clock.
    pub created_at_nanos: u128,
}

/// The cache as a map from key to (answer, creation time).
pub open spec fn cache_map(s: Seq<ShadowCacheEntry>) -> Map<Seq<char>, (Seq<char>, u128)>
    decreases s.len(),
{
    if s.len() == 0 {
        Map::empty()
    } else {
        cache_map(s.drop_last()).insert(s.last().key@, (s.last().response@, s.last().created_at_nanos))
    }
}

/// No key is cached twice.
pub open spec fn unique_keys(s: Seq<ShadowCacheEntry>) -> bool {
    forall|i: int, j: int| 0 <= i < j < s.len() ==> s[i].key@ != s[j].key@
}

/// The time since `created`, or zero when the clock reads earlier.
pub open spec fn age(created: u128, now: u128) -> int {
    if now >= created {
        now - created
    } else {
        0
    }
}

/// Speculative answers to likely follow-up prompts.
pub struct ShadowEngine {
    enabled: bool,
    ttl_nanos: u128,
    max_predictions: usize,
    min_input_chars: usize,
    max_parallel: usize,
    cache: Vec<ShadowCacheEntry>,
}

proof fn lemma_cache_keys(s: Seq<ShadowCacheEntry>, k: Seq<char>)
    ensures
        cache_map(s).contains_key(k) <==> exists|i: int| 0 <= i < s.len() && s[i].key@ == k,
    decreases s.len(),
{
    if s.len() > 0 {
        lemma_cache_keys(s.drop_last(), k);
        if exists|i: int| 0 <= i < s.len() && s[i].key@ == k {
            let i = choose|i: int| 0 <= i < s.len() && s[i].key@ == k;
            if i < s.len() - 1 {
                assert(s.drop_last()[i].key@ == k);
            }
        }
        if exists|i: int| 0 <= i < s.len() - 1 && s.drop_last()[i].key@ == k {
            let i = choose|i: int| 0 <= i < s.len() - 1 && s.drop_last()[i].key@ == k;
            assert(s[i].key@ == k);
        }
    }
}

proof fn lemma_cache_at(s: Seq<ShadowCacheEntry>, i: int)
    requires
        unique_keys(s),
        0 <= i < s.len(),
    ensures
        cache_map(s).contains_key(s[i].key@),
        cache_map(s)[s[i].key@] == (s[i].response@, s[i].created_at_nanos),
    decreases s.len(),
{
    if i < s.len() - 1 {
        lemma_cache_at(s.drop_last(), i);
    }
}

proof fn lemma_cache_remove(s: Seq<ShadowCacheEntry>, i: int)
    requires
        unique_keys(s),
        0 <= i < s.len(),
    ensures
        cache_map(s.remove(i)) == cache_map(s).remove(s[i].key@),
        unique_keys(s.remove(i)),
    decreases s.len(),
{
    let r = s.remove(i);
    if i == s.len() - 1 {
        assert(r =~= s.drop_last());
        lemma_cache_keys(s.drop_last(), s[i].key@);
        assert(cache_map(r) =~= cache_map(s).remove(s[i].key@));
    } else {
        assert(r.drop_last() =~= s.drop_last().remove(i));
        lemma_cache_remove(s.drop_last(), i);
        assert(r.last() == s.last());
        assert(cache_map(r) =~= cache_map(s).remove(s[i].key@));
    }
}

proof fn lemma_cache_update(s: Seq<ShadowCacheEntry>, i: int, e: ShadowCacheEntry)
    requires
        unique_keys(s),
        0 <= i < s.len(),
        s[i].key@ == e.key@,
    ensures
        cache_map(s.update(i, e)) == cache_map(s).insert(e.key@, (e.response@, e.created_at_nanos)),
        unique_keys(s.update(i, e)),
    decreases s.len(),
{
    let u = s.update(i, e);
    if i == s.len() - 1 {
        assert(u.drop_last() =~= s.drop_last());
        assert(cache_map(u) =~= cache_map(s).insert(e.key@, (e.response@, e.created_at_nanos)));
    } else {
        assert(u.drop_last() =~= s.drop_last().update(i, e));
        lemma_cache_update(s.drop_last(), i, e);
        assert(cache_map(u) =~= cache_map(s).insert(e.key@, (e.response@, e.created_at_nanos)));
    }
}

impl ShadowEngine {
    /// The cache content.
    pub closed spec fn cache(&self) -> Map<Seq<char>, (Seq<char>, u128)> {
        cache_map(self.cache@)
    }

    /// Whether speculation is on.
    pub closed spec fn is_enabled(&self) -> bool {
        self.enabled
    }

    /// How long an answer stays usable, in nanoseconds.
    pub closed spec fn ttl(&self) -> u128 {
        self.ttl_nanos
    }

    /// The engine's internal consistency.
    pub closed spec fn wf(&self) -> bool {
        unique_keys(self.cache@)
    }

    /// The fewest characters of a user message worth speculating on.
    pub closed spec fn min_chars(&self) -> usize {
        self.min_input_chars
    }

    /// An engine with an empty cache; at least one speculation runs at a
    /// time.
    pub fn new(
        enabled: bool,
        ttl_nanos: u128,
        max_predictions: usize,
        min_input_chars: usize,
        max_parallel: usize,
    ) -> (e: Self)
        ensures
            e.wf(),
            e.is_enabled() == enabled,
            e.ttl() == ttl_nanos,
            e.min_chars() == min_input_chars,
            e.cache() == Map::<Seq<char>, (Seq<char>, u128)>::empty(),
            e.parallelism() == if max_parallel > 1 {
                max_parallel
            } else {
                1
            },
            e.prediction_budget_spec() == if max_predictions > 1 {
                max_predictions
            } else {
                1
            },
    {
        ShadowEngine {
            enabled,
            ttl_nanos,
            max_predictions,
            min_input_chars,
            max_parallel: if max_parallel > 1 {
                max_parallel
            } else {
                1
            },
            cache: Vec::new(),
        }
    }

    /// How many speculations may run at once.
    pub closed spec fn parallelism(&self) -> usize {
        self.max_parallel
    }

    /// How many predicted prompts are precomputed per turn.
    pub closed spec fn prediction_budget_spec(&self) -> usize {
        if self.max_predictions > 1 {
            self.max_predictions
        } else {
            1
        }
    }

    /// Whether speculation is on.
    pub fn enabled(&self) -> (b: bool)
        ensures
            b == self.is_enabled(),
    {
        self.enabled
    }

    /// How many speculations may run at once.
    pub fn max_parallel(&self) -> (n: usize)
        ensures
            n == self.parallelism(),
    {
        self.max_parallel
    }

    /// How many predicted prompts are precomputed per turn (at least one).
    pub fn prediction_budget(&self) -> (n: usize)
        ensures
            n == self.prediction_budget_spec(),
    {
        if self.max_predictions > 1 {
            self.max_predictions
        } else {
            1
        }
    }

    fn find(&self, key: &[char]) -> (r: Option<usize>)
        requires
            self.wf(),
        ensures
            match r {
                Some(i) => i < self.cache@.len() && self.cache@[i as int].key@ == key@,
                None => !self.cache().contains_key(key@),
            },
    {
        let mut i: usize = 0;
        while i < self.cache.len()
            invariant
                i <= self.cache@.len(),
                forall|j: int| 0 <= j < i ==> self.cache@[j].key@ != key@,
            decreases self.cache@.len() - i,
        {
            let k = to_chars(self.cache[i].key.as_str());
            if chars_eq(k.as_slice(), key) {
                return Some(i);
            }
            i = i + 1;
        }
        proof {
            lemma_cache_keys(self.cache@, key@);
        }
        None
    }

    /// The cached answer for a prompt, when speculation is on and the answer
    /// is fresh; a stale answer is dropped.
    pub fn try_get(&mut self, input: &str, now_nanos: u128) -> (r: Option<String>)
        requires
            old(self).wf(),
        ensures
            final(self).wf(),
            final(self).is_enabled() == old(self).is_enabled(),
            final(self).ttl() == old(self).ttl(),
            final(self).min_chars() == old(self).min_chars(),
            ({
                let k = prompt_key(input@);
                let c = old(self).cache();
                if !old(self).is_enabled() {
                    r is None && final(self).cache() == c
                } else if c.contains_key(k) && age(c[k].1, now_nanos) <= old(self).ttl() {
                    r matches Some(a) && a@ == c[k].0 && final(self).cache() == c
                } else {
                    r is None && final(self).cache() == c.remove(k)
                }
            }),
    {
        if !self.enabled {
            return None;
        }
        let key = normalize(input);
        let kv = to_chars(key.as_str());
        match self.find(kv.as_slice()) {
            Some(i) => {
                proof {
                    lemma_cache_at(self.cache@, i as int);
                }
                let created = self.cache[i].created_at_nanos;
                let age: u128 = if now_nanos >= created {
                    now_nanos - created
                } else {
                    0
                };
                if age <= self.ttl_nanos {
                    return Some(self.cache[i].response.clone());
                }
                proof {
                    lemma_cache_remove(self.cache@, i as int);
                }
                let _ = self.cache.remove(i);
                None
            },
            None => {
                assert(self.cache().remove(key@) =~= self.cache());
                None
            },
        }
    }

    /// Whether a turn is worth speculating on: speculation is on and the
    /// user wrote at least the minimum number of characters.
    pub fn should_speculate(&self, user_input: &str) -> (b: bool)
        ensures
            b == (self.is_enabled() && user_input@.len() >= self.min_chars()),
    {
        self.enabled && user_input.unicode_len() >= self.min_input_chars
    }

    /// Drops the stale answers (when speculation is on).
    pub fn prune_expired(&mut self, now_nanos: u128)
        requires
            old(self).wf(),
        ensures
            final(self).wf(),
            final(self).is_enabled() == old(self).is_enabled(),
            final(self).ttl() == old(self).ttl(),
            final(self).min_chars() == old(self).min_chars(),
            !old(self).is_enabled() ==> final(self).cache() == old(self).cache(),
            old(self).is_enabled() ==> final(self).cache() == old(self).cache().restrict(
                old(self).cache().dom().filter(
                    |k: Seq<char>| age(old(self).cache()[k].1, now_nanos) <= old(self).ttl(),
                ),
            ),
    {
        if !self.enabled {
            return;
        }
        let ghost c0 = self.cache();
        let ghost keep = c0.dom().filter(|k: Seq<char>| age(c0[k].1, now_nanos) <= self.ttl_nanos);
        let mut i: usize = self.cache.len();
        while i > 0
            invariant
                i <= self.cache@.len(),
                unique_keys(self.cache@),
                self.ttl_nanos == old(self).ttl_nanos,
                self.enabled == old(self).enabled,
                self.min_input_chars == old(self).min_input_chars,
                c0 == cache_map(old(self).cache@),
                keep == c0.dom().filter(|k: Seq<char>| age(c0[k].1, now_nanos) <= self.ttl_nanos),
                forall|k: Seq<char>|
                    #[trigger] cache_map(self.cache@).contains_key(k) ==> c0.contains_key(k) && cache_map(
                        self.cache@,
                    )[k] == c0[k],
                forall|k: Seq<char>|
                    c0.contains_key(k) && keep.contains(k) ==> #[trigger] cache_map(self.cache@).contains_key(k),
                forall|j: int|
                    i <= j < self.cache@.len() ==> age(#[trigger] self.cache@[j].created_at_nanos, now_nanos)
                        <= self.ttl_nanos,
            decreases i,
        {
            let e = &self.cache[i - 1];
            let a: u128 = if now_nanos >= e.created_at_nanos {
                now_nanos - e.created_at_nanos
            } else {
                0
            };
            proof {
                lemma_cache_at(self.cache@, i - 1);
            }
            if a > self.ttl_nanos {
                proof {
                    lemma_cache_remove(self.cache@, i - 1);
                    let s = self.cache@;
                    assert forall|j: int| i - 1 <= j < s.remove(i - 1).len() implies age(
                        #[trigger] s.remove(i - 1)[j].created_at_nanos,
                        now_nanos,
                    ) <= self.ttl_nanos by {
                        assert(s.remove(i - 1)[j] == s[j + 1]);
                    }
                }
                let _ = self.cache.remove(i - 1);
            }
            i = i - 1;
        }
        proof {
            let f = self.cache();
            assert forall|k: Seq<char>| f.contains_key(k) implies keep.contains(k) by {
                lemma_cache_keys(self.cache@, k);
                let j = choose|j: int| 0 <= j < self.cache@.len() && self.cache@[j].key@ == k;
                lemma_cache_at(self.cache@, j);
                assert(age(self.cache@[j].created_at_nanos, now_nanos) <= self.ttl_nanos);
            }
            assert(f =~= c0.restrict(keep));
        }
    }

    /// The cache key under which a predicted prompt would be stored, or none
    /// when the prediction is blank or already cached.
    pub fn speculation_key(&self, prediction: &str) -> (r: Option<String>)
        requires
            self.wf(),
        ensures
            ({
                let p = trim(prediction@);
                if p.len() == 0 || self.cache().contains_key(prompt_key(p)) {
                    r is None
                } else {
                    r matches Some(k) && k@ == prompt_key(p)
                }
            }),
    {
        let t = trim_str(prediction);
        if t.len() == 0 {
            return None;
        }
        let ts = from_chars(t.as_slice());
        let key = normalize(ts.as_str());
        let kv = to_chars(key.as_str());
        match self.find(kv.as_slice()) {
            Some(i) => {
                proof {
                    lemma_cache_at(self.cache@, i as int);
                }
                None
            },
            None => Some(key),
        }
    }

    /// Stores a precomputed answer under a key, replacing an older one.
    pub fn store(&mut self, key: String, response: String, now_nanos: u128)
        requires
            old(self).wf(),
        ensures
            final(self).wf(),
            final(self).is_enabled() == old(self).is_enabled(),
            final(self).ttl() == old(self).ttl(),
            final(self).min_chars() == old(self).min_chars(),
            final(self).cache() == old(self).cache().insert(key@, (response@, now_nanos)),
    {
        let kv = to_chars(key.as_str());
        let e = ShadowCacheEntry { key, response, created_at_nanos: now_nanos };
        match self.find(kv.as_slice()) {
            Some(i) => {
                proof {
                    lemma_cache_update(self.cache@, i as int, e);
                }
                self.cache.set(i, e);
            },
            None => {
                let ghost before = self.cache@;
                proof {
                    lemma_cache_keys(before, e.key@);
                }
                self.cache.push(e);
                assert(self.cache@.drop_last() =~= before);
            },
        }
    }
}

/// A stored answer is read back: after `store` puts an answer under a
/// prompt's key at time `t`, a lookup of that prompt at any time from `t`
/// to `t + ttl` finds the cache entry fresh and gives that answer; pruning
/// at such a time keeps it.
pub proof fn law_shadow_read_after_store(
    cache: Map<Seq<char>, (Seq<char>, u128)>,
    prompt: Seq<char>,
    answer: Seq<char>,
    t: u128,
    now: u128,
    ttl: u128,
)
    requires
        t <= now,
        now - t <= ttl,
    ensures
        ({
            let k = prompt_key(prompt);
            let c = cache.insert(k, (answer, t));
            &&& c.contains_key(k)
            &&& c[k].0 == answer
            &&& age(c[k].1, now) <= ttl
            &&& c.restrict(c.dom().filter(|x: Seq<char>| age(c[x].1, now) <= ttl)).contains_key(k)
        }),
{
    let k = prompt_key(prompt);
    let c = cache.insert(k, (answer, t));
    assert(c.dom().filter(|x: Seq<char>| age(c[x].1, now) <= ttl).contains(k));
}

/// A text without its leading copies of a character.
pub open spec fn strip_leading(s: Seq<char>, c: char) -> Seq<char>
    decreases s.len(),
{
    if s.len() > 0 && s[0] == c {
        strip_leading(s.drop_first(), c)
    } else {
        s
    }
}

/// A bullet line's text: trimmed, leading `-` then `*` removed, trimmed.
pub open spec fn bullet_text(line: Seq<char>) -> Seq<char> {
    trim(strip_leading(strip_leading(trim(line), '-'), '*'))
}

/// The lines of a text, as `str::lines` splits them: on line feeds, a
/// carriage return before one dropped, no empty last line.
pub open spec fn lines_of(s: Seq<char>) -> Seq<Seq<char>>
    decreases s.len(),
{
    if s.len() == 0 {
        Seq::<Seq<char>>::empty()
    } else {
        proof {
            crate::synthesis::lemma_char_index_range(s, '\n');
        }
        match crate::synthesis::first_char_index(s, '\n') {
            Some(i) => seq![drop_cr(s.take(i))] + lines_of(s.skip(i + 1)),
            None => seq![drop_cr(s)],
        }
    }
}

/// A line without its final carriage return.
pub open spec fn drop_cr(s: Seq<char>) -> Seq<char> {
    if s.len() > 0 && s.last() == '\r' {
        s.drop_last()
    } else {
        s
    }
}

/// The non-empty bullet texts of the lines, in order.
pub open spec fn bullet_items(lines: Seq<Seq<char>>) -> Seq<Seq<char>>
    decreases lines.len(),
{
    if lines.len() == 0 {
        Seq::<Seq<char>>::empty()
    } else {
        let b = bullet_text(lines[0]);
        (if b.len() > 0 {
            seq![b]
        } else {
            Seq::<Seq<char>>::empty()
        }) + bullet_items(lines.drop_first())
    }
}

fn strip_leading_exec(s: &[char], c: char) -> (r: Vec<char>)
    ensures
        r@ == strip_leading(s@, c),
{
    let mut i: usize = 0;
    assert(s@.skip(0) =~= s@);
    while i < s.len() && s[i] == c
        invariant
            i <= s@.len(),
            strip_leading(s@, c) == strip_leading(s@.skip(i as int), c),
        decreases s@.len() - i,
    {
        assert(s@.skip(i as int).drop_first() =~= s@.skip(i + 1));
        i = i + 1;
    }
    let r = slice_chars(s, i, s.len());
    assert(r@ =~= s@.skip(i as int));
    r
}

/// Predicted follow-up prompts from a model's reply: a JSON array of
/// strings, or else the non-empty bullet lines of the trimmed reply.
pub fn parse_predictions(reply: &str) -> (r: Vec<String>)
    ensures
        r.deep_view() == (match string_list_of(trim(reply@)) {
            Some(l) => l,
            None => bullet_items(lines_of(trim(reply@))),
        }),
{
    let tv = trim_str(reply);
    let raw = from_chars(tv.as_slice());
    match parse_string_list(raw.as_str()) {
        Some(v) => return v,
        None => {},
    }
    let mut out: Vec<String> = Vec::new();
    let n = tv.len();
    let mut start: usize = 0;
    let ghost t = tv@;
    assert(t.skip(0) =~= t);
    while start < n
        invariant
            n == t.len(),
            tv@ == t,
            start <= n,
            out.deep_view() + bullet_items(lines_of(t.skip(start as int))) == bullet_items(lines_of(t)),
        decreases n - start,
    {
        let mut end = start;
        while end < n && tv[end] != '\n'
            invariant
                start <= end <= n,
                n == t.len(),
                tv@ == t,
                forall|j: int| start <= j < end ==> t[j] != '\n',
            decreases n - end,
        {
            end = end + 1;
        }
        let mut line = slice_chars(tv.as_slice(), start, end);
        if line.len() > 0 && line[line.len() - 1] == '\r' {
            line.pop();
        }
        let a = trim_chars(line.as_slice());
        let b = strip_leading_exec(a.as_slice(), '-');
        let c = strip_leading_exec(b.as_slice(), '*');
        let d = trim_chars(c.as_slice());
        let ghost rest = t.skip(start as int);
        proof {
            let k = end - start;
            lemma_first_newline(rest, k as int);
            assert(rest.take(k as int) =~= t.subrange(start as int, end as int));
            if end < n {
                assert(rest.skip(k + 1) =~= t.skip(end + 1));
            }
        }
        let ghost before = out.deep_view();
        if d.len() > 0 {
            out.push(from_chars(d.as_slice()));
            assert(out.deep_view() =~= before.push(d@));
        }
        proof {
            let k = end - start;
            let l = lines_of(rest);
            if end < n {
                assert(l =~= seq![drop_cr(rest.take(k as int))] + lines_of(t.skip(end + 1)));
                assert(bullet_items(l).len() >= 0);
                assert(l.drop_first() =~= lines_of(t.skip(end + 1)));
            } else {
                assert(rest.take(k as int) =~= rest);
                assert(l =~= seq![drop_cr(rest)]);
                assert(l.drop_first() =~= Seq::<Seq<char>>::empty());
                assert(t.skip(n as int) =~= Seq::<char>::empty());
            }
            assert(bullet_items(l) =~= (if d@.len() > 0 {
                seq![d@]
            } else {
                Seq::<Seq<char>>::empty()
            }) + bullet_items(l.drop_first()));
        }
        start = if end < n {
            end + 1
        } else {
            n
        };
        proof {
            if end >= n {
                assert(lines_of(t.skip(start as int)) =~= Seq::<Seq<char>>::empty());
            }
        }
    }
    proof {
        assert(t.skip(n as int) =~= Seq::<char>::empty());
        assert(out.deep_view() + Seq::<Seq<char>>::empty() =~= out.deep_view());
    }
    out
}

proof fn lemma_first_newline(s: Seq<char>, k: int)
    requires
        0 <= k <= s.len(),
        forall|j: int| 0 <= j < k ==> s[j] != '\n',
        k < s.len() ==> s[k] == '\n',
    ensures
        crate::synthesis::first_char_index(s, '\n') == (if k < s.len() {
            Some(k)
        } else {
            None::<int>
        }),
    decreases s.len(),
{
    if s.len() > 0 {
        if k < s.len() {
            if k < s.len() - 1 {
                lemma_first_newline(s.drop_last(), k);
            } else {
                lemma_first_newline(s.drop_last(), s.len() - 1);
            }
        } else {
            lemma_first_newline(s.drop_last(), s.len() - 1);
        }
    }
}

} // verus!
