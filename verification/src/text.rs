//! Character-sequence predicates used to judge a URL string, with executable
//! counterparts on `&str` and on vectors of characters.

use vstd::prelude::*;

verus! {

/// `needle` occurs in `hay` at offset `at`.
pub open spec fn occurs_at(hay: Seq<char>, needle: Seq<char>, at: int) -> bool {
    &&& 0 <= at
    &&& at + needle.len() <= hay.len()
    &&& hay.subrange(at, at + needle.len()) == needle
}

/// `needle` occurs somewhere in `hay`.
pub open spec fn has_infix(hay: Seq<char>, needle: Seq<char>) -> bool {
    exists|at: int| occurs_at(hay, needle, at)
}

/// `hay` begins with `needle`.
pub open spec fn has_prefix(hay: Seq<char>, needle: Seq<char>) -> bool {
    occurs_at(hay, needle, 0)
}

/// `hay` ends with `needle`.
pub open spec fn has_suffix(hay: Seq<char>, needle: Seq<char>) -> bool {
    occurs_at(hay, needle, hay.len() - needle.len())
}

/// `needle` occurs in `hay` at `at` and nowhere before.
pub open spec fn first_at(hay: Seq<char>, needle: Seq<char>, at: int) -> bool {
    &&& occurs_at(hay, needle, at)
    &&& forall|earlier: int| 0 <= earlier < at ==> !occurs_at(hay, needle, earlier)
}

/// Where `needle` first occurs in `hay`. Meaningful where it occurs.
pub open spec fn first_offset(hay: Seq<char>, needle: Seq<char>) -> int {
    choose|at: int| first_at(hay, needle, at)
}

/// There is one first occurrence at most.
pub proof fn lemma_first_offset(hay: Seq<char>, needle: Seq<char>, at: int)
    requires
        first_at(hay, needle, at),
    ensures
        first_offset(hay, needle) == at,
{
    let chosen = first_offset(hay, needle);
    assert(first_at(hay, needle, chosen));
    if chosen < at {
        assert(!occurs_at(hay, needle, chosen));
    }
    if at < chosen {
        assert(!occurs_at(hay, needle, at));
    }
}

/// Scanning `s` from `from`, `at` is the first place that holds `a` or `b`,
/// or the end of `s` where neither is met.
pub open spec fn stops_at(s: Seq<char>, a: char, b: char, from: int, at: int) -> bool {
    &&& from <= at <= s.len()
    &&& at < s.len() ==> (s[at] == a || s[at] == b)
    &&& forall|j: int| from <= j < at ==> s[j] != a && s[j] != b
}

/// Where a scan of `s` from `from` for `a` or `b` stops. Meaningful where
/// `from` is within `s`.
pub open spec fn first_stop(s: Seq<char>, a: char, b: char, from: int) -> int {
    choose|at: int| stops_at(s, a, b, from, at)
}

/// A scan stops at one place only.
pub proof fn lemma_first_stop(s: Seq<char>, a: char, b: char, from: int, at: int)
    requires
        stops_at(s, a, b, from, at),
    ensures
        first_stop(s, a, b, from) == at,
{
    let chosen = first_stop(s, a, b, from);
    assert(stops_at(s, a, b, from, chosen));
}

/// The characters of a string slice, in order.
pub fn chars_of(s: &str) -> (chars: Vec<char>)
    ensures
        chars@ == s@,
{
    let mut chars: Vec<char> = Vec::new();
    for c in it: s.chars()
        invariant
            chars@ == it.seq().take(it.index() as int),
    {
        chars.push(c);
    }
    chars
}

/// The characters of `s` from `from` up to `to`.
pub fn slice(s: &Vec<char>, from: usize, to: usize) -> (part: Vec<char>)
    requires
        from <= to <= s.len(),
    ensures
        part@ == s@.subrange(from as int, to as int),
{
    let mut part: Vec<char> = Vec::new();
    let mut i: usize = from;
    while i < to
        invariant
            from <= i <= to <= s.len(),
            part@ == s@.subrange(from as int, i as int),
        decreases to - i,
    {
        part.push(s[i]);
        assert(part@ =~= s@.subrange(from as int, i + 1));
        i += 1;
    }
    assert(part@ =~= s@.subrange(from as int, to as int));
    part
}

/// Whether `needle` occurs in `hay` at `at`.
pub fn window_matches(hay: &Vec<char>, needle: &Vec<char>, at: usize) -> (found: bool)
    ensures
        found == occurs_at(hay@, needle@, at as int),
{
    if needle.len() > hay.len() || at > hay.len() - needle.len() {
        return false;
    }
    let ghost window = hay@.subrange(at as int, at + needle.len());
    let mut k: usize = 0;
    while k < needle.len()
        invariant
            k <= needle.len(),
            at + needle.len() <= hay.len(),
            window == hay@.subrange(at as int, at + needle.len()),
            forall|j: int| 0 <= j < k ==> window[j] == needle@[j],
        decreases needle.len() - k,
    {
        if hay[at + k] != needle[k] {
            assert(window[k as int] != needle@[k as int]);
            return false;
        }
        k += 1;
    }
    assert(window =~= needle@);
    true
}

/// Finds the first occurrence of `needle` in `hay`.
pub fn find(hay: &Vec<char>, needle: &Vec<char>) -> (found: Option<usize>)
    ensures
        match found {
            Some(at) => first_at(hay@, needle@, at as int) && at == first_offset(hay@, needle@),
            None => !has_infix(hay@, needle@),
        },
{
    if needle.len() > hay.len() {
        return None;
    }
    let last: usize = hay.len() - needle.len();
    let mut at: usize = 0;
    loop
        invariant
            last == hay.len() - needle.len(),
            at <= last,
            forall|i: int| 0 <= i < at ==> !occurs_at(hay@, needle@, i),
        decreases last - at,
    {
        if window_matches(hay, needle, at) {
            proof {
                lemma_first_offset(hay@, needle@, at as int);
            }
            return Some(at);
        }
        if at == last {
            return None;
        }
        at += 1;
    }
}

/// Scans `s` from `from` for the first `a` or `b`.
pub fn find_stop(s: &Vec<char>, a: char, b: char, from: usize) -> (at: usize)
    requires
        from <= s.len(),
    ensures
        stops_at(s@, a, b, from as int, at as int),
        at == first_stop(s@, a, b, from as int),
{
    let mut at: usize = from;
    while at < s.len() && s[at] != a && s[at] != b
        invariant
            from <= at <= s.len(),
            forall|j: int| from <= j < at ==> s@[j] != a && s@[j] != b,
        decreases s.len() - at,
    {
        at += 1;
    }
    proof {
        lemma_first_stop(s@, a, b, from as int, at as int);
    }
    at
}

/// Whether `hay` ends with `needle`.
pub fn ends_with(hay: &Vec<char>, needle: &Vec<char>) -> (found: bool)
    ensures
        found == has_suffix(hay@, needle@),
{
    if needle.len() > hay.len() {
        return false;
    }
    window_matches(hay, needle, hay.len() - needle.len())
}

/// Whether `s` begins with `prefix`.
pub fn starts_with(s: &str, prefix: &str) -> (found: bool)
    ensures
        found == has_prefix(s@, prefix@),
{
    let hay = chars_of(s);
    let needle = chars_of(prefix);
    if needle.len() > hay.len() {
        return false;
    }
    window_matches(&hay, &needle, 0)
}

/// Whether `needle` occurs anywhere in `s`.
pub fn contains(s: &str, needle: &str) -> (found: bool)
    ensures
        found == has_infix(s@, needle@),
{
    let hay = chars_of(s);
    let pattern = chars_of(needle);
    find(&hay, &pattern).is_some()
}

} // verus!
