//! The network test: whether a URL carries a name of the hidden-service
//! network, that is a name whose last label is the network's.
//!
//! A URL is first cut off at its query or fragment. If what is left names a
//! host (it holds `//`), the host is the name: the part after the first `//`
//! up to the next `/`, less a port. If it names no host, any of its path
//! segments may be the name. The label counts only where it ends the name:
//! not inside a name, and not in a path below a host, a query or a fragment.

use crate::text::{
    chars_of, ends_with, find, find_stop, first_offset, first_stop, has_infix, has_suffix,
    occurs_at, slice, window_matches,
};
use vstd::prelude::*;

verus! {

/// The label that ends every name of the hidden-service network.
pub open spec fn onion_label() -> Seq<char> {
    seq!['.', 'o', 'n', 'i', 'o', 'n']
}

/// The marker that stands before a host.
pub open spec fn host_marker() -> Seq<char> {
    seq!['/', '/']
}

/// The URL without its query and fragment.
pub open spec fn locator(url: Seq<char>) -> Seq<char> {
    url.take(first_stop(url, '?', '#', 0))
}

/// The URL names a host.
pub open spec fn names_host(url: Seq<char>) -> bool {
    has_infix(locator(url), host_marker())
}

/// The part of a URL that names the host, with its port if it has one: what
/// stands after the first host marker, up to the next `/`. Meaningful where
/// the URL names a host.
pub open spec fn authority(url: Seq<char>) -> Seq<char> {
    let start = first_offset(locator(url), host_marker()) + 2;
    locator(url).subrange(start, first_stop(locator(url), '/', '/', start))
}

/// A decimal digit.
pub open spec fn is_digit(c: char) -> bool {
    '0' <= c && c <= '9'
}

/// `s` ends with a port that begins with the colon at `colon`: from there to
/// the end there are only digits.
pub open spec fn port_at(s: Seq<char>, colon: int) -> bool {
    &&& 0 <= colon < s.len()
    &&& s[colon] == ':'
    &&& forall|j: int| colon < j < s.len() ==> is_digit(s[j])
}

/// `s` less its port, if it ends with one.
pub open spec fn without_port(s: Seq<char>) -> Seq<char> {
    if exists|colon: int| port_at(s, colon) {
        s.take(choose|colon: int| port_at(s, colon))
    } else {
        s
    }
}

/// A name ends with one port at most.
pub proof fn lemma_without_port(s: Seq<char>, colon: int)
    requires
        port_at(s, colon),
    ensures
        without_port(s) == s.take(colon),
{
    let chosen = choose|c: int| port_at(s, c);
    assert(port_at(s, chosen));
    if chosen < colon {
        assert(is_digit(s[colon]));
    }
    if colon < chosen {
        assert(is_digit(s[chosen]));
    }
}

/// The host that a URL names. Meaningful where it names one.
pub open spec fn host(url: Seq<char>) -> Seq<char> {
    without_port(authority(url))
}

/// `label` occurs in `path` at `at` and ends a segment there: the path ends
/// behind it, or a `/` follows.
pub open spec fn ends_segment_at(path: Seq<char>, label: Seq<char>, at: int) -> bool {
    &&& occurs_at(path, label, at)
    &&& at + label.len() < path.len() ==> path[at + label.len()] == '/'
}

/// Some segment of `path` ends with `label`.
pub open spec fn ends_segment(path: Seq<char>, label: Seq<char>) -> bool {
    exists|at: int| ends_segment_at(path, label, at)
}

/// The URL carries a name of the network: its host ends with the network's
/// label or, where it names no host, one of its path segments does.
pub open spec fn on_network(url: Seq<char>) -> bool {
    if names_host(url) {
        has_suffix(host(url), onion_label())
    } else {
        ends_segment(locator(url), onion_label())
    }
}

/// Takes the port off the end of `name`, if it ends with one.
pub fn strip_port(name: Vec<char>) -> (bare: Vec<char>)
    ensures
        bare@ == without_port(name@),
{
    let mut name = name;
    let ghost full = name@;
    let mut i: usize = name.len();
    while i > 0 && '0' <= name[i - 1] && name[i - 1] <= '9'
        invariant
            name@ == full,
            i <= name.len(),
            forall|j: int| i <= j < full.len() ==> is_digit(full[j]),
        decreases i,
    {
        i -= 1;
    }
    if i > 0 && name[i - 1] == ':' {
        proof {
            lemma_without_port(full, i - 1);
        }
        name.truncate(i - 1);
        assert(name@ =~= full.take(i - 1));
        name
    } else {
        proof {
            assert forall|colon: int| !port_at(full, colon) by {
                if port_at(full, colon) {
                    if colon < i - 1 {
                        assert(is_digit(full[i - 1]));
                    }
                }
            }
        }
        name
    }
}

/// Whether some segment of `path` ends with `label`.
pub fn has_segment_end(path: &Vec<char>, label: &Vec<char>) -> (found: bool)
    ensures
        found == ends_segment(path@, label@),
{
    if label.len() > path.len() {
        return false;
    }
    let last: usize = path.len() - label.len();
    let mut at: usize = 0;
    loop
        invariant
            last == path.len() - label.len(),
            at <= last,
            forall|i: int| 0 <= i < at ==> !ends_segment_at(path@, label@, i),
        decreases last - at,
    {
        if window_matches(path, label, at) && (at == last || path[at + label.len()] == '/') {
            assert(ends_segment_at(path@, label@, at as int));
            return true;
        }
        if at == last {
            return false;
        }
        at += 1;
    }
}

/// Whether `url` carries a name of the hidden-service network.
pub fn is_on_network(url: &str) -> (on: bool)
    ensures
        on == on_network(url@),
{
    proof {
        reveal_strlit(".onion");
        reveal_strlit("//");
        assert(".onion"@ =~= onion_label());
        assert("//"@ =~= host_marker());
    }
    let label = chars_of(".onion");
    let marker = chars_of("//");
    let chars = chars_of(url);
    let cut = find_stop(&chars, '?', '#', 0);
    let located = slice(&chars, 0, cut);
    assert(located@ == locator(url@));
    match find(&located, &marker) {
        Some(at) => {
            let start = at + 2;
            let end = find_stop(&located, '/', '/', start);
            let named = slice(&located, start, end);
            assert(named@ == authority(url@));
            let bare = strip_port(named);
            ends_with(&bare, &label)
        },
        None => has_segment_end(&located, &label),
    }
}

} // verus!
