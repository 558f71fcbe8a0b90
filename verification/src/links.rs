//! Link extraction: the targets of the anchors of an HTML document, in the
//! order in which the document parser yields the anchors. Nothing is
//! normalised, resolved or deduplicated here.

use vstd::prelude::*;

verus! {

/// What the HTML parser finds for a document, a CSS selector and an
/// attribute name: `None` if the selector is not one the parser accepts,
/// else one entry per selected element, in the order the parser yields
/// them, holding the element's value for the attribute if it has one.
pub uninterp spec fn selected_attrs(
    html: Seq<char>,
    selector: Seq<char>,
    attr: Seq<char>,
) -> Option<Seq<Option<Seq<char>>>>;

/// Runs `scraper::Selector::parse` on `selector`, `scraper::Html::parse_document`
/// on `html` and `Html::select` on the two, and reads `Element::attr` for
/// `attr` on each element that comes out.
///
/// Trusted: that the outcome depends on the three strings alone. Nothing is
/// claimed about which elements a selector selects.
#[verifier::external_body]
fn select_attr(html: &str, selector: &str, attr: &str) -> (found: Option<Vec<Option<String>>>)
    ensures
        found.deep_view() == selected_attrs(html@, selector@, attr@),
{
    let selector = match scraper::Selector::parse(selector) {
        Ok(selector) => selector,
        Err(_) => return None,
    };
    let document = scraper::Html::parse_document(html);
    let mut found = Vec::new();
    for element in document.select(&selector) {
        found.push(element.value().attr(attr).map(|value| value.to_string()));
    }
    Some(found)
}

/// The selector for anchor elements.
pub open spec fn anchor_selector() -> Seq<char> {
    seq!['a']
}

/// The name of the attribute that holds an anchor's target.
pub open spec fn target_attr() -> Seq<char> {
    seq!['h', 'r', 'e', 'f']
}

/// The values that are present in `attrs`, in order. Elements without the
/// attribute are skipped.
pub open spec fn present(attrs: Seq<Option<Seq<char>>>) -> Seq<Seq<char>>
    decreases attrs.len(),
{
    if attrs.len() == 0 {
        Seq::empty()
    } else {
        match attrs.last() {
            Some(value) => present(attrs.drop_last()).push(value),
            None => present(attrs.drop_last()),
        }
    }
}

/// How many entries of `attrs` hold no value: the elements that were
/// selected and skipped.
pub open spec fn absent(attrs: Seq<Option<Seq<char>>>) -> nat
    decreases attrs.len(),
{
    if attrs.len() == 0 {
        0
    } else {
        match attrs.last() {
            Some(_) => absent(attrs.drop_last()),
            None => absent(attrs.drop_last()) + 1,
        }
    }
}

/// The links among what was selected: none if nothing could be selected.
pub open spec fn links_among(found: Option<Seq<Option<Seq<char>>>>) -> Seq<Seq<char>> {
    match found {
        Some(attrs) => present(attrs),
        None => Seq::empty(),
    }
}

/// The links of an HTML document.
pub open spec fn links_in(html: Seq<char>) -> Seq<Seq<char>> {
    links_among(anchors_in(html))
}


/// How many anchors were skipped among what was selected.
pub open spec fn skipped_among(found: Option<Seq<Option<Seq<char>>>>) -> nat {
    match found {
        Some(attrs) => absent(attrs),
        None => 0,
    }
}

/// The anchors of an HTML document, each with its target where it has
/// one.
pub open spec fn anchors_in(html: Seq<char>) -> Option<Seq<Option<Seq<char>>>> {
    selected_attrs(html, anchor_selector(), target_attr())
}

/// How many anchors of an HTML document have no target.
pub open spec fn skipped_in(html: Seq<char>) -> nat {
    skipped_among(anchors_in(html))
}

/// Selects the anchors of `html`, `a` elements, and reads the `href` of
/// each: `None` for an anchor without one.
pub fn select_anchors(html: &str) -> (found: Option<Vec<Option<String>>>)
    ensures
        found.deep_view() == anchors_in(html@),
{
    proof {
        reveal_strlit("a");
        reveal_strlit("href");
        assert("a"@ =~= anchor_selector());
        assert("href"@ =~= target_attr());
    }
    select_attr(html, "a", "href")
}

/// Counts the anchors without a target among the selected anchors.
pub fn count_skipped(found: &Option<Vec<Option<String>>>) -> (count: usize)
    ensures
        count == skipped_among(found.deep_view()),
{
    match found {
        None => 0,
        Some(attrs) => {
            assert(attrs.deep_view().take(0) =~= Seq::empty());
            let mut count: usize = 0;
            let mut i: usize = 0;
            while i < attrs.len()
                invariant
                    i <= attrs.len(),
                    count <= i,
                    count == absent(attrs.deep_view().take(i as int)),
                decreases attrs.len() - i,
            {
                let ghost grown = attrs.deep_view().take(i + 1);
                assert(grown.drop_last() =~= attrs.deep_view().take(i as int));
                assert(grown.last() == attrs.deep_view()[i as int]);
                if attrs[i].is_none() {
                    count += 1;
                }
                i += 1;
            }
            assert(attrs.deep_view().take(attrs.len() as int) =~= attrs.deep_view());
            count
        },
    }
}

/// Keeps the targets that are present among the selected anchors.
pub fn present_links(found: &Option<Vec<Option<String>>>) -> (links: Vec<String>)
    ensures
        links.deep_view() == links_among(found.deep_view()),
{
    let mut links: Vec<String> = Vec::new();
    match found {
        None => {
            assert(links.deep_view() =~= Seq::empty());
        },
        Some(attrs) => {
            assert(links.deep_view() =~= Seq::empty());
            assert(attrs.deep_view().take(0) =~= Seq::empty());
            let mut i: usize = 0;
            while i < attrs.len()
                invariant
                    i <= attrs.len(),
                    links.deep_view() == present(attrs.deep_view().take(i as int)),
                decreases attrs.len() - i,
            {
                let ghost before = links.deep_view();
                let ghost seen = attrs.deep_view().take(i as int);
                let ghost grown = attrs.deep_view().take(i + 1);
                assert(grown.drop_last() =~= seen);
                assert(grown.last() == attrs.deep_view()[i as int]);
                match &attrs[i] {
                    Some(target) => {
                        links.push(target.clone());
                        assert(links.deep_view() =~= before.push(target@));
                    },
                    None => {},
                }
                i += 1;
            }
            assert(attrs.deep_view().take(attrs.len() as int) =~= attrs.deep_view());
        },
    }
    links
}

/// Extracts the link targets of `html`: the `href` of every `a` element
/// that has one.
pub fn extract_links(html: &str) -> (links: Vec<String>)
    ensures
        links.deep_view() == links_in(html@),
{
    let found = select_anchors(html);
    present_links(&found)
}

} // verus!
