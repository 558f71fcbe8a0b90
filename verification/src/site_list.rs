//! The record of a crawl: which URLs succeeded, which failed, and how many
//! were ignored.

use vstd::prelude::*;

verus! {

/// The traversal history of one crawl session.
#[derive(Debug, Clone)]
pub struct SiteList {
    /// URLs whose fetch and parse completed, in the order they were recorded.
    pub success_urls: Vec<String>,
    /// URLs whose fetch failed or whose body was not text.
    pub failed_urls: Vec<String>,
    /// How many URLs were turned away before fetching. The URLs themselves
    /// are not kept.
    pub ignored: u32,
}

/// The mathematical content of a [`SiteList`].
#[verifier::ext_equal]
pub struct SiteListView {
    pub succeeded: Seq<Seq<char>>,
    pub failed: Seq<Seq<char>>,
    pub ignored: nat,
}

impl SiteListView {
    /// The record of a session in which nothing has happened yet.
    pub open spec fn empty() -> SiteListView {
        SiteListView { succeeded: Seq::empty(), failed: Seq::empty(), ignored: 0 }
    }

    /// Both lists are sets (nothing is listed twice) and they share no URL.
    pub open spec fn wf(self) -> bool {
        &&& self.succeeded.no_duplicates()
        &&& self.failed.no_duplicates()
        &&& forall|url: Seq<char>| !(self.succeeded.contains(url) && self.failed.contains(url))
    }

    /// The URLs that succeeded, as a set.
    pub open spec fn succeeded_set(self) -> Set<Seq<char>> {
        self.succeeded.to_set()
    }

    /// The URLs that failed, as a set.
    pub open spec fn failed_set(self) -> Set<Seq<char>> {
        self.failed.to_set()
    }

    /// The URL has a recorded fetch outcome.
    pub open spec fn visited(self, url: Seq<char>) -> bool {
        self.succeeded.contains(url) || self.failed.contains(url)
    }

    /// The record after `url` is entered as a success.
    pub open spec fn success(self, url: Seq<char>) -> SiteListView {
        if self.succeeded.contains(url) {
            self
        } else {
            SiteListView { succeeded: self.succeeded.push(url), ..self }
        }
    }

    /// The record after `url` is entered as a failure.
    pub open spec fn fail(self, url: Seq<char>) -> SiteListView {
        if self.failed.contains(url) {
            self
        } else {
            SiteListView { failed: self.failed.push(url), ..self }
        }
    }

    /// The record after one more URL is ignored.
    pub open spec fn ignore(self) -> SiteListView {
        SiteListView { ignored: self.ignored + 1, ..self }
    }
}

impl View for SiteList {
    type V = SiteListView;

    open spec fn view(&self) -> SiteListView {
        SiteListView {
            succeeded: self.success_urls.deep_view(),
            failed: self.failed_urls.deep_view(),
            ignored: self.ignored as nat,
        }
    }
}

/// Whether `url` is one of `urls`.
pub fn is_listed(urls: &Vec<String>, url: &String) -> (found: bool)
    ensures
        found == urls.deep_view().contains(url@),
{
    let mut i: usize = 0;
    while i < urls.len()
        invariant
            i <= urls.len(),
            forall|j: int| 0 <= j < i ==> urls.deep_view()[j] != url@,
        decreases urls.len() - i,
    {
        if urls[i] == *url {
            assert(urls.deep_view()[i as int] == url@);
            return true;
        }
        i += 1;
    }
    false
}

/// Appends `url` to `urls` unless it is listed already.
fn enter(urls: &mut Vec<String>, url: &str)
    ensures
        final(urls).deep_view() == if old(urls).deep_view().contains(url@) {
            old(urls).deep_view()
        } else {
            old(urls).deep_view().push(url@)
        },
{
    let owned = url.to_owned();
    if !is_listed(urls, &owned) {
        urls.push(owned);
        assert(urls.deep_view() =~= old(urls).deep_view().push(url@));
    }
}

impl SiteList {
    /// An empty record.
    pub fn new() -> (list: SiteList)
        ensures
            list@ == SiteListView::empty(),
    {
        let list = SiteList { success_urls: Vec::new(), failed_urls: Vec::new(), ignored: 0 };
        assert(list@ =~= SiteListView::empty());
        list
    }

    /// Records that `url` was fetched and parsed. Recording it again changes
    /// nothing. A URL that is recorded as failed cannot succeed.
    pub fn success(&mut self, url: &str)
        requires
            !old(self)@.failed.contains(url@),
        ensures
            final(self)@ == old(self)@.success(url@),
            old(self)@.wf() ==> final(self)@.wf(),
    {
        enter(&mut self.success_urls, url);
        proof {
            if old(self)@.wf() {
                lemma_success_keeps_wf(old(self)@, url@);
            }
        }
    }

    /// Records that fetching `url` failed. Recording it again changes
    /// nothing. A URL that is recorded as succeeded cannot fail.
    pub fn fail(&mut self, url: &str)
        requires
            !old(self)@.succeeded.contains(url@),
        ensures
            final(self)@ == old(self)@.fail(url@),
            old(self)@.wf() ==> final(self)@.wf(),
    {
        enter(&mut self.failed_urls, url);
        proof {
            if old(self)@.wf() {
                lemma_fail_keeps_wf(old(self)@, url@);
            }
        }
    }

    /// Counts one more ignored URL.
    pub fn ignore(&mut self)
        requires
            old(self).ignored < u32::MAX,
        ensures
            final(self)@ == old(self)@.ignore(),
    {
        self.ignored = self.ignored + 1;
    }

    /// How many URLs succeeded, failed and were ignored.
    pub fn stats(&self) -> (counts: (usize, usize, u32))
        ensures
            counts.0 == self@.succeeded.len(),
            counts.1 == self@.failed.len(),
            counts.2 == self@.ignored,
            self@.wf() ==> counts.0 == self@.succeeded_set().len(),
            self@.wf() ==> counts.1 == self@.failed_set().len(),
    {
        proof {
            if self@.wf() {
                self@.succeeded.unique_seq_to_set();
                self@.failed.unique_seq_to_set();
            }
        }
        (self.success_urls.len(), self.failed_urls.len(), self.ignored)
    }
}

/// Entering a success keeps the two lists duplicate-free and disjoint.
pub proof fn lemma_success_keeps_wf(list: SiteListView, url: Seq<char>)
    requires
        list.wf(),
        !list.failed.contains(url),
    ensures
        list.success(url).wf(),
{
    let after = list.success(url);
    if !list.succeeded.contains(url) {
        assert forall|i: int, j: int|
            0 <= i < after.succeeded.len() && 0 <= j < after.succeeded.len() && i != j implies after.succeeded[i]
            != after.succeeded[j] by {
            if i < list.succeeded.len() {
                assert(list.succeeded.contains(list.succeeded[i]));
            }
            if j < list.succeeded.len() {
                assert(list.succeeded.contains(list.succeeded[j]));
            }
        }
        assert forall|other: Seq<char>|
            !(after.succeeded.contains(other) && after.failed.contains(other)) by {
            if after.succeeded.contains(other) && other != url {
                let i = choose|i: int| 0 <= i < after.succeeded.len() && after.succeeded[i] == other;
                assert(list.succeeded[i] == other);
                assert(list.succeeded.contains(other));
            }
        }
    }
}

/// Entering a failure keeps the two lists duplicate-free and disjoint.
pub proof fn lemma_fail_keeps_wf(list: SiteListView, url: Seq<char>)
    requires
        list.wf(),
        !list.succeeded.contains(url),
    ensures
        list.fail(url).wf(),
{
    let after = list.fail(url);
    if !list.failed.contains(url) {
        assert forall|i: int, j: int|
            0 <= i < after.failed.len() && 0 <= j < after.failed.len() && i != j implies after.failed[i]
            != after.failed[j] by {
            if i < list.failed.len() {
                assert(list.failed.contains(list.failed[i]));
            }
            if j < list.failed.len() {
                assert(list.failed.contains(list.failed[j]));
            }
        }
        assert forall|other: Seq<char>|
            !(after.succeeded.contains(other) && after.failed.contains(other)) by {
            if after.failed.contains(other) && other != url {
                let i = choose|i: int| 0 <= i < after.failed.len() && after.failed[i] == other;
                assert(list.failed[i] == other);
                assert(list.failed.contains(other));
            }
        }
    }
}

} // verus!
