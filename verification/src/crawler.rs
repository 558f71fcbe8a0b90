//! The crawl as executable state: each method is one transition of the
//! model, and the caller does the fetching in between.

use crate::classifier::{classify, verdict};
use crate::fetch::{is_success, success_status, FetchOutcome};
use crate::links::{count_skipped, present_links, select_anchors, skipped_in};
use crate::model::{anchors_skipped, CrawlerView, StepView};
use crate::site_list::{lemma_fail_keeps_wf, lemma_success_keeps_wf, SiteList};
use crate::verdict::{AdmissionVerdict, RejectReason};
use vstd::prelude::*;

verus! {

/// What the caller has to do after a URL was judged.
#[derive(Debug, PartialEq, Eq)]
pub enum Step {
    /// Fetch the URL, then report the status with [`Crawler::answered`] and
    /// the outcome with [`Crawler::parse`].
    Fetch { url: String },
    /// Nothing: the URL was rejected and counted. `warn` says whether the
    /// rejection deserves a warning.
    Ignored { url: String, reason: RejectReason, warn: bool },
    /// Nothing: no URL was pending.
    Idle,
}

impl View for Step {
    type V = StepView;

    open spec fn view(&self) -> StepView {
        match self {
            Step::Fetch { url } => StepView::Fetch { url: url@ },
            Step::Ignored { url, reason, warn } => StepView::Ignored {
                url: url@,
                reason: *reason,
                warn: *warn,
            },
            Step::Idle => StepView::Idle,
        }
    }
}

/// A crawl session: the record of outcomes, the URLs still to be judged and
/// the URL that is being fetched.
#[derive(Clone)]
pub struct Crawler {
    list: SiteList,
    frontier: Vec<String>,
    fetching: Option<String>,
}

impl View for Crawler {
    type V = CrawlerView;

    closed spec fn view(&self) -> CrawlerView {
        CrawlerView {
            list: self.list@,
            frontier: self.frontier.deep_view(),
            fetching: self.fetching.deep_view(),
        }
    }
}

impl Crawler {
    /// A session in which nothing has happened yet.
    pub fn new() -> (crawler: Crawler)
        ensures
            crawler@ == CrawlerView::start(),
            crawler@.wf(),
    {
        let crawler = Crawler { list: SiteList::new(), frontier: Vec::new(), fetching: None };
        assert(crawler@ =~= CrawlerView::start());
        crawler
    }

    /// Sees `url`: judges it against the record, and either hands it out for
    /// fetching or counts it as ignored.
    pub fn crawl(&mut self, url: &str) -> (step: Step)
        requires
            old(self)@.wf(),
            old(self)@.idle(),
            verdict(url@, old(self)@.list) is Reject ==> old(self)@.list.ignored < u32::MAX,
        ensures
            (final(self)@, step@) == old(self)@.crawl(url@),
            final(self)@.wf(),
    {
        match classify(url, &self.list) {
            AdmissionVerdict::Admit => {
                self.fetching = Some(url.to_owned());
                assert(self@ =~= old(self)@.crawl(url@).0);
                Step::Fetch { url: url.to_owned() }
            },
            AdmissionVerdict::Reject(reason) => {
                self.list.ignore();
                assert(self@ =~= old(self)@.crawl(url@).0);
                Step::Ignored { url: url.to_owned(), reason, warn: !reason.is_noisy() }
            },
        }
    }

    /// Takes the URL that was discovered last off the frontier and sees it.
    pub fn next(&mut self) -> (step: Step)
        requires
            old(self)@.wf(),
            old(self)@.idle(),
            old(self)@.frontier.len() > 0 && verdict(
                old(self)@.frontier.last(),
                old(self)@.list,
            ) is Reject ==> old(self)@.list.ignored < u32::MAX,
        ensures
            (final(self)@, step@) == old(self)@.next(),
            final(self)@.wf(),
    {
        match self.frontier.pop() {
            None => Step::Idle,
            Some(url) => {
                assert(self.frontier.deep_view() =~= old(self)@.frontier.drop_last());
                assert(url@ == old(self)@.frontier.last());
                assert(self@ =~= (CrawlerView {
                    frontier: old(self)@.frontier.drop_last(),
                    ..old(self)@
                }));
                self.crawl(url.as_str())
            },
        }
    }

    /// Reports the status code with which the server answered the fetch
    /// that is under way, and says whether the body is to be read. A status
    /// outside the success class ends the fetch and records nothing.
    pub fn answered(&mut self, status: u16) -> (read_body: bool)
        requires
            old(self)@.wf(),
        ensures
            final(self)@ == old(self)@.answered(status),
            final(self)@.wf(),
            read_body == (success_status(status) && old(self)@.fetching is Some),
    {
        if is_success(status) {
            self.fetching.is_some()
        } else {
            self.fetching = None;
            assert(self@ =~= old(self)@.answered(status));
            false
        }
    }

    /// Puts the links of `body` on the frontier, the first link of the
    /// document to be judged first, and says how many anchors had no
    /// target and were skipped.
    fn parse_html(&mut self, body: &str) -> (skipped: usize)
        ensures
            final(self)@ == old(self)@.parse_html(body@),
            skipped == skipped_in(body@),
    {
        let anchors = select_anchors(body);
        let skipped = count_skipped(&anchors);
        let links = present_links(&anchors);
        let ghost found = links.deep_view();
        let ghost pending = self.frontier.deep_view();
        let mut links = links;
        let mut taken: usize = 0;
        let count: usize = links.len();
        assert(found.reverse().take(0) =~= Seq::<Seq<char>>::empty());
        assert(pending + Seq::<Seq<char>>::empty() =~= pending);
        while links.len() > 0
            invariant
                taken + links.len() == count,
                count == found.len(),
                links.deep_view() == found.take(links.len() as int),
                self.frontier.deep_view() == pending + found.reverse().take(taken as int),
                self.list == old(self).list,
                self.fetching == old(self).fetching,
            decreases links.len(),
        {
            let ghost before = self.frontier.deep_view();
            let ghost left = links.deep_view();
            let link = links.pop().unwrap();
            assert(link@ == left.last());
            assert(links.deep_view() =~= found.take(links.len() as int));
            self.frontier.push(link);
            assert(self.frontier.deep_view() =~= before.push(link@));
            assert(found.reverse()[taken as int] == link@);
            assert(found.reverse().take(taken + 1) =~= found.reverse().take(taken as int).push(
                link@,
            ));
            taken += 1;
        }
        assert(found.reverse().take(taken as int) =~= found.reverse());
        assert(self@ =~= old(self)@.parse_html(body@));
        skipped
    }

    /// Records the outcome of the fetch that is under way. A body is
    /// entered as a success and its links are put on the frontier; any
    /// other outcome is entered as a failure. Returns how many anchors of
    /// the body had no target and were skipped.
    pub fn parse(&mut self, outcome: &FetchOutcome) -> (skipped: usize)
        requires
            old(self)@.wf(),
            old(self)@.fetching is Some,
        ensures
            final(self)@ == old(self)@.parse(outcome@),
            final(self)@.wf(),
            skipped == anchors_skipped(outcome@),
    {
        let url = self.fetching.take().unwrap();
        assert(url@ == old(self)@.fetching->0);
        proof {
            lemma_success_keeps_wf(old(self)@.list, url@);
            lemma_fail_keeps_wf(old(self)@.list, url@);
        }
        match outcome {
            FetchOutcome::Body(body) => {
                self.list.success(url.as_str());
                assert(self@ =~= (CrawlerView {
                    list: old(self)@.list.success(url@),
                    fetching: None,
                    ..old(self)@
                }));
                self.parse_html(body.as_str())
            },
            FetchOutcome::TransportError(_) => {
                self.list.fail(url.as_str());
                assert(self@ =~= old(self)@.parse(outcome@));
                0
            },
            FetchOutcome::NonTextContent(_) => {
                self.list.fail(url.as_str());
                assert(self@ =~= old(self)@.parse(outcome@));
                0
            },
        }
    }

    /// The outcomes recorded so far.
    pub fn list(&self) -> (list: &SiteList)
        ensures
            list@ == self@.list,
    {
        &self.list
    }

    /// How many URLs succeeded, failed and were ignored so far.
    pub fn stats(&self) -> (counts: (usize, usize, u32))
        ensures
            counts.0 == self@.list.succeeded.len(),
            counts.1 == self@.list.failed.len(),
            counts.2 == self@.list.ignored,
    {
        self.list.stats()
    }

    /// The URL that [`Crawler::next`] will judge, if one is pending.
    pub fn upcoming(&self) -> (url: Option<&String>)
        ensures
            url.deep_view() == (if self@.frontier.len() > 0 {
                Some(self@.frontier.last())
            } else {
                None
            }),
    {
        if self.frontier.len() > 0 {
            Some(&self.frontier[self.frontier.len() - 1])
        } else {
            None
        }
    }

    /// How many URLs are waiting to be judged.
    pub fn pending(&self) -> (count: usize)
        ensures
            count == self@.frontier.len(),
    {
        self.frontier.len()
    }

    /// Whether a fetch is under way.
    pub fn is_fetching(&self) -> (busy: bool)
        ensures
            busy == !self@.idle(),
    {
        self.fetching.is_some()
    }

    /// Whether the crawl has run to exhaustion: nothing is pending and no
    /// fetch is under way.
    pub fn is_done(&self) -> (done: bool)
        ensures
            done == self@.done(),
    {
        self.fetching.is_none() && self.frontier.len() == 0
    }
}

} // verus!
