//! The crawl as a state machine over mathematical values: the record, the
//! frontier of URLs still to be judged, and the URL being fetched.
//!
//! A URL that is seen is either rejected or handed out for fetching. A fetch
//! that comes back with an outcome is recorded; a body also puts its links on
//! the frontier, so that each link is judged, in document order, before the
//! links that were pending earlier.

use crate::classifier::verdict;
use crate::fetch::{success_status, FetchOutcomeView};
use crate::links::{links_in, skipped_in};
use crate::site_list::SiteListView;
use crate::verdict::{AdmissionVerdict, RejectReason};
use vstd::prelude::*;

verus! {

/// What the driver of the crawl has to do after a URL was judged.
pub enum StepView {
    /// Fetch the URL and report what came back.
    Fetch { url: Seq<char> },
    /// Nothing: the URL was rejected and counted. `warn` says whether the
    /// rejection deserves a warning.
    Ignored { url: Seq<char>, reason: RejectReason, warn: bool },
    /// Nothing: no URL was pending.
    Idle,
}

/// How many anchors without a target the outcome of a fetch holds: those
/// of a body, and none otherwise.
pub open spec fn anchors_skipped(outcome: FetchOutcomeView) -> nat {
    match outcome {
        FetchOutcomeView::Body(body) => skipped_in(body),
        _ => 0,
    }
}

/// The state of a crawl.
#[verifier::ext_equal]
pub struct CrawlerView {
    /// The outcomes recorded so far.
    pub list: SiteListView,
    /// The URLs that were discovered and not judged yet. The last one is
    /// judged next.
    pub frontier: Seq<Seq<char>>,
    /// The URL that was handed out for fetching and has not come back.
    pub fetching: Option<Seq<char>>,
}

impl CrawlerView {
    /// A crawl in which nothing has happened yet.
    pub open spec fn start() -> CrawlerView {
        CrawlerView { list: SiteListView::empty(), frontier: Seq::empty(), fetching: None }
    }

    /// The record is well formed, and the URL being fetched, if any, is one
    /// that the record admits.
    pub open spec fn wf(self) -> bool {
        &&& self.list.wf()
        &&& self.fetching matches Some(url) ==> verdict(url, self.list) is Admit
    }

    /// No fetch is under way.
    pub open spec fn idle(self) -> bool {
        self.fetching is None
    }

    /// Nothing is pending and no fetch is under way.
    pub open spec fn done(self) -> bool {
        self.fetching is None && self.frontier.len() == 0
    }

    /// A URL is seen: it is judged, and either handed out for fetching or
    /// counted as ignored.
    pub open spec fn crawl(self, url: Seq<char>) -> (CrawlerView, StepView) {
        match verdict(url, self.list) {
            AdmissionVerdict::Admit => (
                CrawlerView { fetching: Some(url), ..self },
                StepView::Fetch { url },
            ),
            AdmissionVerdict::Reject(reason) => (
                CrawlerView { list: self.list.ignore(), ..self },
                StepView::Ignored { url, reason, warn: !reason.noisy() },
            ),
        }
    }

    /// The URL that was discovered last is taken off the frontier and seen.
    pub open spec fn next(self) -> (CrawlerView, StepView) {
        if self.frontier.len() == 0 {
            (self, StepView::Idle)
        } else {
            CrawlerView { frontier: self.frontier.drop_last(), ..self }.crawl(self.frontier.last())
        }
    }

    /// The server answered the fetch with a status code. A status outside
    /// the success class ends the fetch and records nothing.
    pub open spec fn answered(self, status: u16) -> CrawlerView {
        if success_status(status) {
            self
        } else {
            CrawlerView { fetching: None, ..self }
        }
    }

    /// The links of a body are put on the frontier so that the first link of
    /// the document is judged first.
    pub open spec fn parse_html(self, body: Seq<char>) -> CrawlerView {
        CrawlerView { frontier: self.frontier + links_in(body).reverse(), ..self }
    }

    /// The fetch of `url` came back with `outcome`.
    pub open spec fn record(self, url: Seq<char>, outcome: FetchOutcomeView) -> CrawlerView {
        match outcome {
            FetchOutcomeView::Body(body) => CrawlerView {
                list: self.list.success(url),
                fetching: None,
                ..self
            }.parse_html(body),
            FetchOutcomeView::TransportError(_) => CrawlerView {
                list: self.list.fail(url),
                fetching: None,
                ..self
            },
            FetchOutcomeView::NonTextContent(_) => CrawlerView {
                list: self.list.fail(url),
                fetching: None,
                ..self
            },
        }
    }

    /// The fetch that is under way came back with `outcome`.
    pub open spec fn parse(self, outcome: FetchOutcomeView) -> CrawlerView {
        match self.fetching {
            Some(url) => self.record(url, outcome),
            None => self,
        }
    }
}

} // verus!
