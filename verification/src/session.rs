//! A crawl session as a sequence of events applied to the model, with what
//! the session hands to the fetcher and how many URLs it rejects.

use crate::fetch::{success_status, FetchOutcomeView};
use crate::model::{CrawlerView, StepView};
use vstd::prelude::*;

verus! {

/// One call of a transition of the crawl.
pub enum Event {
    /// A URL is seen from outside, such as the seed.
    Crawl(Seq<char>),
    /// The next pending URL is taken off the frontier and seen.
    Next,
    /// The server answered the fetch under way with a status code.
    Answered(u16),
    /// The fetch under way came back with an outcome.
    Parse(FetchOutcomeView),
}

impl CrawlerView {
    /// The event may happen in this state: a URL is seen only while no
    /// fetch is under way, and an outcome comes back only for a fetch that
    /// is under way.
    pub open spec fn enabled(self, event: Event) -> bool {
        match event {
            Event::Crawl(_) => self.idle(),
            Event::Next => self.idle(),
            Event::Answered(_) => true,
            Event::Parse(_) => self.fetching is Some,
        }
    }

    /// What the event tells the caller to do, for the events that judge a
    /// URL.
    pub open spec fn told(self, event: Event) -> Option<StepView> {
        match event {
            Event::Crawl(url) => Some(self.crawl(url).1),
            Event::Next => Some(self.next().1),
            Event::Answered(_) => None,
            Event::Parse(_) => None,
        }
    }

    /// The state after the event.
    pub open spec fn step(self, event: Event) -> CrawlerView {
        match event {
            Event::Crawl(url) => self.crawl(url).0,
            Event::Next => self.next().0,
            Event::Answered(status) => self.answered(status),
            Event::Parse(outcome) => self.parse(outcome),
        }
    }

    /// The URL that the event hands to the fetcher, if it hands one.
    pub open spec fn hands_out(self, event: Event) -> Option<Seq<char>> {
        match self.told(event) {
            Some(StepView::Fetch { url }) => Some(url),
            _ => None,
        }
    }

    /// The URL whose fetch the event ends with an outcome, if it ends one.
    pub open spec fn concludes(self, event: Event) -> Option<Seq<char>> {
        match event {
            Event::Parse(_) => self.fetching,
            _ => None,
        }
    }

    /// The URL whose fetch the event ends without an outcome, if it ends
    /// one: the fetch was answered with a status outside the success
    /// class, and nothing is recorded for the URL.
    pub open spec fn abandons(self, event: Event) -> Option<Seq<char>> {
        match event {
            Event::Answered(status) => if success_status(status) {
                None
            } else {
                self.fetching
            },
            _ => None,
        }
    }

    /// The event judges a URL and rejects it.
    pub open spec fn rejects(self, event: Event) -> bool {
        self.told(event) matches Some(StepView::Ignored { .. })
    }
}

/// The state after the events, applied in order.
pub open spec fn run(start: CrawlerView, events: Seq<Event>) -> CrawlerView
    decreases events.len(),
{
    if events.len() == 0 {
        start
    } else {
        run(start, events.drop_last()).step(events.last())
    }
}

/// Every event may happen in the state in which it is applied.
pub open spec fn follows_protocol(start: CrawlerView, events: Seq<Event>) -> bool
    decreases events.len(),
{
    events.len() == 0 || (follows_protocol(start, events.drop_last()) && run(
        start,
        events.drop_last(),
    ).enabled(events.last()))
}

/// Every fetch that the server answers is answered with a success status,
/// so that it comes back with an outcome.
pub open spec fn conclusive(events: Seq<Event>) -> bool {
    forall|i: int|
        0 <= i < events.len() ==> (#[trigger] events[i] matches Event::Answered(status)
            ==> success_status(status))
}

/// The URLs that the session hands to the fetcher, in order.
pub open spec fn fetches(start: CrawlerView, events: Seq<Event>) -> Seq<Seq<char>>
    decreases events.len(),
{
    if events.len() == 0 {
        Seq::empty()
    } else {
        let earlier = fetches(start, events.drop_last());
        match run(start, events.drop_last()).hands_out(events.last()) {
            Some(url) => earlier.push(url),
            None => earlier,
        }
    }
}

/// The URLs whose fetch came back with an outcome during the session, in
/// order.
pub open spec fn concluded(start: CrawlerView, events: Seq<Event>) -> Seq<Seq<char>>
    decreases events.len(),
{
    if events.len() == 0 {
        Seq::empty()
    } else {
        let earlier = concluded(start, events.drop_last());
        match run(start, events.drop_last()).concludes(events.last()) {
            Some(url) => earlier.push(url),
            None => earlier,
        }
    }
}

/// The URLs whose fetch ended without an outcome during the session, in
/// order.
pub open spec fn abandoned(start: CrawlerView, events: Seq<Event>) -> Seq<Seq<char>>
    decreases events.len(),
{
    if events.len() == 0 {
        Seq::empty()
    } else {
        let earlier = abandoned(start, events.drop_last());
        match run(start, events.drop_last()).abandons(events.last()) {
            Some(url) => earlier.push(url),
            None => earlier,
        }
    }
}

/// How often `url` stands in `urls`.
pub open spec fn occurrences(urls: Seq<Seq<char>>, url: Seq<char>) -> nat
    decreases urls.len(),
{
    if urls.len() == 0 {
        0
    } else if urls.last() == url {
        occurrences(urls.drop_last(), url) + 1
    } else {
        occurrences(urls.drop_last(), url)
    }
}

/// One if the state is fetching `url`, else zero.
pub open spec fn in_flight(state: CrawlerView, url: Seq<char>) -> nat {
    if state.fetching == Some(url) {
        1
    } else {
        0
    }
}

/// How many URLs the session rejects.
pub open spec fn rejections(start: CrawlerView, events: Seq<Event>) -> nat
    decreases events.len(),
{
    if events.len() == 0 {
        0
    } else {
        let earlier = rejections(start, events.drop_last());
        if run(start, events.drop_last()).rejects(events.last()) {
            earlier + 1
        } else {
            earlier
        }
    }
}

} // verus!
