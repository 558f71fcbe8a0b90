//! What holds of every crawl, proved from the model.

use crate::address::{host, names_host, on_network, onion_label};
use crate::classifier::{relative_marker, verdict};
use crate::fetch::{success_status, FetchOutcomeView};
use crate::links::links_in;
use crate::model::{CrawlerView, StepView};
use crate::session::{
    abandoned, concluded, conclusive, fetches, follows_protocol, in_flight, occurrences,
    rejections, run, Event,
};
use crate::site_list::{lemma_fail_keeps_wf, lemma_success_keeps_wf, SiteListView};
use crate::text::{has_prefix, has_suffix};
use crate::verdict::{AdmissionVerdict, RejectReason};
use vstd::prelude::*;

verus! {

/// A URL that carries no name of the network is rejected for its network
/// class, whatever the record holds and however the URL begins.
pub proof fn law_clearnet_rejected(url: Seq<char>, list: SiteListView)
    requires
        !on_network(url),
    ensures
        verdict(url, list) == AdmissionVerdict::Reject(RejectReason::WrongNetworkClass),
{
}

/// A URL that names a host outside the network is rejected for its network
/// class, wherever else in it the network's label stands: in an inner
/// label of the host, in the path, in the query or in the fragment.
pub proof fn law_host_decides(url: Seq<char>, list: SiteListView)
    requires
        names_host(url),
        !has_suffix(host(url), onion_label()),
    ensures
        verdict(url, list) == AdmissionVerdict::Reject(RejectReason::WrongNetworkClass),
{
}

/// Once a URL of the network is entered as a success, it is rejected as
/// already visited.
pub proof fn law_success_blocks_revisit(url: Seq<char>, list: SiteListView)
    requires
        on_network(url),
    ensures
        verdict(url, list.success(url)) == AdmissionVerdict::Reject(RejectReason::AlreadyVisited),
{
    if !list.succeeded.contains(url) {
        let after = list.succeeded.push(url);
        assert(after[after.len() - 1] == url);
    }
}

/// Once a URL of the network is entered as a failure, and it never
/// succeeded, it is rejected as previously failed.
pub proof fn law_failure_blocks_retry(url: Seq<char>, list: SiteListView)
    requires
        on_network(url),
        !list.succeeded.contains(url),
    ensures
        verdict(url, list.fail(url)) == AdmissionVerdict::Reject(RejectReason::PreviouslyFailed),
{
    if !list.failed.contains(url) {
        let after = list.failed.push(url);
        assert(after[after.len() - 1] == url);
    }
}

/// A URL that begins with the relative marker is never admitted and never
/// rejected for its scheme.
pub proof fn law_relative_never_scheme(url: Seq<char>, list: SiteListView)
    requires
        has_prefix(url, relative_marker()),
    ensures
        verdict(url, list) is Reject,
        verdict(url, list) != AdmissionVerdict::Reject(RejectReason::UnsupportedScheme),
{
}

/// A URL of the network that begins with the relative marker and has no
/// recorded outcome is rejected as a relative reference.
pub proof fn law_relative_reference(url: Seq<char>, list: SiteListView)
    requires
        has_prefix(url, relative_marker()),
        on_network(url),
        !list.visited(url),
    ensures
        verdict(url, list) == AdmissionVerdict::Reject(RejectReason::RelativeReference),
{
}

/// Every transition keeps the state well formed: no URL is ever listed
/// both as a success and as a failure, nor twice in either list.
pub proof fn law_step_keeps_wf(state: CrawlerView, event: Event)
    requires
        state.wf(),
        state.enabled(event),
    ensures
        state.step(event).wf(),
{
    match event {
        Event::Crawl(url) => {},
        Event::Next => {},
        Event::Answered(status) => {},
        Event::Parse(outcome) => {
            let url = state.fetching->0;
            lemma_success_keeps_wf(state.list, url);
            lemma_fail_keeps_wf(state.list, url);
        },
    }
}

/// The URL has a recorded outcome or is being fetched.
pub open spec fn accounted(state: CrawlerView, url: Seq<char>) -> bool {
    state.list.visited(url) || state.fetching == Some(url)
}

/// No transition removes a URL from the record.
pub proof fn law_record_only_grows(state: CrawlerView, event: Event, url: Seq<char>)
    ensures
        state.list.succeeded.contains(url) ==> state.step(event).list.succeeded.contains(url),
        state.list.failed.contains(url) ==> state.step(event).list.failed.contains(url),
{
    if state.list.succeeded.contains(url) {
        let i = choose|i: int| 0 <= i < state.list.succeeded.len() && state.list.succeeded[i] == url;
        assert(state.step(event).list.succeeded[i] == url);
    }
    if state.list.failed.contains(url) {
        let i = choose|i: int| 0 <= i < state.list.failed.len() && state.list.failed[i] == url;
        assert(state.step(event).list.failed[i] == url);
    }
}

/// A transition that is not the answer of a status outside the success
/// class keeps every URL accounted for: a recorded URL stays recorded, and
/// the URL being fetched stays so or is recorded.
proof fn lemma_step_keeps_accounted(state: CrawlerView, event: Event, url: Seq<char>)
    requires
        state.wf(),
        state.enabled(event),
        event matches Event::Answered(status) ==> success_status(status),
        accounted(state, url),
    ensures
        accounted(state.step(event), url),
{
    law_record_only_grows(state, event, url);
    if !state.list.visited(url) {
        match event {
            Event::Parse(outcome) => {
                law_success_blocks_revisit(url, state.list);
                law_failure_blocks_retry(url, state.list);
            },
            _ => {},
        }
    }
}

/// A session that follows the protocol from a well-formed state ends in a
/// well-formed state: no URL is listed both as a success and as a failure,
/// nor twice in either list.
pub proof fn law_session_keeps_wf(start: CrawlerView, events: Seq<Event>)
    requires
        start.wf(),
        follows_protocol(start, events),
    ensures
        run(start, events).wf(),
        forall|url: Seq<char>|
            !(run(start, events).list.succeeded.contains(url) && run(
                start,
                events,
            ).list.failed.contains(url)),
    decreases events.len(),
{
    if events.len() > 0 {
        law_session_keeps_wf(start, events.drop_last());
        law_step_keeps_wf(run(start, events.drop_last()), events.last());
    }
}

/// A session that follows the protocol does so up to each of its events.
pub proof fn lemma_prefix_follows(start: CrawlerView, events: Seq<Event>, n: int)
    requires
        follows_protocol(start, events),
        0 <= n <= events.len(),
    ensures
        follows_protocol(start, events.take(n)),
        n < events.len() ==> run(start, events.take(n)).enabled(events[n]),
    decreases events.len(),
{
    if n == events.len() {
        assert(events.take(n) =~= events);
    } else {
        let earlier = events.drop_last();
        if n == earlier.len() {
            assert(events.take(n) =~= earlier);
        } else {
            lemma_prefix_follows(start, earlier, n);
            assert(earlier.take(n) =~= events.take(n));
        }
    }
}

/// A URL that is recorded stays recorded through a session.
pub proof fn law_recorded_stays_recorded(start: CrawlerView, events: Seq<Event>, url: Seq<char>)
    requires
        start.list.visited(url),
    ensures
        run(start, events).list.visited(url),
    decreases events.len(),
{
    if events.len() > 0 {
        law_recorded_stays_recorded(start, events.drop_last(), url);
        law_record_only_grows(run(start, events.drop_last()), events.last(), url);
    }
}

/// A URL is handed to the fetcher only while it has no recorded outcome.
pub proof fn law_fetch_is_of_unrecorded(state: CrawlerView, event: Event)
    ensures
        state.hands_out(event) matches Some(url) ==> !state.list.visited(url) && verdict(
            url,
            state.list,
        ) is Admit,
{
}

/// A URL with a recorded outcome is never handed to the fetcher again,
/// whatever the session does.
pub proof fn law_recorded_never_fetched(start: CrawlerView, events: Seq<Event>, url: Seq<char>)
    requires
        start.list.visited(url),
    ensures
        !fetches(start, events).contains(url),
    decreases events.len(),
{
    if events.len() > 0 {
        let earlier = events.drop_last();
        law_recorded_never_fetched(start, earlier, url);
        law_recorded_stays_recorded(start, earlier, url);
        law_fetch_is_of_unrecorded(run(start, earlier), events.last());
        let fetched = fetches(start, earlier);
        if fetches(start, events).contains(url) {
            let i = choose|i: int|
                0 <= i < fetches(start, events).len() && fetches(start, events)[i] == url;
            assert(fetched[i] == url);
        }
    }
}

/// Appending a URL to a list raises its own count by one and no other.
pub proof fn lemma_occurrences_push(urls: Seq<Seq<char>>, new: Seq<char>, url: Seq<char>)
    ensures
        occurrences(urls.push(new), url) == occurrences(urls, url) + (if new == url {
            1nat
        } else {
            0nat
        }),
{
    assert(urls.push(new).drop_last() =~= urls);
}

/// A URL stands in a list if and only if it is counted there.
pub proof fn lemma_occurrences_contains(urls: Seq<Seq<char>>, url: Seq<char>)
    ensures
        occurrences(urls, url) > 0 <==> urls.contains(url),
    decreases urls.len(),
{
    if urls.len() > 0 {
        lemma_occurrences_contains(urls.drop_last(), url);
        if urls.last() == url {
            assert(urls[urls.len() - 1] == url);
        } else {
            if urls.contains(url) {
                let i = choose|i: int| 0 <= i < urls.len() && urls[i] == url;
                assert(urls.drop_last()[i] == url);
            }
            if urls.drop_last().contains(url) {
                let i = choose|i: int| 0 <= i < urls.drop_last().len() && urls.drop_last()[i] == url;
                assert(urls[i] == url);
            }
        }
    }
}

/// Every fetch is accounted for. In a session that follows the protocol,
/// each time a URL is handed to the fetcher the fetch ends with an outcome,
/// ends without one, or is still under way: for every URL, the fetches
/// handed out, with the one under way at the start, are as many as the
/// fetches that ended either way, with the one under way at the end.
pub proof fn law_fetches_accounted(start: CrawlerView, events: Seq<Event>, url: Seq<char>)
    requires
        follows_protocol(start, events),
    ensures
        occurrences(fetches(start, events), url) + in_flight(start, url) == occurrences(
            abandoned(start, events),
            url,
        ) + occurrences(concluded(start, events), url) + in_flight(run(start, events), url),
    decreases events.len(),
{
    if events.len() > 0 {
        let earlier = events.drop_last();
        let before = run(start, earlier);
        let event = events.last();
        law_fetches_accounted(start, earlier, url);
        match before.hands_out(event) {
            Some(new) => lemma_occurrences_push(fetches(start, earlier), new, url),
            None => {},
        }
        match before.abandons(event) {
            Some(new) => lemma_occurrences_push(abandoned(start, earlier), new, url),
            None => {},
        }
        match before.concludes(event) {
            Some(new) => lemma_occurrences_push(concluded(start, earlier), new, url),
            None => {},
        }
    }
}

/// An outcome is recorded once. In a session that follows the protocol
/// from a well-formed state, no URL comes back with an outcome twice; a URL
/// that comes back with one had none at the start and has one at the end.
pub proof fn law_outcome_once(start: CrawlerView, events: Seq<Event>)
    requires
        start.wf(),
        follows_protocol(start, events),
    ensures
        concluded(start, events).no_duplicates(),
        forall|url: Seq<char>| #[trigger]
            concluded(start, events).contains(url) ==> !start.list.visited(url) && run(
                start,
                events,
            ).list.visited(url),
    decreases events.len(),
{
    if events.len() > 0 {
        let earlier = events.drop_last();
        let before = run(start, earlier);
        let event = events.last();
        let after = before.step(event);
        law_outcome_once(start, earlier);
        law_session_keeps_wf(start, earlier);
        let done = concluded(start, earlier);
        assert forall|url: Seq<char>| #[trigger] done.contains(url) implies after.list.visited(
            url,
        ) by {
            law_record_only_grows(before, event, url);
        }
        match before.concludes(event) {
            Some(new) => {
                assert(!before.list.visited(new));
                assert(!done.contains(new));
                if start.list.visited(new) {
                    law_recorded_stays_recorded(start, earlier, new);
                }
                law_success_blocks_revisit(new, before.list);
                law_failure_blocks_retry(new, before.list);
                assert(after.list.visited(new));
                let grown = done.push(new);
                assert forall|i: int, j: int|
                    0 <= i < grown.len() && 0 <= j < grown.len() && i != j implies grown[i]
                    != grown[j] by {
                    if i < done.len() {
                        assert(done.contains(done[i]));
                    }
                    if j < done.len() {
                        assert(done.contains(done[j]));
                    }
                }
                assert forall|url: Seq<char>| #[trigger] grown.contains(url) implies 
                    !start.list.visited(url) && after.list.visited(url) by {
                    if url != new {
                        let i = choose|i: int| 0 <= i < grown.len() && grown[i] == url;
                        assert(done[i] == url);
                        assert(done.contains(url));
                    }
                }
            },
            None => {},
        }
    }
}

/// No double fetch. In a session that follows the protocol from a
/// well-formed state, take any event that hands a URL to the fetcher. Up
/// to that event the URL has no recorded outcome and no fetch of it came
/// back with one: every earlier fetch of it ended without an outcome,
/// answered with a status outside the success class. So a URL whose fetch
/// came back with an outcome is never fetched again, and a URL is fetched
/// again only after a fetch that recorded nothing.
pub proof fn law_no_double_fetch(start: CrawlerView, events: Seq<Event>, at: int)
    requires
        start.wf(),
        follows_protocol(start, events),
        0 <= at < events.len(),
        run(start, events.take(at)).hands_out(events[at]) is Some,
    ensures
        ({
            let url = run(start, events.take(at)).hands_out(events[at])->0;
            let earlier = events.take(at);
            &&& !run(start, earlier).list.visited(url)
            &&& !start.list.visited(url)
            &&& !concluded(start, earlier).contains(url)
            &&& occurrences(fetches(start, earlier), url) + in_flight(start, url) == occurrences(
                abandoned(start, earlier),
                url,
            )
        }),
{
    let earlier = events.take(at);
    let before = run(start, earlier);
    let url = before.hands_out(events[at])->0;
    lemma_prefix_follows(start, events, at);
    law_fetch_is_of_unrecorded(before, events[at]);
    if start.list.visited(url) {
        law_recorded_stays_recorded(start, earlier, url);
    }
    law_outcome_once(start, earlier);
    law_fetches_accounted(start, earlier, url);
    lemma_occurrences_contains(concluded(start, earlier), url);
    assert(before.idle());
}

/// Where every answered fetch of a session is answered with a success
/// status, so that every fetch comes back with an outcome, the general law
/// sharpens to this: no URL is handed to the fetcher twice; no URL is
/// handed to the fetcher that had an outcome, or was being fetched, at the
/// start; and every URL handed out is recorded or still being fetched at
/// the end.
pub proof fn law_fetch_once_where_conclusive(start: CrawlerView, events: Seq<Event>)
    requires
        start.wf(),
        follows_protocol(start, events),
        conclusive(events),
    ensures
        run(start, events).wf(),
        fetches(start, events).no_duplicates(),
        forall|url: Seq<char>| #[trigger]
            fetches(start, events).contains(url) ==> !accounted(start, url) && accounted(
                run(start, events),
                url,
            ),
        forall|url: Seq<char>| #[trigger]
            accounted(start, url) ==> accounted(run(start, events), url),
    decreases events.len(),
{
    if events.len() > 0 {
        let earlier = events.drop_last();
        let event = events.last();
        let before = run(start, earlier);
        let after = before.step(event);
        assert(conclusive(earlier)) by {
            assert forall|i: int| 0 <= i < earlier.len() implies (#[trigger] earlier[i] matches Event::Answered(
                status,
            ) ==> success_status(status)) by {
                assert(earlier[i] == events[i]);
            }
        }
        assert(event == events[events.len() - 1]);
        law_fetch_once_where_conclusive(start, earlier);
        law_step_keeps_wf(before, event);
        let fetched = fetches(start, earlier);
        assert forall|url: Seq<char>| #[trigger] accounted(start, url) implies accounted(
            after,
            url,
        ) by {
            lemma_step_keeps_accounted(before, event, url);
        }
        match before.hands_out(event) {
            Some(new) => {
                assert(!accounted(before, new));
                assert(accounted(after, new));
                let grown = fetched.push(new);
                assert(!fetched.contains(new));
                assert forall|i: int, j: int|
                    0 <= i < grown.len() && 0 <= j < grown.len() && i != j implies grown[i]
                    != grown[j] by {
                    if i < fetched.len() {
                        assert(fetched.contains(fetched[i]));
                    }
                    if j < fetched.len() {
                        assert(fetched.contains(fetched[j]));
                    }
                }
                assert forall|url: Seq<char>| #[trigger] grown.contains(url) implies !accounted(
                    start,
                    url,
                ) && accounted(after, url) by {
                    if url != new {
                        let i = choose|i: int| 0 <= i < grown.len() && grown[i] == url;
                        assert(fetched[i] == url);
                        assert(fetched.contains(url));
                        lemma_step_keeps_accounted(before, event, url);
                    }
                }
            },
            None => {
                assert forall|url: Seq<char>| #[trigger] fetched.contains(url) implies !accounted(
                    start,
                    url,
                ) && accounted(after, url) by {
                    lemma_step_keeps_accounted(before, event, url);
                }
            },
        }
    }
}

/// The outcomes of a session are bounded by the URLs there are. In a
/// session that follows the protocol from a well-formed state, where every
/// URL that comes back with an outcome is of a finite set, the fetches
/// that come back with an outcome are at most as many as the set has URLs.
/// So a crawl of a finite link graph, cyclic or not, records finitely many
/// outcomes.
pub proof fn law_outcomes_bounded(start: CrawlerView, events: Seq<Event>, urls: Set<Seq<char>>)
    requires
        start.wf(),
        follows_protocol(start, events),
        urls.finite(),
        forall|url: Seq<char>| concluded(start, events).contains(url) ==> urls.contains(url),
    ensures
        concluded(start, events).len() <= urls.len(),
{
    law_outcome_once(start, events);
    let done = concluded(start, events);
    done.unique_seq_to_set();
    assert(done.to_set().subset_of(urls));
    vstd::set_lib::lemma_len_subset(done.to_set(), urls);
}

/// Every fetch of a session ends with an outcome, ends without one, or is
/// the one still under way: the fetches handed out are at most the fetches
/// that ended without an outcome, the fetches that ended with one, and one
/// more.
pub proof fn law_fetches_counted(start: CrawlerView, events: Seq<Event>)
    requires
        follows_protocol(start, events),
    ensures
        fetches(start, events).len() + (if start.fetching is Some { 1nat } else { 0nat })
            == abandoned(start, events).len() + concluded(start, events).len() + (if run(
            start,
            events,
        ).fetching is Some {
            1nat
        } else {
            0nat
        }),
    decreases events.len(),
{
    if events.len() > 0 {
        law_fetches_counted(start, events.drop_last());
    }
}

/// The fetches of a session are bounded. In a session that follows the
/// protocol from a well-formed state, where every URL that comes back with
/// an outcome is of a finite set, the fetches handed out are at most the
/// fetches that ended without an outcome, the URLs of the set, and one
/// for a fetch still under way. Where every fetch comes back with an
/// outcome, a crawl of a finite link graph makes at most one fetch for
/// each of its URLs.
pub proof fn law_fetches_bounded(start: CrawlerView, events: Seq<Event>, urls: Set<Seq<char>>)
    requires
        start.wf(),
        follows_protocol(start, events),
        urls.finite(),
        forall|url: Seq<char>| concluded(start, events).contains(url) ==> urls.contains(url),
    ensures
        fetches(start, events).len() <= abandoned(start, events).len() + urls.len() + (if run(
            start,
            events,
        ).fetching is Some {
            1nat
        } else {
            0nat
        }),
{
    law_fetches_counted(start, events);
    law_outcomes_bounded(start, events, urls);
}

/// The ignored count only grows, and by exactly one for each URL that is
/// rejected: after a session it is the count at the start plus the number
/// of rejections.
pub proof fn law_ignored_counts_rejections(start: CrawlerView, events: Seq<Event>)
    ensures
        run(start, events).list.ignored == start.list.ignored + rejections(start, events),
        run(start, events).list.ignored >= start.list.ignored,
    decreases events.len(),
{
    if events.len() > 0 {
        law_ignored_counts_rejections(start, events.drop_last());
    }
}

/// A single transition raises the ignored count by one if it rejects a
/// URL, and leaves it as it is otherwise.
pub proof fn law_ignored_steps_by_one(state: CrawlerView, event: Event)
    ensures
        state.step(event).list.ignored == state.list.ignored + (if state.rejects(event) {
            1nat
        } else {
            0nat
        }),
{
}

/// Entering a failure changes the verdict on no other URL.
proof fn lemma_failure_keeps_other_verdicts(list: SiteListView, url: Seq<char>, other: Seq<char>)
    requires
        other != url,
    ensures
        verdict(other, list.fail(url)) == verdict(other, list),
{
    let after = list.fail(url);
    if after.failed.contains(other) && !list.failed.contains(other) {
        let i = choose|i: int| 0 <= i < after.failed.len() && after.failed[i] == other;
        assert(list.failed[i] == other);
    }
    if list.failed.contains(other) {
        let i = choose|i: int| 0 <= i < list.failed.len() && list.failed[i] == other;
        assert(after.failed[i] == other);
    }
}

/// Failure isolation. When a fetch comes back with a failure, the URLs
/// that are pending stay pending in their order, and the verdict on every
/// other URL is what it was. So the links found beside the failed one are
/// still judged and fetched as if it had not been there: unless the next
/// pending URL is the failed one itself, the caller is told for it what it
/// would have been told had the failed fetch never been made.
pub proof fn law_failure_spares_siblings(
    state: CrawlerView,
    outcome: FetchOutcomeView,
    sibling: Seq<char>,
)
    requires
        state.wf(),
        state.fetching is Some,
        !(outcome is Body),
        sibling != state.fetching->0,
    ensures
        state.parse(outcome).idle(),
        state.parse(outcome).frontier == state.frontier,
        state.parse(outcome).list.succeeded == state.list.succeeded,
        state.parse(outcome).list.ignored == state.list.ignored,
        verdict(sibling, state.parse(outcome).list) == verdict(sibling, state.list),
        state.frontier.len() > 0 && state.frontier.last() != state.fetching->0
            ==> state.parse(outcome).next().1 == (CrawlerView { fetching: None, ..state }).next().1,
{
    let url = state.fetching->0;
    lemma_failure_keeps_other_verdicts(state.list, url, sibling);
    if state.frontier.len() > 0 && state.frontier.last() != url {
        lemma_failure_keeps_other_verdicts(state.list, url, state.frontier.last());
    }
}

/// The URL passes every check of the classifier that reads the URL alone.
pub open spec fn fetchable(url: Seq<char>) -> bool {
    verdict(url, SiteListView::empty()) is Admit
}

/// Cycle termination. Where page `a` links to page `b` alone and `b` links
/// back to `a` alone, a crawl from `a` fetches `a`, then `b`, and ends: the
/// second encounter of `a` is rejected as already visited, both pages are
/// recorded as successes, and nothing is left to do.
#[verifier::rlimit(50)]
pub proof fn law_two_page_cycle_ends(
    a: Seq<char>,
    b: Seq<char>,
    body_a: Seq<char>,
    body_b: Seq<char>,
)
    requires
        fetchable(a),
        fetchable(b),
        a != b,
        links_in(body_a) == seq![b],
        links_in(body_b) == seq![a],
    ensures
        ({
            let events = seq![
                Event::Crawl(a),
                Event::Answered(200),
                Event::Parse(FetchOutcomeView::Body(body_a)),
                Event::Next,
                Event::Answered(200),
                Event::Parse(FetchOutcomeView::Body(body_b)),
                Event::Next,
            ];
            let end = run(CrawlerView::start(), events);
            &&& follows_protocol(CrawlerView::start(), events)
            &&& fetches(CrawlerView::start(), events) == seq![a, b]
            &&& end.done()
            &&& end.list.succeeded == seq![a, b]
            &&& end.list.failed == Seq::<Seq<char>>::empty()
            &&& end.list.ignored == 1
            &&& run(CrawlerView::start(), events.drop_last()).told(Event::Next) == Some(
                StepView::Ignored {
                    url: a,
                    reason: RejectReason::AlreadyVisited,
                    warn: false,
                },
            )
        }),
{
    let start = CrawlerView::start();
    let e1 = Event::Crawl(a);
    let e2 = Event::Answered(200);
    let e3 = Event::Parse(FetchOutcomeView::Body(body_a));
    let e4 = Event::Next;
    let e5 = Event::Answered(200);
    let e6 = Event::Parse(FetchOutcomeView::Body(body_b));
    let e7 = Event::Next;
    let t0 = Seq::<Event>::empty();
    let t1 = seq![e1];
    let t2 = seq![e1, e2];
    let t3 = seq![e1, e2, e3];
    let t4 = seq![e1, e2, e3, e4];
    let t5 = seq![e1, e2, e3, e4, e5];
    let t6 = seq![e1, e2, e3, e4, e5, e6];
    let t7 = seq![e1, e2, e3, e4, e5, e6, e7];
    assert(t1.drop_last() =~= t0);
    assert(t2.drop_last() =~= t1);
    assert(t3.drop_last() =~= t2);
    assert(t4.drop_last() =~= t3);
    assert(t5.drop_last() =~= t4);
    assert(t6.drop_last() =~= t5);
    assert(t7.drop_last() =~= t6);

    let s0 = start;
    assert(run(start, t0) == s0);
    assert(fetches(start, t0) =~= Seq::<Seq<char>>::empty());
    assert(follows_protocol(start, t0));
    let s1 = s0.step(e1);
    assert(run(start, t1) == s1);
    assert(s1.fetching == Some(a) && s1.list == SiteListView::empty() && s1.frontier.len() == 0);
    let s2 = s1.step(e2);
    assert(run(start, t2) == s2);
    assert(s2 == s1);
    let s3 = s2.step(e3);
    assert(run(start, t3) == s3);
    assert(seq![b].reverse() =~= seq![b]);
    assert(s3.frontier =~= seq![b]);
    assert(s3.list.succeeded =~= seq![a]);
    assert(s3.list.failed =~= Seq::<Seq<char>>::empty());
    assert(!s3.list.succeeded.contains(b));
    assert(s3.frontier.drop_last() =~= Seq::<Seq<char>>::empty());
    let s4 = s3.step(e4);
    assert(run(start, t4) == s4);
    assert(s4.fetching == Some(b));
    assert(s4.frontier.len() == 0);
    let s5 = s4.step(e5);
    assert(run(start, t5) == s5);
    assert(s5 == s4);
    let s6 = s5.step(e6);
    assert(run(start, t6) == s6);
    assert(seq![a].reverse() =~= seq![a]);
    assert(s6.frontier =~= seq![a]);
    assert(s6.list.succeeded =~= seq![a, b]);
    assert(s6.list.succeeded[0] == a);
    assert(s6.list.succeeded.contains(a));
    assert(s6.frontier.drop_last() =~= Seq::<Seq<char>>::empty());
    let s7 = s6.step(e7);
    assert(run(start, t7) == s7);
    assert(s7.frontier.len() == 0);

    assert(fetches(start, t1) =~= seq![a]);
    assert(fetches(start, t2) =~= seq![a]);
    assert(fetches(start, t3) =~= seq![a]);
    assert(fetches(start, t4) =~= seq![a, b]);
    assert(fetches(start, t5) =~= seq![a, b]);
    assert(fetches(start, t6) =~= seq![a, b]);
    assert(fetches(start, t7) =~= seq![a, b]);

    assert(follows_protocol(start, t1));
    assert(follows_protocol(start, t2));
    assert(follows_protocol(start, t3));
    assert(follows_protocol(start, t4));
    assert(follows_protocol(start, t5));
    assert(follows_protocol(start, t6));
    assert(follows_protocol(start, t7));
}

} // verus!
