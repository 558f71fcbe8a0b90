//! Admission control: whether a candidate URL may be fetched, judged from
//! the URL string and the record of the crawl so far.

use crate::address::{is_on_network, on_network};
use crate::site_list::{is_listed, SiteList, SiteListView};
use crate::text::{has_prefix, starts_with};
use crate::verdict::{AdmissionVerdict, RejectReason};
use vstd::prelude::*;

verus! {

/// The marker with which a reference relative to the page begins.
pub open spec fn relative_marker() -> Seq<char> {
    seq!['.', '.']
}

/// The marker with which an absolute URL that can be fetched begins.
pub open spec fn scheme_marker() -> Seq<char> {
    seq!['h', 't', 't', 'p']
}

/// The verdict on `url` given the record `list`. The checks are made in a
/// fixed order and the first that applies decides.
///
/// A relative reference that does not begin with the relative marker is not
/// resolved against its page: it is rejected for its scheme.
pub open spec fn verdict(url: Seq<char>, list: SiteListView) -> AdmissionVerdict {
    if !on_network(url) {
        AdmissionVerdict::Reject(RejectReason::WrongNetworkClass)
    } else if list.succeeded.contains(url) {
        AdmissionVerdict::Reject(RejectReason::AlreadyVisited)
    } else if list.failed.contains(url) {
        AdmissionVerdict::Reject(RejectReason::PreviouslyFailed)
    } else if has_prefix(url, relative_marker()) {
        AdmissionVerdict::Reject(RejectReason::RelativeReference)
    } else if !has_prefix(url, scheme_marker()) {
        AdmissionVerdict::Reject(RejectReason::UnsupportedScheme)
    } else {
        AdmissionVerdict::Admit
    }
}

/// Judges `url` against the record `list`. Reads the record and changes
/// nothing.
pub fn classify(url: &str, list: &SiteList) -> (v: AdmissionVerdict)
    ensures
        v == verdict(url@, list@),
{
    proof {
        reveal_strlit("..");
        reveal_strlit("http");
        assert(".."@ =~= relative_marker());
        assert("http"@ =~= scheme_marker());
    }
    if !is_on_network(url) {
        return AdmissionVerdict::Reject(RejectReason::WrongNetworkClass);
    }
    let owned = url.to_owned();
    if is_listed(&list.success_urls, &owned) {
        return AdmissionVerdict::Reject(RejectReason::AlreadyVisited);
    }
    if is_listed(&list.failed_urls, &owned) {
        return AdmissionVerdict::Reject(RejectReason::PreviouslyFailed);
    }
    if starts_with(url, "..") {
        return AdmissionVerdict::Reject(RejectReason::RelativeReference);
    }
    if !starts_with(url, "http") {
        return AdmissionVerdict::Reject(RejectReason::UnsupportedScheme);
    }
    AdmissionVerdict::Admit
}

} // verus!
