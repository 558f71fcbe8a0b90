//! What a fetch can come back with.

use vstd::prelude::*;

verus! {

/// The outcome of one GET request that ran to an end.
#[derive(Debug, Clone, PartialEq, Eq)]
pub enum FetchOutcome {
    /// The response body, decoded as text.
    Body(String),
    /// The request did not get through; the detail is the transport's.
    TransportError(String),
    /// The response body could not be decoded as text.
    NonTextContent(String),
}

/// The mathematical content of a [`FetchOutcome`].
pub enum FetchOutcomeView {
    Body(Seq<char>),
    TransportError(Seq<char>),
    NonTextContent(Seq<char>),
}

impl View for FetchOutcome {
    type V = FetchOutcomeView;

    open spec fn view(&self) -> FetchOutcomeView {
        match self {
            FetchOutcome::Body(text) => FetchOutcomeView::Body(text@),
            FetchOutcome::TransportError(detail) => FetchOutcomeView::TransportError(detail@),
            FetchOutcome::NonTextContent(detail) => FetchOutcomeView::NonTextContent(detail@),
        }
    }
}

impl FetchOutcome {
    /// The outcome of a fetch whose body was read: the text where the body
    /// could be decoded, else the decoder's complaint.
    pub fn decoded(text: Result<String, String>) -> (outcome: FetchOutcome)
        ensures
            outcome@ == match text {
                Ok(body) => FetchOutcomeView::Body(body@),
                Err(detail) => FetchOutcomeView::NonTextContent(detail@),
            },
    {
        match text {
            Ok(body) => FetchOutcome::Body(body),
            Err(detail) => FetchOutcome::NonTextContent(detail),
        }
    }
}

/// The status codes of the success class.
pub open spec fn success_status(status: u16) -> bool {
    200 <= status < 300
}

/// Whether a response with this status code carries a body worth reading.
pub fn is_success(status: u16) -> (ok: bool)
    ensures
        ok == success_status(status),
{
    200 <= status && status < 300
}

} // verus!
