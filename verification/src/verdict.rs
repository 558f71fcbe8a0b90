//! The outcome of judging a candidate URL.

use vstd::prelude::*;

verus! {

/// Why a URL is turned away. The variants are listed in the order in which
/// the checks are made.
#[derive(Clone, Copy, Debug, PartialEq, Eq, Structural)]
pub enum RejectReason {
    /// The address does not belong to the hidden-service network.
    WrongNetworkClass,
    /// The URL was fetched and parsed before.
    AlreadyVisited,
    /// An earlier fetch of the URL failed.
    PreviouslyFailed,
    /// The URL is a reference relative to its page.
    RelativeReference,
    /// The URL does not begin with a scheme that can be fetched.
    UnsupportedScheme,
}

impl RejectReason {
    /// The reasons that are expected and frequent, and so are kept out of the
    /// warnings.
    pub open spec fn noisy(self) -> bool {
        self is WrongNetworkClass || self is AlreadyVisited
    }

    /// Whether a rejection for this reason is kept out of the warnings.
    pub fn is_noisy(self) -> (quiet: bool)
        ensures
            quiet == self.noisy(),
    {
        match self {
            RejectReason::WrongNetworkClass => true,
            RejectReason::AlreadyVisited => true,
            RejectReason::PreviouslyFailed => false,
            RejectReason::RelativeReference => false,
            RejectReason::UnsupportedScheme => false,
        }
    }
}

/// Whether a URL may proceed to fetching.
#[derive(Clone, Copy, Debug, PartialEq, Eq, Structural)]
pub enum AdmissionVerdict {
    Admit,
    Reject(RejectReason),
}

} // verus!
