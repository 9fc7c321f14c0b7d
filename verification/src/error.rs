//! The error taxonomy shared by the decorators.

use vstd::prelude::*;
use vstd::string::StringExecFns;

verus! {

/// Error returned by a decorated call.
///
/// Failures can come from the provider, from the inner service or from the
/// decorator itself, so each is tagged by its source. The cause `C` is opaque
/// to the decorators: it is carried through untouched.
#[derive(Debug, PartialEq, Eq)]
pub enum Error<C> {
    /// The provider failed, on a lookup, a write or a readiness poll.
    ProviderError(C),
    /// The inner service failed.
    ServiceError(C),
    /// Reserved for failures of the decorator itself; no transition produces it.
    InternalError,
    /// The provider reported the request as already processed. This is a
    /// definite rejection, not a fault of the provider or the inner service.
    AlreadyProcessed,
}

impl<C> Error<C> {
    /// The text of this error, given the text of its cause. Variants without
    /// a cause ignore `cause`.
    pub open spec fn message_spec(self, cause: Seq<char>) -> Seq<char> {
        match self {
            Error::ProviderError(_) => "provider error: "@ + cause,
            Error::ServiceError(_) => "service error: "@ + cause,
            Error::InternalError => "internal error"@,
            Error::AlreadyProcessed => "already processed"@,
        }
    }

    /// Renders this error for display. `cause` is the rendering of the
    /// wrapped cause and is ignored by the variants that wrap none.
    pub fn message(&self, cause: &str) -> (text: String)
        ensures
            text@ == self.message_spec(cause@),
    {
        match self {
            Error::ProviderError(_) => String::from_str("provider error: ").concat(cause),
            Error::ServiceError(_) => String::from_str("service error: ").concat(cause),
            Error::InternalError => String::from_str("internal error"),
            Error::AlreadyProcessed => String::from_str("already processed"),
        }
    }
}

} // verus!
