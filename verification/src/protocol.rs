//! The messages exchanged with a cache provider.

use crate::error::Error;
use vstd::prelude::*;

verus! {

/// Requests sent to the cache provider.
#[derive(Debug, PartialEq, Eq)]
pub enum ProviderRequest<Req, Res> {
    /// Ask whether the provider holds a response for this key.
    Get(Req),
    /// Store a response under this key.
    Insert(Req, Res),
}

/// Responses sent by the cache provider.
#[derive(Debug, PartialEq, Eq)]
pub enum ProviderResponse<Res> {
    /// The provider holds this response for the key.
    Found(Res),
    /// The provider holds nothing for the key.
    NotFound,
}

impl<Req: Clone, Res: Clone> Clone for ProviderRequest<Req, Res> {
    /// Clones the message part by part.
    fn clone(&self) -> (copy: Self)
        ensures
            match (*self, copy) {
                (ProviderRequest::Get(key), ProviderRequest::Get(k)) => cloned(key, k),
                (ProviderRequest::Insert(key, response), ProviderRequest::Insert(k, r)) => cloned(
                    key,
                    k,
                ) && cloned(response, r),
                _ => false,
            },
    {
        match self {
            ProviderRequest::Get(key) => ProviderRequest::Get(key.clone()),
            ProviderRequest::Insert(key, response) => ProviderRequest::Insert(
                key.clone(),
                response.clone(),
            ),
        }
    }
}

/// The readiness of a decorator, given the readiness that its provider
/// signals: `None` while the provider is not ready, and a failure of the
/// provider's poll as a provider failure. The inner service is not polled.
pub fn readiness<C>(provider: Option<Result<(), C>>) -> (ready: Option<Result<(), Error<C>>>)
    ensures
        ready == match provider {
            None => None::<Result<(), Error<C>>>,
            Some(Ok(_)) => Some(Ok(())),
            Some(Err(cause)) => Some(Err(Error::ProviderError(cause))),
        },
{
    match provider {
        None => None,
        Some(Ok(_)) => Some(Ok(())),
        Some(Err(cause)) => Some(Err(Error::ProviderError(cause))),
    }
}

} // verus!
