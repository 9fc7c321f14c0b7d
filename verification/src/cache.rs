//! The cache decorator.
//!
//! A call first asks the provider for a response stored under the request's
//! key. A stored response is returned at once and the inner service is never
//! reached. Otherwise the inner service is called with the request as it came,
//! its response is handed to the provider for storage, and then returned.
//! Failures are never stored, and a failed write is reported even though the
//! inner service succeeded.
//!
//! Calls do not exclude one another: two calls with the same key that both
//! miss both reach the inner service and both write, and the provider keeps
//! whichever write it sees last.

use crate::error::Error;
use crate::protocol::{ProviderRequest, ProviderResponse};
use crate::transform::Transform;
use vstd::prelude::*;

verus! {

/// Configuration of the cache decorator: the provider, and the transformer
/// that derives keys from requests.
pub struct CacheLayer<P, T> {
    provider: P,
    transformer: T,
}

/// An inner service wrapped by the cache decorator.
pub struct CacheService<S, P, T> {
    inner: S,
    provider: P,
    transformer: T,
}

impl CacheLayer<(), ()> {
    /// Creates a layer around `provider` in which every request is its own
    /// key.
    pub fn new<P>(provider: P) -> (layer: CacheLayer<P, ()>)
        ensures
            *layer.provider() == provider,
            *layer.transformer() == (),
    {
        CacheLayer { provider, transformer: () }
    }
}

impl<P, T> CacheLayer<P, T> {
    /// The provider that this layer hands to the services it builds.
    pub closed spec fn spec_provider(&self) -> &P {
        &self.provider
    }

    /// The transformer that this layer hands to the services it builds.
    pub closed spec fn spec_transformer(&self) -> &T {
        &self.transformer
    }

    /// The provider that this layer hands to the services it builds.
    #[verifier::when_used_as_spec(spec_provider)]
    pub fn provider(&self) -> (provider: &P)
        ensures
            provider == self.spec_provider(),
    {
        &self.provider
    }

    /// The transformer that this layer hands to the services it builds.
    #[verifier::when_used_as_spec(spec_transformer)]
    pub fn transformer(&self) -> (transformer: &T)
        ensures
            transformer == self.spec_transformer(),
    {
        &self.transformer
    }

    /// Replaces the transformer, keeping the provider.
    pub fn with_transformer<NT>(self, transformer: NT) -> (layer: CacheLayer<P, NT>)
        ensures
            *layer.provider() == *self.provider(),
            *layer.transformer() == transformer,
    {
        CacheLayer { provider: self.provider, transformer }
    }

    /// Wraps `inner`, giving the new service its own handles on the provider
    /// and the transformer.
    pub fn layer<S>(&self, inner: S) -> (service: CacheService<S, P, T>) where P: Clone, T: Clone
        ensures
            *service.inner() == inner,
            cloned(*self.provider(), *service.provider()),
            cloned(*self.transformer(), *service.transformer()),
    {
        CacheService {
            inner,
            provider: self.provider.clone(),
            transformer: self.transformer.clone(),
        }
    }
}

impl<S, P, T> CacheService<S, P, T> {
    /// The wrapped service.
    pub closed spec fn spec_inner(&self) -> &S {
        &self.inner
    }

    /// The provider consulted by this service.
    pub closed spec fn spec_provider(&self) -> &P {
        &self.provider
    }

    /// The transformer that derives this service's keys.
    pub closed spec fn spec_transformer(&self) -> &T {
        &self.transformer
    }

    /// The wrapped service.
    #[verifier::when_used_as_spec(spec_inner)]
    pub fn inner(&self) -> (inner: &S)
        ensures
            inner == self.spec_inner(),
    {
        &self.inner
    }

    /// The provider consulted by this service.
    #[verifier::when_used_as_spec(spec_provider)]
    pub fn provider(&self) -> (provider: &P)
        ensures
            provider == self.spec_provider(),
    {
        &self.provider
    }

    /// The transformer that derives this service's keys.
    #[verifier::when_used_as_spec(spec_transformer)]
    pub fn transformer(&self) -> (transformer: &T)
        ensures
            transformer == self.spec_transformer(),
    {
        &self.transformer
    }

    /// The first state of a call for `request`, and the message that opens
    /// it: the key is the transformer's key of a copy of `request`, and the
    /// provider is asked for a copy of that key.
    pub open spec fn begins<R, Res, C>(
        &self,
        request: R,
        call: CacheCall<R, T::Output, Res>,
        first: CacheAction<R, T::Output, Res, C>,
    ) -> bool where T: Transform<R>, R: Clone, T::Output: Clone {
        exists|copy: R|
            {
                &&& #[trigger] cloned(request, copy)
                &&& call == (CacheCall::<R, T::Output, Res>::AwaitGet {
                    request,
                    key: self.transformer().key(copy),
                })
                &&& first matches CacheAction::AskProvider(ProviderRequest::Get(asked))
                &&& cloned(self.transformer().key(copy), asked)
            }
    }

    /// Opens a call: derives the key of `request`, once and before anything
    /// is sent, and asks the provider for it. The request itself is kept for
    /// the inner service.
    pub fn call<R, Res, C>(&self, request: R) -> (started: (
        CacheCall<R, T::Output, Res>,
        CacheAction<R, T::Output, Res, C>,
    )) where T: Transform<R>, R: Clone, T::Output: Clone
        requires
            self.transformer().is_function(),
        ensures
            self.begins(request, started.0, started.1),
    {
        let copy = request.clone();
        let ghost derived_from = copy;
        let key = self.transformer.transform(copy);
        let asked = key.clone();
        assert(cloned(request, derived_from) && cloned(key, asked));
        (
            CacheCall::AwaitGet { request, key },
            CacheAction::AskProvider(ProviderRequest::Get(asked)),
        )
    }

    /// The handles of one call: its own copy of the inner service and of the
    /// provider, so that calls neither share a handle nor wait for one
    /// another.
    pub fn handles(&self) -> (handles: (S, P)) where S: Clone, P: Clone
        ensures
            cloned(*self.inner(), handles.0),
            cloned(*self.provider(), handles.1),
    {
        (self.inner.clone(), self.provider.clone())
    }

    /// Exclusive access to the provider, for polling and calling it.
    pub fn provider_mut(&mut self) -> (provider: &mut P)
        ensures
            *provider == *old(self).provider(),
            *final(self).provider() == *final(provider),
            *final(self).inner() == *old(self).inner(),
            *final(self).transformer() == *old(self).transformer(),
    {
        &mut self.provider
    }
}

/// Where one call through the cache decorator stands.
#[derive(Debug, PartialEq, Eq)]
pub enum CacheCall<R, K, Res> {
    /// The provider has been asked for the key; the request waits.
    AwaitGet { request: R, key: K },
    /// The provider held nothing; the inner service has the request.
    AwaitInner { key: K },
    /// The inner service has answered; the provider is storing a copy.
    AwaitInsert { response: Res },
    /// The call has returned.
    Done,
}

/// What the runtime reports back to a call.
#[derive(Debug, PartialEq, Eq)]
pub enum CacheEvent<Res, C> {
    /// The provider's answer to the last message sent to it.
    Provider(Result<ProviderResponse<Res>, C>),
    /// The inner service's answer to the request.
    Inner(Result<Res, C>),
}

/// What a call asks the runtime to do next.
#[derive(Debug, PartialEq, Eq)]
pub enum CacheAction<R, K, Res, C> {
    /// Send this message to the provider, after awaiting its readiness.
    AskProvider(ProviderRequest<K, Res>),
    /// Call the inner service with this request.
    CallInner(R),
    /// Resolve the call with this result.
    Return(Result<Res, Error<C>>),
}

impl<R, K, Res> CacheCall<R, K, Res> {
    /// Whether `event` answers what this call is waiting for.
    pub open spec fn awaits<C>(self, event: CacheEvent<Res, C>) -> bool {
        match self {
            CacheCall::AwaitGet { .. } => event is Provider,
            CacheCall::AwaitInner { .. } => event is Inner,
            CacheCall::AwaitInsert { .. } => event is Provider,
            CacheCall::Done => false,
        }
    }

    /// The transitions of a call: in state `self`, `event` leads to state
    /// `next` and asks for `action`. An event that the call does not await
    /// ends it with `InternalError`.
    pub open spec fn steps_to<C>(
        self,
        event: CacheEvent<Res, C>,
        next: Self,
        action: CacheAction<R, K, Res, C>,
    ) -> bool where Res: Clone {
        match (self, event) {
            (CacheCall::AwaitGet { request, key }, CacheEvent::Provider(answer)) => match answer {
                Ok(ProviderResponse::Found(response)) => {
                    &&& next == CacheCall::<R, K, Res>::Done
                    &&& action == CacheAction::<R, K, Res, C>::Return(Ok(response))
                },
                Ok(ProviderResponse::NotFound) => {
                    &&& next == (CacheCall::<R, K, Res>::AwaitInner { key })
                    &&& action == CacheAction::<R, K, Res, C>::CallInner(request)
                },
                Err(cause) => {
                    &&& next == CacheCall::<R, K, Res>::Done
                    &&& action == CacheAction::<R, K, Res, C>::Return(
                        Err(Error::ProviderError(cause)),
                    )
                },
            },
            (CacheCall::AwaitInner { key }, CacheEvent::Inner(outcome)) => match outcome {
                Ok(response) => {
                    &&& next == (CacheCall::<R, K, Res>::AwaitInsert { response })
                    &&& action matches CacheAction::AskProvider(ProviderRequest::Insert(k, copy))
                    &&& k == key
                    &&& cloned(response, copy)
                },
                Err(cause) => {
                    &&& next == CacheCall::<R, K, Res>::Done
                    &&& action == CacheAction::<R, K, Res, C>::Return(
                        Err(Error::ServiceError(cause)),
                    )
                },
            },
            (CacheCall::AwaitInsert { response }, CacheEvent::Provider(answer)) => match answer {
                Ok(_) => {
                    &&& next == CacheCall::<R, K, Res>::Done
                    &&& action == CacheAction::<R, K, Res, C>::Return(Ok(response))
                },
                Err(cause) => {
                    &&& next == CacheCall::<R, K, Res>::Done
                    &&& action == CacheAction::<R, K, Res, C>::Return(
                        Err(Error::ProviderError(cause)),
                    )
                },
            },
            _ => {
                &&& next == CacheCall::<R, K, Res>::Done
                &&& action == CacheAction::<R, K, Res, C>::Return(Err(Error::InternalError))
            },
        }
    }

    /// Advances the call with the outcome of the action it last asked for.
    ///
    /// A stored response ends the call without the inner service. A miss
    /// sends the request as it came to the inner service. A response of the
    /// inner service is copied to the provider under the call's key and
    /// returned once the provider has confirmed the write; a failure of the
    /// inner service ends the call with nothing written. Every failure of the
    /// provider ends the call, also one that follows a successful inner call.
    ///
    /// An event that does not answer what the call is waiting for is a fault
    /// of the runtime and ends the call with `InternalError`.
    pub fn step<C>(self, event: CacheEvent<Res, C>) -> (next: (Self, CacheAction<R, K, Res, C>)) where
        Res: Clone,

        ensures
            self.steps_to(event, next.0, next.1),
            self.awaits(event) <==> next.1 != CacheAction::<R, K, Res, C>::Return(
                Err(Error::InternalError),
            ),
    {
        match self {
            CacheCall::AwaitGet { request, key } => match event {
                CacheEvent::Provider(Ok(ProviderResponse::Found(response))) => (
                    CacheCall::Done,
                    CacheAction::Return(Ok(response)),
                ),
                CacheEvent::Provider(Ok(ProviderResponse::NotFound)) => (
                    CacheCall::AwaitInner { key },
                    CacheAction::CallInner(request),
                ),
                CacheEvent::Provider(Err(cause)) => (
                    CacheCall::Done,
                    CacheAction::Return(Err(Error::ProviderError(cause))),
                ),
                CacheEvent::Inner(_) => (CacheCall::Done, CacheAction::Return(Err(Error::InternalError))),
            },
            CacheCall::AwaitInner { key } => match event {
                CacheEvent::Inner(Ok(response)) => {
                    let copy = response.clone();
                    (
                        CacheCall::AwaitInsert { response },
                        CacheAction::AskProvider(ProviderRequest::Insert(key, copy)),
                    )
                },
                CacheEvent::Inner(Err(cause)) => (
                    CacheCall::Done,
                    CacheAction::Return(Err(Error::ServiceError(cause))),
                ),
                CacheEvent::Provider(_) => (
                    CacheCall::Done,
                    CacheAction::Return(Err(Error::InternalError)),
                ),
            },
            CacheCall::AwaitInsert { response } => match event {
                CacheEvent::Provider(Ok(_)) => (CacheCall::Done, CacheAction::Return(Ok(response))),
                CacheEvent::Provider(Err(cause)) => (
                    CacheCall::Done,
                    CacheAction::Return(Err(Error::ProviderError(cause))),
                ),
                CacheEvent::Inner(_) => (CacheCall::Done, CacheAction::Return(Err(Error::InternalError))),
            },
            CacheCall::Done => (CacheCall::Done, CacheAction::Return(Err(Error::InternalError))),
        }
    }
}

} // verus!
