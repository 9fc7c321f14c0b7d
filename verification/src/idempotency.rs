//! The idempotency decorator.
//!
//! A call first asks the provider whether the request has been processed
//! before. If so the call is rejected with `AlreadyProcessed` and the inner
//! service is never reached: this is a final answer, not a fault to retry.
//! Otherwise the call takes the guard of the inner service, calls the inner
//! service, and gives the guard back whether the inner service succeeded or
//! failed.
//!
//! Two choices are made here on purpose. The decorator only consults the
//! provider: it never reports a request as processed, so a provider answers
//! `Found` only for what was recorded in it by other means. And there is one
//! guard for the inner service, not one per request: every call that reaches
//! the inner service waits for every other, whether or not their requests
//! are the same.

use crate::error::Error;
use vstd::prelude::*;

verus! {

/// Requests sent to the idempotency provider.
#[derive(Debug, PartialEq, Eq)]
pub enum IdempotencyRequest<Req> {
    /// Ask whether this request has been processed before.
    Check(Req),
}

/// Responses sent by the idempotency provider.
#[derive(Debug, PartialEq, Eq)]
pub enum IdempotencyResponse {
    /// The request has been processed before.
    Found,
    /// The request is new.
    NotFound,
}

/// Configuration of the idempotency decorator: the provider.
pub struct IdempotencyLayer<P> {
    provider: P,
}

/// An inner service wrapped by the idempotency decorator.
pub struct IdempotencyService<S, P> {
    inner: S,
    provider: P,
}

impl<P> IdempotencyLayer<P> {
    /// The provider that this layer hands to the services it builds.
    pub closed spec fn spec_provider(&self) -> &P {
        &self.provider
    }

    /// The provider that this layer hands to the services it builds.
    #[verifier::when_used_as_spec(spec_provider)]
    pub fn provider(&self) -> (provider: &P)
        ensures
            provider == self.spec_provider(),
    {
        &self.provider
    }

    /// Creates a layer around `provider`.
    pub fn new(provider: P) -> (layer: Self)
        ensures
            *layer.provider() == provider,
    {
        IdempotencyLayer { provider }
    }

    /// Wraps `inner`, giving the new service its own handle on the provider.
    pub fn layer<S>(&self, inner: S) -> (service: IdempotencyService<S, P>) where P: Clone
        ensures
            *service.inner() == inner,
            cloned(*self.provider(), *service.provider()),
    {
        IdempotencyService { inner, provider: self.provider.clone() }
    }
}

/// Where one call through the idempotency decorator stands.
#[derive(Debug, PartialEq, Eq)]
pub enum IdempotencyCall<R> {
    /// The provider has been asked about the request; the request waits.
    AwaitCheck { request: R },
    /// The request is new; the call waits for the guard of the inner service.
    AwaitGuard { request: R },
    /// The call holds the guard; the inner service has the request.
    AwaitInner,
    /// The call has returned.
    Done,
}

/// What the runtime reports back to a call.
#[derive(Debug, PartialEq, Eq)]
pub enum IdempotencyEvent<Res, C> {
    /// The provider's answer to the check.
    Provider(Result<IdempotencyResponse, C>),
    /// The guard of the inner service has been granted to this call.
    Acquired,
    /// The inner service's answer to the request.
    Inner(Result<Res, C>),
}

/// What a call asks the runtime to do next.
#[derive(Debug, PartialEq, Eq)]
pub enum IdempotencyAction<R, Res, C> {
    /// Send this message to the provider, after awaiting its readiness.
    AskProvider(IdempotencyRequest<R>),
    /// Wait until no other call holds the guard of the inner service, and
    /// take it.
    Acquire,
    /// Call the inner service with this request.
    CallInner(R),
    /// Give the guard back, then resolve the call with this result.
    Release(Result<Res, Error<C>>),
    /// Resolve the call with this result; the call holds no guard.
    Return(Result<Res, Error<C>>),
}

impl<R> IdempotencyCall<R> {
    /// Whether `event` answers what this call is waiting for.
    pub open spec fn awaits<Res, C>(self, event: IdempotencyEvent<Res, C>) -> bool {
        match self {
            IdempotencyCall::AwaitCheck { .. } => event is Provider,
            IdempotencyCall::AwaitGuard { .. } => event is Acquired,
            IdempotencyCall::AwaitInner => event is Inner,
            IdempotencyCall::Done => false,
        }
    }

    /// The transitions of a call: the state that `event` leads to, and the
    /// action asked for. An event that the call does not await ends it with
    /// `InternalError`, giving the guard back if the call holds it.
    pub open spec fn next<Res, C>(self, event: IdempotencyEvent<Res, C>) -> (
        Self,
        IdempotencyAction<R, Res, C>,
    ) {
        match (self, event) {
            (IdempotencyCall::AwaitCheck { request }, IdempotencyEvent::Provider(answer)) => match answer {
                Ok(IdempotencyResponse::Found) => (
                    IdempotencyCall::Done,
                    IdempotencyAction::Return(Err(Error::AlreadyProcessed)),
                ),
                Ok(IdempotencyResponse::NotFound) => (
                    IdempotencyCall::AwaitGuard { request },
                    IdempotencyAction::Acquire,
                ),
                Err(cause) => (
                    IdempotencyCall::Done,
                    IdempotencyAction::Return(Err(Error::ProviderError(cause))),
                ),
            },
            (IdempotencyCall::AwaitGuard { request }, IdempotencyEvent::Acquired) => (
                IdempotencyCall::AwaitInner,
                IdempotencyAction::CallInner(request),
            ),
            (IdempotencyCall::AwaitInner, IdempotencyEvent::Inner(outcome)) => match outcome {
                Ok(response) => (IdempotencyCall::Done, IdempotencyAction::Release(Ok(response))),
                Err(cause) => (
                    IdempotencyCall::Done,
                    IdempotencyAction::Release(Err(Error::ServiceError(cause))),
                ),
            },
            (IdempotencyCall::AwaitInner, _) => (
                IdempotencyCall::Done,
                IdempotencyAction::Release(Err(Error::InternalError)),
            ),
            _ => (IdempotencyCall::Done, IdempotencyAction::Return(Err(Error::InternalError))),
        }
    }

    /// Advances the call with the outcome of the action it last asked for.
    ///
    /// A request that the provider has seen is rejected with
    /// `AlreadyProcessed`, and a failure of the provider ends the call; in
    /// both cases the inner service is not reached. A new request waits for
    /// the guard, is handed to the inner service once the guard is granted,
    /// and the guard is given back with the inner service's answer, be it a
    /// response or a failure.
    ///
    /// An event that does not answer what the call is waiting for is a fault
    /// of the runtime and ends the call with `InternalError`.
    pub fn step<Res, C>(self, event: IdempotencyEvent<Res, C>) -> (next: (
        Self,
        IdempotencyAction<R, Res, C>,
    ))
        ensures
            next == self.next(event),
            self.awaits(event) <==> next.1 != IdempotencyAction::<R, Res, C>::Return(
                Err(Error::InternalError),
            ) && next.1 != IdempotencyAction::<R, Res, C>::Release(Err(Error::InternalError)),
    {
        match self {
            IdempotencyCall::AwaitCheck { request } => match event {
                IdempotencyEvent::Provider(Ok(IdempotencyResponse::Found)) => (
                    IdempotencyCall::Done,
                    IdempotencyAction::Return(Err(Error::AlreadyProcessed)),
                ),
                IdempotencyEvent::Provider(Ok(IdempotencyResponse::NotFound)) => (
                    IdempotencyCall::AwaitGuard { request },
                    IdempotencyAction::Acquire,
                ),
                IdempotencyEvent::Provider(Err(cause)) => (
                    IdempotencyCall::Done,
                    IdempotencyAction::Return(Err(Error::ProviderError(cause))),
                ),
                _ => (IdempotencyCall::Done, IdempotencyAction::Return(Err(Error::InternalError))),
            },
            IdempotencyCall::AwaitGuard { request } => match event {
                IdempotencyEvent::Acquired => (
                    IdempotencyCall::AwaitInner,
                    IdempotencyAction::CallInner(request),
                ),
                _ => (IdempotencyCall::Done, IdempotencyAction::Return(Err(Error::InternalError))),
            },
            IdempotencyCall::AwaitInner => match event {
                IdempotencyEvent::Inner(Ok(response)) => (
                    IdempotencyCall::Done,
                    IdempotencyAction::Release(Ok(response)),
                ),
                IdempotencyEvent::Inner(Err(cause)) => (
                    IdempotencyCall::Done,
                    IdempotencyAction::Release(Err(Error::ServiceError(cause))),
                ),
                _ => (IdempotencyCall::Done, IdempotencyAction::Release(Err(Error::InternalError))),
            },
            IdempotencyCall::Done => (
                IdempotencyCall::Done,
                IdempotencyAction::Return(Err(Error::InternalError)),
            ),
        }
    }
}

impl<S, P> IdempotencyService<S, P> {
    /// The wrapped service, shared by all calls behind one guard.
    pub closed spec fn spec_inner(&self) -> &S {
        &self.inner
    }

    /// The provider consulted by this service.
    pub closed spec fn spec_provider(&self) -> &P {
        &self.provider
    }

    /// The wrapped service, shared by all calls behind one guard.
    #[verifier::when_used_as_spec(spec_inner)]
    pub fn inner(&self) -> (inner: &S)
        ensures
            inner == self.spec_inner(),
    {
        &self.inner
    }

    /// The provider consulted by this service.
    #[verifier::when_used_as_spec(spec_provider)]
    pub fn provider(&self) -> (provider: &P)
        ensures
            provider == self.spec_provider(),
    {
        &self.provider
    }

    /// Exclusive access to the provider, for polling and calling it.
    pub fn provider_mut(&mut self) -> (provider: &mut P)
        ensures
            *provider == *old(self).provider(),
            *final(self).provider() == *final(provider),
            *final(self).inner() == *old(self).inner(),
    {
        &mut self.provider
    }

    /// Opens a call: the provider is asked about a copy of `request`, and
    /// the request itself is kept for the inner service.
    pub fn call<R: Clone, Res, C>(&self, request: R) -> (started: (
        IdempotencyCall<R>,
        IdempotencyAction<R, Res, C>,
    ))
        ensures
            started.0 == (IdempotencyCall::AwaitCheck { request }),
            started.1 matches IdempotencyAction::AskProvider(IdempotencyRequest::Check(asked))
                && cloned(request, asked),
    {
        let asked = request.clone();
        (
            IdempotencyCall::AwaitCheck { request },
            IdempotencyAction::AskProvider(IdempotencyRequest::Check(asked)),
        )
    }
}

} // verus!
