//! Whole calls through the cache decorator, against a model of what
//! surrounds it.
//!
//! The model provider is a map that keeps what it is given and answers from
//! what it holds; the model inner service is a function of the request. A
//! call is run to its end by answering each of its actions from the model.
//! What is proved here of such runs holds for every way in which `Clone` may
//! behave, except where a statement names the equality it needs.

use crate::cache::{CacheAction, CacheCall, CacheEvent, CacheService};
use crate::error::Error;
use crate::protocol::{ProviderRequest, ProviderResponse};
use crate::transform::Transform;
use vstd::prelude::*;

verus! {

/// Whether every clone of a `T` equals the value it was cloned from.
pub open spec fn clone_is_exact<T: Clone>() -> bool {
    forall|value: T, copy: T| cloned(value, copy) ==> value == copy
}

/// Whether `event` is what the model gives back for `action`: the provider
/// answers a `Get` from `store` and confirms every `Insert`, and the inner
/// service answers with `inner` of the request. Nothing answers a `Return`.
pub open spec fn answers<R, K, Res, C>(
    store: Map<K, Res>,
    inner: spec_fn(R) -> Result<Res, C>,
    action: CacheAction<R, K, Res, C>,
    event: CacheEvent<Res, C>,
) -> bool {
    match action {
        CacheAction::AskProvider(ProviderRequest::Get(key)) => event == CacheEvent::<
            Res,
            C,
        >::Provider(
            Ok(
                if store.contains_key(key) {
                    ProviderResponse::Found(store[key])
                } else {
                    ProviderResponse::NotFound
                },
            ),
        ),
        CacheAction::AskProvider(ProviderRequest::Insert(_, _)) => event matches CacheEvent::Provider(
            Ok(_),
        ),
        CacheAction::CallInner(request) => event == CacheEvent::<Res, C>::Inner(inner(request)),
        CacheAction::Return(_) => false,
    }
}

/// What the model provider holds once `action` has been carried out.
pub open spec fn after<R, K, Res, C>(store: Map<K, Res>, action: CacheAction<R, K, Res, C>) -> Map<
    K,
    Res,
> {
    match action {
        CacheAction::AskProvider(ProviderRequest::Insert(key, response)) => store.insert(
            key,
            response,
        ),
        _ => store,
    }
}

impl<R, K, Res> CacheCall<R, K, Res> {
    /// How many answers this call can still take before it has returned.
    pub open spec fn pending(self) -> nat {
        match self {
            CacheCall::AwaitGet { .. } => 3,
            CacheCall::AwaitInner { .. } => 2,
            CacheCall::AwaitInsert { .. } => 1,
            CacheCall::Done => 0,
        }
    }
}

/// Whether a call in state `call`, having asked for `action`, runs to its end
/// against the model with the actions `trace`, the first of which is `action`
/// and the last of which is its `Return`, and leaves the provider holding
/// `end`.
pub open spec fn serves<R, K, Res: Clone, C>(
    call: CacheCall<R, K, Res>,
    action: CacheAction<R, K, Res, C>,
    store: Map<K, Res>,
    inner: spec_fn(R) -> Result<Res, C>,
    trace: Seq<CacheAction<R, K, Res, C>>,
    end: Map<K, Res>,
) -> bool
    decreases call.pending(),
{
    &&& trace.len() > 0
    &&& trace[0] == action
    &&& match action {
        CacheAction::Return(_) => trace.len() == 1 && end == store,
        _ => exists|event: CacheEvent<Res, C>, next: CacheCall<R, K, Res>, then: CacheAction<R, K, Res, C>|
            {
                &&& answers(store, inner, action, event)
                &&& #[trigger] call.steps_to(event, next, then)
                &&& next.pending() < call.pending()
                &&& serves(next, then, after(store, action), inner, trace.skip(1), end)
            },
    }
}

impl<S, P, T> CacheService<S, P, T> {
    /// Whether a call of this service for `request` runs against the model
    /// with the actions `trace` and leaves the provider holding `end`.
    pub open spec fn runs<R, Res: Clone, C>(
        &self,
        request: R,
        store: Map<T::Output, Res>,
        inner: spec_fn(R) -> Result<Res, C>,
        trace: Seq<CacheAction<R, T::Output, Res, C>>,
        end: Map<T::Output, Res>,
    ) -> bool where T: Transform<R>, R: Clone, T::Output: Clone {
        exists|call: CacheCall<R, T::Output, Res>, first: CacheAction<R, T::Output, Res, C>|
            {
                &&& #[trigger] self.begins(request, call, first)
                &&& serves(call, first, store, inner, trace, end)
            }
    }
}

/// The order of a call's actions, whatever the provider holds and whatever
/// the inner service answers. The provider is asked first. A hit returns at
/// once. Only a miss reaches the inner service, with the request as it came;
/// only a response of the inner service is written to the provider, and only
/// after the write does the call return it. A call that is answered what it
/// asked for never ends with `InternalError`.
pub proof fn lemma_call_order<S, P, T, R, Res: Clone, C>(
    service: CacheService<S, P, T>,
    request: R,
    store: Map<T::Output, Res>,
    inner: spec_fn(R) -> Result<Res, C>,
    trace: Seq<CacheAction<R, T::Output, Res, C>>,
    end: Map<T::Output, Res>,
) where T: Transform<R>, R: Clone, T::Output: Clone
    requires
        service.runs(request, store, inner, trace, end),
    ensures
        trace.len() >= 2,
        trace[0] matches CacheAction::AskProvider(ProviderRequest::Get(_)),
        ({
            ||| {
                &&& trace.len() == 2
                &&& trace[1] matches CacheAction::Return(Ok(_))
                &&& end == store
            }
            ||| {
                &&& trace.len() == 3
                &&& trace[1] == CacheAction::<R, T::Output, Res, C>::CallInner(request)
                &&& inner(request) matches Err(cause)
                &&& trace[2] == CacheAction::<R, T::Output, Res, C>::Return(
                    Err(Error::ServiceError(cause)),
                )
                &&& end == store
            }
            ||| {
                &&& trace.len() == 4
                &&& trace[1] == CacheAction::<R, T::Output, Res, C>::CallInner(request)
                &&& inner(request) matches Ok(response)
                &&& trace[2] matches CacheAction::AskProvider(ProviderRequest::Insert(key, copy))
                &&& cloned(response, copy)
                &&& end == store.insert(key, copy)
                &&& trace[3] == CacheAction::<R, T::Output, Res, C>::Return(Ok(response))
            }
        }),
{
    reveal_with_fuel(serves, 5);
    assert(trace.skip(1)[0] == trace[1]);
    if trace.len() > 2 {
        assert(trace.skip(1).skip(1)[0] == trace[2]);
    }
    if trace.len() > 3 {
        assert(trace.skip(1).skip(1).skip(1)[0] == trace[3]);
    }
}

/// Every call runs to its end against the model: whatever the provider
/// holds and whatever the inner service answers, the call returns.
pub proof fn lemma_call_completes<S, P, T, R, Res: Clone, C>(
    service: CacheService<S, P, T>,
    request: R,
    store: Map<T::Output, Res>,
    inner: spec_fn(R) -> Result<Res, C>,
) where T: Transform<R>, R: Clone, T::Output: Clone
    ensures
        exists|trace: Seq<CacheAction<R, T::Output, Res, C>>, end: Map<T::Output, Res>|
            service.runs(request, store, inner, trace, end),
{
    reveal_with_fuel(serves, 5);
    let key = service.transformer().key(request);
    let call = CacheCall::<R, T::Output, Res>::AwaitGet { request, key };
    let first = CacheAction::<R, T::Output, Res, C>::AskProvider(ProviderRequest::Get(key));
    assert(cloned(request, request));
    assert(service.begins(request, call, first));
    let done = CacheCall::<R, T::Output, Res>::Done;
    if store.contains_key(key) {
        let found = CacheEvent::<Res, C>::Provider(Ok(ProviderResponse::Found(store[key])));
        let last = CacheAction::<R, T::Output, Res, C>::Return(Ok(store[key]));
        let trace = seq![first, last];
        assert(trace.skip(1) == seq![last]);
        assert(call.steps_to(found, done, last));
        assert(serves(call, first, store, inner, trace, store));
        assert(service.runs(request, store, inner, trace, store));
    } else {
        let missed = CacheEvent::<Res, C>::Provider(Ok(ProviderResponse::NotFound));
        let fetching = CacheCall::<R, T::Output, Res>::AwaitInner { key };
        let fetch = CacheAction::<R, T::Output, Res, C>::CallInner(request);
        let answered = CacheEvent::<Res, C>::Inner(inner(request));
        assert(call.steps_to(missed, fetching, fetch));
        match inner(request) {
            Err(cause) => {
                let last = CacheAction::<R, T::Output, Res, C>::Return(
                    Err(Error::ServiceError(cause)),
                );
                let trace = seq![first, fetch, last];
                assert(trace.skip(1) == seq![fetch, last]);
                assert(trace.skip(1).skip(1) == seq![last]);
                assert(fetching.steps_to(answered, done, last));
                assert(serves(call, first, store, inner, trace, store));
                assert(service.runs(request, store, inner, trace, store));
            },
            Ok(response) => {
                let storing = CacheCall::<R, T::Output, Res>::AwaitInsert { response };
                let write = CacheAction::<R, T::Output, Res, C>::AskProvider(
                    ProviderRequest::Insert(key, response),
                );
                let confirmed = CacheEvent::<Res, C>::Provider(
                    Ok(ProviderResponse::Found(response)),
                );
                let last = CacheAction::<R, T::Output, Res, C>::Return(Ok(response));
                let end = store.insert(key, response);
                let trace = seq![first, fetch, write, last];
                assert(trace.skip(1) == seq![fetch, write, last]);
                assert(trace.skip(1).skip(1) == seq![write, last]);
                assert(trace.skip(1).skip(1).skip(1) == seq![last]);
                assert(storing.steps_to(confirmed, done, last));
                assert(fetching.steps_to(answered, storing, write));
                assert(serves(call, first, store, inner, trace, end));
                assert(service.runs(request, store, inner, trace, end));
            },
        }
    }
}

/// A call that finds a response stored under its key returns that response
/// and does nothing else: the inner service is not called and the provider is
/// not written.
pub proof fn lemma_hit<S, P, T, R, Res: Clone, C>(
    service: CacheService<S, P, T>,
    request: R,
    store: Map<T::Output, Res>,
    inner: spec_fn(R) -> Result<Res, C>,
    trace: Seq<CacheAction<R, T::Output, Res, C>>,
    end: Map<T::Output, Res>,
) where T: Transform<R>, R: Clone, T::Output: Clone
    requires
        clone_is_exact::<R>(),
        clone_is_exact::<T::Output>(),
        store.contains_key(service.transformer().key(request)),
        service.runs(request, store, inner, trace, end),
    ensures
        trace == seq![
            CacheAction::<R, T::Output, Res, C>::AskProvider(
                ProviderRequest::Get(service.transformer().key(request)),
            ),
            CacheAction::<R, T::Output, Res, C>::Return(
                Ok(store[service.transformer().key(request)]),
            ),
        ],
        end == store,
{
    reveal_with_fuel(serves, 3);
    let key = service.transformer().key(request);
    assert(trace.skip(1)[0] == trace[1]);
    assert(trace.len() == 2);
}

/// A call that finds nothing under its key, and whose inner service
/// succeeds, calls the inner service once with the request as it came, hands
/// the provider a copy of the response under the key, and returns the
/// response of the inner service itself.
pub proof fn lemma_miss<S, P, T, R, Res: Clone, C>(
    service: CacheService<S, P, T>,
    request: R,
    store: Map<T::Output, Res>,
    inner: spec_fn(R) -> Result<Res, C>,
    trace: Seq<CacheAction<R, T::Output, Res, C>>,
    end: Map<T::Output, Res>,
) where T: Transform<R>, R: Clone, T::Output: Clone
    requires
        clone_is_exact::<R>(),
        clone_is_exact::<T::Output>(),
        !store.contains_key(service.transformer().key(request)),
        inner(request) is Ok,
        service.runs(request, store, inner, trace, end),
    ensures
        trace.len() == 4,
        trace[0] == CacheAction::<R, T::Output, Res, C>::AskProvider(
            ProviderRequest::Get(service.transformer().key(request)),
        ),
        trace[1] == CacheAction::<R, T::Output, Res, C>::CallInner(request),
        trace[2] matches CacheAction::AskProvider(ProviderRequest::Insert(key, copy)) && {
            &&& key == service.transformer().key(request)
            &&& cloned(inner(request)->Ok_0, copy)
            &&& end == store.insert(key, copy)
        },
        trace[3] == CacheAction::<R, T::Output, Res, C>::Return(Ok(inner(request)->Ok_0)),
{
    reveal_with_fuel(serves, 5);
    assert(trace.skip(1)[0] == trace[1]);
    assert(trace.skip(1).skip(1)[0] == trace[2]);
    assert(trace.skip(1).skip(1).skip(1)[0] == trace[3]);
}

/// A call that finds nothing under its key, and whose inner service fails,
/// returns that failure as a service error and writes nothing to the
/// provider.
pub proof fn lemma_failure<S, P, T, R, Res: Clone, C>(
    service: CacheService<S, P, T>,
    request: R,
    store: Map<T::Output, Res>,
    inner: spec_fn(R) -> Result<Res, C>,
    trace: Seq<CacheAction<R, T::Output, Res, C>>,
    end: Map<T::Output, Res>,
) where T: Transform<R>, R: Clone, T::Output: Clone
    requires
        clone_is_exact::<R>(),
        clone_is_exact::<T::Output>(),
        !store.contains_key(service.transformer().key(request)),
        inner(request) is Err,
        service.runs(request, store, inner, trace, end),
    ensures
        trace == seq![
            CacheAction::<R, T::Output, Res, C>::AskProvider(
                ProviderRequest::Get(service.transformer().key(request)),
            ),
            CacheAction::<R, T::Output, Res, C>::CallInner(request),
            CacheAction::<R, T::Output, Res, C>::Return(
                Err(Error::ServiceError(inner(request)->Err_0)),
            ),
        ],
        end == store,
{
    reveal_with_fuel(serves, 4);
    assert(trace.skip(1)[0] == trace[1]);
    assert(trace.skip(1).skip(1)[0] == trace[2]);
    assert(trace.len() == 3);
}

/// Key derivation: a response stored by a call for one request is served to
/// a later call for any request with the same key, without the inner service
/// being called again. The first call returns what the inner service gave
/// it, and the second returns the copy that the provider was handed.
pub proof fn lemma_stored_response_is_served<S, P, T, R, Res: Clone, C>(
    service: CacheService<S, P, T>,
    earlier: R,
    later: R,
    store: Map<T::Output, Res>,
    inner: spec_fn(R) -> Result<Res, C>,
    first: Seq<CacheAction<R, T::Output, Res, C>>,
    between: Map<T::Output, Res>,
    second: Seq<CacheAction<R, T::Output, Res, C>>,
    end: Map<T::Output, Res>,
) where T: Transform<R>, R: Clone, T::Output: Clone
    requires
        clone_is_exact::<R>(),
        clone_is_exact::<T::Output>(),
        service.transformer().key(earlier) == service.transformer().key(later),
        !store.contains_key(service.transformer().key(earlier)),
        inner(earlier) is Ok,
        service.runs(earlier, store, inner, first, between),
        service.runs(later, between, inner, second, end),
    ensures
        first.last() == CacheAction::<R, T::Output, Res, C>::Return(Ok(inner(earlier)->Ok_0)),
        between.contains_key(service.transformer().key(later)),
        cloned(inner(earlier)->Ok_0, between[service.transformer().key(later)]),
        second == seq![
            CacheAction::<R, T::Output, Res, C>::AskProvider(
                ProviderRequest::Get(service.transformer().key(later)),
            ),
            CacheAction::<R, T::Output, Res, C>::Return(
                Ok(between[service.transformer().key(later)]),
            ),
        ],
        end == between,
{
    lemma_miss(service, earlier, store, inner, first, between);
    lemma_hit(service, later, between, inner, second, end);
}

/// Round trip: on a miss the call returns what the inner service alone would
/// return, and the same request issued again is answered with the stored
/// copy of that response, the inner service not being called a second time.
pub proof fn lemma_round_trip<S, P, T, R, Res: Clone, C>(
    service: CacheService<S, P, T>,
    request: R,
    store: Map<T::Output, Res>,
    inner: spec_fn(R) -> Result<Res, C>,
    first: Seq<CacheAction<R, T::Output, Res, C>>,
    between: Map<T::Output, Res>,
    second: Seq<CacheAction<R, T::Output, Res, C>>,
    end: Map<T::Output, Res>,
) where T: Transform<R>, R: Clone, T::Output: Clone
    requires
        clone_is_exact::<R>(),
        clone_is_exact::<T::Output>(),
        !store.contains_key(service.transformer().key(request)),
        inner(request) is Ok,
        service.runs(request, store, inner, first, between),
        service.runs(request, between, inner, second, end),
    ensures
        first.last() == CacheAction::<R, T::Output, Res, C>::Return(Ok(inner(request)->Ok_0)),
        second.len() == 2,
        second.last() matches CacheAction::Return(Ok(stored)) && cloned(
            inner(request)->Ok_0,
            stored,
        ),
        forall|i: int| 0 <= i < second.len() ==> !(#[trigger] second[i] is CallInner),
{
    lemma_stored_response_is_served(
        service,
        request,
        request,
        store,
        inner,
        first,
        between,
        second,
        end,
    );
}

/// No negative caching: a failure of the inner service leaves the provider
/// as it was, so the same request issued again reaches the inner service
/// again.
pub proof fn lemma_failure_is_not_cached<S, P, T, R, Res: Clone, C>(
    service: CacheService<S, P, T>,
    request: R,
    store: Map<T::Output, Res>,
    inner: spec_fn(R) -> Result<Res, C>,
    first: Seq<CacheAction<R, T::Output, Res, C>>,
    between: Map<T::Output, Res>,
    second: Seq<CacheAction<R, T::Output, Res, C>>,
    end: Map<T::Output, Res>,
) where T: Transform<R>, R: Clone, T::Output: Clone
    requires
        clone_is_exact::<R>(),
        clone_is_exact::<T::Output>(),
        !store.contains_key(service.transformer().key(request)),
        inner(request) is Err,
        service.runs(request, store, inner, first, between),
        service.runs(request, between, inner, second, end),
    ensures
        first.last() == CacheAction::<R, T::Output, Res, C>::Return(
            Err(Error::ServiceError(inner(request)->Err_0)),
        ),
        between == store,
        second.len() > 1,
        second[1] == CacheAction::<R, T::Output, Res, C>::CallInner(request),
        end == store,
{
    lemma_failure(service, request, store, inner, first, between);
    lemma_failure(service, request, between, inner, second, end);
}

} // verus!
