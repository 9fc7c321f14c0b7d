//! Mapping requests to cache keys.

use vstd::prelude::*;

verus! {

/// A pure mapping from a request to the key under which its response is
/// cached.
///
/// The mapping must be a function: the same request always gives the same
/// key. `key` is that function; `transform` computes it.
pub trait Transform<R> {
    /// The type of the keys.
    type Output;

    /// Whether `transform` may be called: the transformer accepts every
    /// request and maps equal requests to equal keys.
    spec fn is_function(&self) -> bool;

    /// The key of a request.
    spec fn key(&self, request: R) -> Self::Output;

    /// Computes the key of a request.
    fn transform(&self, request: R) -> (key: Self::Output)
        requires
            self.is_function(),
        ensures
            key == self.key(request),
    ;
}

/// The default transformer: a request is its own key.
impl<R> Transform<R> for () {
    type Output = R;

    open spec fn is_function(&self) -> bool {
        true
    }

    open spec fn key(&self, request: R) -> R {
        request
    }

    fn transform(&self, request: R) -> (key: R) {
        request
    }
}

/// Any function from requests to keys is a transformer, provided that it is
/// defined on every request and deterministic.
impl<R, K, F: Fn(R) -> K> Transform<R> for F {
    type Output = K;

    open spec fn is_function(&self) -> bool {
        &&& forall|request: R| call_requires(*self, (request,))
        &&& forall|request: R, a: K, b: K|
            call_ensures(*self, (request,), a) && call_ensures(*self, (request,), b) ==> a == b
    }

    open spec fn key(&self, request: R) -> K {
        choose|key: K| call_ensures(*self, (request,), key)
    }

    fn transform(&self, request: R) -> (key: K) {
        self(request)
    }
}

/// A function that accepts every request and cannot answer one request with
/// two different keys is a transformer, and its key for a request is
/// whatever it returns for it.
pub proof fn lemma_function_is_transformer<R, K, F: Fn(R) -> K>(function: F)
    requires
        forall|request: R| call_requires(function, (request,)),
        forall|request: R, a: K, b: K|
            call_ensures(function, (request,), a) && call_ensures(function, (request,), b) ==> a
                == b,
    ensures
        function.is_function(),
        forall|request: R, key: K|
            call_ensures(function, (request,), key) ==> function.key(request) == key,
{
}

} // verus!
