use std::collections::HashSet;

use tower_cache::guard::Guard;
use tower_cache::idempotency::{
    IdempotencyAction, IdempotencyCall, IdempotencyEvent, IdempotencyRequest, IdempotencyResponse,
};
use tower_cache::{Error, IdempotencyLayer, IdempotencyService};

type Call = IdempotencyCall<String>;
type Action = IdempotencyAction<String, String, String>;
type Event = IdempotencyEvent<String, String>;

fn service() -> IdempotencyService<(), ()> {
    IdempotencyLayer::new(()).layer(())
}

fn uppercase(req: String) -> Result<String, String> {
    Ok(req.to_uppercase())
}

fn refuse(req: String) -> Result<String, String> {
    Err(format!("no {}", req))
}

/// Runs one call to its end with a free guard, recording what it asks for.
fn serve(
    processed: &HashSet<String>,
    inner: fn(String) -> Result<String, String>,
    request: &str,
    trace: &mut Vec<&'static str>,
) -> Result<String, Error<String>> {
    let mut guard = Guard::new();
    let (mut call, mut action): (Call, Action) = service().call(String::from(request));
    loop {
        let event = match action {
            IdempotencyAction::AskProvider(IdempotencyRequest::Check(asked)) => {
                trace.push("check");
                Event::Provider(Ok(if processed.contains(&asked) {
                    IdempotencyResponse::Found
                } else {
                    IdempotencyResponse::NotFound
                }))
            }
            IdempotencyAction::Acquire => {
                trace.push("acquire");
                assert!(guard.acquire(1));
                Event::Acquired
            }
            IdempotencyAction::CallInner(request) => {
                trace.push("inner");
                assert_eq!(guard.holder(), Some(1));
                Event::Inner(inner(request))
            }
            IdempotencyAction::Release(result) => {
                trace.push("release");
                assert!(guard.release(1));
                return result;
            }
            IdempotencyAction::Return(result) => {
                trace.push("return");
                assert_eq!(guard.holder(), None);
                return result;
            }
        };
        (call, action) = call.step(event);
    }
}

#[test]
fn call_checks_a_copy_of_the_request() {
    let (call, action): (Call, Action) = service().call(String::from("Hello"));
    assert_eq!(
        call,
        IdempotencyCall::AwaitCheck {
            request: String::from("Hello")
        }
    );
    assert_eq!(
        action,
        IdempotencyAction::AskProvider(IdempotencyRequest::Check(String::from("Hello")))
    );
}

#[test]
fn processed_request_is_rejected_without_the_inner_service() {
    let mut processed = HashSet::new();
    processed.insert(String::from("Hello"));
    let mut trace = Vec::new();

    let result = serve(&processed, uppercase, "Hello", &mut trace);

    assert_eq!(result, Err(Error::AlreadyProcessed));
    assert_eq!(trace, vec!["check", "return"]);
}

#[test]
fn rejection_is_repeated_for_every_later_call() {
    let mut processed = HashSet::new();
    processed.insert(String::from("Hello"));
    for _ in 0..3 {
        let mut trace = Vec::new();
        let result = serve(&processed, uppercase, "Hello", &mut trace);
        assert_eq!(result, Err(Error::AlreadyProcessed));
        assert!(!trace.contains(&"inner"));
    }
}

#[test]
fn new_request_reaches_the_inner_service_under_the_guard() {
    let processed = HashSet::new();
    let mut trace = Vec::new();

    let result = serve(&processed, uppercase, "Hello", &mut trace);

    assert_eq!(result, Ok(String::from("HELLO")));
    assert_eq!(trace, vec!["check", "acquire", "inner", "release"]);
}

#[test]
fn failure_of_the_inner_service_gives_the_guard_back() {
    let processed = HashSet::new();
    let mut trace = Vec::new();

    let result = serve(&processed, refuse, "Hello", &mut trace);

    assert_eq!(result, Err(Error::ServiceError(String::from("no Hello"))));
    assert_eq!(trace, vec!["check", "acquire", "inner", "release"]);
}

#[test]
fn provider_is_never_told_of_a_completed_request() {
    let processed = HashSet::new();
    for _ in 0..2 {
        let mut trace = Vec::new();
        let result = serve(&processed, uppercase, "Hello", &mut trace);
        assert_eq!(result, Ok(String::from("HELLO")));
        assert_eq!(trace, vec!["check", "acquire", "inner", "release"]);
    }
}

#[test]
fn found_ends_the_call_with_already_processed() {
    let call: Call = IdempotencyCall::AwaitCheck {
        request: String::from("Hello"),
    };
    let next: (Call, Action) = call.step(Event::Provider(Ok(IdempotencyResponse::Found)));
    assert_eq!(
        next,
        (
            IdempotencyCall::Done,
            IdempotencyAction::Return(Err(Error::AlreadyProcessed))
        )
    );
}

#[test]
fn failed_check_is_a_provider_error() {
    let call: Call = IdempotencyCall::AwaitCheck {
        request: String::from("Hello"),
    };
    let next: (Call, Action) = call.step(Event::Provider(Err(String::from("down"))));
    assert_eq!(
        next,
        (
            IdempotencyCall::Done,
            IdempotencyAction::Return(Err(Error::ProviderError(String::from("down"))))
        )
    );
}

#[test]
fn not_found_asks_for_the_guard() {
    let call: Call = IdempotencyCall::AwaitCheck {
        request: String::from("Hello"),
    };
    let next: (Call, Action) = call.step(Event::Provider(Ok(IdempotencyResponse::NotFound)));
    assert_eq!(
        next,
        (
            IdempotencyCall::AwaitGuard {
                request: String::from("Hello")
            },
            IdempotencyAction::Acquire
        )
    );
}

#[test]
fn granted_guard_sends_the_request_to_the_inner_service() {
    let call: Call = IdempotencyCall::AwaitGuard {
        request: String::from("Hello"),
    };
    let next: (Call, Action) = call.step(Event::Acquired);
    assert_eq!(
        next,
        (
            IdempotencyCall::AwaitInner,
            IdempotencyAction::CallInner(String::from("Hello"))
        )
    );
}

#[test]
fn response_is_returned_unchanged_with_the_guard() {
    let call: Call = IdempotencyCall::AwaitInner;
    let next: (Call, Action) = call.step(Event::Inner(Ok(String::from("HELLO"))));
    assert_eq!(
        next,
        (
            IdempotencyCall::Done,
            IdempotencyAction::Release(Ok(String::from("HELLO")))
        )
    );
}

#[test]
fn failure_is_returned_as_a_service_error_with_the_guard() {
    let call: Call = IdempotencyCall::AwaitInner;
    let next: (Call, Action) = call.step(Event::Inner(Err(String::from("broken"))));
    assert_eq!(
        next,
        (
            IdempotencyCall::Done,
            IdempotencyAction::Release(Err(Error::ServiceError(String::from("broken"))))
        )
    );
}

#[test]
fn unexpected_event_ends_the_call_and_frees_a_held_guard() {
    let returned: (Call, Action) = (
        IdempotencyCall::Done,
        IdempotencyAction::Return(Err(Error::InternalError)),
    );
    let released: (Call, Action) = (
        IdempotencyCall::Done,
        IdempotencyAction::Release(Err(Error::InternalError)),
    );

    let call: Call = IdempotencyCall::AwaitCheck {
        request: String::from("Hello"),
    };
    assert_eq!(call.step(Event::Acquired), returned);

    let call: Call = IdempotencyCall::AwaitGuard {
        request: String::from("Hello"),
    };
    assert_eq!(call.step(Event::Inner(Ok(String::from("HELLO")))), returned);

    let call: Call = IdempotencyCall::AwaitInner;
    assert_eq!(call.step(Event::Acquired), released);

    let call: Call = IdempotencyCall::Done;
    assert_eq!(
        call.step(Event::Provider(Ok(IdempotencyResponse::NotFound))),
        returned
    );
}

#[test]
fn layer_hands_its_provider_to_the_service() {
    let layer = IdempotencyLayer::new(7u32);
    assert_eq!(*layer.provider(), 7);

    let mut service = layer.layer("inner");
    assert_eq!(*service.inner(), "inner");
    assert_eq!(*service.provider(), 7);

    *service.provider_mut() = 8;
    assert_eq!(*service.provider(), 8);
    assert_eq!(*service.inner(), "inner");
    assert_eq!(*layer.provider(), 7);
}

#[test]
fn free_guard_is_granted_to_the_first_caller_only() {
    let mut guard = Guard::new();
    assert_eq!(guard.holder(), None);

    assert!(guard.acquire(3));
    assert_eq!(guard.holder(), Some(3));

    assert!(!guard.acquire(4));
    assert_eq!(guard.holder(), Some(3));

    assert!(!guard.acquire(3));
    assert_eq!(guard.holder(), Some(3));
}

#[test]
fn only_the_holder_gives_the_guard_back() {
    let mut guard = Guard::new();
    assert!(!guard.release(3));
    assert_eq!(guard.holder(), None);

    assert!(guard.acquire(3));
    assert!(!guard.release(4));
    assert_eq!(guard.holder(), Some(3));

    assert!(guard.release(3));
    assert_eq!(guard.holder(), None);

    assert!(guard.acquire(4));
    assert_eq!(guard.holder(), Some(4));
}

#[test]
fn abandoned_call_gives_the_guard_back() {
    let mut guard = Guard::new();

    let (one, _): (Call, Action) = service().call(String::from("a"));
    let (one, action): (Call, Action) =
        one.step(Event::Provider(Ok(IdempotencyResponse::NotFound)));
    assert_eq!(action, IdempotencyAction::Acquire);
    assert!(guard.acquire(0));
    let (one, action): (Call, Action) = one.step(Event::Acquired);
    assert_eq!(action, IdempotencyAction::CallInner(String::from("a")));

    let (other, _): (Call, Action) = service().call(String::from("b"));
    let (other, action): (Call, Action) =
        other.step(Event::Provider(Ok(IdempotencyResponse::NotFound)));
    assert_eq!(action, IdempotencyAction::Acquire);
    assert!(!guard.acquire(1));

    // The first call is given up while the inner service is at work.
    assert_eq!(one, IdempotencyCall::AwaitInner);
    drop(one);
    assert!(guard.release(0));

    assert!(guard.acquire(1));
    let (other, action): (Call, Action) = other.step(Event::Acquired);
    assert_eq!(other, IdempotencyCall::AwaitInner);
    assert_eq!(action, IdempotencyAction::CallInner(String::from("b")));
}

/// Advances a fleet of calls that share one guard, one event per call and
/// round, and returns the results along with the number of calls of the
/// inner service and the largest number of calls that were with the inner
/// service at one time.
fn run_fleet(
    requests: &[&str],
    inner: fn(String) -> Result<String, String>,
) -> (Vec<Result<String, Error<String>>>, usize, usize) {
    let mut guard = Guard::new();
    let mut calls: Vec<Option<(Call, Action)>> = requests
        .iter()
        .map(|request| Some(service().call(String::from(*request))))
        .collect();
    let mut results: Vec<Option<Result<String, Error<String>>>> =
        requests.iter().map(|_| None).collect();
    let mut in_flight: Vec<Option<String>> = requests.iter().map(|_| None).collect();
    let mut invocations = 0;
    let mut most_at_once = 0;

    while results.iter().any(|result| result.is_none()) {
        for at in 0..calls.len() {
            let ticket = at as u64;
            let (call, action) = match calls[at].take() {
                Some(pending) => pending,
                None => continue,
            };
            let event = match action {
                IdempotencyAction::AskProvider(IdempotencyRequest::Check(_)) => {
                    Event::Provider(Ok(IdempotencyResponse::NotFound))
                }
                IdempotencyAction::Acquire => {
                    if guard.acquire(ticket) {
                        Event::Acquired
                    } else {
                        calls[at] = Some((call, IdempotencyAction::Acquire));
                        continue;
                    }
                }
                IdempotencyAction::CallInner(request) => {
                    // The inner service takes a round to answer.
                    match in_flight[at].take() {
                        None => {
                            invocations += 1;
                            in_flight[at] = Some(request.clone());
                            let now = in_flight.iter().filter(|r| r.is_some()).count();
                            most_at_once = most_at_once.max(now);
                            calls[at] = Some((call, IdempotencyAction::CallInner(request)));
                            continue;
                        }
                        Some(sent) => Event::Inner(inner(sent)),
                    }
                }
                IdempotencyAction::Release(result) => {
                    assert!(guard.release(ticket));
                    results[at] = Some(result);
                    continue;
                }
                IdempotencyAction::Return(result) => {
                    results[at] = Some(result);
                    continue;
                }
            };
            calls[at] = Some(call.step(event));
        }
    }
    (
        results.into_iter().map(|result| result.unwrap()).collect(),
        invocations,
        most_at_once,
    )
}

#[test]
fn identical_new_requests_are_serialised_not_deduplicated() {
    let (results, invocations, most_at_once) =
        run_fleet(&["Hello", "Hello", "Hello", "Hello"], uppercase);

    assert_eq!(results.len(), 4);
    for result in results {
        assert_eq!(result, Ok(String::from("HELLO")));
    }
    assert_eq!(invocations, 4);
    assert_eq!(most_at_once, 1);
}

#[test]
fn unrelated_requests_wait_for_one_another() {
    let (results, invocations, most_at_once) = run_fleet(&["a", "b", "c"], uppercase);

    assert_eq!(
        results,
        vec![
            Ok(String::from("A")),
            Ok(String::from("B")),
            Ok(String::from("C"))
        ]
    );
    assert_eq!(invocations, 3);
    assert_eq!(most_at_once, 1);
}

#[test]
fn failing_call_does_not_block_the_calls_behind_it() {
    let (results, invocations, most_at_once) = run_fleet(&["a", "b"], refuse);

    assert_eq!(
        results,
        vec![
            Err(Error::ServiceError(String::from("no a"))),
            Err(Error::ServiceError(String::from("no b")))
        ]
    );
    assert_eq!(invocations, 2);
    assert_eq!(most_at_once, 1);
}
