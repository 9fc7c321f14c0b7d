use tower_cache::Error;

#[test]
fn provider_error_names_its_cause() {
    let error: Error<u8> = Error::ProviderError(1);
    assert_eq!(error.message("timed out"), "provider error: timed out");
}

#[test]
fn service_error_names_its_cause() {
    let error: Error<u8> = Error::ServiceError(2);
    assert_eq!(error.message("bad request"), "service error: bad request");
    assert_eq!(error.message(""), "service error: ");
}

#[test]
fn internal_error_has_no_cause() {
    let error: Error<u8> = Error::InternalError;
    assert_eq!(error.message("ignored"), "internal error");
}

#[test]
fn already_processed_has_no_cause() {
    let error: Error<u8> = Error::AlreadyProcessed;
    assert_eq!(error.message("ignored"), "already processed");
}

#[test]
fn already_processed_is_told_apart_from_failures() {
    let rejected: Error<u8> = Error::AlreadyProcessed;
    assert_ne!(rejected, Error::ProviderError(0));
    assert_ne!(rejected, Error::ServiceError(0));
    assert_ne!(rejected, Error::InternalError);
    assert!(matches!(rejected, Error::AlreadyProcessed));
}
