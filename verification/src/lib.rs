//! Caching and idempotency decorators for request pipelines.
//!
//! A decorator wraps an inner service and consults a pluggable provider
//! before the inner service is reached. The cache decorator answers from the
//! provider where it can and stores what the inner service returns; the
//! idempotency decorator rejects requests that the provider already knows
//! and serialises every call that reaches the inner service.
//!
//! The decorators are written without any I/O: each call is a small state
//! machine that names the next thing to do and is advanced with its outcome.
//! A runtime adapter performs the provider and inner-service calls.

pub mod cache;
pub mod cache_model;
pub mod error;
pub mod guard;
pub mod idempotency;
pub mod idempotency_model;
pub mod protocol;
pub mod transform;

pub use cache::{CacheLayer, CacheService};
pub use error::Error;
pub use idempotency::{IdempotencyLayer, IdempotencyService};
pub use protocol::{ProviderRequest, ProviderResponse};
pub use transform::Transform;
