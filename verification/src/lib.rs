//! Upbit venue support: the per-endpoint request rate limiter and the error
//! types of the Upbit REST API, with their contracts proved by Verus.
pub mod errors;
pub mod laws;
pub mod rate_limit;

pub use errors::{ApiError, ErrorResponse, Errors, HttpFailure};
pub use rate_limit::{EndpointType, RateLimit, RateLimitError, RateLimiter};
