# venues (Upbit)

The Upbit part of a trading-venue client, verified with Verus.

- `src/rate_limit.rs`: the endpoint groups, their published limits, and the
  sliding-window `RateLimiter`. Its history is viewed as a map from endpoint
  type to the instants (nanoseconds since the limiter was made) of recorded
  requests; `check_limits_at` and `increment_request_at` are specified exactly
  over that view, and `check_limits` / `increment_request` read the clock.
- `src/errors.rs`: the venue error type and the text each error displays.
- `src/laws.rs`: properties of the limiter across calls (independence of
  endpoint groups, idempotent checks, expiry, the sliding-window bound).
- `app/`: the shared, asynchronous limiter (`Arc<parking_lot::RwLock<_>>`,
  `async_trait`), the serde forms of the API error types, and
  `std::error::Error` wrappers.
