//! Rate limiting for the Upbit REST endpoints.
//!
//! Upbit groups its endpoints; each group admits a fixed number of requests
//! within a sliding time window. A [`RateLimiter`] remembers, per group, the
//! instants at which requests were recorded, and admits a new request only
//! while fewer than the group's maximum fall within the window.
use std::time::Instant;
use vstd::prelude::*;

use crate::errors::Errors;

verus! {

/// One second, in nanoseconds: the unit in which windows and instants are kept.
pub const NANOS_PER_SEC: u128 = 1_000_000_000;

/// Types of endpoints for rate limiting, following Upbit's rate limit groups.
#[derive(Debug, Clone, Copy, PartialEq, Eq, Hash, Structural)]
#[non_exhaustive]
pub enum EndpointType {
    /// Default endpoints: 30 requests per second
    Default,
    /// Order endpoints: 8 requests per second
    Order,
    /// Market endpoints: 10 requests per second
    Market,
    /// Trade endpoints (orderbook, trades): 10 requests per second
    Trade,
    /// Ticker endpoints (current price): 10 requests per second
    Ticker,
    /// Candle endpoints: 10 requests per second
    Candle,
    /// Order cancel all endpoint: 1 request per 2 seconds
    OrderCancelAll,
}

/// The number of endpoint types.
pub const ENDPOINT_COUNT: usize = 7;

impl EndpointType {
    /// The position of this endpoint type in declaration order.
    pub open spec fn position(self) -> int {
        match self {
            EndpointType::Default => 0,
            EndpointType::Order => 1,
            EndpointType::Market => 2,
            EndpointType::Trade => 3,
            EndpointType::Ticker => 4,
            EndpointType::Candle => 5,
            EndpointType::OrderCancelAll => 6,
        }
    }

    /// The name of the variant, as `Debug` prints it.
    pub open spec fn debug_name(self) -> Seq<char> {
        match self {
            EndpointType::Default => "Default"@,
            EndpointType::Order => "Order"@,
            EndpointType::Market => "Market"@,
            EndpointType::Trade => "Trade"@,
            EndpointType::Ticker => "Ticker"@,
            EndpointType::Candle => "Candle"@,
            EndpointType::OrderCancelAll => "OrderCancelAll"@,
        }
    }

    /// The position of this endpoint type in declaration order.
    pub fn slot(&self) -> (i: usize)
        ensures
            i as int == self.position(),
            i < ENDPOINT_COUNT,
    {
        match self {
            EndpointType::Default => 0,
            EndpointType::Order => 1,
            EndpointType::Market => 2,
            EndpointType::Trade => 3,
            EndpointType::Ticker => 4,
            EndpointType::Candle => 5,
            EndpointType::OrderCancelAll => 6,
        }
    }

    /// The endpoint type at position `i` in declaration order.
    pub fn from_slot(i: usize) -> (e: EndpointType)
        requires
            i < ENDPOINT_COUNT,
        ensures
            e.position() == i as int,
    {
        if i == 0 {
            EndpointType::Default
        } else if i == 1 {
            EndpointType::Order
        } else if i == 2 {
            EndpointType::Market
        } else if i == 3 {
            EndpointType::Trade
        } else if i == 4 {
            EndpointType::Ticker
        } else if i == 5 {
            EndpointType::Candle
        } else {
            EndpointType::OrderCancelAll
        }
    }

    /// The name of the variant, as `Debug` prints it.
    pub fn name(&self) -> (s: &'static str)
        ensures
            s@ == self.debug_name(),
    {
        match self {
            EndpointType::Default => "Default",
            EndpointType::Order => "Order",
            EndpointType::Market => "Market",
            EndpointType::Trade => "Trade",
            EndpointType::Ticker => "Ticker",
            EndpointType::Candle => "Candle",
            EndpointType::OrderCancelAll => "OrderCancelAll",
        }
    }
}

/// Every endpoint type, in declaration order.
pub open spec fn all_endpoints() -> Seq<EndpointType> {
    seq![
        EndpointType::Default,
        EndpointType::Order,
        EndpointType::Market,
        EndpointType::Trade,
        EndpointType::Ticker,
        EndpointType::Candle,
        EndpointType::OrderCancelAll,
    ]
}

/// Rate limit configuration for an endpoint type.
#[derive(Debug, Clone, Copy)]
pub struct RateLimit {
    /// Maximum requests per window
    pub max_requests: u32,
    /// Length of the time window, in nanoseconds
    pub window_nanos: u128,
}

impl RateLimit {
    /// Create a new rate limit configuration.
    pub fn new(max_requests: u32, window_nanos: u128) -> (r: Self)
        ensures
            r.max_requests == max_requests,
            r.window_nanos == window_nanos,
    {
        RateLimit { max_requests, window_nanos }
    }
}

/// Upbit's published limit for each endpoint group.
pub open spec fn limit_of(e: EndpointType) -> RateLimit {
    match e {
        EndpointType::Default => RateLimit { max_requests: 30, window_nanos: NANOS_PER_SEC },
        EndpointType::Order => RateLimit { max_requests: 8, window_nanos: NANOS_PER_SEC },
        EndpointType::Market => RateLimit { max_requests: 10, window_nanos: NANOS_PER_SEC },
        EndpointType::Trade => RateLimit { max_requests: 10, window_nanos: NANOS_PER_SEC },
        EndpointType::Ticker => RateLimit { max_requests: 10, window_nanos: NANOS_PER_SEC },
        EndpointType::Candle => RateLimit { max_requests: 10, window_nanos: NANOS_PER_SEC },
        EndpointType::OrderCancelAll => RateLimit { max_requests: 1, window_nanos: 2_000_000_000 },
    }
}


impl RateLimit {
    /// Whether a request recorded at `t` still counts, seen at `now_nanos`.
    pub fn counts_at(&self, t: u128, now_nanos: u128) -> (b: bool)
        ensures
            b == in_window(now_nanos, t, self.window_nanos),
    {
        let elapsed_nanos: u128 = if t <= now_nanos { now_nanos - t } else { 0 };
        elapsed_nanos < self.window_nanos
    }
}

/// The time that has passed from `t` to `now`; none when `t` is later.
pub open spec fn elapsed(now: u128, t: u128) -> int {
    if t <= now {
        now - t
    } else {
        0
    }
}

/// A request recorded at `t` still counts at `now` for a window of `window_nanos`.
pub open spec fn in_window(now: u128, t: u128, window_nanos: u128) -> bool {
    elapsed(now, t) < window_nanos
}

/// The recorded instants that still count at `now`, in the order they were recorded.
pub open spec fn live_requests(s: Seq<u128>, now: u128, window_nanos: u128) -> Seq<u128> {
    s.filter(|t: u128| in_window(now, t, window_nanos))
}

/// The instants recorded for `e`; none where `e` has no history yet.
pub open spec fn timestamps_of(h: Map<EndpointType, Seq<u128>>, e: EndpointType) -> Seq<u128> {
    if h.dom().contains(e) {
        h[e]
    } else {
        Seq::empty()
    }
}

/// The requests of `e` that still count at `now`.
pub open spec fn live_of(h: Map<EndpointType, Seq<u128>>, e: EndpointType, now: u128) -> Seq<u128> {
    live_requests(timestamps_of(h, e), now, limit_of(e).window_nanos)
}

/// A request to `e` at `now` is admitted: fewer than the maximum still count.
pub open spec fn admits(h: Map<EndpointType, Seq<u128>>, e: EndpointType, now: u128) -> bool {
    live_of(h, e, now).len() < limit_of(e).max_requests
}

/// The history after a check of `e` at `now`: the instants of `e` that no
/// longer count are dropped, and `e` has an entry from then on.
pub open spec fn after_check(h: Map<EndpointType, Seq<u128>>, e: EndpointType, now: u128) -> Map<
    EndpointType,
    Seq<u128>,
> {
    h.insert(e, live_of(h, e, now))
}

/// The history after a request to `e` is recorded at `now`.
pub open spec fn after_record(h: Map<EndpointType, Seq<u128>>, e: EndpointType, now: u128) -> Map<
    EndpointType,
    Seq<u128>,
> {
    h.insert(e, timestamps_of(h, e).push(now))
}

/// The usage of each endpoint type that has a history, in declaration order:
/// the type, how many instants it holds (as a `u32`), and its maximum.
pub open spec fn usage_rows(h: Map<EndpointType, Seq<u128>>) -> Seq<(EndpointType, u32, u32)> {
    all_endpoints().filter(|e: EndpointType| h.dom().contains(e)).map_values(
        |e: EndpointType| (e, timestamps_of(h, e).len() as u32, limit_of(e).max_requests),
    )
}

/// Rate limiting errors.
#[derive(Debug, Clone, Copy, PartialEq, Eq, Structural)]
#[non_exhaustive]
pub enum RateLimitError {
    Exceeded { endpoint_type: EndpointType },
}

impl RateLimitError {
    /// The text that the error displays.
    pub open spec fn display(self) -> Seq<char> {
        match self {
            RateLimitError::Exceeded { endpoint_type } => "Rate limit exceeded for endpoint type: "@
                + endpoint_type.debug_name(),
        }
    }

    /// Renders the error as it displays.
    pub fn to_string(&self) -> (s: String)
        ensures
            s@ == self.display(),
    {
        match self {
            RateLimitError::Exceeded { endpoint_type } => String::from_str(
                "Rate limit exceeded for endpoint type: ",
            ).concat(endpoint_type.name()),
        }
    }

    /// The venue-level error that a refused request is reported as.
    pub fn into_errors(self) -> (r: Errors)
        ensures
            r matches Errors::Error(m) && m@ == "Rate limit exceeded for "@ + (match self {
                RateLimitError::Exceeded { endpoint_type } => endpoint_type.debug_name(),
            }),
    {
        match self {
            RateLimitError::Exceeded { endpoint_type } => Errors::Error(
                String::from_str("Rate limit exceeded for ").concat(endpoint_type.name()),
            ),
        }
    }
}

/// Declares `std::time::Instant`, which Verus sees as an opaque value.
#[verifier::external_type_specification]
#[verifier::external_body]
pub struct ExInstant(Instant);

/// Reads the monotonic clock with `std::time::Instant::now`. Nothing is claimed
/// of the result: it depends on the time of the call.
#[verifier::external_body]
fn clock_now() -> Instant {
    Instant::now()
}

/// The whole nanoseconds that have passed since `origin`: calls
/// `std::time::Instant::elapsed` and converts the duration with `as_nanos`.
/// Nothing is claimed of the result: it depends on the time of the call.
#[verifier::external_body]
fn nanos_since(origin: &Instant) -> u128 {
    origin.elapsed().as_nanos()
}

/// Rate limiter for Upbit API endpoints.
///
/// It keeps, for each endpoint type that has been checked or recorded, the
/// instants of the recorded requests, in nanoseconds since the limiter was made,
/// and the latest reading of its clock, in the same unit.
#[derive(Debug)]
pub struct RateLimiter {
    origin: Instant,
    clock_nanos: u128,
    slots: Vec<Option<Vec<u128>>>,
}

impl View for RateLimiter {
    type V = Map<EndpointType, Seq<u128>>;

    /// The request history: for each endpoint type that has an entry, the
    /// instants of its recorded requests in the order they were recorded.
    closed spec fn view(&self) -> Map<EndpointType, Seq<u128>> {
        Map::new(
            |e: EndpointType| self.slots@[e.position()] is Some,
            |e: EndpointType| self.slots@[e.position()]->0@,
        )
    }
}

proof fn lemma_position_injective(a: EndpointType, b: EndpointType)
    ensures
        a.position() == b.position() <==> a == b,
{
}

impl RateLimiter {
    /// The instant from which the limiter measures time: its time base.
    pub closed spec fn origin(&self) -> Instant {
        self.origin
    }

    /// The limiter's present instant as it last read its clock: the nanoseconds
    /// from its time base to that reading. Only the clock-reading methods move
    /// it, and never backwards.
    pub closed spec fn clock(&self) -> u128 {
        self.clock_nanos
    }

    /// The limiter holds one history slot for each endpoint type.
    pub closed spec fn wf(&self) -> bool {
        self.slots@.len() == ENDPOINT_COUNT
    }

    /// Create a new rate limiter, with no request recorded.
    pub fn new() -> (r: Self)
        ensures
            r.wf(),
            r@ == Map::<EndpointType, Seq<u128>>::empty(),
            r.clock() == 0,
    {
        let mut slots: Vec<Option<Vec<u128>>> = Vec::new();
        let mut k: usize = 0;
        while k < ENDPOINT_COUNT
            invariant
                k <= ENDPOINT_COUNT,
                slots@.len() == k,
                forall|j: int| 0 <= j < k ==> slots@[j] is None,
            decreases ENDPOINT_COUNT - k,
        {
            slots.push(None);
            k = k + 1;
        }
        let r = RateLimiter { origin: clock_now(), clock_nanos: 0, slots };
        assert(r@ =~= Map::<EndpointType, Seq<u128>>::empty());
        r
    }

    /// Get the rate limit of an endpoint type.
    pub fn get_rate_limit(endpoint_type: &EndpointType) -> (r: RateLimit)
        ensures
            r == limit_of(*endpoint_type),
    {
        match endpoint_type {
            EndpointType::Default => RateLimit::new(30, NANOS_PER_SEC),
            EndpointType::Order => RateLimit::new(8, NANOS_PER_SEC),
            EndpointType::Market => RateLimit::new(10, NANOS_PER_SEC),
            EndpointType::Trade => RateLimit::new(10, NANOS_PER_SEC),
            EndpointType::Ticker => RateLimit::new(10, NANOS_PER_SEC),
            EndpointType::Candle => RateLimit::new(10, NANOS_PER_SEC),
            EndpointType::OrderCancelAll => RateLimit::new(1, 2 * NANOS_PER_SEC),
        }
    }

    /// The instants in `ts` that still count at `now_nanos` under `limit`.
    fn live_part(ts: &Vec<u128>, limit: &RateLimit, now_nanos: u128) -> (r: Vec<u128>)
        ensures
            r@ == live_requests(ts@, now_nanos, limit.window_nanos),
    {
        let mut r: Vec<u128> = Vec::new();
        let mut k: usize = 0;
        while k < ts.len()
            invariant
                k <= ts@.len(),
                r@ == live_requests(ts@.take(k as int), now_nanos, limit.window_nanos),
            decreases ts@.len() - k,
        {
            let t = ts[k];
            proof {
                reveal(Seq::filter);
                assert(ts@.take(k + 1).drop_last() =~= ts@.take(k as int));
                assert(ts@.take(k + 1).last() == t);
            }
            if limit.counts_at(t, now_nanos) {
                r.push(t);
            }
            k = k + 1;
        }
        assert(ts@.take(ts@.len() as int) =~= ts@);
        r
    }

    /// Check whether a request to `endpoint_type` can be made at `now_nanos`
    /// (nanoseconds since the limiter was made). The recorded instants that no
    /// longer count are dropped; the request is refused when as many as the
    /// endpoint's maximum still count.
    pub fn check_limits_at(&mut self, endpoint_type: EndpointType, now_nanos: u128) -> (r: Result<
        (),
        RateLimitError,
    >)
        requires
            old(self).wf(),
        ensures
            final(self).wf(),
            final(self).origin() == old(self).origin(),
            final(self)@ == after_check(old(self)@, endpoint_type, now_nanos),
            final(self).clock() == old(self).clock(),
            r is Ok <==> admits(old(self)@, endpoint_type, now_nanos),
            r is Err ==> r == Err::<(), RateLimitError>(RateLimitError::Exceeded { endpoint_type }),
    {
        let limit = Self::get_rate_limit(&endpoint_type);
        let i = endpoint_type.slot();
        let kept = match &self.slots[i] {
            Some(ts) => Self::live_part(ts, &limit, now_nanos),
            None => {
                proof {
                    reveal(Seq::filter);
                }
                Vec::new()
            },
        };
        let count = kept.len();
        let ghost before = self@;
        self.slots.set(i, Some(kept));
        proof {
            assert forall|e: EndpointType| #![auto] e != endpoint_type implies self.slots@[e.position()]
                == old(self).slots@[e.position()] by {
                lemma_position_injective(e, endpoint_type);
            }
            assert(self@ =~= after_check(before, endpoint_type, now_nanos));
        }
        if count >= limit.max_requests as usize {
            return Err(RateLimitError::Exceeded { endpoint_type });
        }
        Ok(())
    }

    /// Record a request to `endpoint_type` at `now_nanos` (nanoseconds since the
    /// limiter was made).
    pub fn increment_request_at(&mut self, endpoint_type: EndpointType, now_nanos: u128)
        requires
            old(self).wf(),
        ensures
            final(self).wf(),
            final(self).origin() == old(self).origin(),
            final(self)@ == after_record(old(self)@, endpoint_type, now_nanos),
            final(self).clock() == old(self).clock(),
    {
        let i = endpoint_type.slot();
        let taken = self.slots.remove(i);
        let mut ts = match taken {
            Some(v) => v,
            None => Vec::new(),
        };
        ts.push(now_nanos);
        self.slots.insert(i, Some(ts));
        proof {
            assert(self.slots@ =~= old(self).slots@.update(i as int, Some(ts)));
            assert forall|e: EndpointType| #![auto] e != endpoint_type implies self.slots@[e.position()]
                == old(self).slots@[e.position()] by {
                lemma_position_injective(e, endpoint_type);
            }
            assert(self@ =~= after_record(old(self)@, endpoint_type, now_nanos));
        }
    }

    /// The nanoseconds since the limiter was made, as the clock reads now. The
    /// monotonic clock never reads less than it did before, so this is never
    /// less than the limiter's last reading; taking the larger of the two keeps
    /// that so whatever the platform's clock does.
    fn now_nanos(&self) -> (r: u128)
        ensures
            r >= self.clock(),
    {
        let reading = nanos_since(&self.origin);
        if reading < self.clock_nanos {
            self.clock_nanos
        } else {
            reading
        }
    }

    /// Read the clock and advance the limiter's present instant to the reading.
    fn tick(&mut self)
        ensures
            final(self).clock() >= old(self).clock(),
            final(self).origin() == old(self).origin(),
            final(self).slots == old(self).slots,
    {
        self.clock_nanos = self.now_nanos();
    }

    /// Check whether a request to `endpoint_type` can be made now; see
    /// [`RateLimiter::check_limits_at`], which this calls with the clock's reading.
    pub fn check_limits(&mut self, endpoint_type: EndpointType) -> (r: Result<(), RateLimitError>)
        requires
            old(self).wf(),
        ensures
            final(self).wf(),
            final(self).origin() == old(self).origin(),
            final(self).clock() >= old(self).clock(),
            final(self)@ == after_check(old(self)@, endpoint_type, final(self).clock()),
            r is Ok <==> admits(old(self)@, endpoint_type, final(self).clock()),
            r is Err ==> r == Err::<(), RateLimitError>(RateLimitError::Exceeded { endpoint_type }),
    {
        self.tick();
        let now = self.clock_nanos;
        self.check_limits_at(endpoint_type, now)
    }

    /// Record a request to `endpoint_type` at the clock's present reading.
    pub fn increment_request(&mut self, endpoint_type: EndpointType)
        requires
            old(self).wf(),
        ensures
            final(self).wf(),
            final(self).origin() == old(self).origin(),
            final(self).clock() >= old(self).clock(),
            final(self)@ == after_record(old(self)@, endpoint_type, final(self).clock()),
    {
        self.tick();
        let now = self.clock_nanos;
        self.increment_request_at(endpoint_type, now);
    }

    /// Check whether a request to `endpoint_type` can be made now, reporting a
    /// refusal as the venue-level [`Errors::Error`] that names the endpoint type.
    pub fn check_limits_for_endpoint(&mut self, endpoint_type: EndpointType) -> (r: Result<
        (),
        Errors,
    >)
        requires
            old(self).wf(),
        ensures
            final(self).wf(),
            final(self).origin() == old(self).origin(),
            final(self).clock() >= old(self).clock(),
            final(self)@ == after_check(old(self)@, endpoint_type, final(self).clock()),
            r is Ok <==> admits(old(self)@, endpoint_type, final(self).clock()),
            r matches Err(Errors::Error(m)) ==> m@ == "Rate limit exceeded for "@
                + endpoint_type.debug_name(),
            r is Err ==> r->Err_0 is Error,
    {
        match self.check_limits(endpoint_type) {
            Ok(()) => Ok(()),
            Err(e) => Err(e.into_errors()),
        }
    }

    /// Record a request to `endpoint_type` at the clock's present reading.
    pub fn record_request_for_endpoint(&mut self, endpoint_type: EndpointType)
        requires
            old(self).wf(),
        ensures
            final(self).wf(),
            final(self).origin() == old(self).origin(),
            final(self).clock() >= old(self).clock(),
            final(self)@ == after_record(old(self)@, endpoint_type, final(self).clock()),
    {
        self.increment_request(endpoint_type);
    }

    /// The usage of each endpoint type that has a history, in declaration order:
    /// the type, how many request instants it holds, and its maximum.
    pub fn get_endpoint_usage_stats(&self) -> (r: Vec<(EndpointType, u32, u32)>)
        requires
            self.wf(),
        ensures
            r@ == usage_rows(self@),
    {
        let mut r: Vec<(EndpointType, u32, u32)> = Vec::new();
        let ghost h = self@;
        let ghost present = |e: EndpointType| h.dom().contains(e);
        let ghost row = |e: EndpointType|
            (e, timestamps_of(h, e).len() as u32, limit_of(e).max_requests);
        let mut k: usize = 0;
        while k < ENDPOINT_COUNT
            invariant
                k <= ENDPOINT_COUNT,
                self.wf(),
                h == self@,
                present == (|e: EndpointType| h.dom().contains(e)),
                row == (|e: EndpointType|
                    (e, timestamps_of(h, e).len() as u32, limit_of(e).max_requests)),
                r@ == all_endpoints().take(k as int).filter(present).map_values(row),
            decreases ENDPOINT_COUNT - k,
        {
            let e = EndpointType::from_slot(k);
            proof {
                lemma_position_injective(e, all_endpoints()[k as int]);
                reveal(Seq::filter);
                assert(all_endpoints().take(k + 1).drop_last() =~= all_endpoints().take(k as int));
                assert(all_endpoints().take(k + 1).last() == e);
            }
            let ghost before = r@;
            match &self.slots[k] {
                Some(ts) => {
                    let limit = Self::get_rate_limit(&e);
                    r.push((e, ts.len() as u32, limit.max_requests));
                    proof {
                        assert(present(e));
                        assert(all_endpoints().take(k as int).filter(present).push(e).map_values(row)
                            =~= before.push(row(e)));
                    }
                },
                None => {
                    proof {
                        assert(!present(e));
                    }
                },
            }
            k = k + 1;
        }
        assert(all_endpoints().take(ENDPOINT_COUNT as int) =~= all_endpoints());
        r
    }
}


impl Default for RateLimiter {
    /// A new rate limiter, with no request recorded.
    fn default() -> (r: Self)
        ensures
            r.wf(),
            r@ == Map::<EndpointType, Seq<u128>>::empty(),
    {
        Self::new()
    }
}

} // verus!
