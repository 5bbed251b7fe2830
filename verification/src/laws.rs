//! What holds of the rate limiter across calls, stated over the request history
//! that [`RateLimiter`](crate::rate_limit::RateLimiter) exposes as its view and
//! proved from the definitions that its methods' contracts use.
use vstd::prelude::*;

use crate::rate_limit::{
    admits, after_check, after_record, in_window, limit_of, live_of, live_requests,
    timestamps_of, EndpointType,
};

verus! {

proof fn lemma_filter_push(s: Seq<u128>, x: u128, p: spec_fn(u128) -> bool)
    ensures
        s.push(x).filter(p) == (if p(x) {
            s.filter(p).push(x)
        } else {
            s.filter(p)
        }),
{
    reveal(Seq::filter);
    assert(s.push(x).drop_last() =~= s);
}

proof fn lemma_filter_idempotent(s: Seq<u128>, p: spec_fn(u128) -> bool)
    ensures
        s.filter(p).filter(p) == s.filter(p),
    decreases s.len(),
{
    reveal(Seq::filter);
    if s.len() > 0 {
        lemma_filter_idempotent(s.drop_last(), p);
        if p(s.last()) {
            lemma_filter_push(s.drop_last().filter(p), s.last(), p);
        }
    }
}

proof fn lemma_filter_none(s: Seq<u128>, p: spec_fn(u128) -> bool)
    requires
        forall|i: int| 0 <= i < s.len() ==> !p(#[trigger] s[i]),
    ensures
        s.filter(p) == Seq::<u128>::empty(),
    decreases s.len(),
{
    reveal(Seq::filter);
    if s.len() > 0 {
        assert forall|i: int| 0 <= i < s.drop_last().len() implies !p(#[trigger] s.drop_last()[i]) by {
            assert(s.drop_last()[i] == s[i]);
        }
        lemma_filter_none(s.drop_last(), p);
        assert(!p(s[s.len() - 1]));
    }
}

/// Every endpoint group admits at least one request, within a window that is
/// not empty.
pub proof fn limits_are_positive(e: EndpointType)
    ensures
        limit_of(e).max_requests >= 1,
        limit_of(e).window_nanos >= 1,
{
}

/// A limiter with no history admits a request to any endpoint, at any instant.
pub proof fn fresh_limiter_admits(e: EndpointType, now: u128)
    ensures
        admits(Map::<EndpointType, Seq<u128>>::empty(), e, now),
{
    reveal(Seq::filter);
    assert(timestamps_of(Map::<EndpointType, Seq<u128>>::empty(), e) =~= Seq::<u128>::empty());
}

/// Endpoint groups are independent: checking or recording a request to one
/// endpoint type changes neither the history of another nor whether the other
/// admits a request.
pub proof fn endpoints_are_independent(
    h: Map<EndpointType, Seq<u128>>,
    e: EndpointType,
    other: EndpointType,
    now: u128,
    later: u128,
)
    requires
        e != other,
    ensures
        timestamps_of(after_check(h, e, now), other) == timestamps_of(h, other),
        timestamps_of(after_record(h, e, now), other) == timestamps_of(h, other),
        admits(after_check(h, e, now), other, later) == admits(h, other, later),
        admits(after_record(h, e, now), other, later) == admits(h, other, later),
{
}

/// Checking is idempotent: a second check of the same endpoint at the same
/// instant gives the same answer and leaves the history as the first left it.
pub proof fn check_is_idempotent(h: Map<EndpointType, Seq<u128>>, e: EndpointType, now: u128)
    ensures
        after_check(after_check(h, e, now), e, now) == after_check(h, e, now),
        admits(after_check(h, e, now), e, now) == admits(h, e, now),
{
    let p = |t: u128| in_window(now, t, limit_of(e).window_nanos);
    lemma_filter_idempotent(timestamps_of(h, e), p);
    assert(live_of(after_check(h, e, now), e, now) == live_of(h, e, now));
    assert(after_check(after_check(h, e, now), e, now) =~= after_check(h, e, now));
}

/// A request that is admitted and then recorded at the same instant never
/// takes an endpoint past its maximum: afterwards at most the maximum count.
pub proof fn admitted_request_stays_within_limit(
    h: Map<EndpointType, Seq<u128>>,
    e: EndpointType,
    now: u128,
)
    requires
        admits(h, e, now),
    ensures
        live_of(after_record(after_check(h, e, now), e, now), e, now).len() == live_of(
            h,
            e,
            now,
        ).len() + 1,
        live_of(after_record(after_check(h, e, now), e, now), e, now).len()
            <= limit_of(e).max_requests,
{
    let p = |t: u128| in_window(now, t, limit_of(e).window_nanos);
    let kept = live_of(h, e, now);
    assert(timestamps_of(after_record(after_check(h, e, now), e, now), e) == kept.push(now));
    lemma_filter_push(kept, now, p);
    lemma_filter_idempotent(timestamps_of(h, e), p);
}

/// Requests expire: once a full window has passed since every request recorded
/// for an endpoint, a request is admitted again and a check clears its history.
pub proof fn expired_requests_are_forgotten(
    h: Map<EndpointType, Seq<u128>>,
    e: EndpointType,
    now: u128,
)
    requires
        forall|i: int|
            0 <= i < timestamps_of(h, e).len() ==> #[trigger] timestamps_of(h, e)[i]
                + limit_of(e).window_nanos <= now,
    ensures
        admits(h, e, now),
        after_check(h, e, now)[e] == Seq::<u128>::empty(),
{
    let p = |t: u128| in_window(now, t, limit_of(e).window_nanos);
    assert forall|i: int| 0 <= i < timestamps_of(h, e).len() implies !p(
        #[trigger] timestamps_of(h, e)[i],
    ) by {
        assert(timestamps_of(h, e)[i] + limit_of(e).window_nanos <= now);
    }
    lemma_filter_none(timestamps_of(h, e), p);
}

/// Recording a request never makes an endpoint more permissive: at any later
/// instant, no fewer of its requests count than before the recording.
pub proof fn recording_never_frees_capacity(
    h: Map<EndpointType, Seq<u128>>,
    e: EndpointType,
    t: u128,
    now: u128,
)
    ensures
        live_of(after_record(h, e, t), e, now).len() >= live_of(h, e, now).len(),
        admits(after_record(h, e, t), e, now) ==> admits(h, e, now),
{
    let p = |x: u128| in_window(now, x, limit_of(e).window_nanos);
    lemma_filter_push(timestamps_of(h, e), t, p);
    assert(live_requests(timestamps_of(after_record(h, e, t), e), now, limit_of(e).window_nanos)
        == timestamps_of(h, e).push(t).filter(p));
}

/// What a caller that checks before it records does with a request to `e` at
/// `now`: check, and record the request only where the check admits it.
pub open spec fn serve(h: Map<EndpointType, Seq<u128>>, e: EndpointType, now: u128) -> Map<
    EndpointType,
    Seq<u128>,
> {
    if admits(h, e, now) {
        after_record(after_check(h, e, now), e, now)
    } else {
        after_check(h, e, now)
    }
}

/// The history after `k` requests to `e`, all at instant `now`, are served.
pub open spec fn serve_burst(h: Map<EndpointType, Seq<u128>>, e: EndpointType, now: u128, k: nat) -> Map<
    EndpointType,
    Seq<u128>,
>
    decreases k,
{
    if k == 0 {
        h
    } else {
        serve(serve_burst(h, e, now, (k - 1) as nat), e, now)
    }
}

/// No endpoint ever holds more requests that count than its maximum.
pub open spec fn within_limit(h: Map<EndpointType, Seq<u128>>, e: EndpointType) -> bool {
    forall|n: u128| #[trigger] live_of(h, e, n).len() <= limit_of(e).max_requests
}

/// The sliding window holds: where requests are recorded only after a check
/// admits them, at no instant do more requests count than the endpoint's
/// maximum, whatever the instants at which requests come, in order or not.
/// A limiter starts within the limit, and serving a request keeps it there.
pub proof fn serving_stays_within_limit(
    h: Map<EndpointType, Seq<u128>>,
    e: EndpointType,
    t: u128,
)
    requires
        within_limit(h, e),
    ensures
        within_limit(Map::<EndpointType, Seq<u128>>::empty(), e),
        within_limit(serve(h, e, t), e),
{
    assert forall|n: u128| #[trigger]
        live_of(Map::<EndpointType, Seq<u128>>::empty(), e, n).len() <= limit_of(e).max_requests by {
        fresh_limiter_admits(e, n);
    }
    let kept = live_of(h, e, t);
    assert forall|n: u128| #[trigger] live_of(serve(h, e, t), e, n).len() <= limit_of(e).max_requests by {
        let p = |x: u128| in_window(n, x, limit_of(e).window_nanos);
        kept.lemma_filter_len(p);
        if admits(h, e, t) {
            assert(timestamps_of(serve(h, e, t), e) == kept.push(t));
            lemma_filter_push(kept, t, p);
        } else {
            assert(timestamps_of(serve(h, e, t), e) == kept);
            assert(live_of(h, e, t).len() <= limit_of(e).max_requests);
        }
    }
}

/// A burst of requests at one instant on an endpoint with no history: exactly
/// the first `max_requests` are admitted, and every later one is refused.
pub proof fn burst_admits_exactly_the_maximum(e: EndpointType, now: u128, k: nat)
    ensures
        live_of(serve_burst(Map::<EndpointType, Seq<u128>>::empty(), e, now, k), e, now).len() == (
        if k < limit_of(e).max_requests {
            k
        } else {
            limit_of(e).max_requests as nat
        }),
        admits(serve_burst(Map::<EndpointType, Seq<u128>>::empty(), e, now, k), e, now) <==> k
            < limit_of(e).max_requests,
    decreases k,
{
    let empty = Map::<EndpointType, Seq<u128>>::empty();
    if k == 0 {
        fresh_limiter_admits(e, now);
        reveal(Seq::filter);
        assert(timestamps_of(empty, e) =~= Seq::<u128>::empty());
    } else {
        let prev = serve_burst(empty, e, now, (k - 1) as nat);
        burst_admits_exactly_the_maximum(e, now, (k - 1) as nat);
        check_is_idempotent(prev, e, now);
        if admits(prev, e, now) {
            admitted_request_stays_within_limit(prev, e, now);
        } else {
            assert(live_of(after_check(prev, e, now), e, now) == live_of(prev, e, now));
        }
    }
}

/// A request recorded at clock instant `recorded_at` counts at a later check at
/// `checked_at` exactly while less than a full window of clock time has passed;
/// from a full window on, that check sees only what it saw without the request.
pub proof fn recorded_request_counts_for_one_window(
    h: Map<EndpointType, Seq<u128>>,
    e: EndpointType,
    recorded_at: u128,
    checked_at: u128,
)
    requires
        recorded_at <= checked_at,
    ensures
        checked_at < recorded_at + limit_of(e).window_nanos ==> live_of(
            after_record(h, e, recorded_at),
            e,
            checked_at,
        ) == live_of(h, e, checked_at).push(recorded_at),
        checked_at >= recorded_at + limit_of(e).window_nanos ==> live_of(
            after_record(h, e, recorded_at),
            e,
            checked_at,
        ) == live_of(h, e, checked_at),
{
    let p = |t: u128| in_window(checked_at, t, limit_of(e).window_nanos);
    lemma_filter_push(timestamps_of(h, e), recorded_at, p);
    assert(timestamps_of(after_record(h, e, recorded_at), e) == timestamps_of(h, e).push(
        recorded_at,
    ));
}

/// Every recorded request lies no later than clock instant `c`.
pub open spec fn recorded_by(h: Map<EndpointType, Seq<u128>>, c: u128) -> bool {
    forall|e: EndpointType, i: int|
        0 <= i < timestamps_of(h, e).len() ==> #[trigger] timestamps_of(h, e)[i] <= c
}

/// Checks and records made at the limiter's clock, which never goes back, keep
/// every recorded request at or before the present instant: a request is never
/// recorded in the future of a later check.
pub proof fn clock_keeps_requests_in_the_past(
    h: Map<EndpointType, Seq<u128>>,
    e: EndpointType,
    before: u128,
    now: u128,
)
    requires
        recorded_by(h, before),
        before <= now,
    ensures
        recorded_by(h, now),
        recorded_by(after_record(h, e, now), now),
        recorded_by(after_check(h, e, now), now),
{
    assert forall|x: EndpointType, i: int|
        0 <= i < timestamps_of(after_record(h, e, now), x).len() implies #[trigger] timestamps_of(
        after_record(h, e, now),
        x,
    )[i] <= now by {
        if x == e {
            if i < timestamps_of(h, e).len() {
                assert(timestamps_of(after_record(h, e, now), x)[i] == timestamps_of(h, e)[i]);
            }
        } else {
            assert(timestamps_of(after_record(h, e, now), x) == timestamps_of(h, x));
        }
    }
    let p = |t: u128| in_window(now, t, limit_of(e).window_nanos);
    assert forall|x: EndpointType, i: int|
        0 <= i < timestamps_of(after_check(h, e, now), x).len() implies #[trigger] timestamps_of(
        after_check(h, e, now),
        x,
    )[i] <= now by {
        if x == e {
            let kept = timestamps_of(h, e).filter(p);
            assert(timestamps_of(after_check(h, e, now), x) == kept);
            let ts = timestamps_of(h, e);
            assert(kept.contains(kept[i]));
            ts.lemma_filter_contains_rev(p, kept[i]);
            let j = choose|j: int| 0 <= j < ts.len() && ts[j] == kept[i];
            assert(ts[j] <= before);
        } else {
            assert(timestamps_of(after_check(h, e, now), x) == timestamps_of(h, x));
        }
    }
}

/// Once a full window of clock time has passed since the instant by which all
/// requests were recorded, an endpoint admits a request again and a check
/// clears its history.
pub proof fn requests_expire_a_window_after_the_clock(
    h: Map<EndpointType, Seq<u128>>,
    e: EndpointType,
    c: u128,
    now: u128,
)
    requires
        recorded_by(h, c),
        now >= c + limit_of(e).window_nanos,
    ensures
        admits(h, e, now),
        after_check(h, e, now)[e] == Seq::<u128>::empty(),
{
    assert forall|i: int| 0 <= i < timestamps_of(h, e).len() implies #[trigger] timestamps_of(
        h,
        e,
    )[i] + limit_of(e).window_nanos <= now by {
        assert(timestamps_of(h, e)[i] <= c);
    }
    expired_requests_are_forgotten(h, e, now);
}

} // verus!
