use venues::{EndpointType, Errors, RateLimit, RateLimitError, RateLimiter};

const SEC: u128 = 1_000_000_000;

#[test]
fn test_rate_limiter_basic() {
    let mut limiter = RateLimiter::new();

    // First request should succeed
    assert!(limiter.check_limits(EndpointType::Default).is_ok());
    limiter.increment_request(EndpointType::Default);
}

#[test]
fn test_order_rate_limit() {
    let mut limiter = RateLimiter::new();

    assert!(limiter.check_limits(EndpointType::Order).is_ok());
    limiter.increment_request(EndpointType::Order);
}

#[test]
fn test_candle_rate_limit() {
    let mut limiter = RateLimiter::new();

    // Candle endpoints: 10 per second
    for _ in 0..10 {
        assert!(limiter.check_limits(EndpointType::Candle).is_ok());
        limiter.increment_request(EndpointType::Candle);
    }

    // 11th request should fail
    assert!(limiter.check_limits(EndpointType::Candle).is_err());
}

#[test]
fn test_trade_rate_limit() {
    let mut limiter = RateLimiter::new();

    assert!(limiter.check_limits(EndpointType::Trade).is_ok());
    limiter.increment_request(EndpointType::Trade);
}

#[test]
fn test_ticker_rate_limit() {
    let mut limiter = RateLimiter::new();

    assert!(limiter.check_limits(EndpointType::Ticker).is_ok());
    limiter.increment_request(EndpointType::Ticker);
}

#[test]
fn test_order_cancel_all_rate_limit() {
    let mut limiter = RateLimiter::new();

    // Order cancel all: 1 per 2 seconds
    assert!(limiter.check_limits(EndpointType::OrderCancelAll).is_ok());
    limiter.increment_request(EndpointType::OrderCancelAll);

    // Second request should fail
    assert!(limiter.check_limits(EndpointType::OrderCancelAll).is_err());
}

#[test]
fn test_rate_limit_config() {
    let config = RateLimit::new(100, 60 * SEC);
    assert_eq!(config.max_requests, 100);
    assert_eq!(config.window_nanos, 60 * SEC);
}

#[test]
fn test_endpoint_types() {
    let default = EndpointType::Default;
    let order = EndpointType::Order;
    let candle = EndpointType::Candle;
    let trade = EndpointType::Trade;
    let ticker = EndpointType::Ticker;

    assert_ne!(default, order);
    assert_ne!(default, candle);
    assert_ne!(trade, ticker);
    assert_eq!(default.clone(), EndpointType::Default);
    assert_eq!(candle.clone(), EndpointType::Candle);
}

#[test]
fn test_rate_limit_exceeded() {
    let mut limiter = RateLimiter::new();

    // Fill up the limit for Order endpoint (8 requests per second)
    for _ in 0..8 {
        assert!(limiter.check_limits(EndpointType::Order).is_ok());
        limiter.increment_request(EndpointType::Order);
    }

    // Next request should fail
    assert!(limiter.check_limits(EndpointType::Order).is_err());
}

#[test]
fn test_different_endpoints_independent() {
    let mut limiter = RateLimiter::new();

    // Use up Order endpoint
    for _ in 0..8 {
        limiter.increment_request(EndpointType::Order);
    }

    // Default endpoint should still work
    assert!(limiter.check_limits(EndpointType::Default).is_ok());

    // Trade endpoint should still work
    assert!(limiter.check_limits(EndpointType::Trade).is_ok());
}

#[test]
fn test_market_trade_ticker_limits() {
    let mut limiter = RateLimiter::new();

    for _ in 0..10 {
        assert!(limiter.check_limits(EndpointType::Market).is_ok());
        limiter.increment_request(EndpointType::Market);
    }
    assert!(limiter.check_limits(EndpointType::Market).is_err());

    for _ in 0..10 {
        assert!(limiter.check_limits(EndpointType::Trade).is_ok());
        limiter.increment_request(EndpointType::Trade);
    }
    assert!(limiter.check_limits(EndpointType::Trade).is_err());

    for _ in 0..10 {
        assert!(limiter.check_limits(EndpointType::Ticker).is_ok());
        limiter.increment_request(EndpointType::Ticker);
    }
    assert!(limiter.check_limits(EndpointType::Ticker).is_err());
}

#[test]
fn published_limits_per_group() {
    let table = [
        (EndpointType::Default, 30, SEC),
        (EndpointType::Order, 8, SEC),
        (EndpointType::Market, 10, SEC),
        (EndpointType::Trade, 10, SEC),
        (EndpointType::Ticker, 10, SEC),
        (EndpointType::Candle, 10, SEC),
        (EndpointType::OrderCancelAll, 1, 2 * SEC),
    ];
    for (e, max, window) in table {
        let limit = RateLimiter::get_rate_limit(&e);
        assert_eq!(limit.max_requests, max);
        assert_eq!(limit.window_nanos, window);
    }
}

#[test]
fn refusal_names_the_endpoint() {
    let mut limiter = RateLimiter::new();
    limiter.increment_request_at(EndpointType::OrderCancelAll, 0);
    let r = limiter.check_limits_at(EndpointType::OrderCancelAll, 1);
    assert_eq!(
        r,
        Err(RateLimitError::Exceeded { endpoint_type: EndpointType::OrderCancelAll })
    );
}

#[test]
fn requests_expire_after_the_window() {
    let mut limiter = RateLimiter::new();
    for k in 0..8u128 {
        assert!(limiter.check_limits_at(EndpointType::Order, k).is_ok());
        limiter.increment_request_at(EndpointType::Order, k);
    }
    assert!(limiter.check_limits_at(EndpointType::Order, 100).is_err());
    // At SEC + 3 the requests recorded at 0..=3 have aged a full window.
    assert!(limiter.check_limits_at(EndpointType::Order, SEC + 3).is_ok());
    assert_eq!(limiter.get_endpoint_usage_stats(), vec![(EndpointType::Order, 4, 8)]);
    // Once the window has passed for all of them, the history is cleared.
    assert!(limiter.check_limits_at(EndpointType::Order, 10 * SEC).is_ok());
    assert_eq!(limiter.get_endpoint_usage_stats(), vec![(EndpointType::Order, 0, 8)]);
}

#[test]
fn request_exactly_one_window_old_no_longer_counts() {
    let mut limiter = RateLimiter::new();
    limiter.increment_request_at(EndpointType::OrderCancelAll, 5);
    assert!(limiter.check_limits_at(EndpointType::OrderCancelAll, 5 + 2 * SEC - 1).is_err());
    assert!(limiter.check_limits_at(EndpointType::OrderCancelAll, 5 + 2 * SEC).is_ok());
}

#[test]
fn request_recorded_after_now_still_counts() {
    let mut limiter = RateLimiter::new();
    limiter.increment_request_at(EndpointType::OrderCancelAll, 50 * SEC);
    assert!(limiter.check_limits_at(EndpointType::OrderCancelAll, 0).is_err());
}

#[test]
fn check_twice_at_same_instant_agrees() {
    let mut limiter = RateLimiter::new();
    for k in 0..10u128 {
        limiter.increment_request_at(EndpointType::Market, k * 200_000_000);
    }
    let first = limiter.check_limits_at(EndpointType::Market, SEC + 1);
    let stats = limiter.get_endpoint_usage_stats();
    let second = limiter.check_limits_at(EndpointType::Market, SEC + 1);
    assert_eq!(first, second);
    assert!(first.is_ok());
    assert_eq!(stats, limiter.get_endpoint_usage_stats());
    assert_eq!(stats, vec![(EndpointType::Market, 9, 10)]);
}

#[test]
fn usage_stats_list_endpoints_in_declaration_order() {
    let mut limiter = RateLimiter::new();
    assert!(limiter.get_endpoint_usage_stats().is_empty());
    limiter.increment_request_at(EndpointType::Candle, 1);
    limiter.increment_request_at(EndpointType::Candle, 2);
    limiter.increment_request_at(EndpointType::Default, 3);
    assert!(limiter.check_limits_at(EndpointType::Ticker, 4).is_ok());
    assert_eq!(
        limiter.get_endpoint_usage_stats(),
        vec![
            (EndpointType::Default, 1, 30),
            (EndpointType::Ticker, 0, 10),
            (EndpointType::Candle, 2, 10),
        ]
    );
}

#[test]
fn recording_on_one_endpoint_leaves_others() {
    let mut limiter = RateLimiter::new();
    limiter.increment_request_at(EndpointType::Trade, 7);
    assert!(limiter.check_limits_at(EndpointType::OrderCancelAll, 7).is_ok());
    limiter.increment_request_at(EndpointType::OrderCancelAll, 7);
    assert!(limiter.check_limits_at(EndpointType::OrderCancelAll, 8).is_err());
    assert!(limiter.check_limits_at(EndpointType::Trade, 8).is_ok());
    assert_eq!(
        limiter.get_endpoint_usage_stats(),
        vec![(EndpointType::Trade, 1, 10), (EndpointType::OrderCancelAll, 1, 1)]
    );
}

#[test]
fn default_limiter_is_empty() {
    let mut limiter = RateLimiter::default();
    assert!(limiter.get_endpoint_usage_stats().is_empty());
    assert!(limiter.check_limits_at(EndpointType::Default, 0).is_ok());
}

#[test]
fn check_limits_for_endpoint_reports_venue_error() {
    let mut limiter = RateLimiter::new();
    assert!(limiter.check_limits_for_endpoint(EndpointType::OrderCancelAll).is_ok());
    limiter.record_request_for_endpoint(EndpointType::OrderCancelAll);
    match limiter.check_limits_for_endpoint(EndpointType::OrderCancelAll) {
        Err(Errors::Error(m)) => assert_eq!(m, "Rate limit exceeded for OrderCancelAll"),
        other => panic!("unexpected {:?}", other),
    }
}

#[test]
fn rate_limit_error_text() {
    let e = RateLimitError::Exceeded { endpoint_type: EndpointType::Candle };
    assert_eq!(e.to_string(), "Rate limit exceeded for endpoint type: Candle");
    match e.into_errors() {
        Errors::Error(m) => assert_eq!(m, "Rate limit exceeded for Candle"),
        other => panic!("unexpected {:?}", other),
    }
}

#[test]
fn endpoint_names_match_debug() {
    for k in 0..7usize {
        let e = EndpointType::from_slot(k);
        assert_eq!(e.slot(), k);
        assert_eq!(e.name(), format!("{:?}", e));
    }
}

#[test]
fn serving_out_of_order_never_exceeds_the_maximum() {
    let mut limiter = RateLimiter::new();
    let instants = [5 * SEC, 3 * SEC, 7 * SEC, 6 * SEC, 9 * SEC + 1];
    let mut admitted = Vec::new();
    for &t in instants.iter() {
        if limiter.check_limits_at(EndpointType::OrderCancelAll, t).is_ok() {
            limiter.increment_request_at(EndpointType::OrderCancelAll, t);
            admitted.push(t);
        }
        let stats = limiter.get_endpoint_usage_stats();
        assert_eq!(stats.len(), 1);
        assert!(stats[0].1 <= 1);
    }
    assert_eq!(admitted, vec![5 * SEC, 7 * SEC, 9 * SEC + 1]);
}

#[test]
fn recording_without_checking_still_counts() {
    let mut limiter = RateLimiter::new();
    for _ in 0..30 {
        limiter.increment_request_at(EndpointType::Default, 0);
    }
    assert!(limiter.check_limits_at(EndpointType::Default, 1).is_err());
    limiter.increment_request_at(EndpointType::Default, 0);
    assert!(limiter.check_limits_at(EndpointType::Default, 1).is_err());
    assert_eq!(limiter.get_endpoint_usage_stats(), vec![(EndpointType::Default, 31, 30)]);
}

#[test]
fn burst_at_one_instant_admits_exactly_the_maximum() {
    for k in 0..7usize {
        let e = EndpointType::from_slot(k);
        let max = RateLimiter::get_rate_limit(&e).max_requests;
        let mut limiter = RateLimiter::new();
        let mut admitted = 0u32;
        for _ in 0..(max + 5) {
            if limiter.check_limits_at(e, 42).is_ok() {
                limiter.increment_request_at(e, 42);
                admitted += 1;
            }
        }
        assert_eq!(admitted, max);
    }
}

#[test]
fn windows_beyond_u64_nanoseconds_are_accepted() {
    // `Duration::MAX` in nanoseconds does not fit a u64.
    let longest = std::time::Duration::MAX.as_nanos();
    let limit = RateLimit::new(1, longest);
    assert_eq!(limit.window_nanos, longest);
    let mut limiter = RateLimiter::new();
    limiter.increment_request_at(EndpointType::Order, 0);
    assert!(limiter.check_limits_at(EndpointType::Order, u128::from(u64::MAX) + 1).is_ok());
}
