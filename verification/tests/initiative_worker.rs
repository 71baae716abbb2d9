use hekate::initiative_worker::bounded_backoff;
use hekate::interval::Interval;

#[test]
fn error_backoff_stops_at_configured_ceiling() {
    assert_eq!(
        bounded_backoff(Interval::from_secs(2), Interval::from_secs(10), 0),
        Interval::from_secs(2)
    );
    assert_eq!(
        bounded_backoff(Interval::from_secs(2), Interval::from_secs(10), 2),
        Interval::from_secs(8)
    );
    assert_eq!(
        bounded_backoff(Interval::from_secs(2), Interval::from_secs(10), 8),
        Interval::from_secs(10)
    );
}
