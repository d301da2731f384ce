use replay::{MirrorLimits, ReplayError};

fn in_unit_range(rate: f64) -> bool {
    (0.0..=1.0).contains(&rate)
}

fn message(r: Result<(), ReplayError>) -> String {
    match r {
        Err(ReplayError::InvalidConfig(m)) => m,
        Ok(()) => panic!("expected an error"),
    }
}

#[test]
fn default_limits() {
    let l = MirrorLimits::default();
    assert_eq!(l.channel_buffer_size, 1024);
    assert_eq!(l.max_concurrent_requests, 50);
    assert_eq!(replay::config::DEFAULT_CHANNEL_BUFFER_SIZE, 1024);
    assert_eq!(replay::config::DEFAULT_MAX_CONCURRENT_REQUESTS, 50);
}

#[test]
fn valid_config() {
    MirrorLimits::default().validate(in_unit_range(0.10)).unwrap();
}

#[test]
fn sample_rate_out_of_range() {
    let c = MirrorLimits::default();
    assert!(c.validate(in_unit_range(1.5)).is_err());
    assert!(c.validate(in_unit_range(-0.1)).is_err());
}

#[test]
fn sample_rate_bounds_are_valid() {
    let c = MirrorLimits::default();
    assert!(c.validate(in_unit_range(0.0)).is_ok());
    assert!(c.validate(in_unit_range(1.0)).is_ok());
}

#[test]
fn zero_buffer_rejected() {
    let mut c = MirrorLimits::default();
    c.channel_buffer_size = 0;
    assert!(c.validate(true).is_err());
}

#[test]
fn zero_concurrency_rejected() {
    let mut c = MirrorLimits::default();
    c.max_concurrent_requests = 0;
    assert!(c.validate(true).is_err());
}

#[test]
fn error_messages_name_the_broken_rule() {
    let c = MirrorLimits::default();
    assert_eq!(message(c.validate(false)), "sample_rate must be between 0.0 and 1.0");
    let z = MirrorLimits { channel_buffer_size: 0, max_concurrent_requests: 0 };
    assert_eq!(message(z.validate(true)), "channel_buffer_size must be > 0");
    let m = MirrorLimits { channel_buffer_size: 1, max_concurrent_requests: 0 };
    assert_eq!(message(m.validate(true)), "max_concurrent_requests must be > 0");
}

#[test]
fn sample_rate_is_checked_first() {
    let z = MirrorLimits { channel_buffer_size: 0, max_concurrent_requests: 0 };
    assert_eq!(message(z.validate(false)), "sample_rate must be between 0.0 and 1.0");
}

#[test]
fn smallest_limits_are_valid() {
    let l = MirrorLimits { channel_buffer_size: 1, max_concurrent_requests: 1 };
    assert!(l.validate(true).is_ok());
}

#[test]
fn error_describes_itself() {
    let e = ReplayError::InvalidConfig("channel_buffer_size must be > 0".to_string());
    assert_eq!(e.describe(), "invalid config: channel_buffer_size must be > 0");
}
