use subreddit_updates::limiter::TokenBucket;
use subreddit_updates::limiter::DEFAULT_RATE_PER_SECOND;
use subreddit_updates::limiter::MAX_JITTER_NANOS;
use subreddit_updates::sections::decode_sections;
use subreddit_updates::sections::default_sections;
use subreddit_updates::sections::encode_sections;
use subreddit_updates::sections::read_sections;
use subreddit_updates::DecodeError;
use subreddit_updates::EncodeError;

#[test]
fn default_sections_is_the_built_in_fourteen_tier_list_in_order() {
    let v = default_sections();
    let expected = vec![
        "40+ million",
        "30+ million",
        "20+ million",
        "10+ million",
        "5+ million",
        "1+ million",
        "500k+",
        "250k+",
        "100k+",
        "50k+",
        "5k+",
        "5k and below",
        "1k+",
        "1k and below",
    ];
    assert_eq!(v.len(), 14);
    assert_eq!(v, expected);
}

#[test]
fn read_sections_defaults_when_nothing_was_written() {
    let got = read_sections(&None).unwrap();
    assert_eq!(got, default_sections());
}

#[test]
fn read_sections_returns_exactly_what_was_written() {
    let written = vec!["big".to_string(), "small".to_string(), "".to_string()];
    let stored = encode_sections(&written).unwrap();
    let got = read_sections(&Some(stored)).unwrap();
    assert_eq!(got, written);
}

#[test]
fn sections_wire_form_terminates_every_label() {
    let labels = vec!["alpha".to_string(), "beta".to_string()];
    assert_eq!(encode_sections(&labels).unwrap(), "alpha\nbeta\n");
    let empty: Vec<String> = Vec::new();
    assert_eq!(encode_sections(&empty).unwrap(), "");
    assert!(decode_sections("").unwrap().is_empty());
}

#[test]
fn sections_round_trip() {
    let labels = vec!["alpha".to_string(), "".to_string(), "gamma delta".to_string()];
    let t = encode_sections(&labels).unwrap();
    assert_eq!(decode_sections(&t).unwrap(), labels);
}

#[test]
fn sections_errors() {
    assert!(matches!(decode_sections("abc"), Err(DecodeError::UnterminatedLabel)));
    assert!(matches!(decode_sections("a\nbc"), Err(DecodeError::UnterminatedLabel)));
    let bad = vec!["a\nb".to_string()];
    assert!(matches!(encode_sections(&bad), Err(EncodeError::LabelContainsDelimiter)));
}

#[test]
fn token_bucket_spaces_admissions_one_period_apart() {
    let mut b = TokenBucket::new(DEFAULT_RATE_PER_SECOND);
    assert_eq!(b.period_nanos, 500_000_000);
    assert_eq!(b.acquire(0), 0);
    assert_eq!(b.acquire(0), 500_000_000);
    assert_eq!(b.acquire(0), 1_000_000_000);
    assert_eq!(b.acquire(0), 1_500_000_000);
}

#[test]
fn token_bucket_idles_when_calls_are_slow() {
    let mut b = TokenBucket::new(1);
    assert_eq!(b.acquire(10_000_000_000), 0);
    assert_eq!(b.acquire(20_000_000_000), 0);
    assert_eq!(b.acquire(20_500_000_000), 500_000_000);
}

#[test]
fn token_bucket_jitter_delays_the_caller_not_the_refill() {
    let mut b = TokenBucket::new(2);
    let w0 = b.acquire_with_jitter(0, MAX_JITTER_NANOS);
    assert_eq!(w0, MAX_JITTER_NANOS);
    let w1 = b.acquire_with_jitter(0, 0);
    assert_eq!(w1, 500_000_000);
}
