use subreddit_updates::codec::decode_delta;
use subreddit_updates::codec::decode_records;
use subreddit_updates::codec::decode_subreddit;
use subreddit_updates::codec::encode_delta;
use subreddit_updates::codec::encode_subreddit;
use subreddit_updates::reddit::Subreddit;
use subreddit_updates::reddit::SubredditDelta;
use subreddit_updates::reddit::SubredditState;
use subreddit_updates::DecodeError;
use subreddit_updates::EncodeError;

fn sub(name: &str, state: SubredditState, payload: &str) -> Subreddit {
    Subreddit { name: name.to_string(), state, payload: payload.to_string() }
}

#[test]
fn record_round_trip_plain() {
    let s = sub("foo", SubredditState::PUBLIC, "12345 subscribers");
    let t = encode_subreddit(&s).unwrap();
    let r = decode_subreddit(&t).unwrap();
    assert_eq!(r.name, "foo");
    assert!(r.state == SubredditState::PUBLIC);
    assert_eq!(r.payload, "12345 subscribers");
}

#[test]
fn record_round_trip_payload_with_delimiters_and_unicode() {
    let s = sub("r_books", SubredditState::BANNED, "line one\nline two\n\u{e9}\u{2713}");
    let t = encode_subreddit(&s).unwrap();
    let r = decode_subreddit(&t).unwrap();
    assert_eq!(r.name, "r_books");
    assert!(r.state == SubredditState::BANNED);
    assert_eq!(r.payload, "line one\nline two\n\u{e9}\u{2713}");
}

#[test]
fn record_round_trip_empty_fields() {
    let s = sub("", SubredditState::UNKNOWN, "");
    let t = encode_subreddit(&s).unwrap();
    let r = decode_subreddit(&t).unwrap();
    assert_eq!(r.name, "");
    assert!(r.state == SubredditState::UNKNOWN);
    assert_eq!(r.payload, "");
}

#[test]
fn record_wire_form_is_tag_name_delimiter_payload() {
    assert_eq!(encode_subreddit(&sub("foo", SubredditState::PUBLIC, "x")).unwrap(), "pfoo\nx");
    assert_eq!(encode_subreddit(&sub("a", SubredditState::UNKNOWN, "")).unwrap(), "ua\n");
    assert_eq!(encode_subreddit(&sub("a", SubredditState::PRIVATE, "")).unwrap(), "va\n");
    assert_eq!(encode_subreddit(&sub("a", SubredditState::BANNED, "")).unwrap(), "ba\n");
}

#[test]
fn encode_rejects_name_with_delimiter() {
    let s = sub("fo\no", SubredditState::PUBLIC, "");
    assert!(encode_subreddit(&s) == Err(EncodeError::NameContainsDelimiter));
    let d = SubredditDelta { prev_state: SubredditState::PUBLIC, subreddit: s };
    assert!(encode_delta(&d) == Err(EncodeError::NameContainsDelimiter));
}

#[test]
fn delta_round_trip() {
    let d = SubredditDelta {
        prev_state: SubredditState::PUBLIC,
        subreddit: sub("foo", SubredditState::PRIVATE, "went dark"),
    };
    let t = encode_delta(&d).unwrap();
    let r = decode_delta(&t).unwrap();
    assert!(r.prev_state == SubredditState::PUBLIC);
    assert_eq!(r.subreddit.name, "foo");
    assert!(r.subreddit.state == SubredditState::PRIVATE);
    assert_eq!(r.subreddit.payload, "went dark");
}

#[test]
fn delta_wire_form_prefixes_previous_state() {
    let d = SubredditDelta {
        prev_state: SubredditState::UNKNOWN,
        subreddit: sub("foo", SubredditState::PUBLIC, ""),
    };
    assert_eq!(encode_delta(&d).unwrap(), "upfoo\n");
}

#[test]
fn decode_record_error_variants() {
    assert!(matches!(decode_subreddit(""), Err(DecodeError::EmptyPayload)));
    assert!(matches!(decode_subreddit("xfoo\n"), Err(DecodeError::UnknownStateTag)));
    assert!(matches!(decode_subreddit("pfoo"), Err(DecodeError::MissingDelimiter)));
}

#[test]
fn decode_delta_error_variants() {
    assert!(matches!(decode_delta(""), Err(DecodeError::EmptyPayload)));
    assert!(matches!(decode_delta("zpfoo\n"), Err(DecodeError::UnknownStateTag)));
    assert!(matches!(decode_delta("p"), Err(DecodeError::EmptyPayload)));
    assert!(matches!(decode_delta("pqfoo\n"), Err(DecodeError::UnknownStateTag)));
    assert!(matches!(decode_delta("ppfoo"), Err(DecodeError::MissingDelimiter)));
}

#[test]
fn decode_records_reads_every_stored_value() {
    let values = vec!["pfoo\n".to_string(), "vbar\nhidden".to_string()];
    let rs = decode_records(&values).unwrap();
    assert_eq!(rs.len(), 2);
    assert_eq!(rs[0].name, "foo");
    assert!(rs[0].state == SubredditState::PUBLIC);
    assert_eq!(rs[1].name, "bar");
    assert!(rs[1].state == SubredditState::PRIVATE);
    assert_eq!(rs[1].payload, "hidden");
}

#[test]
fn decode_records_aborts_whole_read_on_one_malformed_value() {
    let values = vec!["pfoo\n".to_string(), "zzz".to_string()];
    assert!(matches!(decode_records(&values), Err(DecodeError::UnknownStateTag)));
    let none: Vec<String> = Vec::new();
    assert!(decode_records(&none).unwrap().is_empty());
}
