use topgg::{DecodeError, IncomingVote, Payload, Vote};

fn payload(bot: Option<&str>, guild: Option<&str>, user: Option<&str>, vote_type: Option<&str>) -> Payload {
    Payload {
        bot: bot.map(|s| s.to_string()),
        guild: guild.map(|s| s.to_string()),
        user: user.map(|s| s.to_string()),
        vote_type: vote_type.map(|s| s.to_string()),
        is_weekend: None,
        query: None,
    }
}

fn bot_vote() -> Payload {
    payload(Some("264811613708746752"), None, Some("123456789012345678"), Some("upvote"))
}

#[test]
fn receiver_from_bot_field() {
    let v = Vote::decode(&bot_vote()).unwrap();
    assert_eq!(v.receiver_id, 264811613708746752);
    assert_eq!(v.voter_id, 123456789012345678);
}

#[test]
fn receiver_from_guild_field() {
    let p = payload(None, Some("5000"), Some("42"), Some("upvote"));
    let v = Vote::decode(&p).unwrap();
    assert_eq!(v.receiver_id, 5000);
    assert_eq!(v.voter_id, 42);
}

#[test]
fn both_receiver_fields_are_malformed() {
    let p = payload(Some("1"), Some("2"), Some("3"), Some("upvote"));
    assert!(matches!(Vote::decode(&p), Err(DecodeError::MalformedPayload)));
}

#[test]
fn missing_receiver_is_malformed() {
    let p = payload(None, None, Some("3"), Some("upvote"));
    assert!(matches!(Vote::decode(&p), Err(DecodeError::MalformedPayload)));
}

#[test]
fn missing_user_is_malformed() {
    let p = payload(Some("1"), None, None, Some("upvote"));
    assert!(matches!(Vote::decode(&p), Err(DecodeError::MalformedPayload)));
}

#[test]
fn missing_type_is_malformed() {
    let p = payload(Some("1"), None, Some("2"), None);
    assert!(matches!(Vote::decode(&p), Err(DecodeError::MalformedPayload)));
}

#[test]
fn shape_error_comes_before_id_error() {
    let p = payload(Some("abc"), None, None, Some("upvote"));
    assert!(matches!(Vote::decode(&p), Err(DecodeError::MalformedPayload)));
}

#[test]
fn type_test_marks_a_test_vote() {
    let p = payload(Some("1"), None, Some("2"), Some("test"));
    assert!(Vote::decode(&p).unwrap().is_test);
}

#[test]
fn other_types_are_not_tests() {
    for t in ["upvote", "", "Test", "test ", "testing", "unknown"] {
        let p = payload(Some("1"), None, Some("2"), Some(t));
        let v = Vote::decode(&p).unwrap();
        assert!(!v.is_test, "type {:?}", t);
    }
}

#[test]
fn weekend_defaults_to_false() {
    let v = Vote::decode(&bot_vote()).unwrap();
    assert!(!v.is_weekend);
}

#[test]
fn weekend_flag_is_read() {
    let mut p = bot_vote();
    p.is_weekend = Some(true);
    assert!(Vote::decode(&p).unwrap().is_weekend);
    p.is_weekend = Some(false);
    assert!(!Vote::decode(&p).unwrap().is_weekend);
}

#[test]
fn query_defaults_to_empty() {
    let v = Vote::decode(&bot_vote()).unwrap();
    assert!(v.query.is_empty());
    assert_eq!(v.query.len(), 0);
}

#[test]
fn empty_query_is_empty() {
    let mut p = bot_vote();
    p.query = Some(String::new());
    let v = Vote::decode(&p).unwrap();
    assert!(v.query.is_empty());
}

#[test]
fn query_field_is_parsed() {
    let mut p = bot_vote();
    p.query = Some("a=1&b=hello%20world".to_string());
    let v = Vote::decode(&p).unwrap();
    assert_eq!(v.query.len(), 2);
    assert_eq!(v.query.get("a").map(|s| s.as_str()), Some("1"));
    assert_eq!(v.query.get("b").map(|s| s.as_str()), Some("hello world"));
}

#[test]
fn non_numeric_bot_is_invalid_id() {
    let p = payload(Some("abc"), None, Some("2"), Some("upvote"));
    assert!(matches!(Vote::decode(&p), Err(DecodeError::InvalidId)));
}

#[test]
fn non_numeric_guild_is_invalid_id() {
    let p = payload(None, Some("12x"), Some("2"), Some("upvote"));
    assert!(matches!(Vote::decode(&p), Err(DecodeError::InvalidId)));
}

#[test]
fn non_numeric_user_is_invalid_id() {
    let p = payload(Some("1"), None, Some("-2"), Some("upvote"));
    assert!(matches!(Vote::decode(&p), Err(DecodeError::InvalidId)));
}

#[test]
fn overflowing_id_is_invalid_id() {
    let p = payload(Some("18446744073709551616"), None, Some("2"), Some("upvote"));
    assert!(matches!(Vote::decode(&p), Err(DecodeError::InvalidId)));
}

#[test]
fn largest_id_is_accepted() {
    let p = payload(Some("18446744073709551615"), None, Some("0"), Some("upvote"));
    let v = Vote::decode(&p).unwrap();
    assert_eq!(v.receiver_id, u64::MAX);
    assert_eq!(v.voter_id, 0);
}

#[test]
fn authenticate_with_exact_password() {
    let v = Vote::decode(&bot_vote()).unwrap();
    let incoming = IncomingVote::new("s3cret".to_string(), v);
    let out = incoming.authenticate("s3cret").unwrap();
    assert_eq!(out.receiver_id, 264811613708746752);
}

#[test]
fn authenticate_rejects_other_case() {
    let v = Vote::decode(&bot_vote()).unwrap();
    assert!(IncomingVote::new("s3cret".to_string(), v).authenticate("S3CRET").is_none());
}

#[test]
fn authenticate_rejects_trailing_whitespace() {
    let v = Vote::decode(&bot_vote()).unwrap();
    assert!(IncomingVote::new("s3cret ".to_string(), v.clone()).authenticate("s3cret").is_none());
    assert!(IncomingVote::new("s3cret".to_string(), v).authenticate("s3cret ").is_none());
}

#[test]
fn authenticate_rejects_empty_password() {
    let v = Vote::decode(&bot_vote()).unwrap();
    assert!(IncomingVote::new("s3cret".to_string(), v).authenticate("").is_none());
}
