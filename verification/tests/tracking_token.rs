use dendrite::tracking_token::{token_from_stored, token_to_text, TokenError};

#[test]
fn tokens_are_stored_as_hexadecimal() {
    assert_eq!(token_to_text(0), "0");
    assert_eq!(token_to_text(255), "ff");
    assert_eq!(token_to_text(4096), "1000");
    assert_eq!(token_to_text(i64::MAX), "7fffffffffffffff");
}

#[test]
fn stored_tokens_read_back() {
    for t in [0i64, 1, 15, 16, 255, 123456789, i64::MAX] {
        assert_eq!(token_from_stored(Some(token_to_text(t))).unwrap(), t);
    }
    assert_eq!(token_from_stored(None).unwrap(), -1);
    assert_eq!(token_from_stored(Some("FF".to_string())).unwrap(), 255);
    assert_eq!(token_from_stored(Some("-a".to_string())).unwrap(), -10);
}

#[test]
fn negative_token_does_not_read_back() {
    let text = token_to_text(-1);
    assert_eq!(text, "ffffffffffffffff");
    match token_from_stored(Some(text)) {
        Err(TokenError::Unreadable(t)) => assert_eq!(t, "ffffffffffffffff"),
        Ok(t) => panic!("read back {}", t),
    }
}

#[test]
fn garbage_token_is_unreadable() {
    assert!(token_from_stored(Some("xyz".to_string())).is_err());
    assert!(token_from_stored(Some(String::new())).is_err());
    assert!(token_from_stored(Some("-".to_string())).is_err());
}

#[test]
fn token_text_follows_from_str_radix() {
    assert_eq!(token_to_text(i64::MIN), "8000000000000000");
    assert_eq!(token_to_text(-16), "fffffffffffffff0");
    assert_eq!(token_from_stored(Some("+1A".to_string())).unwrap(), 26);
    assert_eq!(token_from_stored(Some("-8000000000000000".to_string())).unwrap(), i64::MIN);
    assert_eq!(token_from_stored(Some("7FFFFFFFFFFFFFFF".to_string())).unwrap(), i64::MAX);
    assert_eq!(token_from_stored(Some("000000000000000000ff".to_string())).unwrap(), 255);
    for bad in ["8000000000000000", "-8000000000000001", "123456789abcdef01", "+", "1 ", " 1", "0x1", "fg", "é"] {
        match (token_from_stored(Some(bad.to_string())), i64::from_str_radix(bad, 16)) {
            (Err(TokenError::Unreadable(t)), Err(_)) => assert_eq!(t, bad),
            (r, e) => panic!("{}: {:?} / {:?}", bad, r.is_ok(), e),
        }
    }
}
