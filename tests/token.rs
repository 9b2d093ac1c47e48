use feed_events::token::{seal, split_nonce, Token};

fn cipher() -> libaes::Cipher {
    libaes::Cipher::new_256(b"0123456789abcdef0123456789abcdef")
}

#[test]
fn token_round_trip() {
    let c = cipher();
    let t = Token::create("user@example.com".to_string(), 3600, &c).unwrap();
    assert_eq!(Token::decode(&t, &c).unwrap(), "user@example.com");
}

#[test]
fn expired_token_is_refused() {
    let c = cipher();
    let t = Token::create("x".to_string(), -10, &c).unwrap();
    let e = Token::decode(&t, &c).unwrap_err();
    assert_eq!(e.status_code, 403);
    assert_eq!(e.message.unwrap(), "Token expiré.");
}

#[test]
fn malformed_tokens_are_refused() {
    let c = cipher();
    let e = Token::decode("%%%", &c).unwrap_err();
    assert_eq!(e.message.unwrap(), "Token invalide.");
    let e = Token::decode("AAAA", &c).unwrap_err();
    assert_eq!(e.message.unwrap(), "Token invalide.");
}

#[test]
fn expiry_overflow_gives_none() {
    assert!(Token::create("x".to_string(), i64::MAX, &cipher()).is_none());
}

#[test]
fn claims_json_text() {
    let t = Token { exp: -5, sub: "a\"b".to_string() };
    assert_eq!(t.to_json(), "{\"exp\":-5,\"sub\":\"a\\\"b\"}");
    let back = Token::from_json("{\"sub\":\"z\",\"exp\":12}").unwrap();
    assert_eq!(back.exp, 12);
    assert_eq!(back.sub, "z");
    assert!(Token::from_json("{\"exp\":1.5,\"sub\":\"z\"}").is_none());
}

#[test]
fn expiry_check() {
    let t = Token { exp: 100, sub: "s".to_string() };
    assert_eq!(t.check_expiry(99).unwrap(), "s");
    let t = Token { exp: 100, sub: "s".to_string() };
    assert_eq!(t.check_expiry(100).unwrap_err().message.unwrap(), "Token expiré.");
}

#[test]
fn nonce_split_and_seal() {
    let bytes: Vec<u8> = (0u8..20).collect();
    let (n, d) = split_nonce(bytes.clone()).unwrap();
    assert_eq!(n, (0u8..16).collect::<Vec<u8>>());
    assert_eq!(d, vec![16, 17, 18, 19]);
    assert_eq!(seal(&n, &d), bytes);
    assert!(split_nonce(vec![1, 2, 3]).is_none());
}
