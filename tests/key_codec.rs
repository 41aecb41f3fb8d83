use server::key::{ParseError, RawApiKey, API_KEY_SIZE, PREFIX_SIZE};

const SECRET: &str = "abcdefghijklmnopqrstuvwxyzABCDEFGHIJKLMNOPQRSTUVWXYZ0";

fn full(prefix: &str, algorithm: &str, secret: &str) -> String {
    format!("{}.{}:{}", prefix, algorithm, secret)
}

#[test]
fn secret_fixture_has_key_length() {
    assert_eq!(SECRET.len(), API_KEY_SIZE);
    assert_eq!(PREFIX_SIZE, 7);
    assert_eq!(API_KEY_SIZE, 53);
}

#[test]
fn parse_splits_three_parts() {
    let k = RawApiKey::parse(&full("abc1234", "SHA256", SECRET)).unwrap();
    assert_eq!(k.prefix(), "abc1234");
    assert_eq!(k.algorithm(), "SHA256");
    assert_eq!(k.secret(), SECRET);
}

#[test]
fn format_then_parse_round_trips() {
    let text = full("pre_fix", "SHA256", SECRET);
    let k = RawApiKey::parse(&text).unwrap();
    assert_eq!(k.to_string(), text);
    let again = RawApiKey::parse(&k.to_string()).unwrap();
    assert_eq!(again.prefix(), "pre_fix");
    assert_eq!(again.algorithm(), "SHA256");
    assert_eq!(again.secret(), SECRET);
}

#[test]
fn secret_may_hold_separators() {
    let secret = "a.b:c".to_string() + &"x".repeat(48);
    let k = RawApiKey::parse(&full("abc1234", "MD5", &secret)).unwrap();
    assert_eq!(k.algorithm(), "MD5");
    assert_eq!(k.secret(), secret);
}

#[test]
fn empty_algorithm_is_accepted() {
    let k = RawApiKey::parse(&full("abc1234", "", SECRET)).unwrap();
    assert_eq!(k.algorithm(), "");
}

#[test]
fn missing_dot_is_refused() {
    assert_eq!(RawApiKey::parse("abc1234SHA256:xyz").unwrap_err(), ParseError::MissingSeparator);
    assert_eq!(RawApiKey::parse("").unwrap_err(), ParseError::MissingSeparator);
    assert_eq!(RawApiKey::parse("abc").unwrap_err(), ParseError::MissingSeparator);
}

#[test]
fn missing_colon_is_refused() {
    let text = format!("abc1234.SHA256{}", SECRET);
    assert_eq!(RawApiKey::parse(&text).unwrap_err(), ParseError::MissingSeparator);
}

#[test]
fn colon_before_dot_is_refused() {
    assert_eq!(RawApiKey::parse("ab:c1234.SHA256").unwrap_err(), ParseError::MissingSeparator);
}

#[test]
fn short_prefix_is_refused() {
    let e = RawApiKey::parse(&full("abc", "SHA256", SECRET)).unwrap_err();
    assert_eq!(e, ParseError::InvalidPrefixLength(3));
    assert_eq!(e.to_string(), "Prefix must be exactly 7 characters, got 3");
}

#[test]
fn prefix_checked_before_secret() {
    let e = RawApiKey::parse(&full("abcdefgh", "SHA256", "short")).unwrap_err();
    assert_eq!(e, ParseError::InvalidPrefixLength(8));
}

#[test]
fn wrong_secret_length_is_refused() {
    let e = RawApiKey::parse(&full("abc1234", "SHA256", "short")).unwrap_err();
    assert_eq!(e, ParseError::InvalidKeyLength(5));
    assert_eq!(e.to_string(), "Key must be exactly 53, got 5");
    let long = format!("{}x", SECRET);
    let e = RawApiKey::parse(&full("abc1234", "SHA256", &long)).unwrap_err();
    assert_eq!(e, ParseError::InvalidKeyLength(54));
}

#[test]
fn malformed_key_abc() {
    assert_eq!(RawApiKey::parse("abc").unwrap_err(), ParseError::MissingSeparator);
}

#[test]
fn error_messages() {
    assert_eq!(
        ParseError::MissingSeparator.to_string(),
        "API key must contain a dot and colon separator"
    );
    assert_eq!(
        ParseError::UnknownHashAlgorithm("MD5".to_string()).to_string(),
        "Unknown hash algorithm: MD5"
    );
    assert_eq!(
        ParseError::InvalidPrefixLength(1234).to_string(),
        "Prefix must be exactly 7 characters, got 1234"
    );
    assert_eq!(ParseError::InvalidKeyLength(0).to_string(), "Key must be exactly 53, got 0");
}

#[test]
fn generated_key_round_trips() {
    let k = RawApiKey::generate(None);
    assert_eq!(k.prefix().len(), PREFIX_SIZE);
    assert_eq!(k.secret().len(), API_KEY_SIZE);
    assert_eq!(k.algorithm(), "SHA256");
    assert!(k.prefix().chars().all(|c| c.is_ascii_alphanumeric()));
    assert!(k.secret().chars().all(|c| c.is_ascii_alphanumeric()));
    let back = RawApiKey::parse(&k.to_string()).unwrap();
    assert_eq!(back.prefix(), k.prefix());
    assert_eq!(back.algorithm(), k.algorithm());
    assert_eq!(back.secret(), k.secret());
}

#[test]
fn generate_keeps_given_prefix() {
    let k = RawApiKey::generate(Some("mykey01".to_string()));
    assert_eq!(k.prefix(), "mykey01");
    assert_eq!(k.secret().len(), API_KEY_SIZE);
}

#[test]
fn generated_keys_differ() {
    let a = RawApiKey::generate(None);
    let b = RawApiKey::generate(None);
    assert_ne!(a.to_string(), b.to_string());
    assert_ne!(a.secret(), b.secret());
}

#[test]
fn lengths_count_utf8_bytes() {
    // The prefix is six characters and seven bytes.
    let k = RawApiKey::parse(&full("abcde\u{e9}", "SHA256", SECRET)).unwrap();
    assert_eq!(k.prefix(), "abcde\u{e9}");
    let e = RawApiKey::parse(&full("abcdef\u{e9}", "SHA256", SECRET)).unwrap_err();
    assert_eq!(e, ParseError::InvalidPrefixLength(8));
    let secret = "\u{e9}".repeat(26) + "x";
    assert_eq!(secret.chars().count(), 27);
    let k = RawApiKey::parse(&full("abc1234", "SHA256", &secret)).unwrap();
    assert_eq!(k.secret(), secret);
    let wide = "\u{e9}".repeat(53);
    let e = RawApiKey::parse(&full("abc1234", "SHA256", &wide)).unwrap_err();
    assert_eq!(e, ParseError::InvalidKeyLength(106));
}
