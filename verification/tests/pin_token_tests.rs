use base64::Engine;
use shift_exchange::pin_token::{
    generate_pin_token, generate_pin_token_at, validate_pin_token, validate_pin_token_at,
    PinTokenError,
};

#[test]
fn test_generate_and_validate_token() {
    let secret = "test_secret_key_for_testing_purposes";
    let user_id = 123;

    let token = generate_pin_token(user_id, secret).unwrap();
    let validated_user_id = validate_pin_token(&token, secret).unwrap();

    assert_eq!(user_id, validated_user_id);
}

#[test]
fn test_invalid_token_format() {
    let secret = "test_secret_key";
    let result = validate_pin_token("invalid_token", secret);

    assert!(result.is_err());
}

#[test]
fn test_token_with_wrong_signature() {
    let secret = "test_secret_key";
    let wrong_secret = "wrong_secret_key";

    let token = generate_pin_token(123, secret).unwrap();
    let result = validate_pin_token(&token, wrong_secret);

    assert!(result.is_err());
}

#[test]
fn test_token_accepted_until_expiry() {
    let secret = "another_secret";
    let token = generate_pin_token_at(7, secret, 1_000);
    assert_eq!(validate_pin_token_at(&token, secret, 999), Ok(7));
    assert_eq!(validate_pin_token_at(&token, secret, 1_000), Ok(7));
    assert_eq!(
        validate_pin_token_at(&token, secret, 1_001),
        Err(PinTokenError::Expired)
    );
}

#[test]
fn test_token_for_negative_profile_id() {
    let secret = "secret";
    let token = generate_pin_token_at(-45, secret, 500);
    assert_eq!(validate_pin_token_at(&token, secret, 100), Ok(-45));
}

#[test]
fn test_tampered_token_is_rejected() {
    let secret = "secret";
    let token = generate_pin_token_at(9, secret, i64::MAX);
    // Re-encode the decoded bytes with the user identifier changed.
    let mut bytes = base64::engine::general_purpose::STANDARD
        .decode(&token)
        .unwrap();
    bytes[0] = b'8';
    let forged = base64::engine::general_purpose::STANDARD.encode(&bytes);
    assert_eq!(
        validate_pin_token_at(&forged, secret, 0),
        Err(PinTokenError::Invalid)
    );
}

#[test]
fn test_token_layout_matches_signed_payload() {
    // The token must decode to "id:expiry:signature" where the signature
    // is the 64-digit lowercase hex HMAC of "id:expiry" — not the payload
    // handed back unchanged.
    let token = generate_pin_token_at(42, "k", 99);
    let bytes = base64::engine::general_purpose::STANDARD
        .decode(&token)
        .unwrap();
    let text = String::from_utf8(bytes).unwrap();
    let parts: Vec<&str> = text.split(':').collect();
    assert_eq!(parts.len(), 3);
    assert_eq!(parts[0], "42");
    assert_eq!(parts[1], "99");
    assert_eq!(parts[2].len(), 64);
    assert!(parts[2].bytes().all(|b| b.is_ascii_hexdigit()));
    assert_ne!(parts[2], "42:99");
}
