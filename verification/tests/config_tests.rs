use base64::Engine;
use shift_exchange::config::extract_clerk_domain;

fn key_for(domain_with_padding: &str, live: bool) -> String {
    let encoded =
        base64::engine::general_purpose::STANDARD.encode(domain_with_padding.as_bytes());
    let prefix = if live { "pk_live_" } else { "pk_test_" };
    let mut key = String::from(prefix);
    key.push_str(&encoded);
    key
}

#[test]
fn domain_is_recovered_from_a_test_key() {
    let key = key_for("example.clerk.accounts.dev$", false);
    assert_eq!(
        extract_clerk_domain(&key),
        Ok(String::from("example.clerk.accounts.dev"))
    );
}

#[test]
fn domain_is_recovered_from_a_live_key() {
    let key = key_for("clerk.example.org$$", true);
    assert_eq!(
        extract_clerk_domain(&key),
        Ok(String::from("clerk.example.org"))
    );
}

#[test]
fn unpadded_domains_pass_through() {
    let key = key_for("no-padding.test", false);
    assert_eq!(extract_clerk_domain(&key), Ok(String::from("no-padding.test")));
}

#[test]
fn bad_prefix_is_refused() {
    assert!(extract_clerk_domain("sk_test_whatever").is_err());
    assert!(extract_clerk_domain("pk_other_x").is_err());
    assert!(extract_clerk_domain("pk_test").is_err());
    assert!(extract_clerk_domain("").is_err());
}

#[test]
fn undecodable_remainder_is_refused() {
    assert!(extract_clerk_domain("pk_test_!!!not-base64!!!").is_err());
}
