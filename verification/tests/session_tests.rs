use shift_exchange::session::{
    extract_bearer_token, extract_request_token, extract_session_token, ClerkClaims,
};

fn claims(primary: Option<&str>, standard: Option<&str>) -> ClerkClaims {
    ClerkClaims {
        sub: String::from("user_1"),
        exp: 2_000,
        iat: 1_000,
        iss: String::from("https://example.test"),
        azp: None,
        primary_email: primary.map(String::from),
        email: standard.map(String::from),
        email_verified: Some(true),
        name: None,
        given_name: None,
        family_name: None,
    }
}

#[test]
fn email_prefers_the_custom_claim() {
    assert_eq!(
        claims(Some("a@x.test"), Some("b@x.test")).get_email(),
        Some("a@x.test")
    );
    assert_eq!(claims(None, Some("b@x.test")).get_email(), Some("b@x.test"));
    assert_eq!(claims(None, None).get_email(), None);
}

#[test]
fn session_cookie_is_found_among_others() {
    assert_eq!(
        extract_session_token("__session=tok123"),
        Some(String::from("tok123"))
    );
    assert_eq!(
        extract_session_token("a=1; __session=tok123; b=2"),
        Some(String::from("tok123"))
    );
    // The whole segment is trimmed before the name is matched, so
    // trailing spaces do not reach the value either.
    assert_eq!(
        extract_session_token("  __session=spaced  "),
        Some(String::from("spaced"))
    );
    assert_eq!(extract_session_token("a=1; b=2"), None);
    assert_eq!(extract_session_token(""), None);
    // The name must match exactly after trimming.
    assert_eq!(extract_session_token("x__session=t"), None);
    // The first session cookie wins.
    assert_eq!(
        extract_session_token("__session=first; __session=second"),
        Some(String::from("first"))
    );
    // An empty value is still a value.
    assert_eq!(extract_session_token("__session="), Some(String::new()));
}

#[test]
fn bearer_header_is_stripped() {
    assert_eq!(
        extract_bearer_token("Bearer abc.def"),
        Some(String::from("abc.def"))
    );
    assert_eq!(extract_bearer_token("bearer abc"), None);
    assert_eq!(extract_bearer_token("Basic abc"), None);
    assert_eq!(extract_bearer_token("Bearer"), None);
    assert_eq!(extract_bearer_token("Bearer "), Some(String::new()));
}

#[test]
fn cookie_takes_priority_over_bearer() {
    assert_eq!(
        extract_request_token(Some("__session=c"), Some("Bearer b")),
        Some(String::from("c"))
    );
    assert_eq!(
        extract_request_token(Some("other=1"), Some("Bearer b")),
        Some(String::from("b"))
    );
    assert_eq!(
        extract_request_token(None, Some("Bearer b")),
        Some(String::from("b"))
    );
    assert_eq!(extract_request_token(Some("other=1"), None), None);
    assert_eq!(extract_request_token(None, None), None);
}
