use shift_exchange::validate::{
    check_own_pin_change, check_pin_change, debug_key_matches, is_valid_hex_color, is_valid_pin,
    may_assign_work_shifts, pin_matches, random_pin, PinChangeError,
};

#[test]
fn pin_format_is_exactly_five_digits() {
    assert!(is_valid_pin("12345"));
    assert!(is_valid_pin("00000"));
    assert!(!is_valid_pin("1234"));
    assert!(!is_valid_pin("123456"));
    assert!(!is_valid_pin("12a45"));
    assert!(!is_valid_pin(""));
    assert!(!is_valid_pin("12 45"));
}

#[test]
fn color_format_is_hash_plus_six_bytes() {
    assert!(is_valid_hex_color("#a1b2c3"));
    assert!(!is_valid_hex_color("a1b2c3f"));
    assert!(!is_valid_hex_color("#a1b2c"));
    assert!(!is_valid_hex_color("#a1b2c3d"));
    assert!(!is_valid_hex_color(""));
    // Length counts UTF-8 bytes: seven characters with a two-byte one
    // make eight bytes, while a two-byte character among five others
    // still fits in seven bytes.
    assert!(!is_valid_hex_color("#é12345"));
    assert!(is_valid_hex_color("#é1234"));
}

#[test]
fn pin_change_decision_tree() {
    let stored = String::from("11111");
    let ok = check_pin_change(
        Some(&stored),
        &String::from("11111"),
        &String::from("22222"),
        &String::from("22222"),
    );
    assert_eq!(ok, Ok(()));

    assert_eq!(
        check_pin_change(
            Some(&stored),
            &String::from("11111"),
            &String::from("22222"),
            &String::from("33333"),
        ),
        Err(PinChangeError::Mismatch)
    );
    assert_eq!(
        check_pin_change(
            Some(&stored),
            &String::from("11111"),
            &String::from("2222"),
            &String::from("2222"),
        ),
        Err(PinChangeError::BadFormat)
    );
    assert_eq!(
        check_pin_change(
            Some(&stored),
            &String::from("99999"),
            &String::from("22222"),
            &String::from("22222"),
        ),
        Err(PinChangeError::WrongPin)
    );
    assert_eq!(
        check_pin_change(
            Some(&stored),
            &String::from("11111"),
            &String::from("11111"),
            &String::from("11111"),
        ),
        Err(PinChangeError::SamePin)
    );
    // First-time setup: no stored PIN, no current-PIN check.
    assert_eq!(
        check_pin_change(
            None,
            &String::from(""),
            &String::from("22222"),
            &String::from("22222"),
        ),
        Ok(())
    );
}

#[test]
fn generic_logins_cannot_change_their_pin() {
    let stored = String::from("11111");
    assert_eq!(
        check_own_pin_change(
            true,
            Some(&stored),
            &String::from("11111"),
            &String::from("22222"),
            &String::from("22222"),
        ),
        Err(PinChangeError::GenericAccount)
    );
    // The confirmation and format checks still come first.
    assert_eq!(
        check_own_pin_change(
            true,
            Some(&stored),
            &String::from("11111"),
            &String::from("22222"),
            &String::from("33333"),
        ),
        Err(PinChangeError::Mismatch)
    );
    // An ordinary account passes through to the usual decision tree.
    assert_eq!(
        check_own_pin_change(
            false,
            Some(&stored),
            &String::from("11111"),
            &String::from("22222"),
            &String::from("22222"),
        ),
        Ok(())
    );
}

#[test]
fn random_pin_is_five_digits() {
    for _ in 0..50 {
        let p = random_pin();
        assert_eq!(p.len(), 5);
        assert!(p.iter().all(|b| b.is_ascii_digit()));
    }
}

#[test]
fn pin_check_requires_a_stored_pin() {
    let stored = String::from("12345");
    assert!(pin_matches(Some(&stored), &String::from("12345")));
    assert!(!pin_matches(Some(&stored), &String::from("12346")));
    assert!(!pin_matches(None, &String::from("12345")));
}

#[test]
fn generic_logins_cannot_work_shifts() {
    assert!(!may_assign_work_shifts(true, true));
    assert!(may_assign_work_shifts(true, false));
    assert!(may_assign_work_shifts(false, true));
    assert!(may_assign_work_shifts(false, false));
}

#[test]
fn debug_key_comparison() {
    assert!(debug_key_matches("sesame", "sesame"));
    assert!(!debug_key_matches("sesame", "sesamE"));
    assert!(!debug_key_matches("sesame", "sesame "));
    assert!(!debug_key_matches("sesame", ""));
}
