//! Input validation rules of the staff-profile surface: PIN and colour
//! formats, the decision tree of a PIN change, the generation of a fresh
//! random PIN, and the constant-time comparison guarding the debugging
//! endpoint.

use vstd::prelude::*;

use vstd::string::StrSliceExecFns;
use vstd::string::StringSliceAdditionalSpecFns;

use subtle::ConstantTimeEq;

use crate::numerals::{all_digits, dec_digits, dec_val, lemma_dec_digits_val};

verus! {

/// An ASCII digit character.
pub open spec fn is_digit_char(c: char) -> bool {
    48 <= c as u32 <= 57
}

/// A well-formed PIN: exactly five digits.
pub open spec fn spec_is_pin(s: Seq<char>) -> bool {
    s.len() == 5 && forall|i: int| 0 <= i < s.len() ==> is_digit_char(#[trigger] s[i])
}

/// Whether a string is a well-formed PIN.
pub fn is_valid_pin(pin: &str) -> (r: bool)
    ensures
        r == spec_is_pin(pin@),
{
    let n = pin.unicode_len();
    if n != 5 {
        return false;
    }
    let mut i: usize = 0;
    while i < n
        invariant
            i <= n,
            n == pin@.len(),
            forall|j: int| 0 <= j < i ==> is_digit_char(#[trigger] pin@[j]),
        decreases n - i,
    {
        let c = pin.get_char(i);
        if (c as u32) < 48 || (c as u32) > 57 {
            return false;
        }
        i = i + 1;
    }
    true
}

/// A well-formed display colour: a `#` byte followed by six more bytes.
pub open spec fn spec_is_hex_color(bytes: Seq<u8>) -> bool {
    bytes.len() == 7 && bytes[0] == 35
}

/// Whether a string is a well-formed display colour.  Counted in UTF-8
/// bytes, so a seven-character string with a multi-byte character is
/// refused.
pub fn is_valid_hex_color(color: &str) -> (r: bool)
    ensures
        r == spec_is_hex_color(color.spec_bytes()),
{
    let bytes = color.as_bytes_vec();
    bytes.len() == 7 && bytes[0] == 35
}

/// Why a PIN change was refused.
#[derive(Clone, Copy, Debug, PartialEq, Eq, Structural)]
pub enum PinChangeError {
    /// The new PIN and its confirmation differ.
    Mismatch,
    /// The new PIN is not five digits.
    BadFormat,
    /// A shared (generic) login may not change its own PIN.
    GenericAccount,
    /// The current PIN given does not match the stored one.
    WrongPin,
    /// The new PIN equals the current one.
    SamePin,
}

/// The decision tree of a PIN change: confirmation first, then format,
/// then — when a PIN is already stored — the current PIN must match and
/// the new one must differ.  A missing stored PIN (first-time setup)
/// skips the last two checks.
pub open spec fn spec_check_pin_change(
    stored: Option<Seq<char>>,
    current: Seq<char>,
    new_pin: Seq<char>,
    confirm: Seq<char>,
) -> Result<(), PinChangeError> {
    if new_pin != confirm {
        Err(PinChangeError::Mismatch)
    } else if !spec_is_pin(new_pin) {
        Err(PinChangeError::BadFormat)
    } else if stored matches Some(s) && s != current {
        Err(PinChangeError::WrongPin)
    } else if stored matches Some(s) && s == new_pin {
        Err(PinChangeError::SamePin)
    } else {
        Ok(())
    }
}

/// Validate a PIN change against the stored PIN (if any).
pub fn check_pin_change(
    stored: Option<&String>,
    current: &String,
    new_pin: &String,
    confirm: &String,
) -> (r: Result<(), PinChangeError>)
    ensures
        r == spec_check_pin_change(
            match stored {
                Some(s) => Some(s@),
                None => None,
            },
            current@,
            new_pin@,
            confirm@,
        ),
{
    if !new_pin.eq(confirm) {
        return Err(PinChangeError::Mismatch);
    }
    if !is_valid_pin(new_pin.as_str()) {
        return Err(PinChangeError::BadFormat);
    }
    match stored {
        Some(s) => {
            if !s.eq(current) {
                Err(PinChangeError::WrongPin)
            } else if s.eq(new_pin) {
                Err(PinChangeError::SamePin)
            } else {
                Ok(())
            }
        },
        None => Ok(()),
    }
}

/// Whether an entered PIN matches the stored one.  A profile without a
/// stored PIN matches nothing.
pub fn pin_matches(stored: Option<&String>, entered: &String) -> (r: bool)
    ensures
        r == (stored matches Some(s) && s@ == entered@),
{
    match stored {
        Some(s) => s.eq(entered),
        None => false,
    }
}

/// Whether a role assignment with the shift-working capability may be
/// given to an account: shared (generic) logins represent no single person
/// and therefore may never be assigned to work shifts.
pub fn may_assign_work_shifts(is_generic_login: bool, can_work_shifts: bool) -> (r: bool)
    ensures
        r == !(is_generic_login && can_work_shifts),
{
    !(is_generic_login && can_work_shifts)
}

/// The self-service PIN change: the token-based decision tree of
/// [`spec_check_pin_change`] with one more gate, checked after the format
/// checks — a shared (generic) login represents no single person and may
/// not change its own PIN.
pub open spec fn spec_check_own_pin_change(
    is_generic_login: bool,
    stored: Option<Seq<char>>,
    current: Seq<char>,
    new_pin: Seq<char>,
    confirm: Seq<char>,
) -> Result<(), PinChangeError> {
    if new_pin != confirm {
        Err(PinChangeError::Mismatch)
    } else if !spec_is_pin(new_pin) {
        Err(PinChangeError::BadFormat)
    } else if is_generic_login {
        Err(PinChangeError::GenericAccount)
    } else {
        spec_check_pin_change(stored, current, new_pin, confirm)
    }
}

/// Validate a self-service PIN change, refusing shared (generic) logins.
pub fn check_own_pin_change(
    is_generic_login: bool,
    stored: Option<&String>,
    current: &String,
    new_pin: &String,
    confirm: &String,
) -> (r: Result<(), PinChangeError>)
    ensures
        r == spec_check_own_pin_change(
            is_generic_login,
            match stored {
                Some(s) => Some(s@),
                None => None,
            },
            current@,
            new_pin@,
            confirm@,
        ),
{
    if !new_pin.eq(confirm) {
        return Err(PinChangeError::Mismatch);
    }
    if !is_valid_pin(new_pin.as_str()) {
        return Err(PinChangeError::BadFormat);
    }
    if is_generic_login {
        return Err(PinChangeError::GenericAccount);
    }
    check_pin_change(stored, current, new_pin, confirm)
}

pub assume_specification<T>[ rand::random::<T> ]() -> (r: T)
    where
        rand::distributions::Standard: rand::distributions::Distribution<T>,
;

/// A run of `k` ASCII zero digits.
pub open spec fn zeros(k: nat) -> Seq<u8> {
    Seq::new(k, |i: int| 48u8)
}

/// The numeral of `n`, left-padded with zeros to five digits.
pub open spec fn padded_pin(n: nat) -> Seq<u8> {
    let digits = dec_digits(n);
    zeros((5 - digits.len()) as nat) + digits
}

/// Ten to the `k`.
spec fn pow10(k: nat) -> nat
    decreases k,
{
    if k == 0 {
        1
    } else {
        10 * pow10((k - 1) as nat)
    }
}

/// A value below ten to the `k` has at most `k` digits.
proof fn lemma_dec_digits_len_bound(n: nat, k: nat)
    requires
        k >= 1,
        n < pow10(k),
    ensures
        dec_digits(n).len() <= k,
    decreases k,
{
    if n >= 10 {
        assert(k >= 2) by {
            if k == 1 {
                assert(pow10(1) == 10 * pow10(0));
                assert(pow10(0) == 1);
            }
        };
        assert(pow10(k) == 10 * pow10((k - 1) as nat));
        assert(n / 10 < pow10((k - 1) as nat)) by (nonlinear_arith)
            requires
                n < 10 * pow10((k - 1) as nat),
                n >= 10,
        ;
        lemma_dec_digits_len_bound(n / 10, (k - 1) as nat);
    }
}

/// A value below 100000 has at most five digits.
proof fn lemma_dec_digits_len(n: nat)
    requires
        n < 100000,
    ensures
        dec_digits(n).len() <= 5,
{
    assert(pow10(0) == 1);
    assert(pow10(1) == 10);
    assert(pow10(2) == 100);
    assert(pow10(3) == 1000);
    assert(pow10(4) == 10000);
    assert(pow10(5) == 100000);
    lemma_dec_digits_len_bound(n, 5);
}

/// Draw a fresh five-digit PIN, as ASCII digit bytes: a random 32-bit
/// draw reduced modulo 100000 (so very nearly, though not exactly,
/// uniform).  Relies on `rand::random` for the draw; nothing is promised
/// about which PIN comes out.
pub fn random_pin() -> (p: Vec<u8>)
    ensures
        p@.len() == 5,
        all_digits(p@),
        dec_val(p@) < 100000,
{
    let raw: u32 = rand::random();
    let n: u32 = raw % 100000;
    let digits = crate::numerals::format_u64(n as u64);
    proof {
        lemma_dec_digits_val(n as nat);
        lemma_dec_digits_len(n as nat);
    }
    let mut p: Vec<u8> = Vec::new();
    let mut pad: usize = 5 - digits.len();
    while pad > 0
        invariant
            pad <= 5 - digits@.len(),
            p@ =~= zeros((5 - digits@.len() - pad) as nat),
        decreases pad,
    {
        p.push(48);
        proof {
            assert(p@ =~= zeros((5 - digits@.len() - pad + 1) as nat));
        }
        pad = pad - 1;
    }
    let mut i: usize = 0;
    while i < digits.len()
        invariant
            i <= digits@.len(),
            p@ == zeros((5 - digits@.len()) as nat) + digits@.take(i as int),
        decreases digits@.len() - i,
    {
        p.push(digits[i]);
        proof {
            assert(p@ =~= zeros((5 - digits@.len()) as nat) + digits@.take(i as int + 1));
        }
        i = i + 1;
    }
    proof {
        assert(digits@.take(digits@.len() as int) =~= digits@);
        assert(p@ == padded_pin(n as nat));
        lemma_padded_pin_val(n as nat);
    }
    p
}

/// Zero padding changes neither the digits property nor the value.
proof fn lemma_padded_pin_val(n: nat)
    requires
        n < 100000,
        dec_digits(n).len() <= 5,
    ensures
        padded_pin(n).len() == 5,
        all_digits(padded_pin(n)),
        dec_val(padded_pin(n)) == n,
{
    lemma_dec_digits_val(n);
    lemma_zeros_prefix_val(dec_digits(n), (5 - dec_digits(n).len()) as nat);
}

/// Prepending zero digits leaves the denoted value unchanged.
proof fn lemma_zeros_prefix_val(s: Seq<u8>, k: nat)
    requires
        all_digits(s),
    ensures
        all_digits(zeros(k) + s),
        dec_val(zeros(k) + s) == dec_val(s),
    decreases s.len(),
{
    if s.len() == 0 {
        lemma_zeros_val(k);
        assert(zeros(k) + s =~= zeros(k));
    } else {
        assert(all_digits(s.drop_last())) by {
            assert(forall|i: int|
                0 <= i < s.len() - 1 ==> #[trigger] s.drop_last()[i] == s[i]);
        };
        lemma_zeros_prefix_val(s.drop_last(), k);
        assert((zeros(k) + s).drop_last() =~= zeros(k) + s.drop_last());
        assert((zeros(k) + s).last() == s.last());
    }
}

/// A run of zero digits denotes zero.
proof fn lemma_zeros_val(k: nat)
    ensures
        all_digits(zeros(k)),
        dec_val(zeros(k)) == 0,
    decreases k,
{
    if k > 0 {
        lemma_zeros_val((k - 1) as nat);
        assert(zeros(k).drop_last() =~= zeros((k - 1) as nat));
    }
}

/// Relies on subtle's `ConstantTimeEq` for byte slices: equal exactly when
/// the lengths and all bytes agree, evaluated in constant time for a given
/// length.
#[verifier::external_body]
fn ct_bytes_eq(a: &[u8], b: &[u8]) -> (r: bool)
    ensures
        r == (a@ == b@),
{
    a.ct_eq(b).into()
}

/// Whether a presented debugging key matches the expected one, compared in
/// constant time so the comparison leaks nothing about the expected key.
/// Equality of the UTF-8 bytes is equality of the strings.
pub fn debug_key_matches(expected: &str, provided: &str) -> (r: bool)
    ensures
        r == (expected.spec_bytes() == provided.spec_bytes()),
{
    ct_bytes_eq(expected.as_bytes(), provided.as_bytes())
}

} // verus!
