//! PIN verification tokens: a short-lived, HMAC-signed pass handed out
//! after a staff member proves their identity with a PIN, and redeemed a
//! moment later to change that PIN.
//!
//! A token is `base64(user_profile_id ":" expiry ":" signature)` where the
//! signature is the lowercase hex HMAC-SHA-256 tag of
//! `user_profile_id ":" expiry` under a server-side secret.  Validation is
//! proved complete — a token generated for a user with some expiry
//! validates to exactly that user until the expiry passes, and reports
//! expiry afterwards — and sound: acceptance happens only for a validly
//! signed token carrying the returned user.

use vstd::prelude::*;

use hmac::Mac;

use crate::b64::{b64_decode, b64_encode, b64_of};
use crate::numerals::{dec_int, lemma_dec_int_round_trip, parse_i32_dec, parse_i64_dec, parsed_int};

verus! {

/// Why a token was not accepted: it is not a currently valid signed token,
/// or it was one but its validity window has passed.
#[derive(Clone, Copy, Debug, PartialEq, Eq, Structural)]
pub enum PinTokenError {
    Invalid,
    Expired,
}

/// What HMAC-SHA-256 under `key`, written as lowercase hex, tags `data`
/// with: a function of the key and the data alone.
pub uninterp spec fn hmac_sha256_hex(key: Seq<char>, data: Seq<u8>) -> Seq<u8>;

/// Relies on hmac's `Hmac<Sha256>` and `hex::encode`: the lowercase hex
/// form of the HMAC-SHA-256 tag of `data` under `secret`, which depends on
/// the two arguments alone.  Sixty-four bytes: SHA-256 tags are 32 bytes
/// and hex writes two digits per byte.  `Hmac` accepts keys of any length,
/// so initialisation cannot fail.
#[verifier::external_body]
fn hmac_hex(secret: &str, data: &Vec<u8>) -> (r: Vec<u8>)
    ensures
        r@ == hmac_sha256_hex(secret@, data@),
        r@.len() == 64,
{
    let mut mac = hmac::Hmac::<sha2::Sha256>::new_from_slice(secret.as_bytes())
        .expect("HMAC accepts keys of any length");
    mac.update(data.as_slice());
    hex::encode(mac.finalize().into_bytes()).into_bytes()
}

/// Relies on chrono's `Utc::now`: the current time as Unix seconds.
/// Nothing can be promised of a clock reading.  Panics only in the
/// environmental case of a system clock reading before 1970.
#[verifier::external_body]
pub fn now_unix_seconds() -> i64 {
    chrono::Utc::now().timestamp()
}

/// The signed part of a token: the user's identifier and the expiry time,
/// as decimal numerals separated by a colon.
pub open spec fn payload_bytes(uid: int, expiry: int) -> Seq<u8> {
    dec_int(uid) + seq![58u8] + dec_int(expiry)
}

/// The bytes a token encodes: the payload, a colon, and the payload's tag.
pub open spec fn token_bytes(uid: int, expiry: int, key: Seq<char>) -> Seq<u8> {
    payload_bytes(uid, expiry) + seq![58u8] + hmac_sha256_hex(key, payload_bytes(uid, expiry))
}

/// Whether `tok` encodes the payload `p1 ":" p2` followed by that
/// payload's own tag under `key`.
pub open spec fn signed_parts(tok: Seq<char>, p1: Seq<u8>, p2: Seq<u8>, key: Seq<char>) -> bool {
    tok == b64_of(
        p1 + seq![58u8] + p2 + seq![58u8] + hmac_sha256_hex(key, p1 + seq![58u8] + p2),
    )
}

/// A validly signed token for `uid` and `expiry`: some pair of numerals
/// denoting them, signed as transmitted.  Every token `token_bytes`
/// describes is of this form with the canonical numerals
/// ([`lemma_genuine_token_is_signed`]); the form is wider only in that the
/// numerals need not be canonical.
pub open spec fn is_signed_token(tok: Seq<char>, uid: int, expiry: int, key: Seq<char>) -> bool {
    exists|p1: Seq<u8>, p2: Seq<u8>|
        #[trigger] signed_parts(tok, p1, p2, key) && parsed_int(p1) == Some(uid) && parsed_int(
            p2,
        ) == Some(expiry)
}

/// A token accepted for `uid` against the clock reading `now`: validly
/// signed for `uid` and some expiry that has not passed.
pub open spec fn accepted_token(tok: Seq<char>, uid: i32, now: i64, key: Seq<char>) -> bool {
    exists|e: int| #[trigger] is_signed_token(tok, uid as int, e, key) && e >= now
}

/// A validly signed token for `uid` and some expiry.
pub open spec fn signed_for(tok: Seq<char>, uid: i32, key: Seq<char>) -> bool {
    exists|e: int| #[trigger] is_signed_token(tok, uid as int, e, key)
}

/// A validly signed token whose expiry lies before the clock reading
/// `now`.
pub open spec fn expired_token(tok: Seq<char>, now: i64, key: Seq<char>) -> bool {
    exists|u: int, e: int|
        #[trigger] is_signed_token(tok, u, e, key) && i32::MIN <= u <= i32::MAX && e < now
}

/// A genuine token is in particular a validly signed one.
pub proof fn lemma_genuine_token_is_signed(uid: i32, expiry: i64, key: Seq<char>)
    ensures
        is_signed_token(
            b64_of(token_bytes(uid as int, expiry as int, key)),
            uid as int,
            expiry as int,
            key,
        ),
{
    lemma_dec_int_round_trip(uid as int);
    lemma_dec_int_round_trip(expiry as int);
    let p1 = dec_int(uid as int);
    let p2 = dec_int(expiry as int);
    assert(p1 + seq![58u8] + p2 =~= payload_bytes(uid as int, expiry as int));
    assert(p1 + seq![58u8] + p2 + seq![58u8] + hmac_sha256_hex(key, p1 + seq![58u8] + p2)
        =~= token_bytes(uid as int, expiry as int, key));
    assert(signed_parts(b64_of(token_bytes(uid as int, expiry as int, key)), p1, p2, key));
}

/// A decimal numeral never contains a colon.
proof fn lemma_dec_int_no_colon(v: int)
    ensures
        forall|i: int| 0 <= i < dec_int(v).len() ==> dec_int(v)[i] != 58,
        dec_int(v).len() >= 1,
{
    if v < 0 {
        crate::numerals::lemma_dec_digits_val((-v) as nat);
        assert(forall|i: int|
            0 <= i < dec_int(v).len() ==> dec_int(v)[i] == (seq![45u8] + dec_digits_of(-v))[i]);
    } else {
        crate::numerals::lemma_dec_digits_val(v as nat);
    }
}

/// Abbreviation used by `lemma_dec_int_no_colon` for the magnitude part.
spec fn dec_digits_of(m: int) -> Seq<u8> {
    crate::numerals::dec_digits(m as nat)
}

/// Where the fields of a genuine token lie: the first colon ends the
/// user's numeral, the next one ends the expiry's, everything before the
/// second colon is the signed payload and everything after it is the tag.
proof fn lemma_genuine_structure(d: Seq<u8>, uid: int, expiry: int, key: Seq<char>)
    requires
        d == token_bytes(uid, expiry, key),
    ensures
        ({
            let n1 = dec_int(uid).len() as int;
            let n2 = dec_int(expiry).len() as int;
            &&& 1 <= n1
            &&& 1 <= n2
            &&& d.len() == n1 + 1 + n2 + 1 + hmac_sha256_hex(key, payload_bytes(uid, expiry)).len()
            &&& forall|j: int| 0 <= j < n1 ==> d[j] != 58
            &&& d[n1] == 58
            &&& forall|j: int| n1 < j < n1 + 1 + n2 ==> d[j] != 58
            &&& d[n1 + 1 + n2] == 58
            &&& d.subrange(0, n1) == dec_int(uid)
            &&& d.subrange(n1 + 1, n1 + 1 + n2) == dec_int(expiry)
            &&& d.subrange(0, n1 + 1 + n2) == payload_bytes(uid, expiry)
            &&& d.subrange(n1 + 1 + n2 + 1, d.len() as int) == hmac_sha256_hex(
                key,
                payload_bytes(uid, expiry),
            )
        }),
{
    let p1 = dec_int(uid);
    let p2 = dec_int(expiry);
    let n1 = p1.len() as int;
    let n2 = p2.len() as int;
    let sig = hmac_sha256_hex(key, payload_bytes(uid, expiry));
    lemma_dec_int_no_colon(uid);
    lemma_dec_int_no_colon(expiry);
    assert(d.subrange(0, n1) =~= p1);
    assert(d.subrange(n1 + 1, n1 + 1 + n2) =~= p2);
    assert(d.subrange(0, n1 + 1 + n2) =~= payload_bytes(uid, expiry));
    assert(d.subrange(n1 + 1 + n2 + 1, d.len() as int) =~= sig);
}

/// The first occurrence of a byte at or after `from`.
fn find_byte(v: &Vec<u8>, from: usize, b: u8) -> (r: Option<usize>)
    requires
        from <= v@.len(),
    ensures
        match r {
            Some(i) => from <= i < v@.len() && v@[i as int] == b && forall|j: int|
                from <= j < i ==> v@[j] != b,
            None => forall|j: int| from <= j < v@.len() ==> v@[j] != b,
        },
{
    let mut i: usize = from;
    while i < v.len()
        invariant
            from <= i <= v@.len(),
            forall|j: int| from <= j < i ==> v@[j] != b,
        decreases v@.len() - i,
    {
        if v[i] == b {
            return Some(i);
        }
        i = i + 1;
    }
    None
}

/// A copy of `v[from..to]`.
fn subvec(v: &Vec<u8>, from: usize, to: usize) -> (out: Vec<u8>)
    requires
        from <= to <= v@.len(),
    ensures
        out@ == v@.subrange(from as int, to as int),
{
    let mut out: Vec<u8> = Vec::new();
    let mut i: usize = from;
    while i < to
        invariant
            from <= i <= to <= v@.len(),
            out@ == v@.subrange(from as int, i as int),
        decreases to - i,
    {
        out.push(v[i]);
        proof {
            assert(out@ =~= v@.subrange(from as int, i as int + 1));
        }
        i = i + 1;
    }
    out
}

/// Whether two byte strings hold the same bytes.
fn bytes_eq(a: &Vec<u8>, b: &Vec<u8>) -> (r: bool)
    ensures
        r == (a@ == b@),
{
    if a.len() != b.len() {
        return false;
    }
    let mut i: usize = 0;
    while i < a.len()
        invariant
            i <= a@.len(),
            a@.len() == b@.len(),
            forall|j: int| 0 <= j < i ==> a@[j] == b@[j],
        decreases a@.len() - i,
    {
        if a[i] != b[i] {
            return false;
        }
        i = i + 1;
    }
    proof {
        assert(a@ =~= b@);
    }
    true
}

/// Issue the token that verifies `user_profile_id` until `expiry`.
pub fn generate_pin_token_at(user_profile_id: i32, secret: &str, expiry: i64) -> (t: String)
    ensures
        t@ == b64_of(token_bytes(user_profile_id as int, expiry as int, secret@)),
{
    let mut data = crate::numerals::format_i64(user_profile_id as i64);
    data.push(58);
    let mut exp_digits = crate::numerals::format_i64(expiry);
    data.append(&mut exp_digits);
    proof {
        assert(data@ =~= payload_bytes(user_profile_id as int, expiry as int));
    }
    let mut sig = hmac_hex(secret, &data);
    data.push(58);
    data.append(&mut sig);
    proof {
        assert(data@ =~= token_bytes(user_profile_id as int, expiry as int, secret@));
    }
    b64_encode(&data)
}

/// Issue a PIN verification token for the user, valid for five minutes
/// from now.  Fails only if the clock reading cannot be moved five minutes
/// forward without leaving the representable range.
pub fn generate_pin_token(user_profile_id: i32, secret: &str) -> (r: Result<String, PinTokenError>)
    ensures
        r matches Ok(t) ==> exists|expiry: i64|
            t@ == b64_of(
                #[trigger] token_bytes(user_profile_id as int, expiry as int, secret@),
            ),
{
    let now = now_unix_seconds();
    if now <= i64::MAX - 300 {
        let expiry = now + 300;
        let t = generate_pin_token_at(user_profile_id, secret, expiry);
        Ok(t)
    } else {
        Err(PinTokenError::Invalid)
    }
}

/// Validate a token against the clock reading `now` and extract the user
/// it verifies.
///
/// Complete for genuine tokens: one issued for a user with some expiry is
/// accepted, and yields that user, exactly when the expiry has not passed,
/// and is reported `Expired` afterwards.  Sound in turn: acceptance (and
/// an expiry report) happens only for a validly signed token, whose
/// payload carries the returned user and an expiry on the right side of
/// `now`.
#[verifier::rlimit(100)]
pub fn validate_pin_token_at(token: &str, secret: &str, now: i64) -> (r: Result<
    i32,
    PinTokenError,
>)
    ensures
        forall|uid: i32, expiry: i64|
            token@ == b64_of(#[trigger] token_bytes(uid as int, expiry as int, secret@)) ==> r
                == (if expiry >= now {
                Ok::<i32, PinTokenError>(uid)
            } else {
                Err::<i32, PinTokenError>(PinTokenError::Expired)
            }),
        r matches Ok(uid) ==> accepted_token(token@, uid, now, secret@),
        r == Err::<i32, PinTokenError>(PinTokenError::Expired) ==> expired_token(
            token@,
            now,
            secret@,
        ),
{
    let d = match b64_decode(token) {
        Ok(d) => d,
        Err(_) => {
            return Err(PinTokenError::Invalid);
        },
    };
    let idx1 = match find_byte(&d, 0, 58) {
        Some(i) => i,
        None => {
            proof {
                assert forall|uid: i32, expiry: i64|
                    token@ == b64_of(
                        #[trigger] token_bytes(uid as int, expiry as int, secret@),
                    ) implies false by {
                    lemma_genuine_structure(d@, uid as int, expiry as int, secret@);
                };
            }
            return Err(PinTokenError::Invalid);
        },
    };
    let total = d.len();
    proof {
        assert(idx1 < total);
    }
    let idx2 = match find_byte(&d, idx1 + 1, 58) {
        Some(i) => i,
        None => {
            proof {
                assert forall|uid: i32, expiry: i64|
                    token@ == b64_of(
                        #[trigger] token_bytes(uid as int, expiry as int, secret@),
                    ) implies false by {
                    lemma_genuine_structure(d@, uid as int, expiry as int, secret@);
                    let n1 = dec_int(uid as int).len() as int;
                    let n2 = dec_int(expiry as int).len() as int;
                    assert(idx1 == n1);
                    assert(d@[n1 + 1 + n2] == 58);
                };
            }
            return Err(PinTokenError::Invalid);
        },
    };
    let part1 = subvec(&d, 0, idx1);
    let uid = match parse_i32_dec(&part1) {
        Some(u) => u,
        None => {
            proof {
                assert forall|uid: i32, expiry: i64|
                    token@ == b64_of(
                        #[trigger] token_bytes(uid as int, expiry as int, secret@),
                    ) implies false by {
                    lemma_genuine_structure(d@, uid as int, expiry as int, secret@);
                    let n1 = dec_int(uid as int).len() as int;
                    assert(idx1 == n1);
                    assert(part1@ == dec_int(uid as int));
                    lemma_dec_int_round_trip(uid as int);
                };
            }
            return Err(PinTokenError::Invalid);
        },
    };
    let part2 = subvec(&d, idx1 + 1, idx2);
    let expiry = match parse_i64_dec(&part2) {
        Some(e) => e,
        None => {
            proof {
                assert forall|uid: i32, expiry: i64|
                    token@ == b64_of(
                        #[trigger] token_bytes(uid as int, expiry as int, secret@),
                    ) implies false by {
                    lemma_genuine_structure(d@, uid as int, expiry as int, secret@);
                    let n1 = dec_int(uid as int).len() as int;
                    let n2 = dec_int(expiry as int).len() as int;
                    assert(idx1 == n1);
                    assert(idx2 == n1 + 1 + n2);
                    assert(part2@ == dec_int(expiry as int));
                    lemma_dec_int_round_trip(expiry as int);
                };
            }
            return Err(PinTokenError::Invalid);
        },
    };
    let payload = subvec(&d, 0, idx2);
    let expected = hmac_hex(secret, &payload);
    let sig_part = subvec(&d, idx2 + 1, d.len());
    if !bytes_eq(&sig_part, &expected) {
        proof {
            assert forall|uid: i32, expiry: i64|
                token@ == b64_of(
                    #[trigger] token_bytes(uid as int, expiry as int, secret@),
                ) implies false by {
                lemma_genuine_structure(d@, uid as int, expiry as int, secret@);
                let n1 = dec_int(uid as int).len() as int;
                let n2 = dec_int(expiry as int).len() as int;
                assert(idx1 == n1);
                assert(idx2 == n1 + 1 + n2);
                assert(payload@ == payload_bytes(uid as int, expiry as int));
                assert(sig_part@ == expected@);
            };
        }
        return Err(PinTokenError::Invalid);
    }
    proof {
        assert forall|u: i32, e: i64|
            token@ == b64_of(#[trigger] token_bytes(u as int, e as int, secret@)) implies u == uid
            && e == expiry by {
            lemma_genuine_structure(d@, u as int, e as int, secret@);
            let n1 = dec_int(u as int).len() as int;
            let n2 = dec_int(e as int).len() as int;
            assert(idx1 == n1);
            assert(idx2 == n1 + 1 + n2);
            assert(part1@ == dec_int(u as int));
            assert(part2@ == dec_int(e as int));
            lemma_dec_int_round_trip(u as int);
            lemma_dec_int_round_trip(e as int);
        };
        assert(payload@ =~= part1@ + seq![58u8] + part2@);
        assert(d@ =~= part1@ + seq![58u8] + part2@ + seq![58u8] + sig_part@);
        assert(signed_parts(token@, part1@, part2@, secret@));
        assert(is_signed_token(token@, uid as int, expiry as int, secret@));
    }
    if expiry < now {
        proof {
            assert(expired_token(token@, now, secret@)) by {
                assert(is_signed_token(token@, uid as int, expiry as int, secret@) && i32::MIN
                    <= uid as int <= i32::MAX && (expiry as int) < now);
            };
        }
        return Err(PinTokenError::Expired);
    }
    proof {
        assert(accepted_token(token@, uid, now, secret@)) by {
            assert(is_signed_token(token@, uid as int, expiry as int, secret@) && expiry as int
                >= now);
        };
    }
    Ok(uid)
}

/// Validate a token against the current clock and extract the user it
/// verifies.  A genuine token yields the user it was issued for, or an
/// expiry report once its validity window has passed — never another user;
/// and acceptance happens only for a validly signed token carrying the
/// returned user.
pub fn validate_pin_token(token: &str, secret: &str) -> (r: Result<i32, PinTokenError>)
    ensures
        forall|uid: i32, expiry: i64|
            token@ == b64_of(#[trigger] token_bytes(uid as int, expiry as int, secret@)) ==> (r
                == Ok::<i32, PinTokenError>(uid) || r == Err::<i32, PinTokenError>(
                PinTokenError::Expired,
            )),
        r matches Ok(uid) ==> signed_for(token@, uid, secret@),
{
    let now = now_unix_seconds();
    let r = validate_pin_token_at(token, secret, now);
    proof {
        match r {
            Ok(uid) => {
                assert(signed_for(token@, uid, secret@)) by {
                    let e = choose|e: int|
                        #[trigger] is_signed_token(token@, uid as int, e, secret@) && e >= now;
                    assert(is_signed_token(token@, uid as int, e, secret@));
                };
            },
            Err(_) => (),
        }
    }
    r
}

} // verus!
