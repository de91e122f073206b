//! Service configuration, and the derivation of the identity provider's
//! domain from its publishable key: the key is a `pk_test_` or `pk_live_`
//! prefix followed by the base64 of the domain, which is padded with `$`
//! characters at its end.

use vstd::prelude::*;

use vstd::string::StrSliceExecFns;
use vstd::utf8::{decode_utf8, valid_utf8};

use crate::b64::{b64_decode, b64_of};

verus! {

/// What the service needs to know at startup.  Read from the environment
/// by the surrounding program; the library only consumes the values.
#[derive(Clone, Debug)]
pub struct AppConfig {
    pub database_url: String,
    pub clerk_secret_key: String,
    pub clerk_publishable_key: String,
    pub clerk_domain: String,
}

/// Relies on std's `String::from_utf8`: succeeds exactly on valid UTF-8,
/// yielding the character string those bytes encode.
#[verifier::external_body]
fn utf8_decode(bytes: &Vec<u8>) -> (r: Option<String>)
    ensures
        r matches Some(s) ==> valid_utf8(bytes@) && s@ == decode_utf8(bytes@),
        r is None ==> !valid_utf8(bytes@),
{
    match String::from_utf8(bytes.clone()) {
        Ok(s) => Some(s),
        Err(_) => None,
    }
}

/// The test-mode key prefix, `pk_test_`.
pub open spec fn pk_test_prefix() -> Seq<char> {
    seq!['p', 'k', '_', 't', 'e', 's', 't', '_']
}

/// The live-mode key prefix, `pk_live_`.
pub open spec fn pk_live_prefix() -> Seq<char> {
    seq!['p', 'k', '_', 'l', 'i', 'v', 'e', '_']
}

/// Whether a publishable key starts with one of the two known prefixes.
pub open spec fn has_clerk_prefix(s: Seq<char>) -> bool {
    s.len() >= 8 && (s.subrange(0, 8) == pk_test_prefix() || s.subrange(0, 8) == pk_live_prefix())
}

/// Whether `dom` is the domain a well-formed publishable key carries: the
/// key has a known prefix, the remainder is the standard encoding of valid
/// UTF-8, and `dom` is that text without its `$` padding.
pub open spec fn domain_of_key(key: Seq<char>, dom: Seq<char>) -> bool {
    has_clerk_prefix(key) && exists|bb: Seq<u8>|
        #[trigger] b64_of(bb) == key.skip(8) && valid_utf8(bb) && dom == trim_dollars(
            decode_utf8(bb),
        )
}

/// The string with every trailing `$` padding character removed.
pub open spec fn trim_dollars(s: Seq<char>) -> Seq<char>
    decreases s.len(),
{
    if s.len() > 0 && s.last() == '$' {
        trim_dollars(s.drop_last())
    } else {
        s
    }
}

/// Recover the identity provider's domain from a publishable key: strip
/// the mode prefix, decode the base64 remainder, and drop the `$` padding.
///
/// For a well-formed key — a known prefix followed by the standard base64
/// encoding of valid UTF-8 — the result is exactly the encoded domain
/// without its padding; a key without the prefix, with an undecodable
/// remainder or with non-UTF-8 contents is refused, and nothing else
/// succeeds.
pub fn extract_clerk_domain(publishable_key: &str) -> (r: Result<String, String>)
    ensures
        !has_clerk_prefix(publishable_key@) ==> r is Err,
        forall|bb: Seq<u8>|
            has_clerk_prefix(publishable_key@) && publishable_key@.skip(8) == b64_of(bb)
                ==> if valid_utf8(bb) {
                r matches Ok(d) && d@ == trim_dollars(decode_utf8(bb))
            } else {
                r is Err
            },
        r matches Ok(d) ==> domain_of_key(publishable_key@, d@),
{
    let n = publishable_key.unicode_len();
    if n < 8 {
        return Err("Invalid Clerk publishable key format".to_owned());
    }
    let c0 = publishable_key.get_char(0);
    let c1 = publishable_key.get_char(1);
    let c2 = publishable_key.get_char(2);
    let c3 = publishable_key.get_char(3);
    let c4 = publishable_key.get_char(4);
    let c5 = publishable_key.get_char(5);
    let c6 = publishable_key.get_char(6);
    let c7 = publishable_key.get_char(7);
    let test_prefix = c0 == 'p' && c1 == 'k' && c2 == '_' && c3 == 't' && c4 == 'e' && c5 == 's'
        && c6 == 't' && c7 == '_';
    let live_prefix = c0 == 'p' && c1 == 'k' && c2 == '_' && c3 == 'l' && c4 == 'i' && c5 == 'v'
        && c6 == 'e' && c7 == '_';
    proof {
        if test_prefix {
            assert(publishable_key@.subrange(0, 8) =~= pk_test_prefix());
        }
        if live_prefix {
            assert(publishable_key@.subrange(0, 8) =~= pk_live_prefix());
        }
        if !test_prefix && !live_prefix {
            assert(publishable_key@.subrange(0, 8) != pk_test_prefix() && publishable_key@
                .subrange(0, 8) != pk_live_prefix()) by {
                assert(pk_test_prefix()[3] == 't' && pk_live_prefix()[3] == 'l');
                assert(forall|i: int|
                    0 <= i < 8 ==> publishable_key@.subrange(0, 8)[i] == publishable_key@[i]);
            };
        }
    }
    if !test_prefix && !live_prefix {
        return Err("Invalid Clerk publishable key format".to_owned());
    }
    let rest = publishable_key.substring_char(8, n);
    proof {
        assert(rest@ =~= publishable_key@.skip(8));
    }
    let decoded = match b64_decode(rest) {
        Ok(d) => d,
        Err(_) => {
            return Err("Failed to decode Clerk domain".to_owned());
        },
    };
    let s = match utf8_decode(&decoded) {
        Some(s) => s,
        None => {
            return Err("Invalid UTF-8 in Clerk domain".to_owned());
        },
    };
    let m = s.as_str().unicode_len();
    proof {
        assert(s@.take(m as int) =~= s@);
    }
    let mut k: usize = m;
    while k > 0 && s.as_str().get_char(k - 1) == '$'
        invariant
            k <= m,
            m == s@.len(),
            trim_dollars(s@) == trim_dollars(s@.take(k as int)),
        decreases k,
    {
        proof {
            assert(s@.take(k as int).drop_last() =~= s@.take(k as int - 1));
            assert(s@.take(k as int).last() == s@[k as int - 1]);
        }
        k = k - 1;
    }
    proof {
        if k > 0 {
            assert(s@.take(k as int).last() == s@[k as int - 1]);
        }
        assert(trim_dollars(s@.take(k as int)) == s@.take(k as int));
    }
    let dom = s.as_str().substring_char(0, k).to_owned();
    proof {
        assert(dom@ =~= s@.take(k as int));
        assert(domain_of_key(publishable_key@, dom@)) by {
            assert(b64_of(decoded@) == publishable_key@.skip(8) && valid_utf8(decoded@) && dom@
                == trim_dollars(decode_utf8(decoded@)));
        };
    }
    Ok(dom)
}

} // verus!
