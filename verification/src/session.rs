//! Session identity: the claims carried by the identity provider's token,
//! and the extraction of that token from request headers — from the
//! `__session` cookie the browser sends, or from a bearer authorization
//! header.

use vstd::prelude::*;

use vstd::string::StrSliceExecFns;

verus! {

/// The claims of an identity token.
pub struct ClerkClaims {
    pub sub: String,
    pub exp: i64,
    pub iat: i64,
    pub iss: String,
    pub azp: Option<String>,
    pub primary_email: Option<String>,
    pub email: Option<String>,
    pub email_verified: Option<bool>,
    pub name: Option<String>,
    pub given_name: Option<String>,
    pub family_name: Option<String>,
}

impl ClerkClaims {
    /// The holder's email: the custom primary-email claim when present,
    /// otherwise the standard email claim.
    pub fn get_email(&self) -> (r: Option<&str>)
        ensures
            match r {
                Some(e) => (self.primary_email matches Some(p) && e@ == p@) || (self.primary_email
                    is None && (self.email matches Some(q) && e@ == q@)),
                None => self.primary_email is None && self.email is None,
            },
    {
        match &self.primary_email {
            Some(p) => Some(p.as_str()),
            None => match &self.email {
                Some(q) => Some(q.as_str()),
                None => None,
            },
        }
    }
}

/// The string without trailing spaces.
pub open spec fn trim_trailing(s: Seq<char>) -> Seq<char>
    decreases s.len(),
{
    if s.len() > 0 && s.last() == ' ' {
        trim_trailing(s.drop_last())
    } else {
        s
    }
}

/// The string without leading spaces.
pub open spec fn trim_leading(s: Seq<char>) -> Seq<char>
    decreases s.len(),
{
    if s.len() > 0 && s[0] == ' ' {
        trim_leading(s.drop_first())
    } else {
        s
    }
}

/// The string without leading or trailing spaces.
pub open spec fn trim_spaces(s: Seq<char>) -> Seq<char> {
    trim_leading(trim_trailing(s))
}

/// The name-value prefix of the session cookie, `__session=`.
pub open spec fn session_prefix() -> Seq<char> {
    seq!['_', '_', 's', 'e', 's', 's', 'i', 'o', 'n', '=']
}

/// The value of a cookie segment when it is the session cookie.
pub open spec fn strip_session(seg: Seq<char>) -> Option<Seq<char>> {
    if seg.len() >= 10 && seg.take(10) == session_prefix() {
        Some(seg.skip(10))
    } else {
        None
    }
}

/// Scan the remainder of a cookie header, the current segment accumulated
/// so far: at each `;` the finished segment is space-trimmed and tested,
/// and the first session cookie's value wins.
pub open spec fn session_scan(rest: Seq<char>, cur: Seq<char>) -> Option<Seq<char>>
    decreases rest.len(),
{
    if rest.len() == 0 {
        strip_session(trim_spaces(cur))
    } else if rest[0] == ';' {
        match strip_session(trim_spaces(cur)) {
            Some(v) => Some(v),
            None => session_scan(rest.drop_first(), Seq::empty()),
        }
    } else {
        session_scan(rest.drop_first(), cur.push(rest[0]))
    }
}

/// The session token a cookie header carries: the value of the first
/// `;`-separated, space-trimmed segment of the form `__session=value`.
pub open spec fn session_from(header: Seq<char>) -> Option<Seq<char>> {
    session_scan(header, Seq::empty())
}

/// The token a bearer authorization header carries.
pub open spec fn bearer_prefix() -> Seq<char> {
    seq!['B', 'e', 'a', 'r', 'e', 'r', ' ']
}

/// The token of an authorization header of the form `Bearer token`.
pub open spec fn bearer_from(header: Seq<char>) -> Option<Seq<char>> {
    if header.len() >= 7 && header.take(7) == bearer_prefix() {
        Some(header.skip(7))
    } else {
        None
    }
}

/// Space-trim the segment `[start, end)` of `s` and, when it is the
/// session cookie, hand its value out.
fn check_segment(s: &str, start: usize, end: usize) -> (r: Option<String>)
    requires
        start <= end <= s@.len(),
    ensures
        match r {
            Some(v) => strip_session(trim_spaces(s@.subrange(start as int, end as int))) == Some(
                v@,
            ),
            None => strip_session(trim_spaces(s@.subrange(start as int, end as int))) is None,
        },
{
    let ghost seg = s@.subrange(start as int, end as int);
    let mut b: usize = end;
    while b > start && s.get_char(b - 1) == ' '
        invariant
            start <= b <= end <= s@.len(),
            trim_trailing(seg) == trim_trailing(s@.subrange(start as int, b as int)),
            seg == s@.subrange(start as int, end as int),
        decreases b,
    {
        proof {
            assert(s@.subrange(start as int, b as int).drop_last() =~= s@.subrange(
                start as int,
                b as int - 1,
            ));
        }
        b = b - 1;
    }
    proof {
        assert(trim_trailing(s@.subrange(start as int, b as int)) == s@.subrange(
            start as int,
            b as int,
        ));
    }
    let mut a: usize = start;
    while a < b && s.get_char(a) == ' '
        invariant
            start <= a <= b <= s@.len(),
            trim_leading(s@.subrange(start as int, b as int)) == trim_leading(
                s@.subrange(a as int, b as int),
            ),
        decreases b - a,
    {
        proof {
            assert(s@.subrange(a as int, b as int).drop_first() =~= s@.subrange(
                a as int + 1,
                b as int,
            ));
        }
        a = a + 1;
    }
    proof {
        assert(trim_leading(s@.subrange(a as int, b as int)) == s@.subrange(a as int, b as int));
        assert(trim_spaces(seg) == s@.subrange(a as int, b as int));
    }
    if b - a < 10 {
        return None;
    }
    let ghost trimmed = s@.subrange(a as int, b as int);
    let p0 = s.get_char(a);
    let p1 = s.get_char(a + 1);
    let p2 = s.get_char(a + 2);
    let p3 = s.get_char(a + 3);
    let p4 = s.get_char(a + 4);
    let p5 = s.get_char(a + 5);
    let p6 = s.get_char(a + 6);
    let p7 = s.get_char(a + 7);
    let p8 = s.get_char(a + 8);
    let p9 = s.get_char(a + 9);
    let is_session = p0 == '_' && p1 == '_' && p2 == 's' && p3 == 'e' && p4 == 's' && p5 == 's'
        && p6 == 'i' && p7 == 'o' && p8 == 'n' && p9 == '=';
    if is_session {
        let v = s.substring_char(a + 10, b).to_owned();
        proof {
            assert(trimmed.take(10) =~= session_prefix());
            assert(trimmed.skip(10) =~= s@.subrange(a as int + 10, b as int));
        }
        Some(v)
    } else {
        proof {
            assert(trimmed.take(10) != session_prefix()) by {
                assert(forall|i: int| 0 <= i < 10 ==> trimmed.take(10)[i] == s@[a + i]);
                assert(session_prefix()[0] == '_' && session_prefix()[1] == '_'
                    && session_prefix()[2] == 's' && session_prefix()[3] == 'e'
                    && session_prefix()[4] == 's' && session_prefix()[5] == 's'
                    && session_prefix()[6] == 'i' && session_prefix()[7] == 'o'
                    && session_prefix()[8] == 'n' && session_prefix()[9] == '=');
            };
        }
        None
    }
}

/// Extract the session token from a cookie header: the value of the first
/// space-trimmed `__session=` segment, if any.
pub fn extract_session_token(cookie_header: &str) -> (r: Option<String>)
    ensures
        match r {
            Some(t) => session_from(cookie_header@) == Some(t@),
            None => session_from(cookie_header@) is None,
        },
{
    let n = cookie_header.unicode_len();
    let mut start: usize = 0;
    let mut i: usize = 0;
    proof {
        assert(cookie_header@.skip(0) =~= cookie_header@);
        assert(cookie_header@.subrange(0, 0) =~= Seq::<char>::empty());
    }
    while i < n
        invariant
            start <= i <= n,
            n == cookie_header@.len(),
            session_from(cookie_header@) == session_scan(
                cookie_header@.skip(i as int),
                cookie_header@.subrange(start as int, i as int),
            ),
        decreases n - i,
    {
        let c = cookie_header.get_char(i);
        if c == ';' {
            proof {
                assert(cookie_header@.skip(i as int)[0] == ';');
                assert(cookie_header@.skip(i as int).drop_first() =~= cookie_header@.skip(
                    i as int + 1,
                ));
            }
            match check_segment(cookie_header, start, i) {
                Some(v) => {
                    return Some(v);
                },
                None => (),
            }
            start = i + 1;
            i = i + 1;
            proof {
                assert(cookie_header@.subrange(start as int, i as int) =~= Seq::<char>::empty());
            }
        } else {
            proof {
                assert(cookie_header@.skip(i as int)[0] == cookie_header@[i as int]);
                assert(cookie_header@.skip(i as int).drop_first() =~= cookie_header@.skip(
                    i as int + 1,
                ));
                assert(cookie_header@.subrange(start as int, i as int).push(
                    cookie_header@[i as int],
                ) =~= cookie_header@.subrange(start as int, i as int + 1));
            }
            i = i + 1;
        }
    }
    proof {
        assert(cookie_header@.skip(n as int).len() == 0);
    }
    check_segment(cookie_header, start, n)
}

/// Extract the token from a bearer authorization header, if it has the
/// `Bearer ` form.
pub fn extract_bearer_token(auth_header: &str) -> (r: Option<String>)
    ensures
        match r {
            Some(t) => bearer_from(auth_header@) == Some(t@),
            None => bearer_from(auth_header@) is None,
        },
{
    let n = auth_header.unicode_len();
    if n < 7 {
        return None;
    }
    let ok = auth_header.get_char(0) == 'B' && auth_header.get_char(1) == 'e'
        && auth_header.get_char(2) == 'a' && auth_header.get_char(3) == 'r'
        && auth_header.get_char(4) == 'e' && auth_header.get_char(5) == 'r'
        && auth_header.get_char(6) == ' ';
    if ok {
        let t = auth_header.substring_char(7, n).to_owned();
        proof {
            assert(auth_header@.take(7) =~= bearer_prefix());
            assert(auth_header@.skip(7) =~= auth_header@.subrange(7, n as int));
        }
        Some(t)
    } else {
        proof {
            assert(auth_header@.take(7) != bearer_prefix()) by {
                assert(forall|i: int| 0 <= i < 7 ==> auth_header@.take(7)[i] == auth_header@[i]);
                assert(bearer_prefix()[0] == 'B' && bearer_prefix()[1] == 'e' && bearer_prefix()[2]
                    == 'a' && bearer_prefix()[3] == 'r' && bearer_prefix()[4] == 'e'
                    && bearer_prefix()[5] == 'r' && bearer_prefix()[6] == ' ');
            };
        }
        None
    }
}

/// The token of a request: the session cookie when the cookie header
/// carries one, otherwise a bearer token from the authorization header.
pub fn extract_request_token(cookie_header: Option<&str>, auth_header: Option<&str>) -> (r: Option<
    String,
>)
    ensures
        match r {
            Some(t) => (cookie_header matches Some(ch) && session_from(ch@) == Some(t@)) || ((
            cookie_header matches Some(ch) ==> session_from(ch@) is None) && (auth_header matches Some(
                ah,
            ) && bearer_from(ah@) == Some(t@))),
            None => (cookie_header matches Some(ch) ==> session_from(ch@) is None) && (auth_header
                matches Some(ah) ==> bearer_from(ah@) is None),
        },
{
    if let Some(ch) = cookie_header {
        if let Some(t) = extract_session_token(ch) {
            return Some(t);
        }
    }
    if let Some(ah) = auth_header {
        if let Some(t) = extract_bearer_token(ah) {
            return Some(t);
        }
    }
    None
}

} // verus!
