//! Decimal numerals over bytes: formatting an integer as ASCII digits and
//! reading it back, with the two proved inverse to each other.  The PIN
//! verification token carries its fields in this form.

use vstd::prelude::*;

verus! {

/// An ASCII decimal digit.
pub open spec fn is_digit(b: u8) -> bool {
    48 <= b <= 57
}

/// Every byte of the sequence is an ASCII decimal digit.
pub open spec fn all_digits(s: Seq<u8>) -> bool {
    forall|i: int| 0 <= i < s.len() ==> is_digit(#[trigger] s[i])
}

/// The value a sequence of digit bytes denotes, most significant first.
pub open spec fn dec_val(s: Seq<u8>) -> int
    decreases s.len(),
{
    if s.len() == 0 {
        0
    } else {
        dec_val(s.drop_last()) * 10 + s.last() - 48
    }
}

/// The canonical decimal numeral of a natural number: no sign, no leading
/// zero (except for the numeral of zero itself).
pub open spec fn dec_digits(n: nat) -> Seq<u8>
    decreases n,
{
    if n < 10 {
        seq![(n + 48) as u8]
    } else {
        dec_digits(n / 10) + seq![((n % 10) + 48) as u8]
    }
}

/// The canonical numeral of an integer: a minus sign before the numeral
/// of the magnitude when negative.
pub open spec fn dec_int(v: int) -> Seq<u8> {
    if v < 0 {
        seq![45u8] + dec_digits((-v) as nat)
    } else {
        dec_digits(v as nat)
    }
}

/// The integer a byte sequence denotes when it is a well-formed decimal
/// numeral (digits, optionally after a minus sign), and nothing otherwise.
pub open spec fn parsed_int(s: Seq<u8>) -> Option<int> {
    if s.len() > 0 && s[0] == 45 {
        if s.len() > 1 && all_digits(s.skip(1)) {
            Some(-dec_val(s.skip(1)))
        } else {
            None
        }
    } else if s.len() > 0 && all_digits(s) {
        Some(dec_val(s))
    } else {
        None
    }
}

/// The canonical numeral of `n` consists of digits and denotes `n`.
pub proof fn lemma_dec_digits_val(n: nat)
    ensures
        all_digits(dec_digits(n)),
        dec_digits(n).len() >= 1,
        dec_val(dec_digits(n)) == n,
    decreases n,
{
    if n < 10 {
        let one = seq![(n + 48) as u8];
        assert(one.drop_last() =~= Seq::<u8>::empty());
        assert(one.last() == (n + 48) as u8);
        assert(dec_val(one) == dec_val(Seq::<u8>::empty()) * 10 + one.last() - 48);
        assert(dec_val(one) == n);
    } else {
        lemma_dec_digits_val(n / 10);
        let pre = dec_digits(n / 10);
        let whole = pre + seq![((n % 10) + 48) as u8];
        assert(whole.drop_last() =~= pre);
        assert(whole.last() == ((n % 10) + 48) as u8);
        assert(dec_val(whole) == dec_val(pre) * 10 + n % 10);
        assert(dec_val(pre) == n / 10);
        assert((n / 10) * 10 + n % 10 == n) by (nonlinear_arith);
        assert(all_digits(whole)) by {
            assert(forall|i: int|
                0 <= i < pre.len() ==> #[trigger] whole[i] == pre[i]);
        };
    }
}

/// The canonical numeral of an integer parses back to that integer.
pub proof fn lemma_dec_int_round_trip(v: int)
    ensures
        parsed_int(dec_int(v)) == Some(v),
    decreases (if v < 0 {
        1int
    } else {
        0int
    }),
{
    if v < 0 {
        lemma_dec_digits_val((-v) as nat);
        let s = seq![45u8] + dec_digits((-v) as nat);
        assert(s.skip(1) =~= dec_digits((-v) as nat));
        assert(dec_digits((-v) as nat)[0] != 45);
        assert(s[0] == 45);
    } else {
        lemma_dec_digits_val(v as nat);
        let s = dec_digits(v as nat);
        assert(is_digit(s[0]));
    }
}

/// A digit sequence denotes a value no smaller than any of its prefixes
/// (and never a negative one).
pub proof fn lemma_dec_val_prefix(s: Seq<u8>, j: int)
    requires
        all_digits(s),
        0 <= j <= s.len(),
    ensures
        0 <= dec_val(s.take(j)) <= dec_val(s),
    decreases s.len() - j,
{
    if j == s.len() {
        assert(s.take(j) =~= s);
        lemma_dec_val_nonneg(s);
    } else {
        lemma_dec_val_prefix(s, j + 1);
        assert(s.take(j + 1).drop_last() =~= s.take(j));
        assert(s.take(j + 1).last() == s[j]);
        lemma_dec_val_nonneg(s.take(j));
    }
}

/// Digit sequences denote non-negative values.
pub proof fn lemma_dec_val_nonneg(s: Seq<u8>)
    requires
        all_digits(s),
    ensures
        dec_val(s) >= 0,
    decreases s.len(),
{
    if s.len() > 0 {
        assert(all_digits(s.drop_last())) by {
            assert(forall|i: int|
                0 <= i < s.len() - 1 ==> #[trigger] s.drop_last()[i] == s[i]);
        };
        lemma_dec_val_nonneg(s.drop_last());
    }
}

/// Format a number as its canonical decimal numeral.
pub fn format_u64(n: u64) -> (out: Vec<u8>)
    ensures
        out@ == dec_digits(n as nat),
{
    let mut tmp: Vec<u8> = Vec::new();
    let mut cur: u64 = n;
    if cur == 0 {
        let mut out: Vec<u8> = Vec::new();
        out.push(48);
        proof {
            assert(out@ =~= dec_digits(0));
        }
        return out;
    }
    while cur > 0
        invariant
            cur >= 0,
            dec_digits(n as nat) == if cur > 0 {
                dec_digits(cur as nat) + tmp@.reverse()
            } else {
                tmp@.reverse()
            },
        decreases cur,
    {
        let d: u8 = (cur % 10) as u8 + 48;
        tmp.push(d);
        proof {
            assert(tmp@.reverse() =~= seq![d] + tmp@.drop_last().reverse());
            if cur >= 10 {
                assert(dec_digits(cur as nat) == dec_digits((cur as nat) / 10) + seq![d]);
                assert(dec_digits((cur / 10) as nat) + tmp@.reverse() =~= dec_digits(
                    cur as nat,
                ) + tmp@.drop_last().reverse());
            } else {
                assert(dec_digits(cur as nat) =~= seq![d]);
                assert(tmp@.reverse() =~= dec_digits(cur as nat) + tmp@.drop_last().reverse());
            }
        }
        cur = cur / 10;
    }
    let mut out: Vec<u8> = Vec::new();
    let mut i: usize = tmp.len();
    while i > 0
        invariant
            i <= tmp@.len(),
            out@ == tmp@.skip(i as int).reverse(),
        decreases i,
    {
        i = i - 1;
        out.push(tmp[i]);
        proof {
            assert(tmp@.skip(i as int) =~= seq![tmp@[i as int]] + tmp@.skip(i as int + 1));
            assert(tmp@.skip(i as int).reverse() =~= tmp@.skip(i as int + 1).reverse().push(
                tmp@[i as int],
            ));
        }
    }
    proof {
        assert(tmp@.skip(0) =~= tmp@);
    }
    out
}

/// Format a signed number as its canonical decimal numeral.
pub fn format_i64(v: i64) -> (out: Vec<u8>)
    ensures
        out@ == dec_int(v as int),
{
    if v >= 0 {
        format_u64(v as u64)
    } else {
        let wide: i128 = v as i128;
        let mag: u64 = (-wide) as u64;
        let digits = format_u64(mag);
        let mut out: Vec<u8> = Vec::new();
        out.push(45);
        let mut i: usize = 0;
        while i < digits.len()
            invariant
                i <= digits@.len(),
                out@ == seq![45u8] + digits@.take(i as int),
            decreases digits@.len() - i,
        {
            out.push(digits[i]);
            proof {
                assert(out@ =~= seq![45u8] + digits@.take(i as int + 1));
            }
            i = i + 1;
        }
        proof {
            assert(digits@.take(digits@.len() as int) =~= digits@);
        }
        out
    }
}

/// Read an unsigned decimal numeral.  Returns the denoted value exactly
/// when the bytes are one or more digits whose value fits in `u64`.
pub fn parse_u64_dec(s: &Vec<u8>) -> (r: Option<u64>)
    ensures
        match r {
            Some(n) => all_digits(s@) && s@.len() > 0 && n == dec_val(s@),
            None => !(all_digits(s@) && s@.len() > 0 && dec_val(s@) <= u64::MAX),
        },
{
    if s.len() == 0 {
        return None;
    }
    let mut acc: u64 = 0;
    let mut i: usize = 0;
    while i < s.len()
        invariant
            i <= s@.len(),
            all_digits(s@.take(i as int)),
            acc == dec_val(s@.take(i as int)),
        decreases s@.len() - i,
    {
        let b = s[i];
        if b < 48 || b > 57 {
            proof {
                assert(!is_digit(s@[i as int]));
            }
            return None;
        }
        let d: u64 = (b - 48) as u64;
        if acc > (u64::MAX - d) / 10 {
            proof {
                assert(s@.take(i as int + 1).drop_last() =~= s@.take(i as int));
                assert(s@.take(i as int + 1).last() == s@[i as int]);
                assert(dec_val(s@.take(i as int + 1)) == acc * 10 + d);
                assert(acc * 10 + d > u64::MAX) by (nonlinear_arith)
                    requires
                        acc > (u64::MAX - d) / 10,
                        0 <= d <= 9,
                        acc >= 0,
                ;
                if all_digits(s@) && dec_val(s@) <= u64::MAX {
                    lemma_dec_val_prefix(s@, i as int + 1);
                }
            }
            return None;
        }
        proof {
            assert(acc * 10 + d <= u64::MAX) by (nonlinear_arith)
                requires
                    acc <= (u64::MAX - d) / 10,
                    0 <= d <= 9,
                    acc >= 0,
            ;
            assert(s@.take(i as int + 1).drop_last() =~= s@.take(i as int));
            assert(s@.take(i as int + 1).last() == s@[i as int]);
        }
        acc = acc * 10 + d;
        i = i + 1;
    }
    proof {
        assert(s@.take(s@.len() as int) =~= s@);
    }
    Some(acc)
}

/// Read a signed decimal numeral.  Returns the denoted value exactly when
/// the bytes are a well-formed numeral whose value fits in `i64`.
pub fn parse_i64_dec(s: &Vec<u8>) -> (r: Option<i64>)
    ensures
        match r {
            Some(v) => parsed_int(s@) == Some(v as int),
            None => !(parsed_int(s@) matches Some(k) && i64::MIN <= k <= i64::MAX),
        },
{
    if s.len() == 0 {
        return None;
    }
    if s[0] == 45 {
        let mut digits: Vec<u8> = Vec::new();
        let mut i: usize = 1;
        while i < s.len()
            invariant
                1 <= i <= s@.len(),
                digits@ == s@.skip(1).take(i as int - 1),
            decreases s@.len() - i,
        {
            digits.push(s[i]);
            proof {
                assert(digits@ =~= s@.skip(1).take(i as int));
            }
            i = i + 1;
        }
        proof {
            assert(s@.skip(1).take(s@.len() - 1) =~= s@.skip(1));
        }
        if digits.len() == 0 {
            return None;
        }
        match parse_u64_dec(&digits) {
            Some(mag) => {
                proof {
                    lemma_dec_val_nonneg(s@.skip(1));
                }
                if mag <= 9223372036854775808u64 {
                    let wide: i128 = -(mag as i128);
                    Some(wide as i64)
                } else {
                    None
                }
            },
            None => {
                proof {
                    if parsed_int(s@) matches Some(k) && i64::MIN <= k <= i64::MAX {
                        lemma_dec_val_nonneg(s@.skip(1));
                        assert(dec_val(s@.skip(1)) <= u64::MAX);
                    }
                }
                None
            },
        }
    } else {
        match parse_u64_dec(s) {
            Some(mag) => {
                if mag <= i64::MAX as u64 {
                    Some(mag as i64)
                } else {
                    None
                }
            },
            None => {
                proof {
                    if parsed_int(s@) matches Some(k) && i64::MIN <= k <= i64::MAX {
                        lemma_dec_val_nonneg(s@);
                    }
                }
                None
            },
        }
    }
}

/// Read a signed decimal numeral whose value fits in `i32`.
pub fn parse_i32_dec(s: &Vec<u8>) -> (r: Option<i32>)
    ensures
        match r {
            Some(v) => parsed_int(s@) == Some(v as int),
            None => !(parsed_int(s@) matches Some(k) && i32::MIN <= k <= i32::MAX),
        },
{
    match parse_i64_dec(s) {
        Some(v) => {
            if v >= i32::MIN as i64 && v <= i32::MAX as i64 {
                Some(v as i32)
            } else {
                None
            }
        },
        None => None,
    }
}

} // verus!
