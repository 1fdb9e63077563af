//! Decimal-string transport of 128-bit integers.
//!
//! Common client runtimes have no native 128-bit integers, so 128-bit
//! values cross the binary boundary as decimal strings and are rebuilt
//! into big-integer values on the client side. Encoding here is exact:
//! the string's decimal value is the encoded integer, so the round trip
//! loses no precision.

use vstd::prelude::*;
use crate::strutil::push_char;

verus! {

/// Whether a character is a decimal digit.
pub open spec fn is_digit(c: char) -> bool {
    '0' <= c && c <= '9'
}

/// The value of one decimal digit.
pub open spec fn digit_val(c: char) -> nat {
    (c as nat - '0' as nat) as nat
}

/// Whether every character of a string is a decimal digit.
pub open spec fn is_digit_string(s: Seq<char>) -> bool {
    forall|i: int| 0 <= i < s.len() ==> is_digit(#[trigger] s[i])
}

/// The decimal value of a digit string, most significant digit first.
pub open spec fn dec_val(s: Seq<char>) -> nat
    decreases s.len(),
{
    if s.len() == 0 {
        0
    } else {
        dec_val(s.drop_last()) * 10 + digit_val(s.last())
    }
}

/// A canonical decimal form: nonempty, all digits, and no leading zero
/// unless the value itself is zero.
pub open spec fn is_canonical_decimal(s: Seq<char>) -> bool {
    &&& s.len() >= 1
    &&& is_digit_string(s)
    &&& s.len() > 1 ==> s[0] != '0'
}

/// Ten to the given power.
pub open spec fn pow10(n: nat) -> nat
    decreases n,
{
    if n == 0 {
        1
    } else {
        10 * pow10((n - 1) as nat)
    }
}

/// Powers of ten are positive.
pub proof fn lemma_pow10_pos(n: nat)
    ensures
        pow10(n) >= 1,
    decreases n,
{
    if n > 0 {
        lemma_pow10_pos((n - 1) as nat);
    }
}

/// Prepending a digit adds its value at the current magnitude.
pub proof fn lemma_dec_val_prepend(c: char, s: Seq<char>)
    ensures
        dec_val(seq![c] + s) == digit_val(c) * pow10(s.len()) + dec_val(s),
    decreases s.len(),
{
    if s.len() == 0 {
        assert(seq![c] + s =~= seq![c]);
        assert(seq![c].drop_last() =~= Seq::<char>::empty());
        assert(dec_val(Seq::<char>::empty()) == 0);
        assert(dec_val(seq![c]) == digit_val(c));
        assert(pow10(0) == 1);
    } else {
        let t = seq![c] + s;
        assert(t.drop_last() =~= seq![c] + s.drop_last());
        assert(t.last() == s.last());
        lemma_dec_val_prepend(c, s.drop_last());
        let d = digit_val(c);
        let p = pow10(s.drop_last().len());
        assert(dec_val(t) == (d * p + dec_val(s.drop_last())) * 10 + digit_val(s.last()));
        assert((d * p + dec_val(s.drop_last())) * 10 == d * p * 10 + dec_val(s.drop_last()) * 10)
            by (nonlinear_arith);
        assert(d * p * 10 == d * (p * 10)) by (nonlinear_arith);
        assert(pow10(s.len()) == 10 * pow10((s.len() - 1) as nat));
    }
}

/// The value of a digit string dominates the value of any of its prefixes
/// scaled up to full width.
pub proof fn lemma_dec_val_prefix_bound(s: Seq<char>, j: int)
    requires
        0 <= j <= s.len(),
    ensures
        dec_val(s) >= dec_val(s.take(j)) * pow10((s.len() - j) as nat),
    decreases s.len() - j,
{
    if j == s.len() {
        assert(s.take(j) =~= s);
        assert((s.len() - j) as nat == 0);
        assert(pow10(0) == 1);
        assert(dec_val(s) * 1 == dec_val(s)) by (nonlinear_arith);
    } else {
        lemma_dec_val_prefix_bound(s, j + 1);
        let a = dec_val(s.take(j));
        let b = dec_val(s.take(j + 1));
        assert(s.take(j + 1).drop_last() =~= s.take(j));
        assert(b == a * 10 + digit_val(s.take(j + 1).last()));
        let p = pow10((s.len() - j - 1) as nat);
        assert(dec_val(s) >= b * p);
        assert(b >= a * 10);
        lemma_pow10_pos((s.len() - j - 1) as nat);
        assert(b * p >= (a * 10) * p) by (nonlinear_arith)
            requires
                b >= a * 10,
                p >= 1,
        ;
        assert((a * 10) * p == a * (10 * p)) by (nonlinear_arith);
        assert(pow10((s.len() - j) as nat) == 10 * p);
        assert(a * (10 * p) == a * pow10((s.len() - j) as nat));
        assert(dec_val(s) >= a * pow10((s.len() - j) as nat));
    }
}

/// The digit character for one value below ten.
fn digit_char(d: u8) -> (r: char)
    requires
        d < 10,
    ensures
        is_digit(r),
        digit_val(r) == d,
{
    match d {
        0 => '0',
        1 => '1',
        2 => '2',
        3 => '3',
        4 => '4',
        5 => '5',
        6 => '6',
        7 => '7',
        8 => '8',
        _ => '9',
    }
}

/// Encodes an unsigned 128-bit value as its canonical decimal string.
pub fn u128_to_decimal(n: u128) -> (r: String)
    ensures
        is_canonical_decimal(r@),
        dec_val(r@) == n,
{
    let mut digits: Vec<char> = Vec::new();
    let mut rem: u128 = n;
    if rem == 0 {
        let mut s = String::new();
        push_char(&mut s, '0');
        proof {
            assert(s@ =~= seq!['0']);
            assert(seq!['0'].drop_last() =~= Seq::<char>::empty());
            assert(dec_val(Seq::<char>::empty()) == 0);
            assert(dec_val(s@) == digit_val('0'));
        }
        return s;
    }
    proof {
        assert(dec_val(digits@) == 0);
        assert(pow10(0) == 1);
        assert(rem * 1 == rem) by (nonlinear_arith);
    }
    while rem > 0
        invariant
            rem * pow10(digits@.len()) + dec_val(digits@) == n,
            is_digit_string(digits@),
            rem == 0 ==> digits@.len() > 0 && digits@[0] != '0',
        decreases rem,
    {
        let d: u8 = (rem % 10) as u8;
        let next: u128 = rem / 10;
        let c = digit_char(d);
        let ghost before = digits@;
        digits.insert(0, c);
        proof {
            assert(digits@ =~= seq![c] + before);
            lemma_dec_val_prepend(c, before);
            let p = pow10(before.len());
            assert(rem == 10 * next + d as nat) by (nonlinear_arith)
                requires
                    d == rem % 10,
                    next == rem / 10,
                ;
            assert(next * pow10(digits@.len()) + dec_val(digits@) == next * (10 * p) + (
            d as nat * p + dec_val(before)));
            assert(next * (10 * p) + d as nat * p == (10 * next + d as nat) * p)
                by (nonlinear_arith);
            assert((10 * next + d as nat) * p == rem * p);
            if next == 0 {
                assert(d > 0);
                assert(digits@[0] == c);
            }
        }
        rem = next;
    }
    proof {
        assert(rem * pow10(digits@.len()) == 0) by (nonlinear_arith)
            requires
                rem == 0,
        ;
        assert(dec_val(digits@) == n);
    }
    let mut s = String::new();
    let mut i: usize = 0;
    proof {
        assert(s@ =~= digits@.take(0));
    }
    while i < digits.len()
        invariant
            i <= digits@.len(),
            s@ == digits@.take(i as int),
            is_digit_string(digits@),
            digits@.len() >= 1,
            digits@.len() > 1 ==> digits@[0] != '0',
            dec_val(digits@) == n,
        decreases digits@.len() - i,
    {
        push_char(&mut s, digits[i]);
        proof {
            assert(digits@.take(i + 1) =~= digits@.take(i as int).push(digits@[i as int]));
        }
        i = i + 1;
    }
    proof {
        assert(digits@.take(digits@.len() as int) =~= digits@);
    }
    s
}

/// Reads one character as a decimal digit.
fn read_digit(c: char) -> (r: Option<u8>)
    ensures
        match r {
            Some(d) => is_digit(c) && d < 10 && d == digit_val(c),
            None => !is_digit(c),
        },
{
    if c >= '0' && c <= '9' {
        Some(((c as u32) - ('0' as u32)) as u8)
    } else {
        None
    }
}

/// Decodes a decimal string back into an unsigned 128-bit value.
///
/// Succeeds exactly on nonempty all-digit strings whose value fits in
/// 128 bits, and then returns exactly the string's decimal value; any
/// malformed or out-of-range input is refused.
pub fn u128_from_decimal(s: &str) -> (r: Option<u128>)
    ensures
        match r {
            Some(v) => s@.len() >= 1 && is_digit_string(s@) && dec_val(s@) == v,
            None => s@.len() == 0 || !is_digit_string(s@) || dec_val(s@) > u128::MAX,
        },
{
    let n = s.unicode_len();
    if n == 0 {
        return None;
    }
    let mut val: u128 = 0;
    let mut i: usize = 0;
    proof {
        assert(s@.take(0) =~= Seq::<char>::empty());
    }
    while i < n
        invariant
            n == s@.len(),
            i <= n,
            is_digit_string(s@.take(i as int)),
            val == dec_val(s@.take(i as int)),
        decreases n - i,
    {
        let c = s.get_char(i);
        let d = match read_digit(c) {
            Some(d) => d,
            None => {
                proof {
                    assert(s@[i as int] == c);
                    assert(!is_digit(s@[i as int]));
                }
                return None;
            },
        };
        proof {
            assert(s@.take(i + 1).drop_last() =~= s@.take(i as int));
            assert(s@.take(i + 1).last() == s@[i as int]);
        }
        let limit: u128 = u128::MAX / 10;
        let tail: u128 = u128::MAX % 10;
        if val > limit || (val == limit && d as u128 > tail) {
            proof {
                let j = i as int;
                assert(dec_val(s@.take(j + 1)) == val * 10 + d as nat);
                assert(val * 10 + d as nat > u128::MAX) by (nonlinear_arith)
                    requires
                        val > u128::MAX / 10 || (val == u128::MAX / 10 && d as nat > u128::MAX
                            % 10),
                        u128::MAX == u128::MAX / 10 * 10 + u128::MAX % 10,
                ;
                lemma_dec_val_prefix_bound(s@, j + 1);
                lemma_pow10_pos((s@.len() - j - 1) as nat);
                let b = dec_val(s@.take(j + 1));
                let p = pow10((s@.len() - j - 1) as nat);
                assert(b * p >= b * 1) by (nonlinear_arith)
                    requires
                        p >= 1,
                        b >= 0,
                ;
                assert(dec_val(s@) > u128::MAX);
            }
            return None;
        }
        proof {
            assert(val * 10 + d as nat <= u128::MAX) by (nonlinear_arith)
                requires
                    val <= u128::MAX / 10,
                    !(val > u128::MAX / 10 || (val == u128::MAX / 10 && d as nat > u128::MAX % 10)),
                    d < 10,
                    u128::MAX == u128::MAX / 10 * 10 + u128::MAX % 10,
            ;
        }
        val = val * 10 + d as u128;
        i = i + 1;
    }
    proof {
        assert(s@.take(n as int) =~= s@);
    }
    Some(val)
}

/// A well-formed signed decimal string: an optional leading minus sign,
/// then at least one digit.
pub open spec fn is_signed_decimal(s: Seq<char>) -> bool {
    if s.len() >= 1 && s[0] == '-' {
        s.len() >= 2 && is_digit_string(s.skip(1))
    } else {
        s.len() >= 1 && is_digit_string(s)
    }
}

/// The value of a signed decimal string.
pub open spec fn signed_dec_val(s: Seq<char>) -> int {
    if s.len() >= 1 && s[0] == '-' {
        -(dec_val(s.skip(1)) as int)
    } else {
        dec_val(s) as int
    }
}

/// A canonical signed decimal form: a canonical magnitude, and a minus
/// sign only on a strictly negative value.
pub open spec fn is_canonical_signed_decimal(s: Seq<char>) -> bool {
    if s.len() >= 1 && s[0] == '-' {
        is_canonical_decimal(s.skip(1)) && dec_val(s.skip(1)) > 0
    } else {
        is_canonical_decimal(s)
    }
}

/// Encodes a signed 128-bit value as its canonical decimal string: a
/// minus sign for a negative value, then the magnitude.
pub fn i128_to_decimal(n: i128) -> (r: String)
    ensures
        is_canonical_signed_decimal(r@),
        signed_dec_val(r@) == n,
{
    if n >= 0 {
        let r = u128_to_decimal(n as u128);
        proof {
            assert(is_digit(r@[0]));
            assert(r@[0] != '-');
        }
        r
    } else {
        let m: u128 = if n == i128::MIN {
            (i128::MAX as u128) + 1
        } else {
            (-n) as u128
        };
        let digits = u128_to_decimal(m);
        let mut r = String::new();
        push_char(&mut r, '-');
        r.append(digits.as_str());
        proof {
            assert(r@ =~= seq!['-'] + digits@);
            assert(r@.skip(1) =~= digits@);
            assert(m as int == -(n as int));
        }
        r
    }
}

/// Decodes a signed decimal string back into a signed 128-bit value.
///
/// Succeeds exactly on well-formed signed decimal strings whose value
/// fits in a signed 128-bit integer, and then returns exactly the
/// string's value; any malformed or out-of-range input is refused.
pub fn i128_from_decimal(s: &str) -> (r: Option<i128>)
    ensures
        match r {
            Some(v) => is_signed_decimal(s@) && signed_dec_val(s@) == v,
            None => !is_signed_decimal(s@) || signed_dec_val(s@) < i128::MIN || signed_dec_val(
                s@,
            ) > i128::MAX,
        },
{
    let n = s.unicode_len();
    if n >= 1 && s.get_char(0) == '-' {
        let rest = s.substring_char(1, n);
        proof {
            assert(rest@ =~= s@.skip(1));
        }
        match u128_from_decimal(rest) {
            None => None,
            Some(m) => {
                let lim: u128 = (i128::MAX as u128) + 1;
                if m > lim {
                    None
                } else if m == lim {
                    Some(i128::MIN)
                } else {
                    Some(-(m as i128))
                }
            },
        }
    } else {
        match u128_from_decimal(s) {
            None => None,
            Some(v) => {
                if v > (i128::MAX as u128) {
                    None
                } else {
                    Some(v as i128)
                }
            },
        }
    }
}

} // verus!
