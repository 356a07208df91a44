//! Exact decimal numbers and the numeric-field grammar.
//!
//! NMEA 0183 transmits physical quantities as plain decimal text such as
//! `30.0615`, `-2.5` or `1018`.  A field value is kept exactly as it was
//! transmitted: an optional sign, the digits with the point removed (the
//! mantissa) and the number of fractional digits (the scale).  A field is
//! lexically valid when it consists of an optional leading `+` or `-`, at
//! least one decimal digit, and at most one `.` among the digits.

use vstd::prelude::*;

use crate::scan::{first_at, lemma_first_at_bounds, lemma_first_at_is};

verus! {

/// A decimal number kept exactly: the represented value is
/// `mantissa / 10^scale`, negated when `negative` holds.
///
/// `-2.50` is kept as `negative: true, mantissa: 250, scale: 2`.  Trailing
/// zeros and the sign of zero are preserved, so the representation records
/// the field text's numeric content without rounding.
#[derive(Clone, Copy, Debug, PartialEq, Eq, Structural)]
pub struct Decimal {
    /// True when the field carried a leading minus sign.
    pub negative: bool,
    /// The field's digits with the decimal point removed.
    pub mantissa: u64,
    /// How many of the mantissa's digits lay behind the decimal point.
    pub scale: usize,
}

/// A decimal digit `0` through `9`.
pub open spec fn is_digit(c: char) -> bool {
    ('0' as int) <= (c as int) && (c as int) <= ('9' as int)
}

/// The numeric value of a digit character.
pub open spec fn digit_val(c: char) -> int {
    (c as int) - ('0' as int)
}

/// Every character of `s` is a decimal digit.
pub open spec fn all_digits(s: Seq<char>) -> bool {
    forall|i: int| 0 <= i < s.len() ==> is_digit(s[i])
}

/// The value of a digit string read in base 10; `0` for the empty string.
pub open spec fn digits_val(s: Seq<char>) -> int
    decreases s.len(),
{
    if s.len() == 0 {
        0
    } else {
        digits_val(s.drop_last()) * 10 + digit_val(s.last())
    }
}

/// The sentence text of the number without its optional leading sign.
pub open spec fn body_of(s: Seq<char>) -> Seq<char> {
    if s.len() > 0 && (s[0] == '+' || s[0] == '-') {
        s.drop_first()
    } else {
        s
    }
}

/// The field carries a leading minus sign.
pub open spec fn sign_negative(s: Seq<char>) -> bool {
    s.len() > 0 && s[0] == '-'
}

/// The digits of a sign-free number body, with the first `.` removed.
/// When the body is malformed this still denotes a sequence, but then it
/// contains a non-digit and `valid_body` rejects it.
pub open spec fn body_digits(t: Seq<char>) -> Seq<char> {
    let k = first_at(t, '.');
    if k == t.len() {
        t
    } else {
        t.take(k) + t.skip(k + 1)
    }
}

/// How many digits of a sign-free number body follow the `.`; zero when
/// there is no point.
pub open spec fn body_scale(t: Seq<char>) -> int {
    let k = first_at(t, '.');
    if k == t.len() {
        0
    } else {
        t.len() - k - 1
    }
}

/// A sign-free number body is well formed: removing the first `.` leaves
/// nothing but digits (so at most one point occurs), and at least one
/// digit is present.
pub open spec fn valid_body(t: Seq<char>) -> bool {
    all_digits(body_digits(t)) && body_digits(t).len() >= 1
}

/// What parsing a numeric field returns: its exact decimal value, or
/// nothing when the text is not a valid number or its digits exceed what a
/// `Decimal` can carry.
pub open spec fn spec_parse_decimal(s: Seq<char>) -> Option<Decimal> {
    let b = body_of(s);
    if valid_body(b) && digits_val(body_digits(b)) <= u64::MAX as int && body_scale(b)
        <= usize::MAX as int {
        Some(
            Decimal {
                negative: sign_negative(s),
                mantissa: digits_val(body_digits(b)) as u64,
                scale: body_scale(b) as usize,
            },
        )
    } else {
        None
    }
}

/// A digit string's value is never negative.
pub proof fn lemma_digits_val_nonneg(s: Seq<char>)
    requires
        all_digits(s),
    ensures
        digits_val(s) >= 0,
    decreases s.len(),
{
    if s.len() > 0 {
        assert(all_digits(s.drop_last())) by {
            assert forall|i: int| 0 <= i < s.drop_last().len() implies is_digit(
                s.drop_last()[i],
            ) by {
                assert(s.drop_last()[i] == s[i]);
            }
        }
        lemma_digits_val_nonneg(s.drop_last());
        assert(is_digit(s.last()));
    }
}

/// Appending a digit multiplies the value by ten and adds the digit.
pub proof fn lemma_digits_val_push(s: Seq<char>, c: char)
    ensures
        digits_val(s.push(c)) == digits_val(s) * 10 + digit_val(c),
{
    assert(s.push(c).drop_last() =~= s);
    assert(s.push(c).last() == c);
}

/// A prefix of a digit string is worth no more than the whole string.
pub proof fn lemma_digits_val_take_le(s: Seq<char>, p: int)
    requires
        all_digits(s),
        0 <= p <= s.len(),
    ensures
        0 <= digits_val(s.take(p)) <= digits_val(s),
    decreases s.len(),
{
    if p == s.len() {
        assert(s.take(p) =~= s);
        lemma_digits_val_nonneg(s);
    } else {
        assert(all_digits(s.drop_last())) by {
            assert forall|i: int| 0 <= i < s.drop_last().len() implies is_digit(
                s.drop_last()[i],
            ) by {
                assert(s.drop_last()[i] == s[i]);
            }
        }
        assert(s.take(p) =~= s.drop_last().take(p));
        lemma_digits_val_take_le(s.drop_last(), p);
        lemma_digits_val_nonneg(s.drop_last());
        assert(is_digit(s.last()));
        assert(digits_val(s) == digits_val(s.drop_last()) * 10 + digit_val(s.last()));
    }
}

/// A body whose first `p` characters hold no point and whose `p`-th
/// character is neither a digit nor a point is not a valid number body.
proof fn lemma_invalid_char_before_dot(b: Seq<char>, p: int)
    requires
        0 <= p < b.len(),
        first_at(b.take(p), '.') == p,
        !is_digit(b[p]),
        b[p] != '.',
    ensures
        !valid_body(b),
{
    let kb = first_at(b, '.');
    lemma_first_at_bounds(b, '.');
    lemma_first_at_bounds(b.take(p), '.');
    if kb < b.len() && kb <= p {
        if kb < p {
            assert(b.take(p)[kb] == b[kb]);
            assert(b.take(p)[kb] != '.');
            assert(b[kb] == '.');
        } else {
            assert(b[p] == '.');
        }
    }
    if kb == b.len() {
        assert(body_digits(b)[p] == b[p]);
        assert(!all_digits(body_digits(b)));
    } else {
        assert(kb >= p + 1);
        assert(body_digits(b)[p] == b.take(kb)[p]);
        assert(body_digits(b)[p] == b[p]);
        assert(!all_digits(body_digits(b)));
    }
}

/// A body whose point sits at `k` and whose later character at `p` is not
/// a digit (a second point included) is not a valid number body.
proof fn lemma_invalid_char_after_dot(b: Seq<char>, p: int, k: int)
    requires
        0 <= k < p < b.len(),
        first_at(b.take(p), '.') == k,
        !is_digit(b[p]),
    ensures
        !valid_body(b),
{
    lemma_first_at_bounds(b.take(p), '.');
    assert forall|j: int| 0 <= j < k implies b[j] != '.' by {
        assert(b.take(p)[j] != '.');
    }
    assert(b[k] == '.') by {
        assert(b.take(p)[k] == '.');
    }
    lemma_first_at_is(b, '.', k);
    let w = body_digits(b);
    assert(w[k + (p - k - 1)] == b.skip(k + 1)[p - k - 1]);
    assert(w[p - 1] == b[p]);
    assert(!all_digits(w));
}

/// When the digits already read, extended by the digit at `p`, exceed
/// `u64::MAX`, a valid body's full digit string exceeds it as well.
proof fn lemma_overflow(b: Seq<char>, p: int)
    requires
        0 <= p < b.len(),
        is_digit(b[p]),
        first_at(b.take(p), '.') <= p,
        all_digits(body_digits(b.take(p))),
        digits_val(body_digits(b.take(p))) * 10 + digit_val(b[p]) > u64::MAX as int,
        valid_body(b),
    ensures
        digits_val(body_digits(b)) > u64::MAX as int,
{
    let t = b.take(p);
    let k = first_at(t, '.');
    let kb = first_at(b, '.');
    let w = body_digits(b);
    lemma_first_at_bounds(t, '.');
    lemma_first_at_bounds(b, '.');
    if k == p {
        // no point among the first p characters
        if kb < b.len() && kb <= p {
            if kb < p {
                assert(t[kb] == b[kb]);
                assert(t[kb] != '.');
                assert(b[kb] == '.');
            } else {
                assert(b[p] == '.');
                assert(!is_digit('.'));
            }
        }
        assert(body_digits(t) =~= t);
        assert(w.take(p + 1) =~= b.take(p + 1)) by {
            if kb == b.len() {
                assert(w =~= b);
            } else {
                assert(kb >= p + 1);
                assert forall|j: int| 0 <= j < p + 1 implies w[j] == b[j] by {
                    assert(w[j] == b.take(kb)[j]);
                }
            }
        }
        assert(b.take(p + 1) =~= t.push(b[p]));
        lemma_digits_val_push(t, b[p]);
        lemma_digits_val_take_le(w, p + 1);
    } else {
        // the point sits at k < p
        assert forall|j: int| 0 <= j < k implies b[j] != '.' by {
            assert(t[j] != '.');
        }
        assert(b[k] == '.') by {
            assert(t[k] == '.');
        }
        lemma_first_at_is(b, '.', k);
        assert(body_digits(t) =~= b.take(k) + b.skip(k + 1).take(p - k - 1)) by {
            assert(t.take(k) =~= b.take(k));
            assert(t.skip(k + 1) =~= b.skip(k + 1).take(p - k - 1));
        }
        assert(w.take(p) =~= body_digits(t).push(b[p])) by {
            assert forall|j: int| 0 <= j < p implies w.take(p)[j] == body_digits(t).push(
                b[p],
            )[j] by {
                if j < k {
                    assert(w[j] == b.take(k)[j]);
                } else {
                    assert(w[j] == b.skip(k + 1)[j - k]);
                    assert(w[j] == b[j + 1]);
                    if j < p - 1 {
                        assert(body_digits(t).push(b[p])[j] == b.skip(k + 1).take(p - k - 1)[j - k]);
                    }
                }
            }
        }
        lemma_digits_val_push(body_digits(t), b[p]);
        lemma_digits_val_take_le(w, p);
    }
}

/// Parses a numeric field: an optional sign, digits, at most one point.
/// Returns the exact decimal value, or `None` when the text is not a valid
/// number or its digits exceed what a `Decimal` can carry.
pub fn parse_decimal(s: &str) -> (r: Option<Decimal>)
    ensures
        r == spec_parse_decimal(s@),
{
    let n = s.unicode_len();
    let mut i: usize = 0;
    let mut negative = false;
    if n > 0 {
        let c0 = s.get_char(0);
        if c0 == '+' || c0 == '-' {
            negative = c0 == '-';
            i = 1;
        }
    }
    let body_start = i;
    let ghost b = s@.skip(body_start as int);
    proof {
        if body_start == 1 {
            assert(s@.drop_first() =~= s@.skip(1));
        }
        assert(body_of(s@) == b);
        assert(sign_negative(s@) == negative);
        assert(b.take(0) =~= Seq::<char>::empty());
    }
    let mut mantissa: u64 = 0;
    let mut scale: usize = 0;
    let mut digits: usize = 0;
    let mut seen_dot = false;
    while i < n
        invariant
            n == s@.len(),
            body_start <= i <= n,
            b == s@.skip(body_start as int),
            b.len() == n - body_start,
            body_of(s@) == b,
            sign_negative(s@) == negative,
            ({
                let p = i - body_start;
                let processed = b.take(p as int);
                let k = first_at(processed, '.');
                &&& (seen_dot <==> k < p)
                &&& (!seen_dot ==> k == p)
                &&& all_digits(body_digits(processed))
                &&& mantissa as int == digits_val(body_digits(processed))
                &&& digits as int == body_digits(processed).len()
                &&& scale as int == body_scale(processed)
                &&& scale <= p
                &&& digits <= p
            }),
        decreases n - i,
    {
        let ghost p = (i - body_start) as int;
        let ghost processed = b.take(p);
        let ghost k = first_at(processed, '.');
        proof {
            lemma_first_at_bounds(processed, '.');
            assert(b[p] == s@[i as int]);
            assert(b.take(p + 1) =~= processed.push(b[p]));
        }
        let c = s.get_char(i);
        let u = c as u32;
        if c == '.' {
            if seen_dot {
                proof {
                    lemma_invalid_char_after_dot(b, p, k);
                }
                return None;
            }
            proof {
                let processed2 = b.take(p + 1);
                assert forall|j: int| 0 <= j < p implies processed2[j] != '.' by {
                    assert(processed2[j] == processed[j]);
                }
                lemma_first_at_is(processed2, '.', p);
                assert(processed2.take(p) =~= processed);
                assert(processed2.skip(p + 1) =~= Seq::<char>::empty());
                assert(body_digits(processed2) =~= body_digits(processed));
            }
            seen_dot = true;
        } else if 48 <= u && u <= 57 {
            proof {
                assert(is_digit(b[p]));
            }
            let d = (u - 48) as u64;
            let wide: u128 = (mantissa as u128) * 10 + (d as u128);
            if wide > (u64::MAX as u128) {
                proof {
                    assert(digit_val(b[p]) == d as int);
                    if valid_body(b) {
                        lemma_overflow(b, p);
                    }
                }
                return None;
            }
            mantissa = wide as u64;
            digits = digits + 1;
            proof {
                let processed2 = b.take(p + 1);
                if !seen_dot {
                    assert forall|j: int| 0 <= j < p + 1 implies processed2[j] != '.' by {
                        if j < p {
                            assert(processed2[j] == processed[j]);
                        }
                    }
                    lemma_first_at_is(processed2, '.', p + 1);
                    assert(body_digits(processed) =~= processed);
                    assert(body_digits(processed2) =~= processed.push(b[p]));
                    lemma_digits_val_push(processed, b[p]);
                } else {
                    assert forall|j: int| 0 <= j < k implies processed2[j] != '.' by {
                        assert(processed2[j] == processed[j]);
                    }
                    assert(processed2[k] == processed[k]);
                    lemma_first_at_is(processed2, '.', k);
                    assert(processed2.take(k) =~= processed.take(k));
                    assert(processed2.skip(k + 1) =~= processed.skip(k + 1).push(b[p]));
                    assert(body_digits(processed2) =~= body_digits(processed).push(b[p]));
                    lemma_digits_val_push(body_digits(processed), b[p]);
                }
                assert(digit_val(b[p]) == d as int);
            }
            if seen_dot {
                scale = scale + 1;
            }
        } else {
            proof {
                assert(!is_digit(b[p]));
                if seen_dot {
                    lemma_invalid_char_after_dot(b, p, k);
                } else {
                    lemma_invalid_char_before_dot(b, p);
                }
            }
            return None;
        }
        i = i + 1;
    }
    proof {
        assert(b.take((n - body_start) as int) =~= b);
    }
    if digits == 0 {
        return None;
    }
    Some(Decimal { negative, mantissa, scale })
}

} // verus!
