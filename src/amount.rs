//! Decimal amounts written as text, read into whole cents.
//!
//! An amount is an optional sign followed by decimal digits with at most one
//! decimal point (`12`, `-4.25`, `+.5`, `3.`), with at least one digit. Its
//! value is rounded to the nearest cent, halves away from zero. Any other text,
//! or a value whose cents do not fit in an `i64`, is not an amount.
use vstd::prelude::*;
use vstd::string::*;

verus! {

/// The largest whole-unit part whose cents can still fit in an `i64`.
const WHOLE_LIMIT: u64 = 92233720368547758;

pub open spec fn is_digit(c: char) -> bool {
    '0' <= c && c <= '9'
}

pub open spec fn digit_val(c: char) -> int {
    c as int - '0' as int
}

pub open spec fn all_digits(s: Seq<char>) -> bool {
    forall|i: int| 0 <= i < s.len() ==> is_digit(#[trigger] s[i])
}

/// The number that a string of decimal digits denotes.
pub open spec fn digits_value(s: Seq<char>) -> int
    decreases s.len(),
{
    if s.len() == 0 {
        0
    } else {
        digits_value(s.drop_last()) * 10 + digit_val(s.last())
    }
}

/// How many decimal digits `s` starts with.
pub open spec fn leading_digits(s: Seq<char>) -> nat
    decreases s.len(),
{
    if s.len() > 0 && is_digit(s[0]) {
        1 + leading_digits(s.drop_first())
    } else {
        0
    }
}

pub open spec fn has_sign(s: Seq<char>) -> bool {
    s.len() > 0 && (s[0] == '+' || s[0] == '-')
}

pub open spec fn is_negative(s: Seq<char>) -> bool {
    s.len() > 0 && s[0] == '-'
}

/// The text after the sign, if any.
pub open spec fn unsigned_part(s: Seq<char>) -> Seq<char> {
    if has_sign(s) {
        s.drop_first()
    } else {
        s
    }
}

/// The digits before the decimal point.
pub open spec fn whole_digits(s: Seq<char>) -> Seq<char> {
    let u = unsigned_part(s);
    u.take(leading_digits(u) as int)
}

/// The digits after the decimal point (empty where there is none).
pub open spec fn fraction_digits(s: Seq<char>) -> Seq<char> {
    let u = unsigned_part(s);
    let k = leading_digits(u) as int;
    if k < u.len() {
        u.skip(k + 1)
    } else {
        Seq::empty()
    }
}

pub open spec fn is_decimal(s: Seq<char>) -> bool {
    let u = unsigned_part(s);
    let k = leading_digits(u) as int;
    &&& (k == u.len() || (u[k] == '.' && all_digits(u.skip(k + 1))))
    &&& whole_digits(s).len() + fraction_digits(s).len() > 0
}

/// The value of the `i`-th digit after the point, zero past the end.
pub open spec fn fraction_digit(f: Seq<char>, i: int) -> int {
    if i < f.len() {
        digit_val(f[i])
    } else {
        0
    }
}

/// The magnitude of a decimal in cents, rounded half away from zero: the
/// third digit after the point decides, the ones after it cannot change it.
pub open spec fn rounded_magnitude(s: Seq<char>) -> int {
    let f = fraction_digits(s);
    digits_value(whole_digits(s)) * 100 + fraction_digit(f, 0) * 10 + fraction_digit(f, 1) + if
    fraction_digit(f, 2) >= 5 {
        1int
    } else {
        0int
    }
}

pub open spec fn rounded_cents(s: Seq<char>) -> int {
    if is_negative(s) {
        -rounded_magnitude(s)
    } else {
        rounded_magnitude(s)
    }
}

/// The cents that a text denotes, or `None` where it is not an amount.
pub open spec fn parsed_cents(s: Seq<char>) -> Option<i64> {
    if is_decimal(s) && rounded_magnitude(s) <= i64::MAX {
        Some(rounded_cents(s) as i64)
    } else {
        None
    }
}

/// The stored amount: the cents of the text, zero where it is not an amount.
pub open spec fn amount_cents(s: Seq<char>) -> i64 {
    match parsed_cents(s) {
        Some(c) => c,
        None => 0,
    }
}

proof fn lemma_leading_digits(u: Seq<char>, k: int)
    requires
        0 <= k <= u.len(),
        forall|i: int| 0 <= i < k ==> is_digit(#[trigger] u[i]),
        k == u.len() || !is_digit(u[k]),
    ensures
        leading_digits(u) == k,
    decreases k,
{
    if k > 0 {
        let d = u.drop_first();
        assert forall|i: int| 0 <= i < k - 1 implies is_digit(#[trigger] d[i]) by {
            assert(d[i] == u[i + 1]);
        }
        lemma_leading_digits(d, k - 1);
    }
}

proof fn lemma_leading_digits_at_least(u: Seq<char>, k: int)
    requires
        0 <= k <= u.len(),
        forall|i: int| 0 <= i < k ==> is_digit(#[trigger] u[i]),
    ensures
        leading_digits(u) >= k,
    decreases k,
{
    if k > 0 {
        let d = u.drop_first();
        assert forall|i: int| 0 <= i < k - 1 implies is_digit(#[trigger] d[i]) by {
            assert(d[i] == u[i + 1]);
        }
        lemma_leading_digits_at_least(d, k - 1);
    }
}

proof fn lemma_leading_digits_are_digits(u: Seq<char>)
    ensures
        leading_digits(u) <= u.len(),
        all_digits(u.take(leading_digits(u) as int)),
    decreases u.len(),
{
    if u.len() > 0 && is_digit(u[0]) {
        let d = u.drop_first();
        lemma_leading_digits_are_digits(d);
        let t = u.take(leading_digits(u) as int);
        assert forall|i: int| 0 <= i < t.len() implies is_digit(#[trigger] t[i]) by {
            if i > 0 {
                assert(t[i] == d.take(leading_digits(d) as int)[i - 1]);
            }
        }
    }
}

proof fn lemma_digits_value_nonneg(s: Seq<char>)
    requires
        all_digits(s),
    ensures
        digits_value(s) >= 0,
    decreases s.len(),
{
    if s.len() > 0 {
        assert(all_digits(s.drop_last())) by {
            assert forall|i: int| 0 <= i < s.drop_last().len() implies is_digit(
                #[trigger] s.drop_last()[i],
            ) by {
                assert(s.drop_last()[i] == s[i]);
            }
        }
        lemma_digits_value_nonneg(s.drop_last());
        assert(is_digit(s[s.len() - 1]));
    }
}

/// A longer run of digits never denotes less than its prefix.
proof fn lemma_digits_value_grows(s: Seq<char>, a: int, b: int)
    requires
        0 <= a <= b <= s.len(),
        all_digits(s),
    ensures
        digits_value(s.take(a)) <= digits_value(s.take(b)),
    decreases b - a,
{
    if a < b {
        lemma_digits_value_grows(s, a, b - 1);
        assert(s.take(b).drop_last() =~= s.take(b - 1));
        assert(all_digits(s.take(b - 1))) by {
            assert forall|i: int| 0 <= i < s.take(b - 1).len() implies is_digit(
                #[trigger] s.take(b - 1)[i],
            ) by {
                assert(s.take(b - 1)[i] == s[i]);
            }
        }
        lemma_digits_value_nonneg(s.take(b - 1));
        assert(is_digit(s[b - 1]));
    }
}

pub open spec fn sign_len(s: Seq<char>) -> int {
    if has_sign(s) {
        1
    } else {
        0
    }
}

/// Where the digits after the sign stop at `i`, the text splits there into
/// whole digits and whatever follows.
proof fn lemma_split_at(sv: Seq<char>, i: int)
    requires
        sign_len(sv) <= i <= sv.len(),
        forall|j: int| sign_len(sv) <= j < i ==> is_digit(#[trigger] sv[j]),
        i == sv.len() || !is_digit(sv[i]),
    ensures
        unsigned_part(sv) =~= sv.skip(sign_len(sv)),
        leading_digits(unsigned_part(sv)) == i - sign_len(sv),
        whole_digits(sv) =~= sv.subrange(sign_len(sv), i),
        fraction_digits(sv) =~= (if i < sv.len() {
            sv.skip(i + 1)
        } else {
            Seq::empty()
        }),
{
    let u = unsigned_part(sv);
    let st = sign_len(sv);
    assert(u =~= sv.skip(st));
    assert forall|j: int| 0 <= j < i - st implies is_digit(#[trigger] u[j]) by {
        assert(u[j] == sv[st + j]);
    }
    if i < sv.len() {
        assert(u[i - st] == sv[i]);
    }
    lemma_leading_digits(u, i - st);
}

/// Once the whole digits read so far exceed the limit, no cents fit.
proof fn lemma_whole_too_large(sv: Seq<char>, i: int)
    requires
        sign_len(sv) <= i < sv.len(),
        forall|j: int| sign_len(sv) <= j <= i ==> is_digit(#[trigger] sv[j]),
        digits_value(sv.subrange(sign_len(sv), i + 1)) > WHOLE_LIMIT,
    ensures
        parsed_cents(sv) is None,
{
    let u = unsigned_part(sv);
    let st = sign_len(sv);
    assert(u =~= sv.skip(st));
    let w = whole_digits(sv);
    assert forall|j: int| 0 <= j < i + 1 - st implies is_digit(#[trigger] u[j]) by {
        assert(u[j] == sv[st + j]);
    }
    lemma_leading_digits_at_least(u, i + 1 - st);
    lemma_leading_digits_are_digits(u);
    assert(w.take(i + 1 - st) =~= sv.subrange(st, i + 1));
    lemma_digits_value_grows(w, i + 1 - st, w.len() as int);
    assert(w.take(w.len() as int) =~= w);
    if is_decimal(sv) {
        let f = fraction_digits(sv);
        let k = leading_digits(u) as int;
        if k < u.len() {
            if 0 < f.len() {
                assert(is_digit(f[0]));
            }
            if 1 < f.len() {
                assert(is_digit(f[1]));
            }
        }
    }
}

/// Reads a decimal amount into cents; `None` where the text is not an amount
/// or its cents do not fit in an `i64`.
#[verifier::rlimit(30)]
pub fn parse_cents(s: &str) -> (r: Option<i64>)
    ensures
        r == parsed_cents(s@),
{
    let n = s.unicode_len();
    let ghost sv = s@;
    let mut start: usize = 0;
    let mut negative = false;
    if n > 0 {
        let c = s.get_char(0);
        if c == '+' || c == '-' {
            start = 1;
            negative = c == '-';
        }
    }
    assert(start == sign_len(sv));
    assert(negative == is_negative(sv));
    // The digits before the point.
    let mut i: usize = start;
    let mut whole: u64 = 0;
    while i < n && '0' <= s.get_char(i) && s.get_char(i) <= '9'
        invariant
            sv == s@,
            n == sv.len(),
            start == sign_len(sv),
            start <= i <= n,
            forall|j: int| start <= j < i ==> is_digit(#[trigger] sv[j]),
            whole == digits_value(sv.subrange(start as int, i as int)),
            whole <= WHOLE_LIMIT,
        decreases n - i,
    {
        let c = s.get_char(i);
        let d = (c as u32 - '0' as u32) as u64;
        proof {
            assert(sv.subrange(start as int, i + 1).drop_last() =~= sv.subrange(
                start as int,
                i as int,
            ));
        }
        if whole > WHOLE_LIMIT / 10 || whole * 10 + d > WHOLE_LIMIT {
            proof {
                lemma_whole_too_large(sv, i as int);
            }
            return None;
        }
        whole = whole * 10 + d;
        i = i + 1;
    }
    proof {
        lemma_split_at(sv, i as int);
    }
    let whole_len = i - start;
    if i == n {
        // No point: the whole text after the sign is digits.
        if whole_len == 0 {
            return None;
        }
        let cents = whole * 100;
        return Some(
            if negative {
                -(cents as i64)
            } else {
                cents as i64
            },
        );
    }
    if s.get_char(i) != '.' {
        return None;
    }
    let cents = fraction_cents(s, i + 1, whole);
    if whole_len == 0 && i + 1 == n {
        return None;
    }
    match cents {
        None => None,
        Some(c) => {
            if c > i64::MAX as u64 {
                None
            } else {
                Some(
                    if negative {
                        -(c as i64)
                    } else {
                        c as i64
                    },
                )
            }
        },
    }
}

/// The rounded magnitude in cents of `whole` units followed by the digits
/// from `frac_start` on; `None` where one of those is not a digit.
fn fraction_cents(s: &str, frac_start: usize, whole: u64) -> (r: Option<u64>)
    requires
        1 <= frac_start <= s@.len(),
        whole <= WHOLE_LIMIT,
    ensures
        r is Some <==> all_digits(s@.skip(frac_start as int)),
        r is Some ==> r->0 == whole * 100 + fraction_digit(s@.skip(frac_start as int), 0) * 10
            + fraction_digit(s@.skip(frac_start as int), 1) + if fraction_digit(
            s@.skip(frac_start as int),
            2,
        ) >= 5 {
            1int
        } else {
            0int
        },
{
    let n = s.unicode_len();
    let ghost f = s@.skip(frac_start as int);
    let mut j: usize = frac_start;
    let mut f0: u64 = 0;
    let mut f1: u64 = 0;
    let mut f2: u64 = 0;
    while j < n
        invariant
            n == s@.len(),
            f == s@.skip(frac_start as int),
            frac_start <= j <= n,
            forall|m: int| 0 <= m < j - frac_start ==> is_digit(#[trigger] f[m]),
            f0 == (if 0 < j - frac_start {
                digit_val(f[0])
            } else {
                0
            }),
            f1 == (if 1 < j - frac_start {
                digit_val(f[1])
            } else {
                0
            }),
            f2 == (if 2 < j - frac_start {
                digit_val(f[2])
            } else {
                0
            }),
        decreases n - j,
    {
        let c = s.get_char(j);
        assert(f[j - frac_start] == c);
        if c < '0' || c > '9' {
            return None;
        }
        let d = (c as u32 - '0' as u32) as u64;
        if j == frac_start {
            f0 = d;
        } else if j == frac_start + 1 {
            f1 = d;
        } else if j == frac_start + 2 {
            f2 = d;
        }
        j = j + 1;
    }
    let round: u64 = if f2 >= 5 {
        1
    } else {
        0
    };
    Some(whole * 100 + f0 * 10 + f1 + round)
}

} // verus!
