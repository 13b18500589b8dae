//! Decimal numerals, kept exactly as mpv wrote them.
//!
//! mpv reports quantities as decimal numerals. A [`Numeral`] holds one of them
//! character for character, so that nothing is lost before a consumer picks
//! the precision that it needs.
use crate::text::{decimal, digit_char, from_chars, to_chars};
use vstd::arithmetic::power2::{lemma_pow2_pos, lemma_pow2_unfold, pow2};
use vstd::prelude::*;
use vstd::slice::slice_subrange;

verus! {

/// `c` is one of the ten ASCII digits.
pub open spec fn is_digit(c: char) -> bool {
    '0' as int <= c as int <= '9' as int
}

/// Every character of `s` is a digit.
pub open spec fn all_digits(s: Seq<char>) -> bool {
    forall|i: int| 0 <= i < s.len() ==> is_digit(#[trigger] s[i])
}

/// The number that a string of digits stands for; 0 for the empty one.
pub open spec fn digits_value(s: Seq<char>) -> nat
    decreases s.len(),
{
    if s.len() == 0 {
        0
    } else {
        10 * digits_value(s.drop_last()) + (s.last() as int - '0' as int) as nat
    }
}

/// Ten to the power of `n`.
pub open spec fn pow10(n: nat) -> nat
    decreases n,
{
    if n == 0 {
        1
    } else {
        10 * pow10((n - 1) as nat)
    }
}

/// How many digits `s` starts with.
pub open spec fn leading_digits(s: Seq<char>) -> int
    decreases s.len(),
{
    if s.len() > 0 && is_digit(s[0]) {
        1 + leading_digits(s.skip(1))
    } else {
        0
    }
}

/// `s` starts with a minus sign.
pub open spec fn is_negative(s: Seq<char>) -> bool {
    s.len() > 0 && s[0] == '-'
}

/// `s` without its sign.
pub open spec fn magnitude(s: Seq<char>) -> Seq<char> {
    if is_negative(s) {
        s.skip(1)
    } else {
        s
    }
}

/// The digits before the decimal point.
pub open spec fn whole_digits(s: Seq<char>) -> Seq<char> {
    magnitude(s).take(leading_digits(magnitude(s)))
}

/// The digits behind the decimal point.
pub open spec fn fraction_digits(s: Seq<char>) -> Seq<char> {
    let m = magnitude(s);
    let n = leading_digits(m);
    if n < m.len() {
        m.skip(n + 1)
    } else {
        Seq::empty()
    }
}

/// `s` is an optional minus sign, digits, and optionally a point with digits
/// behind it; there is at least one digit.
pub open spec fn is_numeral(s: Seq<char>) -> bool {
    let m = magnitude(s);
    let n = leading_digits(m);
    &&& n < m.len() ==> m[n] == '.'
    &&& all_digits(fraction_digits(s))
    &&& whole_digits(s).len() + fraction_digits(s).len() > 0
}

/// How many binary digits `w` has; none for 0.
pub open spec fn bit_length(w: nat) -> nat
    decreases w,
{
    if w == 0 {
        0
    } else {
        1 + bit_length(w / 2)
    }
}

/// The 64-bit floating-point number nearest to `w + f / 10^scale` is `w + 1`.
///
/// A double has 53 significant bits, so below `w + 1` its neighbours are
/// `2^(bit_length(w) - 53)` apart. A value within half of that distance of
/// `w + 1` is rounded to it; a tie goes there too, `w + 1` being the neighbour
/// with the even significand.
pub open spec fn rounds_up(w: nat, f: nat, scale: nat) -> bool {
    (pow10(scale) - f) * pow2((54 - bit_length(w)) as nat) <= pow10(scale)
}

/// The numeral `s`, taken as the nearest 64-bit floating-point number and then
/// cut to a 32-bit count: the fraction is dropped, a negative value gives 0 and
/// one that is too large gives the maximum.
pub open spec fn as_u32(s: Seq<char>) -> u32 {
    let w = digits_value(whole_digits(s));
    if is_negative(s) {
        0
    } else if w >= u32::MAX {
        u32::MAX
    } else if rounds_up(w, digits_value(fraction_digits(s)), fraction_digits(s).len()) {
        (w + 1) as u32
    } else {
        w as u32
    }
}

proof fn lemma_pow10_pos(n: nat)
    ensures
        pow10(n) > 0,
    decreases n,
{
    if n > 0 {
        lemma_pow10_pos((n - 1) as nat);
    }
}

/// A prefix of a string of digits determines its value up to the digits that
/// are missing.
proof fn lemma_prefix_value(s: Seq<char>, i: int)
    requires
        all_digits(s),
        0 <= i <= s.len(),
    ensures
        digits_value(s.take(i)) * pow10((s.len() - i) as nat) <= digits_value(s),
        digits_value(s) < (digits_value(s.take(i)) + 1) * pow10((s.len() - i) as nat),
    decreases s.len() - i,
{
    if i == s.len() {
        assert(s.take(i) == s);
        assert(pow10(0) == 1);
        vstd::arithmetic::mul::lemma_mul_basics(digits_value(s) as int);
        vstd::arithmetic::mul::lemma_mul_basics(digits_value(s) as int + 1);
    } else {
        lemma_prefix_value(s, i + 1);
        let p = digits_value(s.take(i)) as int;
        let q = digits_value(s.take(i + 1)) as int;
        let d = s[i] as int - '0' as int;
        let t = pow10((s.len() - i - 1) as nat) as int;
        assert(s.take(i + 1).drop_last() == s.take(i));
        assert(is_digit(s[i]));
        assert(q == 10 * p + d);
        assert(pow10((s.len() - i) as nat) == 10 * t);
        assert(p * pow10((s.len() - i) as nat) == p * (10 * t));
        assert((p + 1) * pow10((s.len() - i) as nat) == (p + 1) * (10 * t));
        lemma_pow10_pos((s.len() - i - 1) as nat);
        assert(p * (10 * t) <= q * t) by (nonlinear_arith)
            requires
                q == 10 * p + d,
                d >= 0,
                t > 0,
        ;
        assert((q + 1) * t <= (p + 1) * (10 * t)) by (nonlinear_arith)
            requires
                q == 10 * p + d,
                d <= 9,
                t > 0,
        ;
    }
}

proof fn lemma_bit_length_bound(w: nat, n: nat)
    requires
        w < pow2(n),
    ensures
        bit_length(w) <= n,
    decreases n,
{
    if n == 0 {
        vstd::arithmetic::power2::lemma2_to64();
    } else {
        lemma_pow2_unfold(n);
        if w > 0 {
            lemma_bit_length_bound(w / 2, (n - 1) as nat);
        }
    }
}

/// 2 to the power of `54 - bit_length(w)`.
fn inverse_half_gap(w: u32) -> (p: u64)
    ensures
        p == pow2((54 - bit_length(w as nat)) as nat),
        bit_length(w as nat) <= 32,
        0 < p <= 18014398509481984,
{
    let mut v: u32 = w;
    let mut p: u64 = 18014398509481984;
    proof {
        vstd::arithmetic::power2::lemma2_to64();
        vstd::arithmetic::power2::lemma2_to64_rest();
        lemma_bit_length_bound(w as nat, 32);
    }
    while v > 0
        invariant
            bit_length(v as nat) <= bit_length(w as nat) <= 32,
            p == pow2((54 - bit_length(w as nat) + bit_length(v as nat)) as nat),
            p <= 18014398509481984,
        decreases v,
    {
        proof {
            lemma_pow2_unfold((54 - bit_length(w as nat) + bit_length(v as nat)) as nat);
        }
        p = p / 2;
        v = v / 2;
    }
    proof {
        lemma_pow2_pos((54 - bit_length(w as nat)) as nat);
    }
    p
}

/// The value of a digit.
fn digit_of(c: char) -> (d: u64)
    requires
        is_digit(c),
    ensures
        d == c as int - '0' as int,
        d <= 9,
{
    (c as u32 - 48) as u64
}

/// Whether the fraction written by `digits` is at least `1 - 1/p`, which is
/// found by comparing it with the decimal expansion of that bound, digit by
/// digit.
fn close_to_one(digits: &[char], p: u64) -> (close: bool)
    requires
        all_digits(digits@),
        0 < p <= 18014398509481984,
    ensures
        close == ((pow10(digits@.len()) - digits_value(digits@)) * p <= pow10(digits@.len())),
{
    let mut i: usize = 0;
    let mut rest: u64 = p - 1;
    let ghost n = digits@.len() as int;
    proof {
        assert(digits_value(digits@.take(0)) == 0);
        assert(pow10(0) == 1);
        vstd::arithmetic::mul::lemma_mul_basics(p as int);
        vstd::arithmetic::mul::lemma_mul_basics(p - 1);
    }
    while i < digits.len()
        invariant
            i <= digits@.len() == n,
            all_digits(digits@),
            rest < p <= 18014398509481984,
            digits_value(digits@.take(i as int)) * p + rest == (p - 1) * pow10(i as nat),
        decreases digits.len() - i,
    {
        assert(is_digit(digits@[i as int]));
        let d: u64 = digit_of(digits[i]);
        let bound: u64 = rest * 10 / p;
        let next: u64 = rest * 10 % p;
        proof {
            let f = digits_value(digits@.take(i as int)) as int;
            let t = pow10(i as nat) as int;
            let u = pow10((n - i - 1) as nat) as int;
            let all = digits_value(digits@) as int;
            assert(digits@.take(i + 1).drop_last() == digits@.take(i as int));
            assert(digits_value(digits@.take(i + 1)) == 10 * f + d);
            lemma_prefix_value(digits@, i + 1);
            lemma_pow10_pos((n - i - 1) as nat);
            lemma_pow10_add((i + 1) as nat, (n - i - 1) as nat);
            assert(pow10((i + 1) as nat) == 10 * t);
            assert(rest * 10 == bound * p + next) by {
                vstd::arithmetic::div_mod::lemma_fundamental_div_mod(rest * 10, p as int);
                vstd::arithmetic::mul::lemma_mul_is_commutative(p as int, bound as int);
            }
            assert((10 * f + bound) * p + next == (p - 1) * (10 * t)) by (nonlinear_arith)
                requires
                    f * p + rest == (p - 1) * t,
                    rest * 10 == bound * p + next,
            ;
            if d > bound {
                assert(all * p >= (p - 1) * (10 * t * u)) by (nonlinear_arith)
                    requires
                        (10 * f + bound) * p + next == (p - 1) * (10 * t),
                        next < p,
                        d >= bound + 1,
                        (10 * f + d) * u <= all,
                        u > 0,
                        p > 0,
                {
                    assert((10 * f + d) * p >= (10 * f + bound + 1) * p);
                    assert((10 * f + d) * p >= (p - 1) * (10 * t));
                    assert(((10 * f + d) * p) * u >= ((p - 1) * (10 * t)) * u);
                    assert(all * p >= ((10 * f + d) * u) * p);
                }
                lemma_close(all, pow10(n as nat) as int, p as int);
            } else if d < bound {
                assert(all * p < (p - 1) * (10 * t * u)) by (nonlinear_arith)
                    requires
                        (10 * f + bound) * p + next == (p - 1) * (10 * t),
                        next >= 0,
                        d + 1 <= bound,
                        all < (10 * f + d + 1) * u,
                        u > 0,
                        p > 0,
                {
                    assert((10 * f + d + 1) * p <= (p - 1) * (10 * t));
                    assert(((10 * f + d + 1) * p) * u <= ((p - 1) * (10 * t)) * u);
                    assert(all * p < ((10 * f + d + 1) * u) * p);
                }
                lemma_close(all, pow10(n as nat) as int, p as int);
            }
        }
        if d > bound {
            return true;
        }
        if d < bound {
            return false;
        }
        rest = next;
        i += 1;
    }
    proof {
        assert(digits@.take(n) == digits@);
        lemma_close(digits_value(digits@) as int, pow10(n as nat) as int, p as int);
    }
    rest == 0
}

proof fn lemma_pow10_add(a: nat, b: nat)
    ensures
        pow10(a + b) == pow10(a) * pow10(b),
    decreases a,
{
    if a == 0 {
        vstd::arithmetic::mul::lemma_mul_basics(pow10(b) as int);
    } else {
        lemma_pow10_add((a - 1) as nat, b);
        vstd::arithmetic::mul::lemma_mul_is_associative(
            10,
            pow10((a - 1) as nat) as int,
            pow10(b) as int,
        );
    }
}

proof fn lemma_close(f: int, t: int, p: int)
    ensures
        (t - f) * p <= t <==> f * p >= (p - 1) * t,
{
    assert((t - f) * p == t * p - f * p) by (nonlinear_arith);
    assert((p - 1) * t == t * p - t) by (nonlinear_arith);
}

/// Whether `c` is one of the ten ASCII digits.
pub(crate) fn digit(c: char) -> (yes: bool)
    ensures
        yes == is_digit(c),
{
    '0' <= c && c <= '9'
}

/// How many digits `s` starts with.
fn count_leading_digits(s: &[char]) -> (n: usize)
    ensures
        n == leading_digits(s@),
        n <= s@.len(),
        all_digits(s@.take(n as int)),
{
    let mut n: usize = 0;
    assert(s@.skip(0) == s@);
    while n < s.len() && digit(s[n])
        invariant
            n <= s@.len(),
            all_digits(s@.take(n as int)),
            leading_digits(s@) == n + leading_digits(s@.skip(n as int)),
        decreases s.len() - n,
    {
        assert(s@.skip(n as int).skip(1) == s@.skip(n + 1));
        n += 1;
    }
    n
}

/// Whether every character of `s` is a digit.
fn only_digits(s: &[char]) -> (yes: bool)
    ensures
        yes == all_digits(s@),
{
    let mut i: usize = 0;
    while i < s.len()
        invariant
            i <= s@.len(),
            forall|j: int| 0 <= j < i ==> is_digit(#[trigger] s@[j]),
        decreases s.len() - i,
    {
        if !digit(s[i]) {
            assert(!is_digit(s@[i as int]));
            return false;
        }
        i += 1;
    }
    true
}

/// The three parts of a numeral, as slices of its text.
struct Parts<'a> {
    negative: bool,
    whole: &'a [char],
    fraction: &'a [char],
    /// A character other than a decimal point ends the whole digits.
    broken: bool,
}

fn split(s: &[char]) -> (parts: Parts<'_>)
    ensures
        parts.negative == is_negative(s@),
        parts.whole@ == whole_digits(s@),
        all_digits(whole_digits(s@)),
        parts.fraction@ == fraction_digits(s@),
        ({
            let m = magnitude(s@);
            let n = leading_digits(m);
            parts.broken == (n < m.len() && m[n] != '.')
        }),
{
    let negative = s.len() > 0 && s[0] == '-';
    let start: usize = if negative { 1 } else { 0 };
    let m = slice_subrange(s, start, s.len());
    assert(m@ == magnitude(s@));
    let n = count_leading_digits(m);
    let whole = slice_subrange(m, 0, n);
    let end: usize = if n < m.len() { n + 1 } else { n };
    let fraction = slice_subrange(m, end, m.len());
    assert(whole@ == whole_digits(s@));
    assert(fraction@ == fraction_digits(s@));
    Parts { negative, whole, fraction, broken: n < m.len() && m[n] != '.' }
}

/// A decimal numeral, as it was written.
pub struct Numeral {
    text: String,
}

impl View for Numeral {
    type V = Seq<char>;

    closed spec fn view(&self) -> Seq<char> {
        self.text@
    }
}

impl Numeral {
    #[verifier::type_invariant]
    spec fn inv(self) -> bool {
        is_numeral(self.text@)
    }

    /// The numeral `0`.
    pub fn zero() -> (n: Numeral)
        ensures
            n@ == "0"@,
            is_numeral(n@),
    {
        let text = "0".to_owned();
        proof {
            reveal_strlit("0");
            assert("0"@ == seq!['0']);
            assert(leading_digits("0"@.skip(1)) == 0);
            assert(whole_digits("0"@).len() == 1);
        }
        Numeral { text }
    }

    /// The numeral that `chars` spells, if it spells one.
    pub(crate) fn from_slice(chars: &[char]) -> (n: Option<Numeral>)
        ensures
            n is Some <==> is_numeral(chars@),
            n matches Some(n) ==> n@ == chars@,
    {
        let parts = split(chars);
        if parts.broken || !only_digits(parts.fraction) {
            return None;
        }
        if parts.whole.len() == 0 && parts.fraction.len() == 0 {
            return None;
        }
        Some(Numeral { text: from_chars(chars) })
    }

    /// The text of the numeral.
    pub fn as_str(&self) -> (text: &str)
        ensures
            text@ == self@,
            is_numeral(self@),
    {
        proof {
            use_type_invariant(self);
        }
        self.text.as_str()
    }

    /// The numeral as a count: the nearest 64-bit floating-point number,
    /// without its fraction, held to the range of the result.
    pub fn to_u32(&self) -> (n: u32)
        ensures
            n == as_u32(self@),
    {
        proof {
            use_type_invariant(self);
        }
        let chars = to_chars(self.text.as_str());
        let parts = split(chars.as_slice());
        if parts.negative {
            return 0;
        }
        let whole = parts.whole;
        let mut w: u64 = 0;
        let mut i: usize = 0;
        assert(digits_value(whole@.take(0)) == 0);
        while i < whole.len()
            invariant
                i <= whole@.len(),
                all_digits(whole@),
                w == digits_value(whole@.take(i as int)),
                w < u32::MAX,
                whole@ == whole_digits(self@),
                !is_negative(self@),
            decreases whole.len() - i,
        {
            assert(is_digit(whole@[i as int]));
            w = w * 10 + digit_of(whole[i]);
            i += 1;
            proof {
                assert(whole@.take(i as int).drop_last() == whole@.take(i - 1));
            }
            if w >= 4294967295 {
                proof {
                    lemma_prefix_value(whole@, i as int);
                    lemma_pow10_pos((whole@.len() - i) as nat);
                    assert(w as int <= w as int * pow10((whole@.len() - i) as nat) as int)
                        by (nonlinear_arith)
                        requires
                            pow10((whole@.len() - i) as nat) as int >= 1,
                            w as int >= 0,
                    ;
                }
                return 4294967295;
            }
        }
        assert(whole@.take(whole@.len() as int) == whole@);
        let count: u32 = w as u32;
        if close_to_one(parts.fraction, inverse_half_gap(count)) {
            count + 1
        } else {
            count
        }
    }
}

proof fn lemma_leading_digits_all(s: Seq<char>)
    requires
        all_digits(s),
    ensures
        leading_digits(s) == s.len(),
    decreases s.len(),
{
    if s.len() > 0 {
        assert(is_digit(s[0]));
        assert forall|i: int| 0 <= i < s.skip(1).len() implies is_digit(#[trigger] s.skip(1)[i]) by {
            assert(s.skip(1)[i] == s[i + 1]);
        }
        lemma_leading_digits_all(s.skip(1));
    }
}

proof fn lemma_leading_digits_are_digits(s: Seq<char>)
    ensures
        0 <= leading_digits(s) <= s.len(),
        forall|i: int| 0 <= i < leading_digits(s) ==> is_digit(#[trigger] s[i]),
    decreases s.len(),
{
    if s.len() > 0 && is_digit(s[0]) {
        lemma_leading_digits_are_digits(s.skip(1));
        assert forall|i: int| 0 <= i < leading_digits(s) implies is_digit(#[trigger] s[i]) by {
            if i > 0 {
                assert(is_digit(s.skip(1)[i - 1]));
            }
        }
    }
}

/// A numeral holds only digits, points and minus signs.
pub proof fn lemma_numeral_chars(s: Seq<char>)
    requires
        is_numeral(s),
    ensures
        forall|i: int| 0 <= i < s.len() ==> is_digit(#[trigger] s[i]) || s[i] == '.' || s[i] == '-',
{
    let m = magnitude(s);
    let n = leading_digits(m);
    lemma_leading_digits_are_digits(m);
    assert forall|i: int| 0 <= i < s.len() implies is_digit(#[trigger] s[i]) || s[i] == '.' || s[i]
        == '-' by {
        let j = if is_negative(s) {
            i - 1
        } else {
            i
        };
        if 0 <= j {
            assert(s[i] == m[j]);
            if j > n {
                assert(is_digit(fraction_digits(s)[j - n - 1]));
            }
        }
    }
}

/// A number written in decimal is a string of digits with that value.
pub proof fn lemma_decimal_value(n: nat)
    ensures
        decimal(n).len() > 0,
        all_digits(decimal(n)),
        digits_value(decimal(n)) == n,
    decreases n,
{
    if n < 10 {
        let s = decimal(n);
        assert(digits_value(s.drop_last()) == 0);
        assert(s.last() == digit_char(n as int));
    } else {
        lemma_decimal_value(n / 10);
        let s = decimal(n);
        assert(s.drop_last() == decimal(n / 10));
        assert(s.last() == digit_char((n % 10) as int));
    }
}

/// Two numbers that are written alike are the same.
pub proof fn law_decimal_is_unambiguous(a: nat, b: nat)
    requires
        decimal(a) == decimal(b),
    ensures
        a == b,
{
    lemma_decimal_value(a);
    lemma_decimal_value(b);
}

/// A whole number written in decimal is read as exactly that number.
pub proof fn law_whole_number_is_exact(n: u32)
    ensures
        is_numeral(decimal(n as nat)),
        as_u32(decimal(n as nat)) == n,
{
    let s = decimal(n as nat);
    lemma_decimal_value(n as nat);
    lemma_leading_digits_all(s);
    assert(is_digit(s[0]));
    assert(magnitude(s) == s);
    assert(whole_digits(s) == s);
    vstd::arithmetic::power2::lemma2_to64();
    lemma_bit_length_bound(n as nat, 32);
    let k = (54 - bit_length(n as nat)) as nat;
    lemma_pow2_unfold(k);
    lemma_pow2_pos((k - 1) as nat);
    assert(pow10(0) == 1);
    vstd::arithmetic::mul::lemma_mul_basics(pow2(k) as int);
}

/// Numbers are written with the ten digits, the most significant first: the
/// number of tens, unless there are none, and then the ones.
pub proof fn law_decimal_is_written_by_tens(tens: nat, ones: nat)
    requires
        ones < 10,
    ensures
        decimal(10 * tens + ones) == (if tens == 0 {
            Seq::empty()
        } else {
            decimal(tens)
        }).push("0123456789"@[ones as int]),
{
    reveal_strlit("0123456789");
    let n = 10 * tens + ones;
    let digits = "0123456789"@;
    assert(digits[ones as int] == digit_char(ones as int)) by {
        assert(digits[0] == '0' && digits[1] == '1' && digits[2] == '2' && digits[3] == '3' && digits[4] == '4');
        assert(digits[5] == '5' && digits[6] == '6' && digits[7] == '7' && digits[8] == '8' && digits[9] == '9');
    }
    assert(n / 10 == tens && n % 10 == ones);
    if tens == 0 {
        assert(decimal(n) == Seq::<char>::empty().push(digit_char(ones as int)));
    }
}

/// A number written in decimal holds nothing but digits, has their value, and
/// starts with a zero only if it is zero.
pub proof fn law_decimal_has_its_value(n: nat)
    ensures
        decimal(n).len() > 0,
        forall|i: int| 0 <= i < decimal(n).len() ==> '0' <= #[trigger] decimal(n)[i] <= '9',
        digits_value(decimal(n)) == n,
        decimal(n)[0] == '0' ==> n == 0,
    decreases n,
{
    lemma_decimal_value(n);
    assert forall|i: int| 0 <= i < decimal(n).len() implies '0' <= #[trigger] decimal(n)[i] <= '9' by {
        assert(is_digit(decimal(n)[i]));
    }
    if n >= 10 {
        law_decimal_has_its_value(n / 10);
        assert(decimal(n)[0] == decimal(n / 10)[0]);
    } else {
        assert(decimal(n)[0] == digit_char(n as int));
    }
}

/// Zeros in front do not change what digits stand for.
pub proof fn law_leading_zeros_count_nothing(s: Seq<char>)
    ensures
        digits_value(seq!['0'] + s) == digits_value(s),
    decreases s.len(),
{
    let longer = seq!['0'] + s;
    if s.len() == 0 {
        assert(longer.drop_last() == Seq::<char>::empty());
        assert(digits_value(longer.drop_last()) == 0);
        assert(longer.last() == '0');
    } else {
        assert(longer.drop_last() == seq!['0'] + s.drop_last());
        assert(longer.last() == s.last());
        law_leading_zeros_count_nothing(s.drop_last());
    }
}

proof fn lemma_leading_digits_are(digits: Seq<char>, rest: Seq<char>)
    requires
        all_digits(digits),
        rest.len() > 0 ==> !is_digit(rest[0]),
    ensures
        leading_digits(digits + rest) == digits.len(),
    decreases digits.len(),
{
    if digits.len() == 0 {
        assert(digits + rest == rest);
    } else {
        assert(is_digit(digits[0]));
        assert((digits + rest).skip(1) == digits.skip(1) + rest);
        assert forall|i: int| 0 <= i < digits.skip(1).len() implies is_digit(#[trigger] digits.skip(1)[i]) by {
            assert(digits.skip(1)[i] == digits[i + 1]);
        }
        lemma_leading_digits_are(digits.skip(1), rest);
    }
}

/// `s` is written as `sign`, the digits `whole`, and behind a point, if there is
/// one, the digits `fraction`.
pub open spec fn written_as(s: Seq<char>, sign: Seq<char>, whole: Seq<char>, fraction: Seq<char>) -> bool {
    &&& sign == ""@ || sign == "-"@
    &&& forall|i: int| 0 <= i < whole.len() ==> '0' <= #[trigger] whole[i] <= '9'
    &&& forall|i: int| 0 <= i < fraction.len() ==> '0' <= #[trigger] fraction[i] <= '9'
    &&& s == sign + whole + "."@ + fraction || s == sign + whole && fraction.len() == 0
}

proof fn lemma_written_as(s: Seq<char>, sign: Seq<char>, whole: Seq<char>, fraction: Seq<char>)
    requires
        written_as(s, sign, whole, fraction),
    ensures
        is_negative(s) <==> sign == "-"@,
        whole_digits(s) == whole,
        fraction_digits(s) == fraction,
        is_numeral(s) <==> whole.len() + fraction.len() > 0,
{
    reveal_strlit("");
    reveal_strlit("-");
    reveal_strlit(".");
    assert("-"@.len() == 1 && ""@.len() == 0);
    let rest = if s == sign + whole {
        Seq::<char>::empty()
    } else {
        "."@ + fraction
    };
    assert(s == sign + whole + rest);
    assert(all_digits(whole)) by {
        assert forall|i: int| 0 <= i < whole.len() implies is_digit(#[trigger] whole[i]) by {}
    }
    assert(all_digits(fraction)) by {
        assert forall|i: int| 0 <= i < fraction.len() implies is_digit(#[trigger] fraction[i]) by {}
    }
    if sign == "-"@ {
        assert(s[0] == '-');
        assert(magnitude(s) =~= whole + rest);
    } else {
        assert(sign.len() == 0);
        if s.len() > 0 {
            if whole.len() > 0 {
                assert(s[0] == whole[0] && is_digit(whole[0]));
            } else {
                assert(s[0] == '.');
            }
        }
        assert(magnitude(s) =~= whole + rest);
    }
    lemma_leading_digits_are(whole, rest);
    assert(whole_digits(s) =~= whole);
    assert(fraction_digits(s) =~= fraction);
}

/// A numeral is an optional minus sign, digits, and optionally a point with
/// digits behind it, where there is at least one digit before or behind the
/// point.
pub proof fn law_what_a_numeral_is(s: Seq<char>, sign: Seq<char>, whole: Seq<char>, fraction: Seq<char>)
    requires
        written_as(s, sign, whole, fraction),
    ensures
        is_numeral(s) <==> whole.len() + fraction.len() > 0,
{
    lemma_written_as(s, sign, whole, fraction);
}

/// Every numeral can be taken apart that way.
pub proof fn law_a_numeral_has_its_parts(s: Seq<char>)
    requires
        is_numeral(s),
    ensures
        exists|sign: Seq<char>, whole: Seq<char>, fraction: Seq<char>|
            #[trigger] written_as(s, sign, whole, fraction) && whole.len() + fraction.len() > 0,
{
    reveal_strlit("");
    reveal_strlit("-");
    reveal_strlit(".");
    let m = magnitude(s);
    let n = leading_digits(m);
    lemma_leading_digits_are_digits(m);
    let sign = if is_negative(s) {
        "-"@
    } else {
        ""@
    };
    let (whole, fraction) = (whole_digits(s), fraction_digits(s));
    assert(s =~= sign + m);
    assert forall|i: int| 0 <= i < whole.len() implies '0' <= #[trigger] whole[i] <= '9' by {
        assert(is_digit(m[i]));
    }
    assert forall|i: int| 0 <= i < fraction.len() implies '0' <= #[trigger] fraction[i] <= '9' by {
        assert(is_digit(fraction[i]));
    }
    if n < m.len() {
        assert(s =~= sign + whole + "."@ + fraction);
    } else {
        assert(s =~= sign + whole);
    }
    assert(written_as(s, sign, whole, fraction));
}

proof fn lemma_bit_length_is(w: nat, bits: nat)
    requires
        w < pow2(bits),
        bits > 0 ==> w >= pow2((bits - 1) as nat),
    ensures
        bit_length(w) == bits,
    decreases bits,
{
    if bits == 0 {
        vstd::arithmetic::power2::lemma2_to64();
    } else {
        lemma_pow2_unfold(bits);
        lemma_pow2_pos((bits - 1) as nat);
        if bits > 1 {
            lemma_pow2_unfold((bits - 1) as nat);
        } else {
            vstd::arithmetic::power2::lemma2_to64();
        }
        lemma_bit_length_is(w / 2, (bits - 1) as nat);
    }
}

/// A numeral becomes a count as a 64-bit floating-point number would: it is
/// first taken to the nearest one of these, and then its fraction is dropped.
///
/// With a whole part of so many bits the neighbours are `2^(bits - 53)` apart, so
/// what is nearer than half of that to the next whole number goes there, and so
/// does what is exactly half of it away. A negative value gives nothing, and one
/// that is too large the largest count.
pub proof fn law_a_numeral_is_counted(
    n: &Numeral,
    count: u32,
    sign: Seq<char>,
    whole: Seq<char>,
    fraction: Seq<char>,
    bits: nat,
)
    requires
        call_ensures(Numeral::to_u32, (n,), count),
        written_as(n@, sign, whole, fraction),
        digits_value(whole) < pow2(bits),
        bits > 0 ==> digits_value(whole) >= pow2((bits - 1) as nat),
    ensures
        sign == "-"@ ==> count == 0,
        sign == ""@ && digits_value(whole) >= 4294967295 ==> count == 4294967295,
        sign == ""@ && digits_value(whole) < 4294967295 ==> {
            let missing = pow10(fraction.len()) - digits_value(fraction);
            let next = missing * pow2((54 - bits) as nat) <= pow10(fraction.len());
            count == digits_value(whole) + (if next {
                1int
            } else {
                0
            })
        },
{
    reveal_strlit("");
    reveal_strlit("-");
    assert("-"@.len() == 1 && ""@.len() == 0);
    lemma_written_as(n@, sign, whole, fraction);
    lemma_bit_length_is(digits_value(whole), bits);
}

/// A fraction of at most a half is always dropped.
pub proof fn law_a_small_fraction_is_dropped(n: &Numeral, count: u32, whole: Seq<char>, fraction: Seq<char>)
    requires
        call_ensures(Numeral::to_u32, (n,), count),
        written_as(n@, ""@, whole, fraction),
        digits_value(whole) <= 4294967295,
        2 * digits_value(fraction) <= pow10(fraction.len()),
    ensures
        count == digits_value(whole),
{
    reveal_strlit("");
    reveal_strlit("-");
    lemma_written_as(n@, ""@, whole, fraction);
    let w = digits_value(whole);
    vstd::arithmetic::power2::lemma2_to64();
    lemma_bit_length_bound(w, 32);
    let k = (54 - bit_length(w)) as nat;
    lemma_pow2_unfold(k);
    lemma_pow2_unfold((k - 1) as nat);
    lemma_pow2_pos((k - 2) as nat);
    lemma_pow10_pos(fraction.len());
    let t = pow10(fraction.len()) as int;
    let f = digits_value(fraction) as int;
    let p = pow2(k) as int;
    assert((t - f) * p > t) by (nonlinear_arith)
        requires
            2 * f <= t,
            t > 0,
            p >= 4,
    ;
}

/// Ten to the power of `n` is written as a one and `n` zeros.
pub proof fn law_powers_of_ten(n: nat)
    ensures
        decimal(pow10(n)) == seq!['1'] + Seq::new(n, |i: int| '0'),
    decreases n,
{
    lemma_pow10_pos(n);
    if n == 0 {
        law_decimal_is_written_by_tens(0, 1);
        reveal_strlit("0123456789");
        assert(Seq::<char>::empty().push('1') =~= seq!['1'] + Seq::new(0nat, |i: int| '0'));
    } else {
        let m = (n - 1) as nat;
        lemma_pow10_pos(m);
        law_powers_of_ten(m);
        law_decimal_is_written_by_tens(pow10(m), 0);
        reveal_strlit("0123456789");
        assert((seq!['1'] + Seq::new(m, |i: int| '0')).push('0') =~= seq!['1'] + Seq::new(n, |i: int| '0'));
    }
}

/// Nothing is the numeral `0`.
pub proof fn law_zero_is_written_as_zero(n: Numeral)
    requires
        call_ensures(Numeral::zero, (), n),
    ensures
        n@ == seq!['0'],
{
    reveal_strlit("0");
}

/// The text of a numeral is the numeral as it was written.
pub proof fn law_a_numeral_is_kept_as_written(n: &Numeral, text: &str)
    requires
        call_ensures(Numeral::as_str, (n,), text),
    ensures
        text@ == n@,
{
}

/// Any numeral can be read and counted.
pub proof fn law_any_numeral_can_be_counted(n: &Numeral)
    ensures
        call_requires(Numeral::zero, ()),
        call_requires(Numeral::as_str, (n,)),
        call_requires(Numeral::to_u32, (n,)),
{
}

} // verus!
