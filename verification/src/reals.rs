//! Real numbers written as text.
//!
//! The library carries real numbers as the text that writes them. This module
//! says which texts write a number, and compares a plain decimal with whole
//! bounds.

use crate::number::{
    decimal, is_digit_of, is_numeral, law_read_back, numeral_value, read_in_base,
};
use crate::text::{chars_of, concat2, concat3, string_of};
use vstd::prelude::*;
use vstd::slice::slice_subrange;

verus! {

/// `c` is one of `0` to `9`.
pub open spec fn is_ascii_digit(c: char) -> bool {
    '0' <= c <= '9'
}

/// The end of the longest run of digits that begins at `i`.
pub open spec fn digit_run(s: Seq<char>, i: int) -> int
    decreases s.len() - i,
{
    if 0 <= i < s.len() && is_ascii_digit(s[i]) {
        digit_run(s, i + 1)
    } else {
        i
    }
}

/// `c` is a plus or a minus sign.
pub open spec fn is_sign(c: char) -> bool {
    c == '+' || c == '-'
}

/// The position behind the sign that may stand at `i`.
pub open spec fn after_sign(s: Seq<char>, i: int) -> int {
    if 0 <= i < s.len() && is_sign(s[i]) {
        i + 1
    } else {
        i
    }
}

/// The end of the digits, with at most one point among them, that begin at `i`.
pub open spec fn mantissa_end(s: Seq<char>, i: int) -> int {
    let a = digit_run(s, i);
    if 0 <= a < s.len() && s[a] == '.' {
        digit_run(s, a + 1)
    } else {
        a
    }
}

/// There is a digit between `i` and the end of the mantissa.
pub open spec fn mantissa_has_digit(s: Seq<char>, i: int) -> bool {
    digit_run(s, i) > i || mantissa_end(s, i) > i + 1
}

/// From `i` on stands nothing, or an exponent.
pub open spec fn exponent_or_end(s: Seq<char>, i: int) -> bool {
    ||| i == s.len()
    ||| {
        let d = after_sign(s, i + 1);
        &&& 0 <= i < s.len()
        &&& s[i] == 'e' || s[i] == 'E'
        &&& digit_run(s, d) > d
        &&& digit_run(s, d) == s.len()
    }
}

/// `s`, from `i` on, is `word` in any mix of capitals and small letters.
pub open spec fn is_word_at(s: Seq<char>, i: int, word: Seq<char>) -> bool {
    &&& s.len() - i == word.len()
    &&& forall|k: int| 0 <= k < word.len() ==> crate::text::ascii_lower(#[trigger] s[i + k]) == word[k]
}

/// `s` writes a real number: an optional sign, then `inf`, `infinity`, `nan`
/// or decimal digits with an optional point and an optional exponent.
pub open spec fn is_real(s: Seq<char>) -> bool {
    let i = after_sign(s, 0);
    ||| is_word_at(s, i, "inf"@)
    ||| is_word_at(s, i, "infinity"@)
    ||| is_word_at(s, i, "nan"@)
    ||| (mantissa_has_digit(s, i) && exponent_or_end(s, mantissa_end(s, i)))
}

proof fn lemma_digit_run(s: Seq<char>, i: int)
    requires
        0 <= i <= s.len(),
    ensures
        i <= digit_run(s, i) <= s.len(),
        forall|k: int| i <= k < digit_run(s, i) ==> is_ascii_digit(#[trigger] s[k]),
    decreases s.len() - i,
{
    if i < s.len() && is_ascii_digit(s[i]) {
        lemma_digit_run(s, i + 1);
    }
}

fn skip_digits(s: &[char], i: usize) -> (r: usize)
    requires
        i <= s@.len(),
    ensures
        r == digit_run(s@, i as int),
        i <= r <= s@.len(),
{
    let n = s.len();
    let mut k: usize = i;
    while k < n && '0' <= s[k] && s[k] <= '9'
        invariant
            i <= k <= n,
            n == s@.len(),
            digit_run(s@, i as int) == digit_run(s@, k as int),
        decreases n - k,
    {
        k = k + 1;
    }
    k
}

fn skip_sign(s: &[char], i: usize) -> (r: usize)
    requires
        i <= s@.len(),
    ensures
        r == after_sign(s@, i as int),
        i <= r <= s@.len(),
{
    if i < s.len() && (s[i] == '+' || s[i] == '-') {
        i + 1
    } else {
        i
    }
}

fn lower(c: char) -> (r: char)
    ensures
        r == crate::text::ascii_lower(c),
{
    if 'A' <= c && c <= 'Z' {
        ((c as u8) + 32) as char
    } else {
        c
    }
}

fn word_at(s: &[char], i: usize, word: &str) -> (r: bool)
    requires
        i <= s@.len(),
    ensures
        r == is_word_at(s@, i as int, word@),
{
    let w = chars_of(word);
    if s.len() - i != w.len() {
        return false;
    }
    let n = s.len();
    for k in 0..w.len()
        invariant
            n == s@.len(),
            w@ == word@,
            n - i == w@.len(),
            i <= n,
            forall|j: int|
                0 <= j < k ==> crate::text::ascii_lower(#[trigger] s@[i + j]) == w@[j],
    {
        if lower(s[i + k]) != w[k] {
            assert(crate::text::ascii_lower(s@[i + k]) != word@[k as int]);
            return false;
        }
    }
    true
}

/// Whether `s` writes a real number.
pub fn writes_real(s: &[char]) -> (r: bool)
    ensures
        r == is_real(s@),
{
    let n = s.len();
    let i = skip_sign(s, 0);
    if word_at(s, i, "inf") || word_at(s, i, "infinity") || word_at(s, i, "nan") {
        return true;
    }
    let a = skip_digits(s, i);
    let mut m: usize = a;
    if a < n && s[a] == '.' {
        m = skip_digits(s, a + 1);
    }
    if !(a > i || m > i + 1) {
        return false;
    }
    if m == n {
        return true;
    }
    if !(s[m] == 'e' || s[m] == 'E') {
        return false;
    }
    let d = skip_sign(s, m + 1);
    let e = skip_digits(s, d);
    e > d && e == n
}

/// Whether the string `s` writes a real number.
pub fn text_writes_real(s: &str) -> (r: bool)
    ensures
        r == is_real(s@),
{
    let c = chars_of(s);
    writes_real(c.as_slice())
}

// ---------------------------------------------------------------------------
// The shortest form
// ---------------------------------------------------------------------------

/// The number of characters behind the sign up to which a decimal is brought
/// to its shortest form. Longer decimals may lie between two numbers that
/// floating point can hold.
pub const SHORT_DECIMAL: usize = 15;

/// `s` is an optional sign, and digits with at most one point among them.
pub open spec fn is_short_decimal(s: Seq<char>) -> bool {
    let i = after_sign(s, 0);
    &&& mantissa_has_digit(s, i)
    &&& mantissa_end(s, i) == s.len()
    &&& s.len() - i <= SHORT_DECIMAL
}

/// `s` without the zeros that it begins with.
pub open spec fn without_leading_zeros(s: Seq<char>) -> Seq<char>
    decreases s.len(),
{
    if s.len() > 0 && s[0] == '0' {
        without_leading_zeros(s.skip(1))
    } else {
        s
    }
}

/// `s` without the zeros that it ends with.
pub open spec fn without_trailing_zeros(s: Seq<char>) -> Seq<char>
    decreases s.len(),
{
    if s.len() > 0 && s.last() == '0' {
        without_trailing_zeros(s.drop_last())
    } else {
        s
    }
}

/// The digits in front of the point, without needless zeros.
pub open spec fn short_whole(digits: Seq<char>) -> Seq<char> {
    let d = without_leading_zeros(digits);
    if d.len() == 0 {
        "0"@
    } else {
        d
    }
}

/// The point and the digits behind it, without needless zeros.
pub open spec fn short_fraction(digits: Seq<char>) -> Seq<char> {
    let d = without_trailing_zeros(digits);
    if d.len() == 0 {
        ""@
    } else {
        "."@ + d
    }
}

/// A short decimal in its shortest form: "+02.50" is "2.5".
pub open spec fn shortest(s: Seq<char>) -> Seq<char> {
    let i = after_sign(s, 0);
    let a = digit_run(s, i);
    let sign = if s.len() > 0 && s[0] == '-' {
        "-"@
    } else {
        ""@
    };
    let fraction = if a < s.len() {
        s.skip(a + 1)
    } else {
        Seq::empty()
    };
    sign + short_whole(s.subrange(i, a)) + short_fraction(fraction)
}

fn whole_text(digits: &[char]) -> (r: String)
    ensures
        r@ == short_whole(digits@),
{
    let n = digits.len();
    let mut i: usize = 0;
    assert(digits@.skip(0) =~= digits@);
    while i < n && digits[i] == '0'
        invariant
            i <= n == digits@.len(),
            without_leading_zeros(digits@) == without_leading_zeros(digits@.skip(i as int)),
        decreases n - i,
    {
        assert(digits@.skip(i as int)[0] == digits@[i as int]);
        assert(digits@.skip(i as int).skip(1) =~= digits@.skip(i + 1));
        i = i + 1;
    }
    if i == n {
        assert(digits@.skip(i as int) =~= Seq::<char>::empty());
        return "0".to_owned();
    }
    assert(digits@.skip(i as int)[0] == digits@[i as int]);
    let rest = slice_subrange(digits, i, n);
    assert(rest@ =~= digits@.skip(i as int));
    string_of(rest)
}

fn fraction_text(digits: &[char]) -> (r: String)
    ensures
        r@ == short_fraction(digits@),
{
    let mut n: usize = digits.len();
    assert(digits@.take(n as int) =~= digits@);
    while n > 0 && digits[n - 1] == '0'
        invariant
            n <= digits@.len(),
            without_trailing_zeros(digits@) == without_trailing_zeros(digits@.take(n as int)),
        decreases n,
    {
        assert(digits@.take(n as int).last() == digits@[n - 1]);
        assert(digits@.take(n as int).drop_last() =~= digits@.take(n - 1));
        n = n - 1;
    }
    if n == 0 {
        assert(digits@.take(0) =~= Seq::<char>::empty());
        return "".to_owned();
    }
    assert(digits@.take(n as int).last() == digits@[n - 1]);
    let rest = slice_subrange(digits, 0, n);
    assert(rest@ =~= digits@.take(n as int));
    concat2(".", string_of(rest).as_str())
}

/// A short decimal in its shortest form; nothing where the text is none.
pub fn shortest_text(text: &str) -> (r: Option<String>)
    ensures
        match r {
            Some(short) => is_short_decimal(text@) && short@ == shortest(text@),
            None => !is_short_decimal(text@),
        },
{
    let c = chars_of(text);
    let s = c.as_slice();
    let n = s.len();
    let i = skip_sign(s, 0);
    let a = skip_digits(s, i);
    let mut m: usize = a;
    if a < n && s[a] == '.' {
        m = skip_digits(s, a + 1);
    }
    if !(a > i || m > i + 1) || m != n || n - i > SHORT_DECIMAL {
        return None;
    }
    let sign = if n > 0 && s[0] == '-' {
        "-"
    } else {
        ""
    };
    let whole = slice_subrange(s, i, a);
    assert(whole@ =~= text@.subrange(i as int, a as int));
    let fraction = if a < n {
        slice_subrange(s, a + 1, n)
    } else {
        slice_subrange(s, n, n)
    };
    assert(fraction@ =~= if a < n {
        text@.skip(a + 1)
    } else {
        Seq::empty()
    });
    Some(concat3(sign, whole_text(whole).as_str(), fraction_text(fraction).as_str()))
}

// ---------------------------------------------------------------------------
// Plain decimals
// ---------------------------------------------------------------------------

/// `s` is an optional sign, digits, and an optional point with digits behind.
pub open spec fn is_plain_decimal(s: Seq<char>) -> bool {
    let i = after_sign(s, 0);
    let a = digit_run(s, i);
    &&& a > i
    &&& a == s.len() || (s[a] == '.' && digit_run(s, a + 1) == s.len())
}

/// The whole part of the magnitude of a plain decimal.
pub open spec fn whole_part(s: Seq<char>) -> nat {
    let i = after_sign(s, 0);
    numeral_value(s.subrange(i, digit_run(s, i)), 10)
}

/// The magnitude of a plain decimal is not a whole number.
pub open spec fn has_fraction(s: Seq<char>) -> bool {
    exists|k: int| digit_run(s, after_sign(s, 0)) < k < s.len() && #[trigger] s[k] != '0'
}

/// The magnitude of a plain decimal is at most `limit`.
pub open spec fn magnitude_within(s: Seq<char>, limit: nat) -> bool {
    whole_part(s) < limit || (whole_part(s) == limit && !has_fraction(s))
}

/// A plain decimal writes a number below zero.
pub open spec fn is_below_zero(s: Seq<char>) -> bool {
    s[0] == '-' && !(whole_part(s) == 0 && !has_fraction(s))
}

/// How a decimal compares with zero and with a bound of its magnitude.
#[derive(Debug)]
pub struct DecimalSign {
    /// The number is below zero.
    pub below_zero: bool,
    /// The magnitude is at most the bound.
    pub within: bool,
}

/// Reads a plain decimal and compares it with `limit`.
pub fn compare_decimal(s: &[char], limit: u64) -> (r: Option<DecimalSign>)
    ensures
        match r {
            Some(d) => is_plain_decimal(s@) && d.below_zero == is_below_zero(s@) && d.within
                == magnitude_within(s@, limit as nat),
            None => !is_plain_decimal(s@),
        },
{
    let n = s.len();
    let i = skip_sign(s, 0);
    let a = skip_digits(s, i);
    if a == i {
        return None;
    }
    if a < n {
        if s[a] != '.' {
            return None;
        }
        let e = skip_digits(s, a + 1);
        if e != n {
            return None;
        }
    }
    let mut fraction = false;
    let mut k: usize = if a < n { a + 1 } else { n };
    while k < n
        invariant
            a <= n,
            a < n ==> a + 1 <= k,
            a == n ==> k == n,
            k <= n,
            n == s@.len(),
            fraction == exists|j: int| a < j < k && #[trigger] s@[j] != '0',
        decreases n - k,
    {
        if s[k] != '0' {
            fraction = true;
        }
        k = k + 1;
    }
    assert(fraction == has_fraction(s@));
    let whole = slice_subrange(s, i, a);
    proof {
        lemma_digit_run(s@, i as int);
        assert forall|j: int| 0 <= j < whole@.len() implies is_digit_of(#[trigger] whole@[j], 10) by {
            assert(is_ascii_digit(s@[i + j]));
        }
        assert(is_numeral(whole@, 10));
        assert(whole@[0] != '+') by {
            assert(is_digit_of(whole@[0], 10));
        }
    }
    let zero = match read_in_base(whole, 10, 0) {
        Some(_) => !fraction,
        None => false,
    };
    let within = match read_in_base(whole, 10, limit) {
        Some(v) => v < limit || !fraction,
        None => false,
    };
    Some(DecimalSign { below_zero: s[0] == '-' && !zero, within })
}

/// A plain decimal of 0 to `limit`.
pub open spec fn from_zero_to(s: Seq<char>, limit: nat) -> bool {
    is_plain_decimal(s) && !is_below_zero(s) && magnitude_within(s, limit)
}

/// A plain decimal of -`low` to `high`.
pub open spec fn from_to(s: Seq<char>, low: nat, high: nat) -> bool {
    is_plain_decimal(s) && magnitude_within(
        s,
        if is_below_zero(s) {
            low
        } else {
            high
        },
    )
}

/// Whether the text is a plain decimal of 0 to `limit`.
pub fn is_from_zero_to(s: &str, limit: u64) -> (r: bool)
    ensures
        r == from_zero_to(s@, limit as nat),
{
    let c = chars_of(s);
    match compare_decimal(c.as_slice(), limit) {
        Some(d) => !d.below_zero && d.within,
        None => false,
    }
}

/// Whether the text is a plain decimal of -`low` to `high`.
pub fn is_from_to(s: &str, low: u64, high: u64) -> (r: bool)
    ensures
        r == from_to(s@, low as nat, high as nat),
{
    let c = chars_of(s);
    match compare_decimal(c.as_slice(), high) {
        Some(d) => if d.below_zero {
            match compare_decimal(c.as_slice(), low) {
                Some(e) => e.within,
                None => false,
            }
        } else {
            d.within
        },
        None => false,
    }
}

// ---------------------------------------------------------------------------
// Laws
// ---------------------------------------------------------------------------

/// Every character is one of `0` to `9`.
pub open spec fn all_digits(s: Seq<char>) -> bool {
    forall|i: int| 0 <= i < s.len() ==> is_ascii_digit(#[trigger] s[i])
}

/// `sign` is nothing, or one plus or minus.
pub open spec fn may_be_sign(sign: Seq<char>) -> bool {
    sign.len() == 0 || sign == seq!['+'] || sign == seq!['-']
}

proof fn lemma_digit(c: char)
    ensures
        is_digit_of(c, 10) <==> is_ascii_digit(c),
        is_ascii_digit(c) ==> !is_sign(c) && c != '.',
{
}

proof fn lemma_run(s: Seq<char>, i: int, e: int)
    requires
        0 <= i <= e <= s.len(),
        forall|k: int| i <= k < e ==> is_ascii_digit(#[trigger] s[k]),
        e == s.len() || !is_ascii_digit(s[e]),
    ensures
        digit_run(s, i) == e,
    decreases e - i,
{
    if i < e {
        assert(is_ascii_digit(s[i]));
        lemma_run(s, i + 1, e);
    }
}

/// The text of a decimal: a sign or none, digits, and a point with digits behind
/// it or none.
pub open spec fn written(
    sign: Seq<char>,
    whole: Seq<char>,
    dotted: bool,
    fraction: Seq<char>,
) -> Seq<char> {
    sign + whole + if dotted {
        seq!['.'] + fraction
    } else {
        Seq::empty()
    }
}

proof fn lemma_written(
    sign: Seq<char>,
    whole: Seq<char>,
    dotted: bool,
    fraction: Seq<char>,
)
    requires
        may_be_sign(sign),
        all_digits(whole),
        all_digits(fraction),
        whole.len() > 0 || (dotted && fraction.len() > 0),
    ensures
        ({
            let s = written(sign, whole, dotted, fraction);
            let i = sign.len() as int;
            let a = i + whole.len();
            &&& s.len() == a + if dotted {
                1 + fraction.len()
            } else {
                0
            }
            &&& after_sign(s, 0) == i
            &&& digit_run(s, i) == a
            &&& dotted ==> s[a] == '.' && digit_run(s, a + 1) == s.len()
            &&& s.subrange(i, a) == whole
            &&& dotted ==> s.skip(a + 1) == fraction
            &&& s[0] == '-' <==> sign == seq!['-']
            &&& mantissa_has_digit(s, i)
            &&& mantissa_end(s, i) == s.len()
        }),
{
    let s = written(sign, whole, dotted, fraction);
    let i = sign.len() as int;
    let a = i + whole.len();
    assert forall|k: int| i <= k < a implies is_ascii_digit(#[trigger] s[k]) by {
        assert(s[k] == whole[k - i]);
    }
    if dotted {
        assert(s[a] == '.');
        assert forall|k: int| a + 1 <= k < s.len() implies is_ascii_digit(#[trigger] s[k]) by {
            assert(s[k] == fraction[k - a - 1]);
        }
        lemma_run(s, a + 1, s.len() as int);
        assert(s.skip(a + 1) =~= fraction);
    }
    if i == 0 {
        if whole.len() > 0 {
            assert(s[0] == whole[0]);
            assert(is_ascii_digit(s[0]));
            lemma_digit(s[0]);
        } else {
            assert(s[0] == '.');
        }
    } else {
        assert(s[0] == sign[0]);
    }
    lemma_run(s, i, a);
    assert(s.subrange(i, a) =~= whole);
}

/// A sign or none, digits, and a point with digits behind it or none write a
/// real number, as long as there is a digit.
pub proof fn law_decimals_are_real(
    sign: Seq<char>,
    whole: Seq<char>,
    dotted: bool,
    fraction: Seq<char>,
)
    requires
        may_be_sign(sign),
        all_digits(whole),
        all_digits(fraction),
        whole.len() > 0 || (dotted && fraction.len() > 0),
    ensures
        is_real(written(sign, whole, dotted, fraction)),
        whole.len() > 0 ==> is_plain_decimal(written(sign, whole, dotted, fraction)),
{
    lemma_written(sign, whole, dotted, fraction);
}

/// A decimal lies from zero to a limit where it is not below zero and its whole
/// part is below the limit, or is the limit and nothing but zeros stand behind
/// the point.
pub proof fn law_range_of_decimals(
    sign: Seq<char>,
    n: nat,
    dotted: bool,
    fraction: Seq<char>,
    low: nat,
    high: nat,
)
    requires
        may_be_sign(sign),
        all_digits(fraction),
    ensures
        ({
            let s = written(sign, decimal(n), dotted, fraction);
            let more = dotted && exists|k: int| 0 <= k < fraction.len() && #[trigger] fraction[k]
                != '0';
            let zero = n == 0 && !more;
            let below = sign == seq!['-'] && !zero;
            let up_to = |limit: nat| n < limit || (n == limit && !more);
            &&& from_zero_to(s, high) <==> !below && up_to(high)
            &&& from_to(s, low, high) <==> (below && up_to(low)) || (!below && up_to(high))
            &&& is_below_zero(s) <==> below
        }),
{
    let d = decimal(n);
    let s = written(sign, d, dotted, fraction);
    law_read_back(n, 10);
    assert forall|i: int| 0 <= i < d.len() implies is_ascii_digit(#[trigger] d[i]) by {
        assert(is_digit_of(d[i], 10));
        lemma_digit(d[i]);
    }
    lemma_written(sign, d, dotted, fraction);
    let i = sign.len() as int;
    let a = i + d.len();
    let more = dotted && exists|k: int| 0 <= k < fraction.len() && #[trigger] fraction[k] != '0';
    assert(whole_part(s) == n);
    if more {
        let k = choose|k: int| 0 <= k < fraction.len() && #[trigger] fraction[k] != '0';
        assert(s[a + 1 + k] == fraction[k]);
        assert(has_fraction(s));
    }
    if has_fraction(s) {
        let k = choose|k: int| a < k < s.len() && #[trigger] s[k] != '0';
        assert(fraction[k - a - 1] == s[k]);
        assert(more);
    }
}

/// A text that begins with anything but a sign, a digit, a point, or the first
/// letter of "infinity" or "nan" writes no number, nor does an empty one.
pub proof fn law_other_text_is_not_real(s: Seq<char>, c: char)
    requires
        s.len() == 0 || (s[0] == c && !is_sign(c) && !is_ascii_digit(c) && c != '.' && c != 'i'
            && c != 'I' && c != 'n' && c != 'N'),
    ensures
        !is_real(s),
        !is_plain_decimal(s),
{
    reveal_strlit("inf");
    reveal_strlit("infinity");
    reveal_strlit("nan");
    if s.len() > 0 {
        assert(s[0int + 0int] == c);
        assert(crate::text::ascii_lower(c) != 'i' && crate::text::ascii_lower(c) != 'n');
        assert("inf"@[0] == 'i' && "infinity"@[0] == 'i' && "nan"@[0] == 'n');
        assert(!is_word_at(s, 0, "inf"@)) by {
            if is_word_at(s, 0, "inf"@) {
                assert(crate::text::ascii_lower(s[0int + 0int]) == "inf"@[0]);
            }
        }
        assert(!is_word_at(s, 0, "infinity"@)) by {
            if is_word_at(s, 0, "infinity"@) {
                assert(crate::text::ascii_lower(s[0int + 0int]) == "infinity"@[0]);
            }
        }
        assert(!is_word_at(s, 0, "nan"@)) by {
            if is_word_at(s, 0, "nan"@) {
                assert(crate::text::ascii_lower(s[0int + 0int]) == "nan"@[0]);
            }
        }
    }
}

proof fn lemma_no_leading_zeros(zeros: Seq<char>, s: Seq<char>)
    requires
        forall|i: int| 0 <= i < zeros.len() ==> zeros[i] == '0',
        s.len() == 0 || s[0] != '0',
    ensures
        without_leading_zeros(zeros + s) == s,
    decreases zeros.len(),
{
    if zeros.len() > 0 {
        assert((zeros + s)[0] == '0');
        assert((zeros + s).skip(1) =~= zeros.skip(1) + s);
        lemma_no_leading_zeros(zeros.skip(1), s);
    } else {
        assert(zeros + s =~= s);
    }
}

proof fn lemma_no_trailing_zeros(s: Seq<char>, zeros: Seq<char>)
    requires
        forall|i: int| 0 <= i < zeros.len() ==> zeros[i] == '0',
        s.len() == 0 || s.last() != '0',
    ensures
        without_trailing_zeros(s + zeros) == s,
    decreases zeros.len(),
{
    if zeros.len() > 0 {
        assert((s + zeros).last() == '0');
        assert((s + zeros).drop_last() =~= s + zeros.drop_last());
        lemma_no_trailing_zeros(s, zeros.drop_last());
    } else {
        assert(s + zeros =~= s);
    }
}

/// The shortest form of a short decimal leaves out a plus, the zeros in front of
/// its whole part, those behind its fraction, and a point with nothing behind
/// it; nothing else. A whole part without digits is a zero.
pub proof fn law_shortest_form(
    sign: Seq<char>,
    front: Seq<char>,
    whole: Seq<char>,
    dotted: bool,
    fraction: Seq<char>,
    back: Seq<char>,
)
    requires
        may_be_sign(sign),
        forall|i: int| 0 <= i < front.len() ==> front[i] == '0',
        forall|i: int| 0 <= i < back.len() ==> back[i] == '0',
        all_digits(whole),
        all_digits(fraction),
        whole.len() == 0 || whole[0] != '0',
        fraction.len() == 0 || fraction.last() != '0',
        !dotted ==> fraction.len() == 0 && back.len() == 0,
        (front + whole).len() > 0 || (fraction + back).len() > 0,
    ensures
        ({
            let s = written(sign, front + whole, dotted, fraction + back);
            let minus = if sign == seq!['-'] {
                sign
            } else {
                Seq::empty()
            };
            let shown = if whole.len() == 0 {
                seq!['0']
            } else {
                whole
            };
            &&& is_short_decimal(s) <==> s.len() - sign.len() <= 15
            &&& shortest(s) == minus + shown + if fraction.len() == 0 {
                Seq::empty()
            } else {
                seq!['.'] + fraction
            }
        }),
{
    let w = front + whole;
    let f = fraction + back;
    assert forall|i: int| 0 <= i < w.len() implies is_ascii_digit(#[trigger] w[i]) by {
        if i >= front.len() {
            assert(w[i] == whole[i - front.len()]);
        } else {
            assert(w[i] == front[i]);
        }
    }
    assert forall|i: int| 0 <= i < f.len() implies is_ascii_digit(#[trigger] f[i]) by {
        if i < fraction.len() {
            assert(f[i] == fraction[i]);
        } else {
            assert(f[i] == back[i - fraction.len()]);
        }
    }
    lemma_written(sign, w, dotted, f);
    lemma_no_leading_zeros(front, whole);
    lemma_no_trailing_zeros(fraction, back);
    reveal_strlit("0");
    reveal_strlit("");
    reveal_strlit(".");
    reveal_strlit("-");
    assert("0"@ =~= seq!['0']);
    assert(""@ =~= Seq::<char>::empty());
    assert("."@ =~= seq!['.']);
    assert("-"@ =~= seq!['-']);
    let s = written(sign, w, dotted, f);
    if !dotted {
        assert(f =~= Seq::<char>::empty());
    }
}

} // verus!
