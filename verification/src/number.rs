//! Integers written as text.

use crate::text::chars_of;
use vstd::prelude::*;

verus! {

// ---------------------------------------------------------------------------
// Writing
// ---------------------------------------------------------------------------

/// The digit for a value below 16; letters are capitals.
pub open spec fn digit_char(d: nat) -> char {
    if d < 10 {
        (48 + d) as char
    } else {
        (55 + d) as char
    }
}

/// `n` written in base `radix`, without leading zeros.
pub open spec fn in_base(n: nat, radix: nat) -> Seq<char>
    decreases n,
{
    if radix < 2 || n < radix {
        seq![digit_char(n)]
    } else {
        proof {
            assert(n / radix < n) by (nonlinear_arith)
                requires
                    2 <= radix <= n,
            ;
        }
        in_base(n / radix, radix).push(digit_char(n % radix))
    }
}

/// `n` written in decimal.
pub open spec fn decimal(n: nat) -> Seq<char> {
    in_base(n, 10)
}

/// `s` with zeros in front, so that it has at least `width` characters.
pub open spec fn zero_padded(s: Seq<char>, width: nat) -> Seq<char> {
    if s.len() >= width {
        s
    } else {
        Seq::new((width - s.len()) as nat, |i: int| '0') + s
    }
}

/// The six capital hexadecimal digits of a 24-bit word.
pub open spec fn hex6(n: nat) -> Seq<char> {
    zero_padded(in_base(n, 16), 6)
}

fn digit_for(d: u64) -> (c: char)
    requires
        d < 16,
    ensures
        c == digit_char(d as nat),
{
    if d < 10 {
        (48 + d as u8) as char
    } else {
        (55 + d as u8) as char
    }
}

/// Appends `n`, written in base `radix`, to `out`.
pub fn push_in_base(out: &mut String, n: u64, radix: u64)
    requires
        2 <= radix <= 16,
    ensures
        final(out)@ == old(out)@ + in_base(n as nat, radix as nat),
    decreases n,
{
    if n < radix {
        out.push(digit_for(n));
    } else {
        assert(0 <= n / radix < n) by (nonlinear_arith)
            requires
                2 <= radix <= n,
        ;
        assert(0 <= n % radix < radix) by (nonlinear_arith)
            requires
                2 <= radix,
        ;
        push_in_base(out, n / radix, radix);
        out.push(digit_for(n % radix));
    }
    assert(out@ =~= old(out)@ + in_base(n as nat, radix as nat));
}

/// `n` written in decimal.
pub fn decimal_text(n: u64) -> (r: String)
    ensures
        r@ == decimal(n as nat),
{
    let mut out = String::new();
    push_in_base(&mut out, n, 10);
    assert(out@ =~= decimal(n as nat));
    out
}

/// `n` written in base `radix` with at least `width` digits.
pub fn padded_text(n: u64, radix: u64, width: usize) -> (r: String)
    requires
        2 <= radix <= 16,
    ensures
        r@ == zero_padded(in_base(n as nat, radix as nat), width as nat),
{
    let mut digits = String::new();
    push_in_base(&mut digits, n, radix);
    assert(digits@ =~= in_base(n as nat, radix as nat));
    let c = chars_of(digits.as_str());
    let mut out = String::new();
    if c.len() < width {
        let missing = width - c.len();
        for i in 0..missing
            invariant
                out@ =~= Seq::new(i as nat, |k: int| '0'),
        {
            out.push('0');
        }
    }
    out.append(digits.as_str());
    assert(out@ =~= zero_padded(in_base(n as nat, radix as nat), width as nat));
    out
}

// ---------------------------------------------------------------------------
// Reading
// ---------------------------------------------------------------------------

/// The value of a digit or letter: `0` to `9`, then `a` (or `A`) to `z` (or
/// `Z`) for 10 to 35.
pub open spec fn digit_value(c: char) -> Option<nat> {
    let v = c as u32 as nat;
    if 48 <= v <= 57 {
        Some((v - 48) as nat)
    } else if 97 <= v <= 122 {
        Some((v - 87) as nat)
    } else if 65 <= v <= 90 {
        Some((v - 55) as nat)
    } else {
        None
    }
}

/// `c` is a digit of base `radix`.
pub open spec fn is_digit_of(c: char, radix: nat) -> bool {
    digit_value(c) matches Some(d) && d < radix
}

/// `s` is made of digits of base `radix`, at least one.
pub open spec fn is_numeral(s: Seq<char>, radix: nat) -> bool {
    s.len() > 0 && forall|i: int| 0 <= i < s.len() ==> is_digit_of(#[trigger] s[i], radix)
}

/// The number that the digits of `s` write in base `radix`.
pub open spec fn numeral_value(s: Seq<char>, radix: nat) -> nat
    decreases s.len(),
{
    if s.len() == 0 {
        0
    } else {
        numeral_value(s.drop_last(), radix) * radix + digit_value(s.last())->0
    }
}

/// `s` without the plus sign that it may begin with.
pub open spec fn unsigned_part(s: Seq<char>) -> Seq<char> {
    if s.len() > 0 && s[0] == '+' {
        s.skip(1)
    } else {
        s
    }
}

/// The number that `s` writes in base `radix`: an optional plus sign, then
/// digits, of a value of at most `max`.
pub open spec fn parse_in_base(s: Seq<char>, radix: nat, max: nat) -> Option<nat> {
    let d = unsigned_part(s);
    if is_numeral(d, radix) && numeral_value(d, radix) <= max {
        Some(numeral_value(d, radix))
    } else {
        None
    }
}

/// The decimal number that `s` writes, of at most `max`.
pub open spec fn parse_decimal(s: Seq<char>, max: nat) -> Option<nat> {
    parse_in_base(s, 10, max)
}

/// The 64-bit integer that `s` writes: an optional sign, then decimal digits.
pub open spec fn parse_signed(s: Seq<char>) -> Option<int> {
    if s.len() > 0 && s[0] == '-' {
        let d = s.skip(1);
        if is_numeral(d, 10) && numeral_value(d, 10) <= 0x8000_0000_0000_0000 {
            Some(-(numeral_value(d, 10) as int))
        } else {
            None
        }
    } else {
        match parse_decimal(s, 0x7fff_ffff_ffff_ffff) {
            Some(v) => Some(v as int),
            None => None,
        }
    }
}

/// The value of the first digits never exceeds that of all of them.
proof fn lemma_numeral_prefix(s: Seq<char>, radix: nat, k: int)
    requires
        0 <= k <= s.len(),
        radix >= 1,
    ensures
        numeral_value(s.take(k), radix) <= numeral_value(s, radix),
    decreases s.len(),
{
    if k == s.len() {
        assert(s.take(k) == s);
    } else {
        assert(s.drop_last().take(k) == s.take(k));
        lemma_numeral_prefix(s.drop_last(), radix, k);
        let v = numeral_value(s.drop_last(), radix);
        assert(v <= v * radix) by (nonlinear_arith)
            requires
                radix >= 1,
        ;
    }
}

fn digit_of(c: char) -> (r: Option<u64>)
    ensures
        match r {
            Some(d) => digit_value(c) == Some(d as nat) && d < 36,
            None => digit_value(c) is None,
        },
{
    let v: u32 = c as u32;
    if 48 <= v && v <= 57 {
        Some((v - 48) as u64)
    } else if 97 <= v && v <= 122 {
        Some((v - 87) as u64)
    } else if 65 <= v && v <= 90 {
        Some((v - 55) as u64)
    } else {
        None
    }
}

/// Reads the digits of `s` from position `from` on.
fn read_numeral(s: &[char], from: usize, radix: u64, max: u64) -> (r: Option<u64>)
    requires
        2 <= radix <= 36,
        from <= s@.len(),
    ensures
        ({
            let d = s@.skip(from as int);
            match r {
                Some(v) => is_numeral(d, radix as nat) && v == numeral_value(d, radix as nat) && v
                    <= max,
                None => !(is_numeral(d, radix as nat) && numeral_value(d, radix as nat) <= max),
            }
        }),
{
    let n = s.len();
    if from == n {
        return None;
    }
    let ghost d = s@.skip(from as int);
    let mut acc: u64 = 0;
    let mut i: usize = from;
    while i < n
        invariant
            from <= i <= n,
            n == s@.len(),
            d == s@.skip(from as int),
            2 <= radix <= 36,
            acc <= max,
            acc == numeral_value(d.take(i - from), radix as nat),
            forall|k: int| 0 <= k < i - from ==> is_digit_of(#[trigger] d[k], radix as nat),
        decreases n - i,
    {
        assert(d[i - from] == s@[i as int]);
        let digit: u64 = match digit_of(s[i]) {
            Some(v) => v,
            None => {
                assert(!is_digit_of(d[i - from], radix as nat));
                return None;
            },
        };
        if digit >= radix {
            assert(!is_digit_of(d[i - from], radix as nat));
            return None;
        }
        assert(0 <= acc as u128 * radix as u128 <= 0xffff_ffff_ffff_ffff * 36) by (nonlinear_arith)
            requires
                0 <= acc <= 0xffff_ffff_ffff_ffff,
                0 <= radix <= 36,
        ;
        let next: u128 = acc as u128 * radix as u128 + digit as u128;
        proof {
            assert(d.take(i + 1 - from).drop_last() == d.take(i - from));
            assert(d.take(i + 1 - from).last() == d[i - from]);
            assert(next == numeral_value(d.take(i + 1 - from), radix as nat));
        }
        if next > max as u128 {
            proof {
                lemma_numeral_prefix(d, radix as nat, i + 1 - from);
            }
            return None;
        }
        acc = next as u64;
        i = i + 1;
    }
    assert(d.take(n - from) == d);
    Some(acc)
}

/// The number that `s` writes in base `radix`, where it is at most `max`.
pub fn read_in_base(s: &[char], radix: u64, max: u64) -> (r: Option<u64>)
    requires
        2 <= radix <= 36,
    ensures
        match r {
            Some(v) => parse_in_base(s@, radix as nat, max as nat) == Some(v as nat) && v <= max,
            None => parse_in_base(s@, radix as nat, max as nat) is None,
        },
{
    if s.len() > 0 && s[0] == '+' {
        read_numeral(s, 1, radix, max)
    } else {
        assert(s@.skip(0) == s@);
        read_numeral(s, 0, radix, max)
    }
}

/// The decimal number that the string `s` writes, where it is at most `max`.
pub fn read_decimal(s: &str, max: u64) -> (r: Option<u64>)
    ensures
        match r {
            Some(v) => parse_decimal(s@, max as nat) == Some(v as nat) && v <= max,
            None => parse_decimal(s@, max as nat) is None,
        },
{
    let c = chars_of(s);
    read_in_base(c.as_slice(), 10, max)
}

/// The 64-bit integer that `s` writes.
pub fn read_signed(s: &[char]) -> (r: Option<i64>)
    ensures
        match r {
            Some(v) => parse_signed(s@) == Some(v as int),
            None => parse_signed(s@) is None,
        },
{
    if s.len() > 0 && s[0] == '-' {
        match read_numeral(s, 1, 10, 0x8000_0000_0000_0000) {
            Some(v) => Some((-(v as i128)) as i64),
            None => None,
        }
    } else {
        match read_in_base(s, 10, 0x7fff_ffff_ffff_ffff) {
            Some(v) => Some(v as i64),
            None => None,
        }
    }
}

/// Every digit that `in_base` writes is a digit, and `numeral_value` reads the
/// number back.
pub proof fn law_read_back(n: nat, radix: nat)
    requires
        2 <= radix <= 16,
    ensures
        is_numeral(in_base(n, radix), radix),
        numeral_value(in_base(n, radix), radix) == n,
    decreases n,
{
    let w = in_base(n, radix);
    if n < radix {
        assert(w.drop_last() =~= Seq::<char>::empty());
        assert(w.last() == digit_char(n));
        assert(numeral_value(w.drop_last(), radix) == 0);
        assert(0 * radix == 0) by (nonlinear_arith);
    } else {
        assert(n / radix < n) by (nonlinear_arith)
            requires
                2 <= radix <= n,
        ;
        assert(n % radix < radix && (n / radix) * radix + n % radix == n) by (nonlinear_arith)
            requires
                2 <= radix,
        ;
        law_read_back(n / radix, radix);
        assert(w.drop_last() == in_base(n / radix, radix));
        assert(w.last() == digit_char(n % radix));
        assert forall|i: int| 0 <= i < w.len() implies is_digit_of(#[trigger] w[i], radix) by {
            if i < w.len() - 1 {
                assert(w[i] == in_base(n / radix, radix)[i]);
            }
        }
    }
}

/// A decimal number that was written is read back, where it is at most `max`.
pub proof fn law_decimal_round_trip(n: nat, max: nat)
    requires
        n <= max,
    ensures
        parse_decimal(decimal(n), max) == Some(n),
{
    law_read_back(n, 10);
    let w = decimal(n);
    assert(is_digit_of(w[0], 10));
    assert(w[0] != '+');
}

/// What `hex6` writes of a 24-bit word has six characters and is read back.
pub proof fn law_hex6_round_trip(n: nat)
    requires
        n < 0x100_0000,
    ensures
        hex6(n).len() == 6,
        parse_in_base(hex6(n), 16, 0xffff_ffff) == Some(n),
{
    law_read_back(n, 16);
    assert(pow16(6) == 0x100_0000) by {
        reveal_with_fuel(pow16, 7);
    }
    lemma_base16_len(n, 6);
    let w = in_base(n, 16);
    let h = hex6(n);
    assert forall|i: int| 0 <= i < h.len() implies is_digit_of(#[trigger] h[i], 16) by {
        let z = h.len() - w.len();
        if i >= z {
            assert(h[i] == w[i - z]);
        }
    }
    let zeros = Seq::new((6 - w.len()) as nat, |i: int| '0');
    assert(h =~= zeros + w);
    lemma_leading_zeros(zeros, w, 16);
    assert(is_digit_of(h[0], 16));
    assert(h[0] != '+');
}

proof fn lemma_base16_len(n: nat, width: nat)
    requires
        width >= 1,
        n < pow16(width),
    ensures
        in_base(n, 16).len() <= width,
        in_base(n, 16).len() >= 1,
    decreases width,
{
    if n >= 16 {
        if width == 1 {
            assert(pow16(1) == 16) by {
                reveal_with_fuel(pow16, 2);
            }
        }
        lemma_base16_len(n / 16, (width - 1) as nat);
    }
}

spec fn pow16(k: nat) -> nat
    decreases k,
{
    if k == 0 {
        1
    } else {
        16 * pow16((k - 1) as nat)
    }
}

proof fn lemma_leading_zeros(z: Seq<char>, w: Seq<char>, radix: nat)
    requires
        forall|i: int| 0 <= i < z.len() ==> z[i] == '0',
    ensures
        numeral_value(z + w, radix) == numeral_value(w, radix),
    decreases z.len() + w.len(),
{
    let s = z + w;
    if w.len() > 0 {
        assert(s.drop_last() =~= z + w.drop_last());
        assert(s.last() == w.last());
        lemma_leading_zeros(z, w.drop_last(), radix);
    } else if z.len() > 0 {
        assert(s =~= z);
        assert(s.drop_last() =~= z.drop_last() + w);
        assert(s.last() == '0');
        lemma_leading_zeros(z.drop_last(), w, radix);
        assert(numeral_value(w, radix) == 0);
        assert(0 * radix == 0) by (nonlinear_arith);
    } else {
        assert(s =~= w);
    }
}

/// A number below ten is written with its digit, and each further digit stands
/// behind those of the number without it.
pub proof fn law_decimal_digits(n: nat, d: nat)
    requires
        d < 10,
    ensures
        decimal(d) == seq![(0x30 + d) as char],
        n > 0 ==> decimal(10 * n + d) == decimal(n).push((0x30 + d) as char),
{
    if n > 0 {
        assert((10 * n + d) / 10 == n && (10 * n + d) % 10 == d);
    }
}

/// Zeros in front do not change the number that is read, and fill the width.
pub proof fn law_padded_read_back(n: nat, width: nat)
    ensures
        is_numeral(zero_padded(decimal(n), width), 10),
        numeral_value(zero_padded(decimal(n), width), 10) == n,
        zero_padded(decimal(n), width).len() == if decimal(n).len() >= width {
            decimal(n).len()
        } else {
            width
        },
{
    law_read_back(n, 10);
    let w = decimal(n);
    let p = zero_padded(w, width);
    if w.len() < width {
        let zeros = Seq::new((width - w.len()) as nat, |i: int| '0');
        assert(p =~= zeros + w);
        lemma_leading_zeros(zeros, w, 10);
        assert forall|i: int| 0 <= i < p.len() implies is_digit_of(#[trigger] p[i], 10) by {
            if i >= zeros.len() {
                assert(p[i] == w[i - zeros.len()]);
            }
        }
    }
}

/// A number that was written with or without a sign is read back.
pub proof fn law_signed_round_trip(n: nat)
    requires
        n <= 0x7fff_ffff_ffff_ffff,
    ensures
        parse_signed(decimal(n)) == Some(n as int),
        parse_signed(seq!['+'] + decimal(n)) == Some(n as int),
        parse_signed(seq!['-'] + decimal(n)) == Some(-(n as int)),
        parse_decimal(seq!['+'] + decimal(n), 0x7fff_ffff_ffff_ffff) == Some(n),
{
    law_read_back(n, 10);
    let w = decimal(n);
    assert(is_digit_of(w[0], 10));
    assert((seq!['+'] + w).skip(1) =~= w);
    assert((seq!['-'] + w).skip(1) =~= w);
    assert(w[0] != '-' && w[0] != '+');
}

/// A text that holds anything but digits behind its first character, or that is
/// empty, is no number.
pub proof fn law_other_text_is_no_number(s: Seq<char>, i: int, c: char, max: nat)
    requires
        s.len() == 0 || (1 <= i < s.len() && s[i] == c && !('0' <= c <= '9')),
    ensures
        parse_decimal(s, max) is None,
        parse_signed(s) is None,
{
    if s.len() > 0 {
        assert(!is_digit_of(s[i], 10));
        assert(s.skip(1)[i - 1] == s[i]);
    }
}

/// The digits above nine are the letters from A on, large or small.
pub proof fn law_letters_are_digits(d: nat)
    requires
        10 <= d < 16,
    ensures
        digit_value((0x41 + (d - 10)) as char) == Some(d),
        digit_value((0x61 + (d - 10)) as char) == Some(d),
        in_base(d, 16) == seq![(0x41 + (d - 10)) as char],
{
}

} // verus!
