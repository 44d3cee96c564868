//! Coordinates written as three parts with colons between them.
//!
//! The last part (and, where a caller asks for it, each part) is a real number
//! and stays text; whole parts are read as integers.

use crate::number::{
    decimal, is_digit_of, law_read_back, law_signed_round_trip, parse_decimal, parse_signed,
    read_in_base, read_signed,
};
use crate::reals::{is_real, writes_real};
use crate::text::{
    chars_of, find_from, is_white, lemma_trim_end, occurs_at, split, split_by, string_of, trim,
    trim_end, trim_start, trimmed, views,
};
use vstd::prelude::*;
use vstd::slice::slice_subrange;

verus! {

/// The parts of `s` between its colons.
pub open spec fn colon_parts(s: Seq<char>) -> Seq<Seq<char>> {
    split(s, seq![':'])
}

fn parts_of(s: &[char]) -> (r: Vec<Vec<char>>)
    ensures
        views(r@) == colon_parts(s@),
        r@.len() == colon_parts(s@).len(),
        forall|i: int| 0 <= i < r@.len() ==> (#[trigger] r@[i])@ == colon_parts(s@)[i],
{
    let mut colon: Vec<char> = Vec::new();
    colon.push(':');
    assert(colon@ =~= seq![':']);
    let r = split_by(s, colon.as_slice());
    assert(views(r@).len() == r@.len());
    assert forall|i: int| 0 <= i < r@.len() implies (#[trigger] r@[i])@ == colon_parts(s@)[i] by {
        assert(views(r@)[i] == r@[i]@);
    }
    r
}

/// A right ascension "HH:MM:SS": hours and minutes below 256, real seconds.
pub open spec fn time_parts(s: Seq<char>) -> Option<(nat, nat, Seq<char>)> {
    let p = colon_parts(trim(s));
    if p.len() == 3 {
        match (parse_decimal(p[0], 255), parse_decimal(p[1], 255)) {
            (Some(h), Some(m)) => if is_real(p[2]) {
                Some((h, m, p[2]))
            } else {
                None
            },
            _ => None,
        }
    } else {
        None
    }
}

/// An angle: its sign, and how large it is in degrees, minutes and seconds. The
/// seconds are text. The sign stands apart from the degrees, so that an angle
/// of less than a degree has one too.
#[derive(Debug, Clone, PartialEq, Eq)]
pub struct Angle {
    pub negative: bool,
    pub degrees: u64,
    pub minutes: i64,
    pub seconds: String,
}

/// An angle, with its text.
pub struct AngleView {
    pub negative: bool,
    pub degrees: nat,
    pub minutes: int,
    pub seconds: Seq<char>,
}

impl View for Angle {
    type V = AngleView;

    open spec fn view(&self) -> AngleView {
        AngleView {
            negative: self.negative,
            degrees: self.degrees as nat,
            minutes: self.minutes as int,
            seconds: self.seconds@,
        }
    }
}

impl AngleView {
    /// The angle of the same size with the other sign.
    pub open spec fn opposite(self) -> AngleView {
        AngleView {
            negative: !self.negative,
            degrees: self.degrees,
            minutes: self.minutes,
            seconds: self.seconds,
        }
    }
}

/// `s` begins with a minus sign.
pub open spec fn has_minus(s: Seq<char>) -> bool {
    s.len() > 0 && s[0] == '-'
}

/// How far a number is from zero.
pub open spec fn magnitude(d: int) -> nat {
    if d < 0 {
        (-d) as nat
    } else {
        d as nat
    }
}

/// An angle out of three parts: whole degrees and minutes, and real seconds.
/// The sign in front of the degrees is that of the angle.
pub open spec fn angle_of(p: Seq<Seq<char>>) -> Option<AngleView> {
    if p.len() == 3 {
        match whole_whole_real(p) {
            Some((d, m, sec)) => Some(
                AngleView {
                    negative: has_minus(p[0]),
                    degrees: magnitude(d),
                    minutes: m,
                    seconds: sec,
                },
            ),
            None => None,
        }
    } else {
        None
    }
}

/// A declination "DD:MM:SS": whole degrees and minutes, real seconds. The
/// degrees carry the sign, so that zero degrees have none.
pub open spec fn angle_parts(s: Seq<char>) -> Option<(int, int, Seq<char>)> {
    let p = colon_parts(trim(s));
    if p.len() == 3 {
        whole_whole_real(p)
    } else {
        None
    }
}

/// Two whole numbers and a real one, out of three parts.
pub open spec fn whole_whole_real(p: Seq<Seq<char>>) -> Option<(int, int, Seq<char>)> {
    match (parse_signed(p[0]), parse_signed(p[1])) {
        (Some(d), Some(m)) => if is_real(p[2]) {
            Some((d, m, p[2]))
        } else {
            None
        },
        _ => None,
    }
}

/// Three real numbers with colons between them.
pub open spec fn real_triple(s: Seq<char>) -> Option<(Seq<char>, Seq<char>, Seq<char>)> {
    let p = colon_parts(trim(s));
    if p.len() == 3 && is_real(p[0]) && is_real(p[1]) && is_real(p[2]) {
        Some((p[0], p[1], p[2]))
    } else {
        None
    }
}

/// `s` where it writes a real number, else zero.
pub open spec fn real_or_zero(s: Seq<char>) -> Seq<char> {
    if is_real(s) {
        s
    } else {
        "0"@
    }
}

/// Three parts with colons between them, a part that writes no real number
/// counting as zero.
pub open spec fn loose_triple(s: Seq<char>) -> Option<(Seq<char>, Seq<char>, Seq<char>)> {
    let p = colon_parts(trim(s));
    if p.len() == 3 {
        Some((real_or_zero(p[0]), real_or_zero(p[1]), real_or_zero(p[2])))
    } else {
        None
    }
}

/// Reads a right ascension "HH:MM:SS".
pub fn parse_time(s: &str) -> (r: Option<(u8, u8, String)>)
    ensures
        match r {
            Some((h, m, sec)) => time_parts(s@) == Some((h as nat, m as nat, sec@)),
            None => time_parts(s@) is None,
        },
{
    let c = chars_of(s);
    let p = parts_of(trimmed(c.as_slice()));
    if p.len() != 3 {
        return None;
    }
    let h = match read_in_base(p[0].as_slice(), 10, 255) {
        Some(v) => v,
        None => return None,
    };
    let m = match read_in_base(p[1].as_slice(), 10, 255) {
        Some(v) => v,
        None => return None,
    };
    if !writes_real(p[2].as_slice()) {
        return None;
    }
    Some((h as u8, m as u8, string_of(p[2].as_slice())))
}

fn read_whole_whole_real(p: &Vec<Vec<char>>) -> (r: Option<(i64, i64, String)>)
    requires
        p@.len() == 3,
    ensures
        match r {
            Some((d, m, sec)) => whole_whole_real(views(p@)) == Some((d as int, m as int, sec@)),
            None => whole_whole_real(views(p@)) is None,
        },
{
    let d = match read_signed(p[0].as_slice()) {
        Some(v) => v,
        None => return None,
    };
    let m = match read_signed(p[1].as_slice()) {
        Some(v) => v,
        None => return None,
    };
    if !writes_real(p[2].as_slice()) {
        return None;
    }
    Some((d, m, string_of(p[2].as_slice())))
}

/// Reads an angle out of its parts. `turned` turns its sign round.
fn read_angle(p: &Vec<Vec<char>>, turned: bool) -> (r: Option<Angle>)
    ensures
        match r {
            Some(angle) => match angle_of(views(p@)) {
                Some(v) => angle@ == if turned {
                    v.opposite()
                } else {
                    v
                },
                None => false,
            },
            None => angle_of(views(p@)) is None,
        },
{
    if p.len() != 3 {
        return None;
    }
    match read_whole_whole_real(p) {
        Some((d, m, sec)) => {
            let minus = p[0].len() > 0 && p[0][0] == '-';
            assert(views(p@)[0] == p@[0]@);
            let size: i128 = if d < 0 {
                -(d as i128)
            } else {
                d as i128
            };
            Some(Angle { negative: minus != turned, degrees: size as u64, minutes: m, seconds: sec })
        },
        None => None,
    }
}

/// Reads a declination "DD:MM:SS".
pub fn parse_angle(s: &str) -> (r: Option<(i64, i64, String)>)
    ensures
        match r {
            Some((d, m, sec)) => angle_parts(s@) == Some((d as int, m as int, sec@)),
            None => angle_parts(s@) is None,
        },
{
    let c = chars_of(s);
    let p = parts_of(trimmed(c.as_slice()));
    if p.len() != 3 {
        return None;
    }
    read_whole_whole_real(&p)
}

/// Reads three real numbers with colons between them.
pub fn parse_real_triple(s: &str) -> (r: Option<(String, String, String)>)
    ensures
        match r {
            Some((a, b, c)) => real_triple(s@) == Some((a@, b@, c@)),
            None => real_triple(s@) is None,
        },
{
    let c = chars_of(s);
    let p = parts_of(trimmed(c.as_slice()));
    if p.len() != 3 {
        return None;
    }
    if !(writes_real(p[0].as_slice()) && writes_real(p[1].as_slice()) && writes_real(
        p[2].as_slice(),
    )) {
        return None;
    }
    Some((string_of(p[0].as_slice()), string_of(p[1].as_slice()), string_of(p[2].as_slice())))
}

fn real_or_zero_text(s: &[char]) -> (r: String)
    ensures
        r@ == real_or_zero(s@),
{
    if writes_real(s) {
        string_of(s)
    } else {
        "0".to_owned()
    }
}

/// Reads three parts, a part that writes no real number counting as zero.
pub fn parse_loose_triple(s: &str) -> (r: Option<(String, String, String)>)
    ensures
        match r {
            Some((a, b, c)) => loose_triple(s@) == Some((a@, b@, c@)),
            None => loose_triple(s@) is None,
        },
{
    let c = chars_of(s);
    let p = parts_of(trimmed(c.as_slice()));
    if p.len() != 3 {
        return None;
    }
    Some(
        (
            real_or_zero_text(p[0].as_slice()),
            real_or_zero_text(p[1].as_slice()),
            real_or_zero_text(p[2].as_slice()),
        ),
    )
}

// ---------------------------------------------------------------------------
// Catalogue coordinates
// ---------------------------------------------------------------------------

/// A catalogue right ascension like "14:03:12.54".
pub open spec fn catalogue_ra(s: Seq<char>) -> Option<(int, int, Seq<char>)> {
    let p = colon_parts(s);
    if p.len() == 3 {
        whole_whole_real(p)
    } else {
        None
    }
}

/// What stands behind the sign of a catalogue declination.
pub open spec fn behind_sign(s: Seq<char>) -> Seq<char> {
    if s.len() > 0 && (s[0] == '-' || s[0] == '+') {
        s.skip(1)
    } else {
        s
    }
}

/// A catalogue declination like "+54:20:56.2". A minus in front of it turns the
/// sign of what stands behind.
pub open spec fn catalogue_dec(s: Seq<char>) -> Option<AngleView> {
    let t = trim(s);
    match angle_of(colon_parts(behind_sign(t))) {
        Some(angle) => Some(
            if has_minus(t) {
                angle.opposite()
            } else {
                angle
            },
        ),
        None => None,
    }
}

/// Reads a catalogue right ascension like "14:03:12.54".
pub fn parse_ra(s: &str) -> (r: Option<(i64, i64, String)>)
    ensures
        match r {
            Some((h, m, sec)) => catalogue_ra(s@) == Some((h as int, m as int, sec@)),
            None => catalogue_ra(s@) is None,
        },
{
    let c = chars_of(s);
    let p = parts_of(c.as_slice());
    if p.len() != 3 {
        return None;
    }
    read_whole_whole_real(&p)
}

/// Reads a catalogue declination like "+54:20:56.2" or "-23:10:44.7".
pub fn parse_dec(s: &str) -> (r: Option<Angle>)
    ensures
        match r {
            Some(angle) => catalogue_dec(s@) == Some(angle@),
            None => catalogue_dec(s@) is None,
        },
{
    let c = chars_of(s);
    let t = trimmed(c.as_slice());
    let negative = t.len() > 0 && t[0] == '-';
    let p = if t.len() > 0 && (t[0] == '-' || t[0] == '+') {
        let rest = slice_subrange(t, 1, t.len());
        assert(rest@ =~= behind_sign(t@));
        parts_of(rest)
    } else {
        parts_of(t)
    };
    read_angle(&p, negative)
}

// ---------------------------------------------------------------------------
// Laws
// ---------------------------------------------------------------------------

/// A text in front of which a sign is written has no white space around it
/// where it had none before.
proof fn lemma_trim_signed(c: char, t: Seq<char>)
    requires
        c == '-' || c == '+',
        t.len() > 0,
        trim(t) == t,
    ensures
        trim(seq![c] + t) == seq![c] + t,
{
    let s = seq![c] + t;
    lemma_trim_end(trim_start(t));
    assert(!is_white(t.last()));
    assert(s[0] == c);
    assert(s.last() == t.last());
    assert(trim_start(s) == s);
    assert(trim_end(s) == s);
}

/// A minus in front of a declination turns its sign round, whatever its size;
/// a plus changes nothing.
pub proof fn law_sign_of_catalogue_declination(t: Seq<char>)
    requires
        t.len() > 0,
        trim(t) == t,
        t[0] != '-',
        t[0] != '+',
    ensures
        catalogue_dec(seq!['+'] + t) == catalogue_dec(t),
        catalogue_dec(seq!['-'] + t) == match catalogue_dec(t) {
            Some(angle) => Some(angle.opposite()),
            None => None,
        },
{
    lemma_trim_signed('+', t);
    lemma_trim_signed('-', t);
    assert((seq!['+'] + t).skip(1) =~= t);
    assert((seq!['-'] + t).skip(1) =~= t);
}

/// A character in front of a text moves what is found in it by one.
proof fn lemma_find_behind(c: char, t: Seq<char>, i: int)
    requires
        0 <= i,
    ensures
        find_from(seq![c] + t, seq![':'], i + 1) == match find_from(t, seq![':'], i) {
            Some(k) => Some(k + 1),
            None => None,
        },
    decreases t.len() + 1 - i,
{
    let s = seq![c] + t;
    let colon = seq![':'];
    if i <= t.len() {
        assert(i < t.len() ==> s[i + 1] == t[i]);
        assert(occurs_at(s, colon, i + 1) == occurs_at(t, colon, i)) by {
            assert(i < t.len() ==> s.subrange(i + 1, i + 2) =~= t.subrange(i, i + 1));
        }
        if !occurs_at(t, colon, i) {
            lemma_find_behind(c, t, i + 1);
        }
    }
}

/// A character in front of a text goes to the first of its parts.
proof fn lemma_parts_behind(c: char, t: Seq<char>)
    requires
        c != ':',
    ensures
        colon_parts(seq![c] + t).len() == colon_parts(t).len(),
        colon_parts(seq![c] + t)[0] == seq![c] + colon_parts(t)[0],
        forall|i: int|
            1 <= i < colon_parts(t).len() ==> colon_parts(seq![c] + t)[i] == #[trigger] colon_parts(
                t,
            )[i],
{
    let s = seq![c] + t;
    let colon = seq![':'];
    lemma_find_behind(c, t, 0);
    assert(!occurs_at(s, colon, 0)) by {
        if occurs_at(s, colon, 0) {
            assert(s[0int + 0int] == colon[0]);
        }
    }
    crate::text::lemma_find(t, colon);
    match find_from(t, colon, 0) {
        Some(k) => {
            assert(s.skip(k + 1 + 1) =~= t.skip(k + 1));
            assert(s.take(k + 1) =~= seq![c] + t.take(k));
        },
        None => {},
    }
}

/// A minus in front of a declination "DD:MM:SS" turns the sign of its degrees
/// round; a plus changes nothing.
pub proof fn law_sign_of_declination(t: Seq<char>)
    requires
        t.len() > 0,
        trim(t) == t,
        t[0] != '-',
        t[0] != '+',
    ensures
        angle_parts(seq!['+'] + t) == angle_parts(t),
        angle_parts(t) matches Some((d, m, sec)) ==> angle_parts(seq!['-'] + t) == Some(
            (-d, m, sec),
        ),
{
    let p = colon_parts(t);
    lemma_trim_signed('+', t);
    lemma_trim_signed('-', t);
    lemma_parts_behind('+', t);
    lemma_parts_behind('-', t);
    crate::text::lemma_find(t, seq![':']);
    let plus = colon_parts(seq!['+'] + t);
    let minus = colon_parts(seq!['-'] + t);
    assert(plus[0].skip(1) =~= p[0]);
    assert(minus[0].skip(1) =~= p[0]);
    assert(p[0].len() > 0 ==> p[0][0] == t[0]);
    if p.len() == 3 {
        assert(plus[1] == p[1] && plus[2] == p[2]);
        assert(minus[1] == p[1] && minus[2] == p[2]);
    }
}

/// Three parts with colons between them are told apart.
pub proof fn law_three_parts(a: Seq<char>, b: Seq<char>, c: Seq<char>)
    requires
        !a.contains(':'),
        !b.contains(':'),
        !c.contains(':'),
    ensures
        colon_parts(a + seq![':'] + (b + seq![':'] + c)) == seq![a, b, c],
{
    crate::text::law_split_at_the_first(a, ':', b + seq![':'] + c);
    crate::text::law_split_at_the_first(b, ':', c);
    crate::text::law_split_at_the_first(c, ':', Seq::empty());
    assert(colon_parts(a + seq![':'] + (b + seq![':'] + c)) =~= seq![a, b, c]);
}

proof fn lemma_numeral_has_no_colon(n: nat)
    ensures
        !decimal(n).contains(':'),
        decimal(n).len() > 0,
        !is_white(decimal(n)[0]),
        decimal(n)[0] != '-' && decimal(n)[0] != '+',
{
    law_read_back(n, 10);
    let d = decimal(n);
    assert forall|i: int| 0 <= i < d.len() implies d[i] != ':' by {
        assert(is_digit_of(d[i], 10));
    }
    assert(is_digit_of(d[0], 10));
}

proof fn lemma_trimmed(s: Seq<char>)
    requires
        s.len() > 0,
        !is_white(s[0]),
        !is_white(s.last()),
    ensures
        trim(s) == s,
{
    let none = Seq::<char>::empty();
    crate::text::law_trim(none, s, none);
    assert(none + s + none =~= s);
}

/// The seconds of a coordinate: a real number without a colon and without white
/// space at its end.
pub open spec fn are_seconds(s: Seq<char>) -> bool {
    is_real(s) && s.len() > 0 && !s.contains(':') && !is_white(s.last())
}

/// A right ascension that was written as hours, minutes and seconds is read back.
pub proof fn law_time_is_read_back(h: nat, m: nat, seconds: Seq<char>)
    requires
        are_seconds(seconds),
    ensures
        ({
            let s = decimal(h) + seq![':'] + (decimal(m) + seq![':'] + seconds);
            &&& h <= 255 && m <= 255 ==> time_parts(s) == Some((h, m, seconds))
            &&& h > 255 || m > 255 ==> time_parts(s) is None
            &&& h <= 0x7fff_ffff_ffff_ffff && m <= 0x7fff_ffff_ffff_ffff ==> catalogue_ra(s)
                == Some((h as int, m as int, seconds))
        }),
{
    let s = decimal(h) + seq![':'] + (decimal(m) + seq![':'] + seconds);
    lemma_numeral_has_no_colon(h);
    lemma_numeral_has_no_colon(m);
    law_three_parts(decimal(h), decimal(m), seconds);
    assert(s[0] == decimal(h)[0]);
    assert(s.last() == seconds.last());
    lemma_trimmed(s);
    law_read_back(h, 10);
    law_read_back(m, 10);
    assert(is_digit_of(decimal(h)[0], 10));
    assert(is_digit_of(decimal(m)[0], 10));
    assert(decimal(h)[0] != '+' && decimal(m)[0] != '+');
    if h <= 0x7fff_ffff_ffff_ffff && m <= 0x7fff_ffff_ffff_ffff {
        law_signed_round_trip(h);
        law_signed_round_trip(m);
    }
}

/// A declination that was written as degrees, minutes and seconds is read back,
/// with its sign: for a slew the sign is that of the degrees, and in the
/// catalogue it stands apart from them.
pub proof fn law_angle_is_read_back(d: nat, m: nat, seconds: Seq<char>)
    requires
        are_seconds(seconds),
        d <= 0x7fff_ffff_ffff_ffff,
        m <= 0x7fff_ffff_ffff_ffff,
    ensures
        ({
            let s = decimal(d) + seq![':'] + (decimal(m) + seq![':'] + seconds);
            &&& angle_parts(s) == Some((d as int, m as int, seconds))
            &&& angle_parts(seq!['-'] + s) == Some((-(d as int), m as int, seconds))
            &&& angle_parts(seq!['+'] + s) == Some((d as int, m as int, seconds))
            &&& catalogue_dec(s) == Some(
                AngleView { negative: false, degrees: d, minutes: m as int, seconds },
            )
            &&& catalogue_dec(seq!['-'] + s) == Some(
                AngleView { negative: true, degrees: d, minutes: m as int, seconds },
            )
            &&& catalogue_dec(seq!['+'] + s) == Some(
                AngleView { negative: false, degrees: d, minutes: m as int, seconds },
            )
        }),
{
    let s = decimal(d) + seq![':'] + (decimal(m) + seq![':'] + seconds);
    lemma_numeral_has_no_colon(d);
    lemma_numeral_has_no_colon(m);
    law_three_parts(decimal(d), decimal(m), seconds);
    assert(s[0] == decimal(d)[0]);
    assert(s.last() == seconds.last());
    lemma_trimmed(s);
    law_signed_round_trip(d);
    law_signed_round_trip(m);
    law_sign_of_declination(s);
    law_sign_of_catalogue_declination(s);
}

/// Three numbers with colons between them are read back where each is a real
/// number. Where one is none, nothing is read, or zero in its place where the
/// reader is not strict.
pub proof fn law_triple_is_read_back(a: Seq<char>, b: Seq<char>, c: Seq<char>)
    requires
        a.len() > 0,
        c.len() > 0,
        !a.contains(':'),
        !b.contains(':'),
        !c.contains(':'),
        !is_white(a[0]),
        !is_white(c.last()),
    ensures
        ({
            let s = a + seq![':'] + (b + seq![':'] + c);
            let or_zero = |t: Seq<char>|
                if is_real(t) {
                    t
                } else {
                    "0"@
                };
            &&& is_real(a) && is_real(b) && is_real(c) ==> real_triple(s) == Some((a, b, c))
            &&& !(is_real(a) && is_real(b) && is_real(c)) ==> real_triple(s) is None
            &&& loose_triple(s) == Some((or_zero(a), or_zero(b), or_zero(c)))
        }),
{
    let s = a + seq![':'] + (b + seq![':'] + c);
    law_three_parts(a, b, c);
    assert(s[0] == a[0]);
    assert(s.last() == c.last());
    lemma_trimmed(s);
}

} // verus!
