//! The Messier catalogue.

use crate::number::{
    decimal, is_digit_of, is_numeral, law_read_back, numeral_value, read_in_base, unsigned_part,
};
use crate::sorting::{
    is_stable_sort, law_sort_keeps_values, law_sorted_is_ordered, stable_sort, Ranked,
};
use crate::text::{
    all_white, chars_of, find, is_white, is_whitespace, law_split_at_the_first, law_trim_start,
    position_of, split, split_by, string_of, texts, trim, trim_start, trimmed, uppercase_of, views,
};
use vstd::prelude::*;
use vstd::slice::slice_subrange;

verus! {

/// A Messier object with its coordinates.
#[derive(Debug, Clone)]
pub struct MessierObject {
    pub name: String,
    pub number: u32,
    pub ra: String,
    pub dec: String,
}

/// The texts of a Messier object.
pub struct ObjectView {
    pub name: Seq<char>,
    pub number: nat,
    pub ra: Seq<char>,
    pub dec: Seq<char>,
}

impl View for MessierObject {
    type V = ObjectView;

    open spec fn view(&self) -> ObjectView {
        ObjectView {
            name: self.name@,
            number: self.number as nat,
            ra: self.ra@,
            dec: self.dec@,
        }
    }
}

impl Ranked for MessierObject {
    open spec fn le(&self, other: &Self) -> bool {
        self.number <= other.number
    }

    proof fn total(a: &Self, b: &Self) {
    }

    proof fn transitive(a: &Self, b: &Self, c: &Self) {
    }

    fn not_above(&self, other: &Self) -> (r: bool) {
        self.number <= other.number
    }
}

/// The texts of a list of objects.
pub open spec fn object_views(s: Seq<MessierObject>) -> Seq<ObjectView> {
    Seq::new(s.len(), |i: int| s[i]@)
}

// ---------------------------------------------------------------------------
// Numbers
// ---------------------------------------------------------------------------

/// The decimal digits that `s` begins with.
pub open spec fn leading_digits(s: Seq<char>) -> Seq<char>
    decreases s.len(),
{
    if s.len() > 0 && is_digit_of(s[0], 10) {
        seq![s[0]] + leading_digits(s.skip(1))
    } else {
        Seq::empty()
    }
}

/// The number behind the first `M` of an upper-case name, after white space.
pub open spec fn number_behind_m(upper: Seq<char>) -> Option<nat> {
    match find(upper, seq!['M']) {
        Some(k) => {
            let d = leading_digits(trim_start(upper.skip(k + 1)));
            if d.len() > 0 && numeral_value(d, 10) <= u32::MAX {
                Some(numeral_value(d, 10))
            } else {
                None
            }
        },
        None => None,
    }
}

fn is_decimal_digit(c: char) -> (r: bool)
    ensures
        r == is_digit_of(c, 10),
{
    let v: u32 = c as u32;
    48 <= v && v <= 57
}

/// Leading digits are digits.
proof fn lemma_leading_digits(s: Seq<char>)
    ensures
        forall|i: int|
            0 <= i < leading_digits(s).len() ==> is_digit_of(#[trigger] leading_digits(s)[i], 10),
    decreases s.len(),
{
    if s.len() > 0 && is_digit_of(s[0], 10) {
        lemma_leading_digits(s.skip(1));
        assert forall|i: int| 0 <= i < leading_digits(s).len() implies is_digit_of(
            #[trigger] leading_digits(s)[i],
            10,
        ) by {
            if i > 0 {
                assert(leading_digits(s)[i] == leading_digits(s.skip(1))[i - 1]);
            }
        }
    }
}

/// The number behind the first `M` of an upper-case name, after white space.
pub fn number_in_name(upper: &str) -> (r: Option<u32>)
    ensures
        match r {
            Some(n) => number_behind_m(upper@) == Some(n as nat),
            None => number_behind_m(upper@) is None,
        },
{
    let s = chars_of(upper);
    let n = s.len();
    let mut m: Vec<char> = Vec::new();
    m.push('M');
    assert(m@ =~= seq!['M']);
    let k = match position_of(s.as_slice(), m.as_slice()) {
        Some(k) => k,
        None => return None,
    };
    let mut i: usize = k + 1;
    while i < n && is_whitespace(s[i])
        invariant
            k + 1 <= i <= n == s@.len(),
            trim_start(s@.skip(k + 1)) == trim_start(s@.skip(i as int)),
        decreases n - i,
    {
        assert(s@.skip(i as int).skip(1) =~= s@.skip(i + 1));
        i = i + 1;
    }
    let ghost t = s@.skip(i as int);
    assert(trim_start(s@.skip(k + 1)) == t);
    let mut j: usize = i;
    assert(s@.subrange(i as int, i as int) + leading_digits(t) =~= leading_digits(t));
    while j < n && is_decimal_digit(s[j])
        invariant
            k + 1 <= i <= j <= n == s@.len(),
            leading_digits(s@.skip(i as int)) == s@.subrange(i as int, j as int) + leading_digits(
                s@.skip(j as int),
            ),
        decreases n - j,
    {
        assert(s@.skip(j as int).skip(1) =~= s@.skip(j + 1));
        assert(s@.subrange(i as int, j as int) + (seq![s@[j as int]] + leading_digits(
            s@.skip(j + 1),
        )) =~= s@.subrange(i as int, j + 1) + leading_digits(s@.skip(j + 1)));
        j = j + 1;
    }
    let d = slice_subrange(s.as_slice(), i, j);
    proof {
        assert(d@ =~= leading_digits(t));
        lemma_leading_digits(t);
    }
    if i == j {
        return None;
    }
    proof {
        assert(is_digit_of(d@[0], 10));
        assert(unsigned_part(d@) == d@);
        assert(is_numeral(d@, 10));
    }
    match read_in_base(d, 10, 0xffff_ffff) {
        Some(v) => Some(v as u32),
        None => None,
    }
}

/// The Messier number of a name such as "M101" or "m 31".
pub fn extract_messier_number(name: &str) -> (r: Option<u32>)
    ensures
        match r {
            Some(n) => number_behind_m(uppercase_of(name@)) == Some(n as nat),
            None => number_behind_m(uppercase_of(name@)) is None,
        },
{
    let upper = name.to_uppercase();
    number_in_name(upper.as_str())
}

// ---------------------------------------------------------------------------
// The catalogue file
// ---------------------------------------------------------------------------

/// What the fields of a line say, given the number of the object.
pub open spec fn object_of(fields: Seq<Seq<char>>, number: Option<nat>) -> Option<ObjectView> {
    if fields.len() < 3 {
        None
    } else {
        let ra = trim(fields[1]);
        let dec = trim(fields[2]);
        match number {
            Some(n) => if ra.len() > 0 && dec.len() > 0 {
                Some(ObjectView { name: trim(fields[0]), number: n, ra, dec })
            } else {
                None
            },
            None => None,
        }
    }
}

/// The object that a line of the catalogue describes.
pub open spec fn line_object(line: Seq<char>) -> Option<ObjectView> {
    if trim(line).len() == 0 {
        None
    } else {
        let fields = split(line, seq![',']);
        object_of(fields, number_behind_m(uppercase_of(trim(fields[0]))))
    }
}

/// The objects of the first `n` lines. The first line is a header.
pub open spec fn file_objects(lines: Seq<Seq<char>>, n: nat) -> Seq<ObjectView>
    decreases n,
{
    if n <= 1 {
        Seq::empty()
    } else {
        let before = file_objects(lines, (n - 1) as nat);
        match line_object(lines[n - 1]) {
            Some(o) => before.push(o),
            None => before,
        }
    }
}

/// The object that a line of the catalogue describes.
fn read_line_object(line: &str) -> (r: Option<MessierObject>)
    ensures
        match r {
            Some(o) => line_object(line@) == Some(o@),
            None => line_object(line@) is None,
        },
{
    let s = chars_of(line);
    if trimmed(s.as_slice()).len() == 0 {
        return None;
    }
    let mut comma: Vec<char> = Vec::new();
    comma.push(',');
    assert(comma@ =~= seq![',']);
    let fields = split_by(s.as_slice(), comma.as_slice());
    let ghost parts = views(fields@);
    assert(parts.len() == fields@.len());
    if fields.len() < 3 {
        return None;
    }
    assert(parts[0] == fields@[0]@ && parts[1] == fields@[1]@ && parts[2] == fields@[2]@);
    let name = string_of(trimmed(fields[0].as_slice()));
    let ra = string_of(trimmed(fields[1].as_slice()));
    let dec = string_of(trimmed(fields[2].as_slice()));
    match extract_messier_number(name.as_str()) {
        Some(number) => if ra.as_str().is_empty() || dec.as_str().is_empty() {
            None
        } else {
            Some(MessierObject { name, number, ra, dec })
        },
        None => None,
    }
}

/// The catalogue of the lines of a file, sorted by number. Objects with equal
/// numbers keep the order of the file.
pub fn parse_catalogue(lines: &[String]) -> (r: Vec<MessierObject>)
    ensures
        exists|unsorted: Seq<MessierObject>|
            {
                &&& object_views(unsorted) == file_objects(texts(lines@), lines@.len())
                &&& #[trigger] is_stable_sort(unsorted, r@)
            },
        is_sorted(r@),
{
    let mut objects: Vec<MessierObject> = Vec::new();
    assert(object_views(objects@) =~= file_objects(texts(lines@), 0));
    let n = lines.len();
    let mut i: usize = 0;
    while i < n
        invariant
            i <= n == lines@.len(),
            object_views(objects@) == file_objects(texts(lines@), i as nat),
        decreases n - i,
    {
        if i > 0 {
            let ghost before = objects@;
            assert(texts(lines@)[i as int] == lines@[i as int]@);
            match read_line_object(lines[i].as_str()) {
                Some(o) => {
                    let ghost view = o@;
                    objects.push(o);
                    assert(object_views(objects@) =~= object_views(before).push(view));
                },
                None => {},
            }
        } else {
            assert(file_objects(texts(lines@), 1) =~= file_objects(texts(lines@), 0));
        }
        i = i + 1;
    }
    let ghost unsorted = objects@;
    let sorted = stable_sort(objects);
    proof {
        law_sorted_is_ordered(unsorted, sorted@);
        assert(is_stable_sort(unsorted, sorted@));
    }
    sorted
}

/// The objects stand in the order of their numbers.
pub open spec fn is_sorted(s: Seq<MessierObject>) -> bool {
    forall|i: int, j: int| 0 <= i <= j < s.len() ==> s[i].number <= s[j].number
}

/// The object with this number. In a sorted catalogue it is found wherever it
/// is there.
pub fn find_messier_object(catalogue: &[MessierObject], number: u32) -> (r: Option<
    &MessierObject,
>)
    ensures
        r matches Some(o) ==> o.number == number && catalogue@.contains(*o),
        is_sorted(catalogue@) ==> (r is None <==> forall|i: int|
            0 <= i < catalogue@.len() ==> (#[trigger] catalogue@[i]).number != number),
{
    let n = catalogue.len();
    let mut low: usize = 0;
    let mut high: usize = n;
    while low < high
        invariant
            low <= high <= n == catalogue@.len(),
            is_sorted(catalogue@) ==> forall|i: int|
                0 <= i < low ==> (#[trigger] catalogue@[i]).number < number,
            is_sorted(catalogue@) ==> forall|i: int|
                high <= i < n ==> (#[trigger] catalogue@[i]).number > number,
        decreases high - low,
    {
        let mid: usize = low + (high - low) / 2;
        let found = catalogue[mid].number;
        if found == number {
            assert(catalogue@[mid as int].number == number);
            return Some(&catalogue[mid]);
        } else if found < number {
            low = mid + 1;
        } else {
            high = mid;
        }
    }
    None
}

// ---------------------------------------------------------------------------
// Laws
// ---------------------------------------------------------------------------

/// What the lines describe is in the sorted catalogue, and nothing else.
pub proof fn law_catalogue_is_complete(
    lines: Seq<Seq<char>>,
    unsorted: Seq<MessierObject>,
    catalogue: Seq<MessierObject>,
    o: ObjectView,
)
    requires
        object_views(unsorted) == file_objects(lines, lines.len()),
        is_stable_sort(unsorted, catalogue),
    ensures
        file_objects(lines, lines.len()).contains(o) <==> object_views(catalogue).contains(o),
{
    let described = object_views(unsorted);
    let kept = object_views(catalogue);
    if described.contains(o) {
        let i = choose|i: int| 0 <= i < described.len() && described[i] == o;
        law_sort_keeps_values(unsorted, catalogue, unsorted[i]);
        let j = choose|j: int| 0 <= j < catalogue.len() && catalogue[j] == unsorted[i];
        assert(kept[j] == o);
    }
    if kept.contains(o) {
        let i = choose|i: int| 0 <= i < kept.len() && kept[i] == o;
        assert(catalogue.contains(catalogue[i]));
        law_sort_keeps_values(unsorted, catalogue, catalogue[i]);
        let j = choose|j: int| 0 <= j < unsorted.len() && unsorted[j] == catalogue[i];
        assert(described[j] == o);
    }
}

proof fn lemma_digits_lead(digits: Seq<char>, rest: Seq<char>)
    requires
        forall|i: int| 0 <= i < digits.len() ==> is_digit_of(#[trigger] digits[i], 10),
        rest.len() == 0 || !is_digit_of(rest[0], 10),
    ensures
        leading_digits(digits + rest) == digits,
    decreases digits.len(),
{
    let s = digits + rest;
    if digits.len() > 0 {
        let fewer = digits.skip(1);
        assert(s[0] == digits[0]);
        assert(is_digit_of(digits[0], 10));
        assert(s.skip(1) =~= fewer + rest);
        assert forall|i: int| 0 <= i < fewer.len() implies is_digit_of(#[trigger] fewer[i], 10) by {
            assert(fewer[i] == digits[i + 1]);
        }
        lemma_digits_lead(fewer, rest);
        assert(seq![digits[0]] + fewer =~= digits);
    } else {
        assert(s =~= rest);
    }
}

/// The number of a name is the one behind its first `M`, where white space may
/// stand between them and anything but a digit behind; a name without an `M`,
/// or without a number behind it, has none.
pub proof fn law_number_of_a_name(
    before: Seq<char>,
    blank: Seq<char>,
    n: nat,
    behind: Seq<char>,
)
    requires
        !before.contains('M'),
        all_white(blank),
        n <= u32::MAX,
        behind.len() == 0 || !is_digit_of(behind[0], 10),
    ensures
        number_behind_m(before + seq!['M'] + (blank + (decimal(n) + behind))) == Some(n),
        number_behind_m(before) is None,
        behind.len() == 0 || !is_white(behind[0]) ==> number_behind_m(
            before + seq!['M'] + (blank + behind),
        ) is None,
{
    let d = decimal(n);
    law_read_back(n, 10);
    assert(is_digit_of(d[0], 10));
    law_split_at_the_first(before, 'M', blank + (d + behind));
    let name = before + seq!['M'] + (blank + (d + behind));
    assert(name.skip(before.len() as int + 1) =~= blank + (d + behind));
    assert((d + behind)[0] == d[0]);
    law_trim_start(blank, d + behind);
    lemma_digits_lead(d, behind);
    if behind.len() == 0 || !is_white(behind[0]) {
        law_split_at_the_first(before, 'M', blank + behind);
        let other = before + seq!['M'] + (blank + behind);
        assert(other.skip(before.len() as int + 1) =~= blank + behind);
        law_trim_start(blank, behind);
    }
}

/// A line of the catalogue holds the name, the right ascension and the
/// declination of an object, with commas between them, and white space around
/// them is left out. A line without a number or without one of the coordinates
/// describes nothing.
pub proof fn law_line_of_the_catalogue(name: Seq<char>, ra: Seq<char>, dec: Seq<char>)
    requires
        !name.contains(','),
        !ra.contains(','),
        !dec.contains(','),
        trim(name + seq![','] + (ra + seq![','] + dec)).len() > 0,
    ensures
        ({
            let line = name + seq![','] + (ra + seq![','] + dec);
            let number = number_behind_m(uppercase_of(trim(name)));
            &&& number is Some && trim(ra).len() > 0 && trim(dec).len() > 0 ==> line_object(line)
                == Some(
                ObjectView { name: trim(name), number: number->0, ra: trim(ra), dec: trim(dec) },
            )
            &&& number is None || trim(ra).len() == 0 || trim(dec).len() == 0 ==> line_object(line)
                is None
        }),
{
    let line = name + seq![','] + (ra + seq![','] + dec);
    law_split_at_the_first(name, ',', ra + seq![','] + dec);
    law_split_at_the_first(ra, ',', dec);
    law_split_at_the_first(dec, ',', Seq::empty());
    let fields = split(line, seq![',']);
    assert(fields =~= seq![name, ra, dec]);
}

/// A blank line, and one with fewer than three fields, describes nothing.
pub proof fn law_short_line(name: Seq<char>, ra: Seq<char>)
    requires
        !name.contains(','),
        !ra.contains(','),
    ensures
        line_object(name) is None,
        line_object(name + seq![','] + ra) is None,
{
    law_split_at_the_first(name, ',', ra);
    law_split_at_the_first(ra, ',', Seq::empty());
    assert(split(name + seq![','] + ra, seq![',']) =~= seq![name, ra]);
}

/// The objects of a file are those that its lines describe, but for the first
/// line, which is a header.
pub proof fn law_objects_of_a_file(lines: Seq<Seq<char>>, n: nat, o: ObjectView)
    requires
        n <= lines.len(),
    ensures
        file_objects(lines, n).contains(o) <==> exists|i: int|
            1 <= i < n && line_object(#[trigger] lines[i]) == Some(o),
    decreases n,
{
    if n > 1 {
        let before = file_objects(lines, (n - 1) as nat);
        let all = file_objects(lines, n);
        law_objects_of_a_file(lines, (n - 1) as nat, o);
        match line_object(lines[n - 1]) {
            Some(new) => {
                assert(all.last() == new);
                if before.contains(o) {
                    let i = choose|i: int| 0 <= i < before.len() && before[i] == o;
                    assert(all[i] == o);
                }
                if all.contains(o) && o != new {
                    let i = choose|i: int| 0 <= i < all.len() && all[i] == o;
                    assert(before[i] == o);
                }
                if o == new {
                    assert(all[all.len() - 1] == o);
                    assert(line_object(lines[n - 1]) == Some(o));
                }
            },
            None => {},
        }
    }
}

} // verus!
