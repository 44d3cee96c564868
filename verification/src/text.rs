//! Character-level text operations.
//!
//! Text is modelled as `Seq<char>`. The executable functions work on slices of
//! characters and say, over the spec functions of this module, which
//! characters they return.

use vstd::prelude::*;
use vstd::slice::slice_subrange;

verus! {

/// `String::push`: appends one character at the end.
pub assume_specification[ String::push ](s: &mut String, c: char)
    ensures
        final(s)@ == old(s)@.push(c),
;

/// What `str::to_uppercase` returns.
pub uninterp spec fn uppercase_of(s: Seq<char>) -> Seq<char>;

/// What `str::to_lowercase` returns.
pub uninterp spec fn lowercase_of(s: Seq<char>) -> Seq<char>;

/// The upper-case counterpart of an ASCII letter; any other character itself.
pub open spec fn ascii_upper(c: char) -> char {
    if 'a' <= c <= 'z' {
        (c as u32 - 32) as char
    } else {
        c
    }
}

/// The lower-case counterpart of an ASCII letter; any other character itself.
pub open spec fn ascii_lower(c: char) -> char {
    if 'A' <= c <= 'Z' {
        (c as u32 + 32) as char
    } else {
        c
    }
}

/// Every character lies in the ASCII range.
pub open spec fn all_ascii(s: Seq<char>) -> bool {
    forall|i: int| 0 <= i < s.len() ==> (#[trigger] s[i]) as u32 <= 127
}

/// `str::to_uppercase`: the Unicode upper-case form. Of an ASCII text it is
/// the text with each of `a` to `z` replaced by its capital.
pub assume_specification[ str::to_uppercase ](s: &str) -> (r: String)
    ensures
        r@ == uppercase_of(s@),
        all_ascii(s@) ==> r@ == Seq::new(s@.len(), |i: int| ascii_upper(s@[i])),
;

/// `str::to_lowercase`: the Unicode lower-case form. Of an ASCII text it is
/// the text with each of `A` to `Z` replaced by its small letter.
pub assume_specification[ str::to_lowercase ](s: &str) -> (r: String)
    ensures
        r@ == lowercase_of(s@),
        all_ascii(s@) ==> r@ == Seq::new(s@.len(), |i: int| ascii_lower(s@[i])),
;

// ---------------------------------------------------------------------------
// Conversions
// ---------------------------------------------------------------------------

/// The views of a list of character vectors.
pub open spec fn views(v: Seq<Vec<char>>) -> Seq<Seq<char>> {
    Seq::new(v.len(), |i: int| v[i]@)
}

/// The views of a list of strings.
pub open spec fn texts(v: Seq<String>) -> Seq<Seq<char>> {
    Seq::new(v.len(), |i: int| v[i]@)
}

/// The characters of `s`.
pub fn chars_of(s: &str) -> (r: Vec<char>)
    ensures
        r@ == s@,
{
    let mut out: Vec<char> = Vec::new();
    for c in it: s.chars()
        invariant
            out@ == it.seq().take(it.index() as int),
            it.seq() == s@,
    {
        out.push(c);
    }
    out
}

/// The string made of the characters of `s`.
pub fn string_of(s: &[char]) -> (r: String)
    ensures
        r@ == s@,
{
    let mut out = String::new();
    for i in 0..s.len()
        invariant
            out@ == s@.take(i as int),
    {
        assert(s@.take(i + 1) == s@.take(i as int).push(s@[i as int]));
        out.push(s[i]);
    }
    assert(s@.take(s@.len() as int) == s@);
    out
}

/// An owned copy of a slice of characters.
pub fn copy_of(s: &[char]) -> (r: Vec<char>)
    ensures
        r@ == s@,
{
    let mut out: Vec<char> = Vec::new();
    for i in 0..s.len()
        invariant
            out@ == s@.take(i as int),
    {
        assert(s@.take(i + 1) == s@.take(i as int).push(s@[i as int]));
        out.push(s[i]);
    }
    assert(s@.take(s@.len() as int) == s@);
    out
}

/// Whether two slices hold the same characters.
pub fn same_chars(a: &[char], b: &[char]) -> (r: bool)
    ensures
        r == (a@ == b@),
{
    if a.len() != b.len() {
        return false;
    }
    for i in 0..a.len()
        invariant
            a@.len() == b@.len(),
            forall|j: int| 0 <= j < i ==> a@[j] == b@[j],
    {
        if a[i] != b[i] {
            return false;
        }
    }
    assert(a@ =~= b@);
    true
}

/// Whether two strings hold the same characters.
pub fn same_text(a: &str, b: &str) -> (r: bool)
    ensures
        r == (a@ == b@),
{
    let x = chars_of(a);
    let y = chars_of(b);
    same_chars(x.as_slice(), y.as_slice())
}

/// Joins two texts.
pub fn concat2(a: &str, b: &str) -> (r: String)
    ensures
        r@ == a@ + b@,
{
    let mut out = a.to_owned();
    out.append(b);
    out
}

/// Joins three texts.
pub fn concat3(a: &str, b: &str, c: &str) -> (r: String)
    ensures
        r@ == a@ + b@ + c@,
{
    let mut out = a.to_owned();
    out.append(b);
    out.append(c);
    out
}

// ---------------------------------------------------------------------------
// White space
// ---------------------------------------------------------------------------

/// Characters with the Unicode property `White_Space`.
pub open spec fn is_white(c: char) -> bool {
    let v = c as u32;
    ||| 0x9 <= v <= 0xd
    ||| v == 0x20
    ||| v == 0x85
    ||| v == 0xa0
    ||| v == 0x1680
    ||| 0x2000 <= v <= 0x200a
    ||| v == 0x2028
    ||| v == 0x2029
    ||| v == 0x202f
    ||| v == 0x205f
    ||| v == 0x3000
}

/// Whether `c` is a white-space character.
pub fn is_whitespace(c: char) -> (r: bool)
    ensures
        r == is_white(c),
{
    let v: u32 = c as u32;
    (0x9 <= v && v <= 0xd) || v == 0x20 || v == 0x85 || v == 0xa0 || v == 0x1680 || (0x2000 <= v
        && v <= 0x200a) || v == 0x2028 || v == 0x2029 || v == 0x202f || v == 0x205f || v == 0x3000
}

/// `s` without its leading white space.
pub open spec fn trim_start(s: Seq<char>) -> Seq<char>
    decreases s.len(),
{
    if s.len() > 0 && is_white(s[0]) {
        trim_start(s.skip(1))
    } else {
        s
    }
}

/// `s` without its trailing white space.
pub open spec fn trim_end(s: Seq<char>) -> Seq<char>
    decreases s.len(),
{
    if s.len() > 0 && is_white(s.last()) {
        trim_end(s.drop_last())
    } else {
        s
    }
}

/// What is left has no white space at its end.
pub proof fn lemma_trim_end(s: Seq<char>)
    ensures
        trim_end(s).len() > 0 ==> !is_white(trim_end(s).last()),
    decreases s.len(),
{
    if s.len() > 0 && is_white(s.last()) {
        lemma_trim_end(s.drop_last());
    }
}

/// `s` without leading and trailing white space.
pub open spec fn trim(s: Seq<char>) -> Seq<char> {
    trim_end(trim_start(s))
}

/// The part of `s` between its leading and trailing white space.
pub fn trimmed(s: &[char]) -> (r: &[char])
    ensures
        r@ == trim(s@),
{
    let n = s.len();
    let mut a: usize = 0;
    assert(s@.skip(0) == s@);
    while a < n && is_whitespace(s[a])
        invariant
            a <= n,
            n == s@.len(),
            trim_start(s@) == trim_start(s@.skip(a as int)),
        decreases n - a,
    {
        assert(s@.skip(a as int).skip(1) == s@.skip(a + 1));
        assert(s@.skip(a as int)[0] == s@[a as int]);
        a = a + 1;
    }
    let ghost t = s@.skip(a as int);
    assert(trim_start(s@) == t) by {
        if a < n {
            assert(t[0] == s@[a as int]);
        }
    }
    let mut b: usize = n;
    assert(t.take((b - a) as int) == t);
    while a < b && is_whitespace(s[b - 1])
        invariant
            a <= b <= n,
            n == s@.len(),
            t == s@.skip(a as int),
            trim_end(t) == trim_end(t.take((b - a) as int)),
        decreases b,
    {
        assert(t.take((b - a) as int).drop_last() == t.take((b - 1 - a) as int));
        assert(t.take((b - a) as int).last() == s@[b - 1]);
        b = b - 1;
    }
    assert(trim_end(t) == t.take((b - a) as int)) by {
        if a < b {
            assert(t.take((b - a) as int).last() == s@[b - 1]);
        }
    }
    assert(s@.subrange(a as int, b as int) == t.take((b - a) as int));
    slice_subrange(s, a, b)
}

/// The string `s` without leading and trailing white space.
pub fn trimmed_text(s: &str) -> (r: String)
    ensures
        r@ == trim(s@),
{
    let c = chars_of(s);
    string_of(trimmed(c.as_slice()))
}

/// The number of characters before the first white space.
pub open spec fn word_len(s: Seq<char>) -> nat
    decreases s.len(),
{
    if s.len() == 0 || is_white(s[0]) {
        0
    } else {
        1 + word_len(s.skip(1))
    }
}

/// The first word of `s`: what stands before, between or behind white space.
pub open spec fn first_word(s: Seq<char>) -> Option<Seq<char>> {
    let t = trim_start(s);
    if t.len() == 0 {
        None
    } else {
        Some(t.take(word_len(t) as int))
    }
}

/// The first word of `s`.
pub fn leading_word(s: &[char]) -> (r: Option<&[char]>)
    ensures
        match r {
            Some(w) => first_word(s@) == Some(w@),
            None => first_word(s@) is None,
        },
{
    let n = s.len();
    let mut i: usize = 0;
    assert(s@.skip(0) =~= s@);
    while i < n && is_whitespace(s[i])
        invariant
            i <= n == s@.len(),
            trim_start(s@) == trim_start(s@.skip(i as int)),
        decreases n - i,
    {
        assert(s@.skip(i as int).skip(1) =~= s@.skip(i + 1));
        i = i + 1;
    }
    if i == n {
        assert(s@.skip(i as int).len() == 0);
        return None;
    }
    let ghost t = s@.skip(i as int);
    assert(trim_start(s@) == t);
    let mut j: usize = i;
    while j < n && !is_whitespace(s[j])
        invariant
            i <= j <= n == s@.len(),
            word_len(s@.skip(i as int)) == (j - i) + word_len(s@.skip(j as int)),
        decreases n - j,
    {
        assert(s@.skip(j as int).skip(1) =~= s@.skip(j + 1));
        j = j + 1;
    }
    let w = slice_subrange(s, i, j);
    assert(w@ =~= t.take(j - i));
    Some(w)
}

// ---------------------------------------------------------------------------
// Searching
// ---------------------------------------------------------------------------

/// `pat` stands in `s` at position `i`.
pub open spec fn occurs_at(s: Seq<char>, pat: Seq<char>, i: int) -> bool {
    &&& 0 <= i
    &&& i + pat.len() <= s.len()
    &&& s.subrange(i, i + pat.len()) == pat
}

/// The first position of `pat` in `s` at or behind `i`.
pub open spec fn find_from(s: Seq<char>, pat: Seq<char>, i: int) -> Option<int>
    decreases s.len() + 1 - i,
{
    if i < 0 || i > s.len() {
        None
    } else if occurs_at(s, pat, i) {
        Some(i)
    } else {
        find_from(s, pat, i + 1)
    }
}

/// The first position of `pat` in `s`.
pub open spec fn find(s: Seq<char>, pat: Seq<char>) -> Option<int> {
    find_from(s, pat, 0)
}

/// `pat` occurs somewhere in `s`.
pub open spec fn contains(s: Seq<char>, pat: Seq<char>) -> bool {
    exists|i: int| occurs_at(s, pat, i)
}

/// `s` begins with `pat`.
pub open spec fn begins(s: Seq<char>, pat: Seq<char>) -> bool {
    occurs_at(s, pat, 0)
}

/// `s` ends with `pat`.
pub open spec fn ends(s: Seq<char>, pat: Seq<char>) -> bool {
    occurs_at(s, pat, s.len() - pat.len())
}

pub proof fn lemma_find_from(s: Seq<char>, pat: Seq<char>, i: int)
    requires
        0 <= i,
    ensures
        match find_from(s, pat, i) {
            Some(k) => i <= k && occurs_at(s, pat, k) && (forall|j: int|
                i <= j < k ==> !occurs_at(s, pat, j)),
            None => forall|j: int| i <= j ==> !occurs_at(s, pat, j),
        },
    decreases s.len() + 1 - i,
{
    if i <= s.len() && !occurs_at(s, pat, i) {
        lemma_find_from(s, pat, i + 1);
    }
}

/// `find` gives the leftmost occurrence, and fails exactly when there is none.
pub proof fn lemma_find(s: Seq<char>, pat: Seq<char>)
    ensures
        match find(s, pat) {
            Some(k) => 0 <= k && occurs_at(s, pat, k) && (forall|j: int|
                j < k ==> !occurs_at(s, pat, j)),
            None => forall|j: int| !occurs_at(s, pat, j),
        },
        find(s, pat) is Some <==> contains(s, pat),
{
    lemma_find_from(s, pat, 0);
    if find(s, pat) is Some {
        assert(occurs_at(s, pat, find(s, pat)->0));
    }
}

/// Whether `pat` stands in `s` at position `i`.
pub fn stands_at(s: &[char], pat: &[char], i: usize) -> (r: bool)
    ensures
        r == occurs_at(s@, pat@, i as int),
{
    if i > s.len() || pat.len() > s.len() - i {
        return false;
    }
    let n = s.len();
    for j in 0..pat.len()
        invariant
            n == s@.len(),
            i + pat@.len() <= n,
            forall|k: int| 0 <= k < j ==> s@[i + k] == pat@[k],
    {
        if s[i + j] != pat[j] {
            assert(s@.subrange(i as int, i + pat@.len())[j as int] == s@[i + j]);
            return false;
        }
    }
    assert(s@.subrange(i as int, i + pat@.len()) =~= pat@);
    true
}

/// The first position of `pat` in `s`.
pub fn position_of(s: &[char], pat: &[char]) -> (r: Option<usize>)
    ensures
        match r {
            Some(k) => find(s@, pat@) == Some(k as int) && k + pat@.len() <= s@.len(),
            None => find(s@, pat@) is None,
        },
{
    let n = s.len();
    let m = pat.len();
    if m > n {
        proof {
            lemma_find(s@, pat@);
        }
        return None;
    }
    let mut i: usize = 0;
    loop
        invariant
            i <= n - m,
            n == s@.len(),
            m == pat@.len(),
            find(s@, pat@) == find_from(s@, pat@, i as int),
        decreases n - m - i,
    {
        if stands_at(s, pat, i) {
            return Some(i);
        }
        if i == n - m {
            proof {
                lemma_find_from(s@, pat@, i as int);
            }
            return None;
        }
        i = i + 1;
    }
}

/// Whether `pat` occurs in `s`.
pub fn has(s: &[char], pat: &[char]) -> (r: bool)
    ensures
        r == contains(s@, pat@),
{
    proof {
        lemma_find(s@, pat@);
    }
    position_of(s, pat).is_some()
}

/// Whether the string `pat` occurs in the string `s`.
pub fn text_has(s: &str, pat: &str) -> (r: bool)
    ensures
        r == contains(s@, pat@),
{
    let a = chars_of(s);
    let b = chars_of(pat);
    has(a.as_slice(), b.as_slice())
}

/// Whether the string `s` begins with the string `pat`.
pub fn text_begins(s: &str, pat: &str) -> (r: bool)
    ensures
        r == begins(s@, pat@),
{
    let a = chars_of(s);
    let b = chars_of(pat);
    stands_at(a.as_slice(), b.as_slice(), 0)
}

/// Whether the string `s` ends with the string `pat`.
pub fn text_ends(s: &str, pat: &str) -> (r: bool)
    ensures
        r == ends(s@, pat@),
{
    let a = chars_of(s);
    let b = chars_of(pat);
    if b.len() > a.len() {
        return false;
    }
    stands_at(a.as_slice(), b.as_slice(), a.len() - b.len())
}

// ---------------------------------------------------------------------------
// Splitting and replacing
// ---------------------------------------------------------------------------

/// The parts of `s` between the occurrences of `pat`, from left to right.
pub open spec fn split(s: Seq<char>, pat: Seq<char>) -> Seq<Seq<char>>
    decreases s.len(),
{
    proof {
        lemma_find(s, pat);
    }
    match find(s, pat) {
        Some(k) => if pat.len() == 0 {
            seq![s]
        } else {
            seq![s.take(k)] + split(s.skip(k + pat.len()), pat)
        },
        None => seq![s],
    }
}

/// `s` with each occurrence of `pat`, from left to right, replaced by `with`.
pub open spec fn replace(s: Seq<char>, pat: Seq<char>, with: Seq<char>) -> Seq<char>
    decreases s.len(),
{
    proof {
        lemma_find(s, pat);
    }
    match find(s, pat) {
        Some(k) => if pat.len() == 0 {
            s
        } else {
            s.take(k) + with + replace(s.skip(k + pat.len()), pat, with)
        },
        None => s,
    }
}

/// Splitting leaves at least one part.
pub proof fn lemma_split_nonempty(s: Seq<char>, pat: Seq<char>)
    ensures
        split(s, pat).len() >= 1,
{
}

/// The parts of `s` between the occurrences of `pat`.
pub fn split_by(s: &[char], pat: &[char]) -> (r: Vec<Vec<char>>)
    requires
        pat@.len() > 0,
    ensures
        views(r@) == split(s@, pat@),
        r@.len() >= 1,
{
    let mut out: Vec<Vec<char>> = Vec::new();
    let mut a: usize = 0;
    let n = s.len();
    assert(s@.skip(0) == s@);
    assert(views(out@) + split(s@, pat@) =~= split(s@, pat@));
    loop
        invariant
            a <= n,
            n == s@.len(),
            pat@.len() > 0,
            split(s@, pat@) == views(out@) + split(s@.skip(a as int), pat@),
        decreases n - a,
    {
        let rest = slice_subrange(s, a, n);
        assert(rest@ == s@.skip(a as int));
        let ghost done = out@;
        match position_of(rest, pat) {
            Some(k) => {
                let part = copy_of(slice_subrange(rest, 0, k));
                assert(part@ == rest@.take(k as int));
                out.push(part);
                proof {
                    assert(views(out@) =~= views(done) + seq![rest@.take(k as int)]);
                    assert(rest@.skip(k + pat@.len()) == s@.skip(a + k + pat@.len()));
                    assert(views(done) + (seq![rest@.take(k as int)] + split(
                        s@.skip(a + k + pat@.len()),
                        pat@,
                    )) =~= views(out@) + split(s@.skip(a + k + pat@.len()), pat@));
                }
                a = a + k + pat.len();
            },
            None => {
                let part = copy_of(rest);
                out.push(part);
                assert(views(out@) =~= views(done) + seq![rest@]);
                return out;
            },
        }
    }
}

/// `s` with each occurrence of `pat` replaced by `with`.
pub fn replaced(s: &[char], pat: &[char], with: &[char]) -> (r: Vec<char>)
    requires
        pat@.len() > 0,
    ensures
        r@ == replace(s@, pat@, with@),
{
    let mut out: Vec<char> = Vec::new();
    let mut a: usize = 0;
    let n = s.len();
    assert(s@.skip(0) == s@);
    assert(out@ + replace(s@, pat@, with@) =~= replace(s@, pat@, with@));
    loop
        invariant
            a <= n,
            n == s@.len(),
            pat@.len() > 0,
            replace(s@, pat@, with@) == out@ + replace(s@.skip(a as int), pat@, with@),
        decreases n - a,
    {
        let rest = slice_subrange(s, a, n);
        assert(rest@ == s@.skip(a as int));
        let ghost done = out@;
        match position_of(rest, pat) {
            Some(k) => {
                let mut head = copy_of(slice_subrange(rest, 0, k));
                let mut mid = copy_of(with);
                assert(head@ == rest@.take(k as int));
                out.append(&mut head);
                out.append(&mut mid);
                proof {
                    assert(rest@.skip(k + pat@.len()) == s@.skip(a + k + pat@.len()));
                    let tail = replace(s@.skip(a + k + pat@.len()), pat@, with@);
                    assert(done + (rest@.take(k as int) + with@ + tail) =~= out@ + tail);
                }
                a = a + k + pat.len();
            },
            None => {
                let mut tail = copy_of(rest);
                out.append(&mut tail);
                return out;
            },
        }
    }
}

/// The string `s` with each occurrence of `pat` replaced by `with`.
pub fn replaced_text(s: &str, pat: &str, with: &str) -> (r: String)
    requires
        pat@.len() > 0,
    ensures
        r@ == replace(s@, pat@, with@),
{
    let a = chars_of(s);
    let b = chars_of(pat);
    let c = chars_of(with);
    let r = replaced(a.as_slice(), b.as_slice(), c.as_slice());
    string_of(r.as_slice())
}

// ---------------------------------------------------------------------------
// Laws
// ---------------------------------------------------------------------------

/// Blanks, tabs and line breaks are white space; the other ASCII characters
/// that print are not.
pub proof fn law_white_space(c: char)
    ensures
        c == ' ' || c == '\t' || c == '\n' || c == '\r' ==> is_white(c),
        '!' <= c <= '~' ==> !is_white(c),
{
}

/// Every character is white space.
pub open spec fn all_white(s: Seq<char>) -> bool {
    forall|i: int| 0 <= i < s.len() ==> is_white(#[trigger] s[i])
}

/// White space around a text that neither begins nor ends with any is taken
/// away, and nothing else.
pub proof fn law_trim(before: Seq<char>, s: Seq<char>, behind: Seq<char>)
    requires
        all_white(before),
        all_white(behind),
        s.len() > 0 ==> !is_white(s[0]) && !is_white(s.last()),
    ensures
        trim(before + s + behind) == s,
{
    lemma_trim_front(before, s + behind);
    assert(before + (s + behind) =~= before + s + behind);
    if s.len() > 0 {
        assert((s + behind)[0] == s[0]);
        lemma_trim_back(s, behind);
    } else {
        assert(s + behind =~= behind);
        lemma_trim_front(behind, s);
        assert(behind + s =~= behind);
        assert(trim_start(s) == s);
        assert(trim_end(s) == s);
    }
}

proof fn lemma_trim_front(before: Seq<char>, s: Seq<char>)
    requires
        all_white(before),
    ensures
        trim_start(before + s) == trim_start(s),
    decreases before.len(),
{
    if before.len() > 0 {
        let rest = before.skip(1);
        assert((before + s)[0] == before[0]);
        assert((before + s).skip(1) =~= rest + s);
        assert forall|i: int| 0 <= i < rest.len() implies is_white(#[trigger] rest[i]) by {
            assert(rest[i] == before[i + 1]);
        }
        lemma_trim_front(rest, s);
    } else {
        assert(before + s =~= s);
    }
}

proof fn lemma_trim_back(s: Seq<char>, behind: Seq<char>)
    requires
        all_white(behind),
    ensures
        trim_end(s + behind) == trim_end(s),
    decreases behind.len(),
{
    if behind.len() > 0 {
        let rest = behind.drop_last();
        assert((s + behind).last() == behind.last());
        assert((s + behind).drop_last() =~= s + rest);
        lemma_trim_back(s, rest);
    } else {
        assert(s + behind =~= s);
    }
}

/// A text holds each of its parts, begins with what it begins with and ends
/// with what it ends with.
pub proof fn law_parts_occur(before: Seq<char>, part: Seq<char>, behind: Seq<char>)
    ensures
        occurs_at(before + part + behind, part, before.len() as int),
        contains(before + part + behind, part),
        begins(part + behind, part),
        ends(before + part, part),
{
    let s = before + part + behind;
    let at = before.len() as int;
    assert(s.subrange(at, at + part.len()) =~= part);
    assert((part + behind).subrange(0, part.len() as int) =~= part);
    assert((before + part).subrange(at, at + part.len()) =~= part);
    assert(occurs_at(s, part, at));
}

/// A text that occurs in another is shorter or as long, and stands there
/// character by character.
pub proof fn law_occurrence(s: Seq<char>, part: Seq<char>, i: int)
    requires
        occurs_at(s, part, i),
    ensures
        0 <= i <= i + part.len() <= s.len(),
        forall|k: int| 0 <= k < part.len() ==> #[trigger] part[k] == s[i + k],
{
    assert forall|k: int| 0 <= k < part.len() implies #[trigger] part[k] == s[i + k] by {
        assert(s.subrange(i, i + part.len())[k] == s[i + k]);
    }
}

/// The parts with `pat` between them.
pub open spec fn rejoined(parts: Seq<Seq<char>>, pat: Seq<char>) -> Seq<char>
    decreases parts.len(),
{
    if parts.len() == 0 {
        Seq::empty()
    } else if parts.len() == 1 {
        parts[0]
    } else {
        parts[0] + pat + rejoined(parts.skip(1), pat)
    }
}

/// The parts that a text is split into give the text back when they are joined,
/// and none of them holds what the text was split at.
pub proof fn law_split_parts(s: Seq<char>, pat: Seq<char>)
    requires
        pat.len() > 0,
    ensures
        split(s, pat).len() >= 1,
        rejoined(split(s, pat), pat) == s,
        forall|i: int| 0 <= i < split(s, pat).len() ==> !contains(#[trigger] split(s, pat)[i], pat),
    decreases s.len(),
{
    lemma_find(s, pat);
    let parts = split(s, pat);
    match find(s, pat) {
        Some(k) => {
            let rest = s.skip(k + pat.len());
            law_split_parts(rest, pat);
            assert(parts.skip(1) =~= split(rest, pat));
            assert(s =~= s.take(k) + pat + rest) by {
                law_occurrence(s, pat, k);
            }
            if contains(s.take(k), pat) {
                let i = choose|i: int| occurs_at(s.take(k), pat, i);
                assert(s.take(k).subrange(i, i + pat.len()) =~= s.subrange(i, i + pat.len()));
                assert(occurs_at(s, pat, i));
            }
            assert forall|i: int| 0 <= i < parts.len() implies !contains(
                #[trigger] parts[i],
                pat,
            ) by {
                if i > 0 {
                    assert(parts[i] == split(rest, pat)[i - 1]);
                }
            }
        },
        None => {},
    }
}

/// To replace is to split and to join with what is put in place.
pub proof fn law_replace_rejoins(s: Seq<char>, pat: Seq<char>, with: Seq<char>)
    requires
        pat.len() > 0,
    ensures
        replace(s, pat, with) == rejoined(split(s, pat), with),
    decreases s.len(),
{
    lemma_find(s, pat);
    match find(s, pat) {
        Some(k) => {
            let rest = s.skip(k + pat.len());
            law_replace_rejoins(rest, pat, with);
            lemma_split_nonempty(rest, pat);
            assert(split(s, pat).skip(1) =~= split(rest, pat));
        },
        None => {},
    }
}

/// The first word stands behind white space and reaches up to the next.
pub proof fn law_first_word(before: Seq<char>, word: Seq<char>, behind: Seq<char>)
    requires
        all_white(before),
        word.len() > 0,
        forall|i: int| 0 <= i < word.len() ==> !is_white(#[trigger] word[i]),
        behind.len() == 0 || is_white(behind[0]),
    ensures
        first_word(before + word + behind) == Some(word),
        first_word(before) is None,
{
    lemma_trim_front(before, word + behind);
    assert(before + (word + behind) =~= before + word + behind);
    assert((word + behind)[0] == word[0]);
    lemma_word_len(word, behind);
    assert((word + behind).take(word.len() as int) =~= word);
    let nothing = Seq::<char>::empty();
    lemma_trim_front(before, nothing);
    assert(before + nothing =~= before);
}

proof fn lemma_word_len(word: Seq<char>, behind: Seq<char>)
    requires
        forall|i: int| 0 <= i < word.len() ==> !is_white(#[trigger] word[i]),
        behind.len() == 0 || is_white(behind[0]),
    ensures
        word_len(word + behind) == word.len(),
    decreases word.len(),
{
    if word.len() > 0 {
        let rest = word.skip(1);
        assert((word + behind)[0] == word[0]);
        assert((word + behind).skip(1) =~= rest + behind);
        assert forall|i: int| 0 <= i < rest.len() implies !is_white(#[trigger] rest[i]) by {
            assert(rest[i] == word[i + 1]);
        }
        lemma_word_len(rest, behind);
    } else {
        assert(word + behind =~= behind);
    }
}

/// A text is split at the first separator, and the rest behind it on its own; a
/// text without a separator is one part.
pub proof fn law_split_at_the_first(first: Seq<char>, c: char, rest: Seq<char>)
    requires
        !first.contains(c),
    ensures
        split(first + seq![c] + rest, seq![c]) == seq![first] + split(rest, seq![c]),
        split(first, seq![c]) == seq![first],
        find(first + seq![c] + rest, seq![c]) == Some(first.len() as int),
        find(first, seq![c]) is None,
{
    let s = first + seq![c] + rest;
    let at = first.len() as int;
    lemma_find(s, seq![c]);
    lemma_find(first, seq![c]);
    assert(s.subrange(at, at + 1) =~= seq![c]);
    assert(occurs_at(s, seq![c], at));
    let k = find(s, seq![c])->0;
    if k < at {
        assert(s.subrange(k, k + 1)[0] == first[k]);
        assert(first.contains(first[k]));
    }
    if find(first, seq![c]) is Some {
        let j = find(first, seq![c])->0;
        assert(first.subrange(j, j + 1)[0] == first[j]);
        assert(first.contains(first[j]));
    }
    assert(s.take(at) =~= first);
    assert(s.skip(at + 1) =~= rest);
}

/// White space in front of a text that begins with none is taken away.
pub proof fn law_trim_start(before: Seq<char>, s: Seq<char>)
    requires
        all_white(before),
        s.len() > 0 ==> !is_white(s[0]),
    ensures
        trim_start(before + s) == s,
{
    lemma_trim_front(before, s);
}

} // verus!
