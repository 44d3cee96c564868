//! The choice of a setting among those that the camera offers.

use crate::number::{decimal, decimal_text, parse_decimal, read_decimal};
use crate::reals::{is_real, text_writes_real};
use crate::text::{concat3, same_text, texts};
use vstd::prelude::*;

verus! {

/// The numbers among the first `n` choices.
pub open spec fn numbers_among(choices: Seq<Seq<char>>, n: nat) -> Seq<u64>
    decreases n,
{
    if n == 0 {
        Seq::empty()
    } else {
        let before = numbers_among(choices, (n - 1) as nat);
        match parse_decimal(choices[n - 1], u64::MAX as nat) {
            Some(v) => before.push(v as u64),
            None => before,
        }
    }
}

/// The sensitivities that the camera offers.
pub fn iso_options(choices: &Vec<String>) -> (r: Vec<u64>)
    ensures
        r@ == numbers_among(texts(choices@), choices@.len()),
{
    let mut out: Vec<u64> = Vec::new();
    for i in 0..choices.len()
        invariant
            out@ == numbers_among(texts(choices@), i as nat),
    {
        assert(texts(choices@)[i as int] == choices@[i as int]@);
        match read_decimal(choices[i].as_str(), u64::MAX) {
            Some(v) => {
                out.push(v);
            },
            None => {},
        }
    }
    out
}

/// The real numbers among the first `n` choices.
pub open spec fn reals_among(choices: Seq<Seq<char>>, n: nat) -> Seq<Seq<char>>
    decreases n,
{
    if n == 0 {
        Seq::empty()
    } else {
        let before = reals_among(choices, (n - 1) as nat);
        if is_real(choices[n - 1]) {
            before.push(choices[n - 1])
        } else {
            before
        }
    }
}

/// The apertures that the camera offers, as text.
pub fn aperture_options(choices: &Vec<String>) -> (r: Vec<String>)
    ensures
        texts(r@) == reals_among(texts(choices@), choices@.len()),
{
    let mut out: Vec<String> = Vec::new();
    assert(texts(out@) =~= Seq::<Seq<char>>::empty());
    for i in 0..choices.len()
        invariant
            texts(out@) == reals_among(texts(choices@), i as nat),
    {
        let ghost before = texts(out@);
        assert(texts(choices@)[i as int] == choices@[i as int]@);
        if text_writes_real(choices[i].as_str()) {
            out.push(choices[i].clone());
            assert(texts(out@) =~= before.push(choices@[i as int]@));
        }
    }
    out
}

/// The first `n` items, with ", " between them.
pub open spec fn joined(items: Seq<Seq<char>>, n: nat) -> Seq<char>
    decreases n,
{
    if n == 0 {
        ""@
    } else if n == 1 {
        items[0]
    } else {
        joined(items, (n - 1) as nat) + ", "@ + items[n - 1]
    }
}

/// The items as a list: "[1, 2]".
pub open spec fn list_text(items: Seq<Seq<char>>) -> Seq<char> {
    "["@ + joined(items, items.len()) + "]"@
}

fn list_of(items: &Vec<String>) -> (r: String)
    ensures
        r@ == list_text(texts(items@)),
{
    let n = items.len();
    let mut m = "".to_owned();
    for i in 0..n
        invariant
            n == items@.len(),
            m@ == joined(texts(items@), i as nat),
    {
        assert(texts(items@)[i as int] == items@[i as int]@);
        if i == 0 {
            m = items[0].clone();
        } else {
            m.append(", ");
            m.append(items[i].as_str());
        }
    }
    concat3("[", m.as_str(), "]")
}

/// The numbers as text.
pub open spec fn number_texts(numbers: Seq<u64>) -> Seq<Seq<char>> {
    Seq::new(numbers.len(), |i: int| decimal(numbers[i] as nat))
}

fn texts_of_numbers(numbers: &Vec<u64>) -> (r: Vec<String>)
    ensures
        texts(r@) == number_texts(numbers@),
{
    let mut out: Vec<String> = Vec::new();
    for i in 0..numbers.len()
        invariant
            out@.len() == i,
            forall|k: int| 0 <= k < i ==> #[trigger] out@[k]@ == decimal(numbers@[k] as nat),
    {
        out.push(decimal_text(numbers[i]));
    }
    assert(texts(out@) =~= number_texts(numbers@));
    out
}

/// The text stands among the choices.
pub fn is_choice(choices: &Vec<String>, text: &str) -> (r: bool)
    ensures
        r == texts(choices@).contains(text@),
{
    for i in 0..choices.len()
        invariant
            forall|k: int| 0 <= k < i ==> texts(choices@)[k] != text@,
    {
        assert(texts(choices@)[i as int] == choices@[i as int]@);
        if same_text(choices[i].as_str(), text) {
            return true;
        }
    }
    false
}

/// The choice for a sensitivity, or why there is none.
pub fn choose_iso(iso: u64, choices: &Vec<String>) -> (r: Result<String, String>)
    ensures
        match r {
            Ok(choice) => {
                &&& choice@ == decimal(iso as nat)
                &&& texts(choices@).contains(choice@)
            },
            Err(e) => {
                &&& !texts(choices@).contains(decimal(iso as nat))
                &&& e@ == "ISO "@ + decimal(iso as nat) + " not available. Options: "@ + list_text(
                    number_texts(numbers_among(texts(choices@), choices@.len())),
                )
            },
        },
{
    let text = decimal_text(iso);
    if is_choice(choices, text.as_str()) {
        return Ok(text);
    }
    let options = texts_of_numbers(&iso_options(choices));
    let mut m = concat3("ISO ", text.as_str(), " not available. Options: ");
    m.append(list_of(&options).as_str());
    Err(m)
}

/// The choice for an exposure that the camera times itself, where there is one.
/// The exposure, in seconds, is text.
pub fn choose_shutter(exposure: &str, choices: &Vec<String>) -> (r: Option<String>)
    ensures
        match r {
            Some(choice) => choice@ == exposure@ && texts(choices@).contains(exposure@),
            None => !texts(choices@).contains(exposure@),
        },
{
    if is_choice(choices, exposure) {
        Some(exposure.to_owned())
    } else {
        None
    }
}

/// The choice is a real number that fits the aperture. `fits` says of each
/// choice that is a real number whether it does.
pub open spec fn fits_aperture(choices: Seq<Seq<char>>, fits: Seq<bool>, i: int) -> bool {
    is_real(choices[i]) && fits[i]
}

/// The first choice that fits the aperture.
pub open spec fn is_first_fit(choices: Seq<Seq<char>>, fits: Seq<bool>, i: int) -> bool {
    &&& 0 <= i < choices.len()
    &&& fits_aperture(choices, fits, i)
    &&& forall|k: int| 0 <= k < i ==> !#[trigger] fits_aperture(choices, fits, k)
}

/// No choice fits the aperture.
pub open spec fn none_fits(choices: Seq<Seq<char>>, fits: Seq<bool>) -> bool {
    forall|k: int| 0 <= k < choices.len() ==> !#[trigger] fits_aperture(choices, fits, k)
}

fn first_fit(choices: &Vec<String>, fits: &Vec<bool>) -> (r: Option<usize>)
    requires
        fits@.len() == choices@.len(),
    ensures
        match r {
            Some(i) => is_first_fit(texts(choices@), fits@, i as int),
            None => none_fits(texts(choices@), fits@),
        },
{
    for i in 0..choices.len()
        invariant
            fits@.len() == choices@.len(),
            forall|k: int| 0 <= k < i ==> !#[trigger] fits_aperture(texts(choices@), fits@, k),
    {
        assert(texts(choices@)[i as int] == choices@[i as int]@);
        if text_writes_real(choices[i].as_str()) && fits[i] {
            assert(fits_aperture(texts(choices@), fits@, i as int));
            return Some(i);
        }
    }
    None
}

/// The choice for an aperture: the first that is equal to it, else the first
/// that is close to it, or why there is none. The aperture and the options are
/// text; `exact` and `close` say of each choice that is a real number whether
/// it is equal to the aperture, and whether it is close to it.
pub fn choose_aperture(
    aperture: &str,
    choices: &Vec<String>,
    exact: &Vec<bool>,
    close: &Vec<bool>,
    options: &Vec<String>,
) -> (r: Result<String, String>)
    requires
        exact@.len() == choices@.len(),
        close@.len() == choices@.len(),
    ensures
        match r {
            Ok(choice) => {
                ||| exists|i: int| #[trigger]
                    is_first_fit(texts(choices@), exact@, i) && choice@ == choices@[i]@
                ||| none_fits(texts(choices@), exact@) && exists|i: int| #[trigger]
                    is_first_fit(texts(choices@), close@, i) && choice@ == choices@[i]@
            },
            Err(e) => {
                &&& none_fits(texts(choices@), exact@)
                &&& none_fits(texts(choices@), close@)
                &&& e@ == "Aperture f/"@ + aperture@ + " not available. Options: "@ + list_text(
                    texts(options@),
                )
            },
        },
{
    if let Some(i) = first_fit(choices, exact) {
        return Ok(choices[i].clone());
    }
    if let Some(i) = first_fit(choices, close) {
        return Ok(choices[i].clone());
    }
    let mut m = concat3("Aperture f/", aperture, " not available. Options: ");
    m.append(list_of(options).as_str());
    Err(m)
}

/// What is chosen is on offer.
pub proof fn law_offered_iso_is_listed(choices: Seq<Seq<char>>, iso: u64, n: nat)
    requires
        n <= choices.len(),
        exists|i: int| 0 <= i < n && #[trigger] choices[i] == decimal(iso as nat),
    ensures
        numbers_among(choices, n).contains(iso),
    decreases n,
{
    let i = choose|i: int| 0 <= i < n && #[trigger] choices[i] == decimal(iso as nat);
    let all = numbers_among(choices, n);
    let before = numbers_among(choices, (n - 1) as nat);
    if i == n - 1 {
        crate::number::law_decimal_round_trip(iso as nat, u64::MAX as nat);
        assert(all.last() == iso);
    } else {
        law_offered_iso_is_listed(choices, iso, (n - 1) as nat);
        let k = choose|k: int| 0 <= k < before.len() && before[k] == iso;
        assert(all[k] == iso);
    }
}

/// The numbers on offer are those that the choices write, and no others.
pub proof fn law_numbers_on_offer(choices: Seq<Seq<char>>, n: nat, v: u64)
    requires
        n <= choices.len(),
    ensures
        numbers_among(choices, n).contains(v) <==> exists|i: int|
            0 <= i < n && parse_decimal(#[trigger] choices[i], u64::MAX as nat) == Some(v as nat),
    decreases n,
{
    if n > 0 {
        let before = numbers_among(choices, (n - 1) as nat);
        let all = numbers_among(choices, n);
        law_numbers_on_offer(choices, (n - 1) as nat, v);
        match parse_decimal(choices[n - 1], u64::MAX as nat) {
            Some(new) => {
                assert(all.last() == new as u64);
                if before.contains(v) {
                    let i = choose|i: int| 0 <= i < before.len() && before[i] == v;
                    assert(all[i] == v);
                }
                if all.contains(v) && v != new as u64 {
                    let i = choose|i: int| 0 <= i < all.len() && all[i] == v;
                    assert(before[i] == v);
                }
                if v == new as u64 {
                    assert(all[all.len() - 1] == v);
                    assert(parse_decimal(choices[n - 1], u64::MAX as nat) == Some(v as nat));
                }
            },
            None => {},
        }
    }
}

/// The apertures on offer are the choices that write real numbers, and no others.
pub proof fn law_apertures_on_offer(choices: Seq<Seq<char>>, n: nat, a: Seq<char>)
    requires
        n <= choices.len(),
    ensures
        reals_among(choices, n).contains(a) <==> is_real(a) && exists|i: int|
            0 <= i < n && #[trigger] choices[i] == a,
    decreases n,
{
    if n > 0 {
        let before = reals_among(choices, (n - 1) as nat);
        let all = reals_among(choices, n);
        law_apertures_on_offer(choices, (n - 1) as nat, a);
        if is_real(choices[n - 1]) {
            assert(all.last() == choices[n - 1]);
            if before.contains(a) {
                let i = choose|i: int| 0 <= i < before.len() && before[i] == a;
                assert(all[i] == a);
            }
            if all.contains(a) && a != choices[n - 1] {
                let i = choose|i: int| 0 <= i < all.len() && all[i] == a;
                assert(before[i] == a);
            }
            if a == choices[n - 1] {
                assert(all[all.len() - 1] == a);
            }
        }
    }
}

/// A list stands between brackets, with a comma and a blank between its items.
pub proof fn law_text_of_a_list(items: Seq<Seq<char>>, item: Seq<char>)
    ensures
        list_text(Seq::empty()) == seq!['[', ']'],
        list_text(seq![item]) == seq!['['] + item + seq![']'],
        items.len() > 0 ==> list_text(items.push(item)) == list_text(items).drop_last() + seq![
            ',',
            ' ',
        ] + item + seq![']'],
{
    reveal_strlit("[");
    reveal_strlit("]");
    reveal_strlit(", ");
    reveal_strlit("");
    assert(list_text(Seq::empty()) =~= seq!['[', ']']);
    assert(list_text(seq![item]) =~= seq!['['] + item + seq![']']);
    if items.len() > 0 {
        lemma_same_items(items, items.push(item), items.len());
        assert(list_text(items.push(item)) =~= list_text(items).drop_last() + seq![',', ' '] + item
            + seq![']']);
    }
}

proof fn lemma_same_items(a: Seq<Seq<char>>, b: Seq<Seq<char>>, n: nat)
    requires
        n <= a.len(),
        n <= b.len(),
        forall|i: int| 0 <= i < n ==> a[i] == b[i],
    ensures
        joined(a, n) == joined(b, n),
    decreases n,
{
    if n > 1 {
        lemma_same_items(a, b, (n - 1) as nat);
    }
}

} // verus!
