//! Looking up an object of the catalogue by what a user types.

use crate::catalogue::{
    extract_messier_number, find_messier_object, is_sorted, number_behind_m, MessierObject,
};
use crate::notes::{added, one};
use crate::number::{decimal, decimal_text};
use crate::sexagesimal::{catalogue_dec, catalogue_ra, parse_dec, parse_ra, Angle};
use crate::text::{concat2, concat3, texts, trim, trimmed_text, uppercase_of};
use vstd::prelude::*;

verus! {

/// What a user is told of an object, and where it is.
#[derive(Debug)]
pub struct Lookup {
    pub notes: Vec<String>,
    pub target: Option<Target>,
}

/// A position in the sky: hours, minutes, and seconds as text, and the angle of
/// the declination.
#[derive(Debug)]
pub struct Target {
    pub ra: (i64, i64, String),
    pub dec: Angle,
}

/// What is told of an object that is in the catalogue.
pub open spec fn object_notes(o: MessierObject) -> Seq<Seq<char>> {
    let found = seq!["Found: "@ + o.name@ + " - RA: "@ + o.ra@ + ", Dec: "@ + o.dec@];
    if catalogue_ra(o.ra@) is None {
        found.push("Failed to parse RA: "@ + o.ra@)
    } else if catalogue_dec(o.dec@) is None {
        found.push("Failed to parse Dec: "@ + o.dec@)
    } else {
        found
    }
}

/// The target is where the object is, absent where its position cannot be read.
pub open spec fn is_target_of(target: Option<Target>, o: MessierObject) -> bool {
    match target {
        Some(t) => {
            &&& catalogue_ra(o.ra@) == Some((t.ra.0 as int, t.ra.1 as int, t.ra.2@))
            &&& catalogue_dec(o.dec@) == Some(t.dec@)
        },
        None => catalogue_ra(o.ra@) is None || catalogue_dec(o.dec@) is None,
    }
}

/// The lookup tells of the object.
pub open spec fn tells_of(r: Lookup, o: MessierObject) -> bool {
    texts(r.notes@) == object_notes(o) && is_target_of(r.target, o)
}

/// Looks up the object that the input names.
pub fn look_up(input: &str, catalogue: &[MessierObject]) -> (r: Lookup)
    requires
        is_sorted(catalogue@),
    ensures
        match number_behind_m(uppercase_of(trim(input@))) {
            None => {
                &&& texts(r.notes@) == seq![
                    "Invalid input: '"@ + trim(input@)
                        + "'. Please enter a valid Messier object like M101."@,
                ]
                &&& r.target is None
            },
            Some(n) => {
                ||| exists|i: int|
                    0 <= i < catalogue@.len() && catalogue@[i].number == n && #[trigger] tells_of(
                        r,
                        catalogue@[i],
                    )
                ||| {
                    &&& forall|i: int|
                        0 <= i < catalogue@.len() ==> (#[trigger] catalogue@[i]).number != n
                    &&& texts(r.notes@) == seq![
                        "Messier object M"@ + decimal(n) + " not found in catalogue."@,
                    ]
                    &&& r.target is None
                }
            },
        },
{
    let name = trimmed_text(input);
    let number = match extract_messier_number(name.as_str()) {
        Some(n) => n,
        None => {
            let text = concat3(
                "Invalid input: '",
                name.as_str(),
                "'. Please enter a valid Messier object like M101.",
            );
            return Lookup { notes: one(text), target: None };
        },
    };
    match find_messier_object(catalogue, number) {
        Some(o) => {
            let r = describe(o);
            assert(exists|i: int|
                0 <= i < catalogue@.len() && catalogue@[i].number == number && #[trigger] tells_of(
                    r,
                    catalogue@[i],
                )) by {
                let i = choose|i: int| 0 <= i < catalogue@.len() && catalogue@[i] == *o;
                assert(tells_of(r, catalogue@[i]));
            }
            r
        },
        None => Lookup {
            notes: one(
                concat3(
                    "Messier object M",
                    decimal_text(number as u64).as_str(),
                    " not found in catalogue.",
                ),
            ),
            target: None,
        },
    }
}

fn describe(o: &MessierObject) -> (r: Lookup)
    ensures
        tells_of(r, *o),
{
    let mut text = concat3("Found: ", o.name.as_str(), " - RA: ");
    text.append(o.ra.as_str());
    text.append(", Dec: ");
    text.append(o.dec.as_str());
    let found = one(text);
    let ra = match parse_ra(o.ra.as_str()) {
        Some(ra) => ra,
        None => {
            return Lookup {
                notes: added(found, concat2("Failed to parse RA: ", o.ra.as_str())),
                target: None,
            };
        },
    };
    match parse_dec(o.dec.as_str()) {
        Some(dec) => Lookup { notes: found, target: Some(Target { ra, dec }) },
        None => Lookup {
            notes: added(found, concat2("Failed to parse Dec: ", o.dec.as_str())),
            target: None,
        },
    }
}

/// What is told of an object that was found: its name and its coordinates, and
/// behind them the coordinate that could not be read.
pub proof fn law_object_is_told(r: Lookup, o: MessierObject)
    requires
        tells_of(r, o),
    ensures
        ({
            let found = "Found: "@ + o.name@ + " - RA: "@ + o.ra@ + ", Dec: "@ + o.dec@;
            let ra = catalogue_ra(o.ra@);
            let dec = catalogue_dec(o.dec@);
            &&& ra is Some && dec is Some ==> {
                &&& texts(r.notes@) == seq![found]
                &&& r.target is Some
                &&& ra->0 == (r.target->0.ra.0 as int, r.target->0.ra.1 as int, r.target->0.ra.2@)
                &&& dec->0 == r.target->0.dec@
            }
            &&& ra is None ==> r.target is None && texts(r.notes@) == seq![
                found,
                "Failed to parse RA: "@ + o.ra@,
            ]
            &&& ra is Some && dec is None ==> r.target is None && texts(r.notes@) == seq![
                found,
                "Failed to parse Dec: "@ + o.dec@,
            ]
        }),
{
    let found = "Found: "@ + o.name@ + " - RA: "@ + o.ra@ + ", Dec: "@ + o.dec@;
    assert(seq![found].push("Failed to parse RA: "@ + o.ra@) =~= seq![
        found,
        "Failed to parse RA: "@ + o.ra@,
    ]);
    assert(seq![found].push("Failed to parse Dec: "@ + o.dec@) =~= seq![
        found,
        "Failed to parse Dec: "@ + o.dec@,
    ]);
}

} // verus!
