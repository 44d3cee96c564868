//! Lists of messages.

use crate::text::texts;
use vstd::prelude::*;

verus! {

/// No message.
pub fn none() -> (r: Vec<String>)
    ensures
        texts(r@) == Seq::<Seq<char>>::empty(),
{
    let notes: Vec<String> = Vec::new();
    assert(texts(notes@) =~= Seq::<Seq<char>>::empty());
    notes
}

/// One message.
pub fn one(note: String) -> (r: Vec<String>)
    ensures
        texts(r@) == seq![note@],
{
    let ghost text = note@;
    let mut notes: Vec<String> = Vec::new();
    notes.push(note);
    assert(texts(notes@) =~= seq![text]);
    notes
}

/// Two messages.
pub fn two(first: String, second: String) -> (r: Vec<String>)
    ensures
        texts(r@) == seq![first@, second@],
{
    let ghost all = seq![first@, second@];
    let mut notes: Vec<String> = Vec::new();
    notes.push(first);
    notes.push(second);
    assert(texts(notes@) =~= all);
    notes
}

/// The messages with one more at the end.
pub fn added(notes: Vec<String>, note: String) -> (r: Vec<String>)
    ensures
        texts(r@) == texts(notes@).push(note@),
{
    let ghost before = texts(notes@);
    let ghost text = note@;
    let mut notes = notes;
    notes.push(note);
    assert(texts(notes@) =~= before.push(text));
    notes
}

} // verus!
