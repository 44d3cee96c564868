//! Lists of steps, and the commands that every client of a mount sends.

use crate::indi::command::{switch_vector, two_switches, Switch};
use vstd::prelude::*;

verus! {

/// The steps with their texts.
pub open spec fn step_views<T: View>(steps: Seq<T>) -> Seq<T::V> {
    Seq::new(steps.len(), |i: int| steps[i]@)
}

/// No steps.
pub fn no_steps<T: View>() -> (r: Vec<T>)
    ensures
        step_views(r@) == Seq::<T::V>::empty(),
{
    let r: Vec<T> = Vec::new();
    assert(step_views(r@) =~= Seq::<T::V>::empty());
    r
}

/// The steps with one more at the end.
pub fn pushed<T: View>(steps: Vec<T>, step: T) -> (r: Vec<T>)
    ensures
        step_views(r@) == step_views(steps@).push(step@),
{
    let ghost before = step_views(steps@);
    let ghost last = step@;
    let mut steps = steps;
    steps.push(step);
    assert(step_views(steps@) =~= before.push(last));
    steps
}

/// The switches that turn tracking on.
pub open spec fn tracking_on(device: Seq<char>) -> Seq<char> {
    switch_vector(
        device,
        "TELESCOPE_TRACK_STATE"@,
        seq![("TRACK_ON"@, true), ("TRACK_OFF"@, false)],
    )
}

/// The command that turns tracking on.
pub fn track_command(device: &str) -> (r: String)
    ensures
        r@ == tracking_on(device@),
{
    two_switches(
        device,
        "TELESCOPE_TRACK_STATE",
        Switch { name: "TRACK_ON", on: true },
        Switch { name: "TRACK_OFF", on: false },
    )
}

} // verus!
