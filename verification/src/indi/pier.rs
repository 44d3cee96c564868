//! The side of the pier on which the telescope hangs.

use vstd::prelude::*;

verus! {

/// Which side of the pier the telescope is on.
///
/// `West` means that the telescope points east (counterweight down for most
/// German equatorial mounts), `East` that it points west.
#[derive(Debug, Clone, Copy, PartialEq, Eq, Structural)]
pub enum PierSide {
    West,
    East,
    Unknown,
}

impl PierSide {
    /// The name that messages and status reports use.
    pub open spec fn label(self) -> Seq<char> {
        match self {
            PierSide::West => "WEST"@,
            PierSide::East => "EAST"@,
            PierSide::Unknown => "UNKNOWN"@,
        }
    }

    /// The name that messages and status reports use.
    pub fn name(&self) -> (r: String)
        ensures
            r@ == self.label(),
    {
        match self {
            PierSide::West => "WEST".to_owned(),
            PierSide::East => "EAST".to_owned(),
            PierSide::Unknown => "UNKNOWN".to_owned(),
        }
    }
}

/// Each side has its word, and no two sides have the same.
pub proof fn law_words_of_the_sides(a: PierSide, b: PierSide)
    ensures
        PierSide::West.label() == "WEST"@,
        PierSide::East.label() == "EAST"@,
        PierSide::Unknown.label() == "UNKNOWN"@,
        a.label() == b.label() <==> a == b,
{
    reveal_strlit("WEST");
    reveal_strlit("EAST");
    reveal_strlit("UNKNOWN");
    assert("WEST"@[0] == 'W' && "EAST"@[0] == 'E' && "UNKNOWN"@[0] == 'U');
}

} // verus!
