//! Writing systems as the faces and the word lists tell them apart.

use vstd::prelude::*;

verus! {

/// The regional convention that Han characters are drawn and divided by.
#[derive(Debug, Clone, Copy, PartialEq, Eq, Structural)]
pub enum Region {
    Simplified,
    Traditional,
    Japanese,
}

impl Default for Region {
    fn default() -> (r: Self)
        ensures
            r == Region::Simplified,
    {
        Region::Simplified
    }
}

impl Region {
    /// The place of a region in every list of them.
    pub open spec fn index(self) -> int {
        match self {
            Region::Simplified => 0,
            Region::Traditional => 1,
            Region::Japanese => 2,
        }
    }

    pub open spec fn nth(i: int) -> Region {
        if i == 0 {
            Region::Simplified
        } else if i == 1 {
            Region::Traditional
        } else {
            Region::Japanese
        }
    }

    pub fn at(self) -> (r: usize)
        ensures
            r == self.index(),
    {
        match self {
            Region::Simplified => 0,
            Region::Traditional => 1,
            Region::Japanese => 2,
        }
    }
}

/// What a run of text is set in: a writing system, a weight and a slant, or the
/// face of the controls.
#[derive(Debug, Clone, Copy, PartialEq, Eq, Structural)]
pub enum Role {
    Body,
    BodyItalic,
    BodyBold,
    BodyBoldItalic,
    Han,
    HanBold,
    Hangul,
    HangulBold,
    Chrome,
    ChromeBold,
}

impl Role {
    pub open spec fn han(self) -> bool {
        self == Role::Han || self == Role::HanBold
    }

    pub open spec fn hangul(self) -> bool {
        self == Role::Hangul || self == Role::HangulBold
    }

    pub open spec fn chrome(self) -> bool {
        self == Role::Chrome || self == Role::ChromeBold
    }

    pub fn is_chrome(self) -> (r: bool)
        ensures
            r == self.chrome(),
    {
        matches!(self, Role::Chrome | Role::ChromeBold)
    }

    pub fn is_han(self) -> (r: bool)
        ensures
            r == self.han(),
    {
        matches!(self, Role::Han | Role::HanBold)
    }

    pub fn is_hangul(self) -> (r: bool)
        ensures
            r == self.hangul(),
    {
        matches!(self, Role::Hangul | Role::HangulBold)
    }
}

/// A convention is found at its own place.
pub proof fn a_region_is_at_its_place(region: Region, i: int)
    requires
        0 <= i < 3,
    ensures
        Region::nth(region.index()) == region,
        Region::nth(i).index() == i,
        0 <= region.index() < 3,
{
}

} // verus!
