//! The digit fonts of the big timer display.

use vstd::prelude::*;

verus! {

/// Contains all supported digits types (fonts).
#[derive(Debug, Clone, Copy, PartialEq, Eq, Structural)]
pub enum DigitType {
    Italic,
    Train,
    Card,
}

/// The font after a given one, cycling through all three.
pub open spec fn spec_next(d: DigitType) -> DigitType {
    match d {
        DigitType::Italic => DigitType::Train,
        DigitType::Train => DigitType::Card,
        DigitType::Card => DigitType::Italic,
    }
}

/// The font before a given one.
pub open spec fn spec_prev(d: DigitType) -> DigitType {
    match d {
        DigitType::Italic => DigitType::Card,
        DigitType::Train => DigitType::Italic,
        DigitType::Card => DigitType::Train,
    }
}

impl DigitType {
    /// Gets the next digit type.
    pub fn next(&self) -> (r: DigitType)
        ensures
            r == spec_next(*self),
    {
        match self {
            DigitType::Italic => DigitType::Train,
            DigitType::Train => DigitType::Card,
            DigitType::Card => DigitType::Italic,
        }
    }

    /// Gets the previous digit type.
    pub fn prev(&self) -> (r: DigitType)
        ensures
            r == spec_prev(*self),
    {
        match self {
            DigitType::Italic => DigitType::Card,
            DigitType::Train => DigitType::Italic,
            DigitType::Card => DigitType::Train,
        }
    }
}

impl Default for DigitType {
    /// The default font.
    fn default() -> (r: DigitType)
        ensures
            r == DigitType::Italic,
    {
        DigitType::Italic
    }
}

/// Stepping to the next font and back, in either order, returns to the
/// starting font.
pub proof fn lemma_font_cycle(d: DigitType)
    ensures
        spec_prev(spec_next(d)) == d,
        spec_next(spec_prev(d)) == d,
{
}

} // verus!
