//! The RGB indicator: colour records and the channel order of the lamp.

use vstd::prelude::*;

verus! {

/// A colour command for the RGB indicator, one byte per channel.
#[derive(Debug, Clone, Copy, PartialEq, Eq, Structural)]
pub struct RGB {
    pub r: u8,
    pub g: u8,
    pub b: u8,
}

impl RGB {
    /// The colour that switches the indicator off.
    pub open spec fn spec_off() -> RGB {
        RGB { r: 0, g: 0, b: 0 }
    }

    /// The colour that switches the indicator off.
    #[verifier::when_used_as_spec(spec_off)]
    pub fn off() -> (c: RGB)
        ensures
            c == RGB::spec_off(),
    {
        RGB { r: 0, g: 0, b: 0 }
    }

    /// The record with its red and green channels exchanged.
    pub open spec fn spec_wired(self) -> RGB {
        RGB { r: self.g, g: self.r, b: self.b }
    }

    /// Exchanges the red and green channels. The lamp is wired with these
    /// two swapped, so a decoded command passes through here once on its way
    /// to the indicator.
    #[verifier::when_used_as_spec(spec_wired)]
    pub fn wired(self) -> (c: RGB)
        ensures
            c == self.spec_wired(),
    {
        RGB { r: self.g, g: self.r, b: self.b }
    }
}

/// Exchanging red and green twice gives the colour back.
pub proof fn lemma_wired_twice(c: RGB)
    ensures
        c.spec_wired().spec_wired() == c,
{
}

} // verus!
