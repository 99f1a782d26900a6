//! The catalog entry: one remote value and the place of its field on the
//! display.

use vstd::prelude::*;
use vstd::string::StringSliceAdditionalSpecFns;

verus! {

/// A remote value that the dashboard tracks.
///
/// The field of an entity starts at the display cell `position` and holds the
/// label, a separator, the value and the unit. The unit is a sequence of raw
/// display codes, so that symbols outside ASCII (a degree sign, a micro sign)
/// can be given as the display's character table has them.
#[derive(Clone, Copy, Debug)]
pub struct Entity {
    pub display_name: &'static str,
    pub display_unit: &'static [u8],
    pub entity_name: &'static str,
    pub position: u8,
}

impl Entity {
    /// The cells that the label occupies: the bytes of its text.
    pub open spec fn label_cells(&self) -> Seq<u8> {
        self.display_name.spec_bytes()
    }

    /// The cells that the unit occupies.
    pub open spec fn unit_cells(&self) -> Seq<u8> {
        self.display_unit@
    }
}

} // verus!
