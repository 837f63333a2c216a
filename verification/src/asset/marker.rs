//! The marker asset kind's operation types: a known case or a raw code
//! carried through.

use vstd::prelude::*;

use crate::asset::param::KnownUnknown;

verus! {

/// A marker operation type: a known case, or a raw code carried through.
pub type MarkerType = KnownUnknown<KnownMarkerType, u32>;

/// The marker types whose meaning is known.
#[derive(Debug, Clone, Copy, PartialEq, Eq, Structural)]
pub enum KnownMarkerType {
    Powerup,
}

impl KnownMarkerType {
    /// The numeric code this marker type is stored as.
    pub open spec fn spec_code(self) -> u32 {
        match self {
            KnownMarkerType::Powerup => 0,
        }
    }

    /// The numeric code this marker type is stored as.
    pub fn code(self) -> (r: u32)
        ensures
            r == self.spec_code(),
    {
        match self {
            KnownMarkerType::Powerup => 0,
        }
    }

    /// The byte width of the operands this marker type takes.
    pub fn operands_size(&self) -> (r: usize)
        ensures
            r == 0x80,
    {
        match self {
            KnownMarkerType::Powerup => 0x80,
        }
    }
}

/// The marker type a raw code decodes to.
pub fn marker_type_from_u32(c: u32) -> (r: MarkerType)
    ensures
        c == 0 ==> r == MarkerType::Known(KnownMarkerType::Powerup),
        c != 0 ==> r == MarkerType::Unknown(c),
{
    if c == 0 {
        KnownUnknown::Known(KnownMarkerType::Powerup)
    } else {
        KnownUnknown::Unknown(c)
    }
}

/// The numeric code a marker type is stored as.
pub fn marker_type_to_u32(t: &MarkerType) -> (r: u32)
    ensures
        t matches KnownUnknown::Known(k) ==> r == k.spec_code(),
        t matches KnownUnknown::Unknown(c) ==> r == c,
{
    match t {
        KnownUnknown::Known(k) => k.code(),
        KnownUnknown::Unknown(c) => *c,
    }
}

} // verus!
