//! Canonical source-CRS handle: a thin newtype around a `u16` EPSG code.
//!
//! Every downstream consumer works with `SourceCrs` and never sees raw
//! metadata bytes or WKT strings.

use vstd::prelude::*;

verus! {

/// EPSG code of ECEF metres (geocentric WGS84): the fixed reprojection target.
pub const EPSG_ECEF: u16 = 4978;

/// Canonical source-CRS handle. Carries an EPSG code only; whether the code
/// is in the catalogue is checked when a `Reprojector` is built.
#[derive(Debug, Clone, Copy, PartialEq, Eq, Hash, Structural)]
pub struct SourceCrs {
    pub epsg: u16,
}

impl SourceCrs {
    /// EPSG:4978, ECEF metres: the fixed reprojection target.
    pub fn ecef() -> (s: SourceCrs)
        ensures
            s.epsg == EPSG_ECEF,
    {
        SourceCrs { epsg: EPSG_ECEF }
    }

    /// Construct from a raw EPSG code (no catalogue lookup).
    pub fn new(epsg: u16) -> (s: SourceCrs)
        ensures
            s.epsg == epsg,
    {
        SourceCrs { epsg }
    }
}

} // verus!
