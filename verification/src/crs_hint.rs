//! `CrsHint`: caller-supplied CRS policy passed to format readers, and
//! `CrsResolution`: how the resolved EPSG (or local-frame fallback) came about.
//!
//! Two policies:
//!
//! - **`Detected`**: walk the consumer's auto-detect cascade (in-band
//!   metadata, then sidecar `.prj` / `.qpj`, then local-frame fallback).
//! - **`Override(u16)`**: force a specific EPSG; it wins silently over any
//!   in-band or sidecar value.
//!
//! Local-frame ingest is a resolution outcome (`CrsResolution::LocalFrame`),
//! not a user-facing knob.

use vstd::prelude::*;

verus! {

/// Caller-supplied CRS policy.
#[derive(Debug, Clone, Copy, PartialEq, Eq, Structural)]
pub enum CrsHint {
    /// Walk the auto-detect cascade.
    Detected,
    /// Force this EPSG; wins silently over in-band / sidecar values.
    Override(u16),
}

/// Outcome of resolving a [`CrsHint`] against detected source CRS data.
#[derive(Debug, Clone, Copy, PartialEq, Eq, Structural)]
pub enum CrsResolution {
    /// The user supplied an EPSG and it was used.
    Override(u16),
    /// A CRS was auto-detected from the input (in-band or sidecar).
    Detected(u16),
    /// No CRS metadata present; ingest falls back to a local frame.
    LocalFrame,
}

/// The EPSG carried by a resolution, `None` for the local frame.
pub open spec fn resolution_epsg(r: CrsResolution) -> Option<u16> {
    match r {
        CrsResolution::Override(e) => Some(e),
        CrsResolution::Detected(e) => Some(e),
        CrsResolution::LocalFrame => None,
    }
}

/// The outcome of reconciling `hint` with the detected EPSG.
pub open spec fn resolve_spec(hint: CrsHint, detected: Option<u16>) -> CrsResolution {
    match hint {
        CrsHint::Override(o) => CrsResolution::Override(o),
        CrsHint::Detected => match detected {
            Some(d) => CrsResolution::Detected(d),
            None => CrsResolution::LocalFrame,
        },
    }
}

impl CrsResolution {
    /// EPSG of the resolved CRS, or `None` for local-frame ingest.
    pub fn epsg(self) -> (res: Option<u16>)
        ensures
            res == resolution_epsg(self),
    {
        match self {
            CrsResolution::Override(e) => Some(e),
            CrsResolution::Detected(e) => Some(e),
            CrsResolution::LocalFrame => None,
        }
    }

    /// Was the input originally georeferenced, by detection or by override?
    pub fn originally_georeferenced(self) -> (res: bool)
        ensures
            res == !(self is LocalFrame),
    {
        match self {
            CrsResolution::LocalFrame => false,
            _ => true,
        }
    }
}

impl CrsHint {
    /// Reconcile the hint against the EPSG detected from the source.
    ///
    /// - `Override(o)` gives `Override(o)` whatever was detected.
    /// - `Detected` with `Some(d)` gives `Detected(d)`.
    /// - `Detected` with `None` gives `LocalFrame`.
    pub fn resolve(self, detected: Option<u16>) -> (res: CrsResolution)
        ensures
            res == resolve_spec(self, detected),
            res is Override <==> self is Override,
            res is Detected <==> (self is Detected && detected is Some),
            res is LocalFrame <==> (self is Detected && detected is None),
            resolution_epsg(res) == match self {
                CrsHint::Override(o) => Some(o),
                CrsHint::Detected => detected,
            },
    {
        match self {
            CrsHint::Override(o) => CrsResolution::Override(o),
            CrsHint::Detected => match detected {
                Some(d) => CrsResolution::Detected(d),
                None => CrsResolution::LocalFrame,
            },
        }
    }
}

/// An override always wins: whatever was detected, resolving
/// `Override(o)` yields `Override(o)`, whose EPSG is `o`.
pub proof fn lemma_override_always_wins(o: u16, detected: Option<u16>)
    ensures
        resolve_spec(CrsHint::Override(o), detected) == CrsResolution::Override(o),
        resolution_epsg(resolve_spec(CrsHint::Override(o), detected)) == Some(o),
{
}

/// Auto-detection passes the detected EPSG through unchanged: the
/// resolution's EPSG is exactly what was detected, a detected code is
/// reported as detected (never as an override), and the input counts as
/// originally georeferenced iff something was detected.
pub proof fn lemma_detected_passes_through(detected: Option<u16>)
    ensures
        detected matches Some(d) ==> resolve_spec(CrsHint::Detected, detected)
            == CrsResolution::Detected(d),
        !(resolve_spec(CrsHint::Detected, detected) is Override),
        resolution_epsg(resolve_spec(CrsHint::Detected, detected)) == detected,
        !(resolve_spec(CrsHint::Detected, detected) is LocalFrame) <==> detected is Some,
{
}

/// A resolution is georeferenced exactly when it carries an EPSG.
pub proof fn lemma_georeferenced_iff_epsg(r: CrsResolution)
    ensures
        !(r is LocalFrame) <==> resolution_epsg(r) is Some,
{
}

} // verus!
