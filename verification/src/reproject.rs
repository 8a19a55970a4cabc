//! `Reprojector`: resolves a source EPSG and the fixed ECEF target
//! (EPSG:4978) in the proj4rs catalogue, plus catalogue queries.
//!
//! Whether `proj4rs::Proj::from_epsg_code` succeeds is decided by proj4rs:
//! by its EPSG table and by the datum-grid catalogue (a process-wide state
//! that grid files may be loaded into). For every code whose definition
//! names no datum grid the outcome is fixed by the table alone, and
//! [`epsg_grid_free_outcome`] names it; the lookup, [`Reprojector::new`],
//! [`is_supported_epsg`] and [`is_geographic_epsg`] all agree with that name,
//! so they agree with one another on those codes. For the rest this crate
//! states what holds whatever the lookup returned, and the functions that
//! take a lookup result as an argument state exactly what follows from each
//! result.
//!
//! Whether a resolved projection is geographic (lat/long) depends only on
//! the EPSG definition it was built from; [`epsg_is_latlong`] names that fact.

use vstd::prelude::*;

use proj4rs::Proj;
use proj4rs::errors::Error as ProjError;

use crate::error::{CrsError, CrsErrorView, decimal, push_decimal};
use crate::source_crs::{EPSG_ECEF, SourceCrs};

verus! {

/// The proj4rs projection type, carried through opaquely.
#[verifier::external_type_specification]
#[verifier::external_body]
pub struct ExProj(proj4rs::Proj);

/// The proj4rs error type, carried through opaquely.
#[verifier::external_type_specification]
#[verifier::external_body]
pub struct ExProjError(proj4rs::errors::Error);

/// Whether the projection that proj4rs builds for EPSG `code` is geographic
/// (`Proj::is_latlong`): a property of the catalogue definition of `code`.
pub uninterp spec fn epsg_is_latlong(code: u16) -> bool;

/// The outcome of `proj4rs::Proj::from_epsg_code(code)` where it does not
/// depend on the process-wide datum-grid catalogue: `Some(ok)`, `ok` being
/// whether a projection is built, for every code whose table entry (or
/// absence of one) names no datum-shift grid; `None` for a code whose
/// definition names grids (a `nadgrids` parameter, directly or through a
/// datum such as NAD27), whose outcome depends on which grids are loaded.
/// A function of the code alone: the table and the proj-string parser hold
/// no other state.
pub uninterp spec fn epsg_grid_free_outcome(code: u16) -> Option<bool>;

/// The EPSG codes that the proj4 table carried by proj4rs (the
/// `crs-definitions` crate) has no definition for: it defines codes in
/// `2000..=32766` only.
pub open spec fn outside_epsg_table(code: u16) -> bool {
    code < 2000 || code > 32766
}

/// Two grid-free lat/long codes checked against the table: their definition
/// is `+proj=longlat` on a datum given by `towgs84` parameters: EPSG:4326
/// (WGS84) and EPSG:4269 (NAD83).
pub open spec fn known_grid_free_latlong_code(code: u16) -> bool {
    code == 4326 || code == 4269
}

/// Grid-free codes other than lat/long checked against the table: their
/// definition is a projection on a datum given by `towgs84` parameters:
/// EPSG:4978 (`geocent`), 32617, 32633, 32719 (`utm`), 2154 and 2926 (`lcc`).
pub open spec fn known_grid_free_other_code(code: u16) -> bool {
    code == 4978 || code == 32617 || code == 32633 || code == 32719 || code == 2154 || code
        == 2926
}

/// The codes checked against the table to resolve without consulting the
/// grid catalogue (a sample of the grid-free codes, not all of them).
pub open spec fn known_grid_free_code(code: u16) -> bool {
    known_grid_free_latlong_code(code) || known_grid_free_other_code(code)
}

/// A projection resolved from the catalogue, with the EPSG code it was
/// resolved from.
#[derive(Debug)]
pub struct CatalogueProj {
    code: u16,
    proj: Proj,
}

/// A resolved projection is seen as the EPSG code it was resolved from.
impl View for CatalogueProj {
    type V = u16;

    closed spec fn view(&self) -> u16 {
        self.code
    }
}

impl CatalogueProj {

    /// The EPSG code this projection was resolved from.
    pub fn code(&self) -> (c: u16)
        ensures
            c == self@,
    {
        self.code
    }

    /// The resolved proj4rs projection.
    pub closed spec fn projection(&self) -> Proj {
        self.proj
    }

    /// The resolved proj4rs projection.
    pub fn proj(&self) -> (p: &Proj)
        ensures
            *p == self.projection(),
    {
        &self.proj
    }

    /// Resolve `code` in the proj4rs catalogue. On success the projection
    /// carries `code`. For a code whose definition names no datum grid the
    /// outcome is [`epsg_grid_free_outcome`]; a code outside the table always
    /// fails; the sampled grid-free codes (EPSG:4326 and EPSG:4978 among
    /// them) always resolve; for grid-consulting codes proj4rs decides.
    pub fn lookup(code: u16) -> (r: Result<CatalogueProj, ProjError>)
        ensures
            r matches Ok(p) ==> p@ == code,
            epsg_grid_free_outcome(code) matches Some(ok) ==> (r is Ok <==> ok),
            outside_epsg_table(code) ==> r is Err,
            known_grid_free_code(code) ==> r is Ok,
    {
        proj_from_epsg_code(code)
    }

    /// Is this projection geographic (lat/long)?
    pub fn is_latlong(&self) -> (b: bool)
        ensures
            b == epsg_is_latlong(self@),
            known_grid_free_latlong_code(self@) ==> b,
            known_grid_free_other_code(self@) ==> !b,
    {
        proj_is_latlong(self)
    }
}

/// Calls `proj4rs::Proj::from_epsg_code(code)` (the `crs-definitions` table,
/// then `Proj::from_proj_string`). Trusted: on success the projection is
/// paired with the `code` it was built from; a code the table has no entry
/// for (`crs_definitions::from_code` matches only codes in `2000..=32766`)
/// fails with `ProjectionNotFound`; for a code whose definition names no
/// datum grid, parsing the static definition is all there is, so success is
/// a function of the code, `epsg_grid_free_outcome`; each sampled grid-free
/// code resolves: its definition names a projection proj4rs implements
/// (`longlat`, `geocent`, `utm`, `lcc`) with valid parameters and a datum by
/// `towgs84` parameters (EPSG:4326 is also the documented example of
/// `from_epsg_code`). Whether a grid-consulting code succeeds is not stated:
/// it depends on the process-wide grid catalogue (`nadgrids::catalog`).
#[verifier::external_body]
fn proj_from_epsg_code(code: u16) -> (r: Result<CatalogueProj, ProjError>)
    ensures
        r matches Ok(p) ==> p@ == code,
        epsg_grid_free_outcome(code) matches Some(ok) ==> (r is Ok <==> ok),
        outside_epsg_table(code) ==> r is Err,
        known_grid_free_code(code) ==> r is Ok,
{
    match Proj::from_epsg_code(code) {
        Ok(proj) => Ok(CatalogueProj { code, proj }),
        Err(e) => Err(e),
    }
}

/// Calls `proj4rs::Proj::is_latlong`. Trusted: the answer depends only on the
/// catalogue definition the projection was built from, i.e. it is
/// `epsg_is_latlong` of the projection's code. A `+proj=longlat` definition
/// is lat/long; `geocent`, `utm` and `lcc` definitions are not.
#[verifier::external_body]
fn proj_is_latlong(p: &CatalogueProj) -> (b: bool)
    ensures
        b == epsg_is_latlong(p@),
        known_grid_free_latlong_code(p@) ==> b,
        known_grid_free_other_code(p@) ==> !b,
{
    p.proj.is_latlong()
}

/// Renders a proj4rs error with `{:?}` (its derived `Debug`). Nothing is
/// stated of the text: the error value is opaque here.
#[verifier::external_body]
fn proj_error_text(e: &ProjError) -> (s: String) {
    format!("{:?}", e)
}

/// The text of the error for a source EPSG missing from the catalogue,
/// before the proj4rs error detail.
pub open spec fn unknown_source_prefix(code: u16) -> Seq<char> {
    "EPSG:"@ + decimal(code as nat) + " not in crs-definitions catalogue: "@
}

/// The text of the error for the ECEF target missing from the catalogue,
/// before the proj4rs error detail.
pub open spec fn missing_target_prefix() -> Seq<char> {
    "EPSG:4978 (ECEF target) missing from catalogue: "@
}

/// What a reprojector is: its source EPSG and whether that source is
/// geographic (lat/long, degrees in, radians to proj4rs).
pub struct ReprojectorView {
    pub source_epsg: u16,
    pub source_is_latlong: bool,
}

/// Reprojector from a fixed source EPSG to ECEF (EPSG:4978). Construction
/// resolves the source and the target in the catalogue.
#[derive(Debug)]
pub struct Reprojector {
    source_epsg: u16,
    source_is_latlong: bool,
    source: CatalogueProj,
    target: CatalogueProj,
}

impl View for Reprojector {
    type V = ReprojectorView;

    closed spec fn view(&self) -> ReprojectorView {
        ReprojectorView { source_epsg: self.source_epsg, source_is_latlong: self.source_is_latlong }
    }
}

impl Reprojector {
    #[verifier::type_invariant]
    spec fn resolved(&self) -> bool {
        &&& self.source@ == self.source_epsg
        &&& self.target@ == EPSG_ECEF
        &&& self.source_is_latlong == epsg_is_latlong(self.source_epsg)
    }

    /// Build a reprojector from the outcomes of the two catalogue lookups:
    /// the source's and the ECEF target's. Succeeds iff both lookups did;
    /// otherwise a [`CrsError::UnknownEpsg`] naming the code that failed
    /// (the source's failure reported first).
    pub fn from_lookups(
        source: SourceCrs,
        source_lookup: Result<CatalogueProj, ProjError>,
        target_lookup: Result<CatalogueProj, ProjError>,
    ) -> (r: Result<Reprojector, CrsError>)
        requires
            source_lookup matches Ok(p) ==> p@ == source.epsg,
            target_lookup matches Ok(p) ==> p@ == EPSG_ECEF,
        ensures
            r is Ok <==> source_lookup is Ok && target_lookup is Ok,
            r matches Ok(rp) ==> rp.source_entry() == source_lookup->Ok_0
                && rp.target_entry() == target_lookup->Ok_0,
            r matches Ok(rp) ==> rp@ == (ReprojectorView {
                source_epsg: source.epsg,
                source_is_latlong: epsg_is_latlong(source.epsg),
            }),
            r matches Err(e) ==> source_lookup is Err ==> exists|d: Seq<char>|
                e@ == CrsErrorView::UnknownEpsg(unknown_source_prefix(source.epsg) + d),
            r matches Err(e) ==> source_lookup is Ok ==> exists|d: Seq<char>|
                e@ == CrsErrorView::UnknownEpsg(missing_target_prefix() + d),
    {
        let src = match source_lookup {
            Ok(p) => p,
            Err(err) => {
                let mut s = String::new();
                s.append("EPSG:");
                push_decimal(&mut s, source.epsg);
                s.append(" not in crs-definitions catalogue: ");
                let ghost before = s@;
                let detail = proj_error_text(&err);
                s.append(detail.as_str());
                proof {
                    assert(before =~= unknown_source_prefix(source.epsg));
                    assert(s@ =~= unknown_source_prefix(source.epsg) + detail@);
                }
                return Err(CrsError::UnknownEpsg(s));
            },
        };
        let tgt = match target_lookup {
            Ok(p) => p,
            Err(err) => {
                let mut s = String::new();
                s.append("EPSG:4978 (ECEF target) missing from catalogue: ");
                let detail = proj_error_text(&err);
                s.append(detail.as_str());
                proof {
                    assert(s@ =~= missing_target_prefix() + detail@);
                }
                return Err(CrsError::UnknownEpsg(s));
            },
        };
        let latlong = src.is_latlong();
        Ok(Reprojector { source_epsg: source.epsg, source_is_latlong: latlong, source: src, target: tgt })
    }

    /// Build a reprojector for `source` to EPSG:4978. Fails with
    /// [`CrsError::UnknownEpsg`] naming the source EPSG if that code is not
    /// in the proj4rs catalogue (the EPSG:4978 target always resolves). For a
    /// code whose definition names no datum grid it succeeds exactly when
    /// [`epsg_grid_free_outcome`] says the code resolves, as
    /// [`is_supported_epsg`] then says; a code outside the table always fails;
    /// the sampled grid-free codes always succeed.
    pub fn new(source: SourceCrs) -> (r: Result<Reprojector, CrsError>)
        ensures
            r matches Ok(rp) ==> rp@ == (ReprojectorView {
                source_epsg: source.epsg,
                source_is_latlong: epsg_is_latlong(source.epsg),
            }),
            r matches Err(e) ==> exists|d: Seq<char>|
                e@ == CrsErrorView::UnknownEpsg(unknown_source_prefix(source.epsg) + d),
            epsg_grid_free_outcome(source.epsg) matches Some(ok) ==> (r is Ok <==> ok),
            outside_epsg_table(source.epsg) ==> r is Err,
            known_grid_free_code(source.epsg) ==> r is Ok,
    {
        let source_lookup = CatalogueProj::lookup(source.epsg);
        let target_lookup = CatalogueProj::lookup(EPSG_ECEF);
        Reprojector::from_lookups(source, source_lookup, target_lookup)
    }

    /// `true` iff the source EPSG is 4978, i.e. reprojection is the identity.
    pub fn is_identity(&self) -> (b: bool)
        ensures
            b == (self@.source_epsg == EPSG_ECEF),
    {
        self.source_epsg == EPSG_ECEF
    }

    /// The source EPSG code.
    pub fn source_epsg(&self) -> (c: u16)
        ensures
            c == self@.source_epsg,
    {
        self.source_epsg
    }

    /// Whether the source is geographic: its coordinates are degrees, which
    /// proj4rs wants in radians.
    pub fn source_is_latlong(&self) -> (b: bool)
        ensures
            b == self@.source_is_latlong,
            b == epsg_is_latlong(self@.source_epsg),
    {
        proof {
            use_type_invariant(self);
        }
        self.source_is_latlong
    }

    /// The catalogue entry resolved for the source EPSG.
    pub closed spec fn source_entry(&self) -> CatalogueProj {
        self.source
    }

    /// The catalogue entry resolved for the ECEF target.
    pub closed spec fn target_entry(&self) -> CatalogueProj {
        self.target
    }

    /// The resolved source projection: the one built from the source EPSG.
    pub fn source_proj(&self) -> (p: &Proj)
        ensures
            *p == self.source_entry().projection(),
            self.source_entry()@ == self@.source_epsg,
    {
        proof {
            use_type_invariant(self);
        }
        self.source.proj()
    }

    /// The resolved ECEF target projection: the one built from EPSG:4978.
    pub fn target_proj(&self) -> (p: &Proj)
        ensures
            *p == self.target_entry().projection(),
            self.target_entry()@ == EPSG_ECEF,
    {
        proof {
            use_type_invariant(self);
        }
        self.target.proj()
    }
}

/// GeoTIFF reserved sentinel codes: `0` ("undefined") and `32767`
/// ("user-defined"). These declare "no standard CRS"; they are not EPSG
/// codes. The private range `32768..=65535` is deliberately not included.
pub fn is_geotiff_sentinel(epsg: u16) -> (b: bool)
    ensures
        b == (epsg == 0 || epsg == 32767),
{
    epsg == 0 || epsg == 32767
}

/// Whether a catalogue lookup found its code.
pub fn supported_from_lookup(lookup: &Result<CatalogueProj, ProjError>) -> (b: bool)
    ensures
        b == lookup is Ok,
{
    lookup.is_ok()
}

/// Whether a catalogue lookup found a geographic (lat/long) CRS.
pub fn geographic_from_lookup(lookup: &Result<CatalogueProj, ProjError>) -> (b: bool)
    ensures
        b == (lookup matches Ok(p) && epsg_is_latlong(p@)),
        lookup matches Ok(p) ==> (known_grid_free_latlong_code(p@) ==> b)
            && (known_grid_free_other_code(p@) ==> !b),
{
    match lookup {
        Ok(p) => p.is_latlong(),
        Err(_) => false,
    }
}

/// `true` iff `epsg` resolves in the proj4rs catalogue, i.e. the source
/// lookup of [`Reprojector::new`] would succeed. For a code whose definition
/// names no datum grid it is [`epsg_grid_free_outcome`], the same answer
/// `Reprojector::new` gives; `false` for sentinels and codes outside the
/// table; `true` for the sampled grid-free codes (the ECEF target among
/// them); for grid-consulting codes the lookup decides.
pub fn is_supported_epsg(epsg: u16) -> (b: bool)
    ensures
        epsg_grid_free_outcome(epsg) matches Some(ok) ==> b == ok,
        outside_epsg_table(epsg) ==> !b,
        known_grid_free_code(epsg) ==> b,
{
    let lookup = CatalogueProj::lookup(epsg);
    supported_from_lookup(&lookup)
}

/// `true` iff `epsg` is a geographic (angular, lat/long) CRS: it resolves
/// and proj4rs reports it lat/long. `false` for projected and geocentric
/// CRS and for codes not in the catalogue.
pub fn is_geographic_epsg(epsg: u16) -> (b: bool)
    ensures
        b ==> epsg_is_latlong(epsg),
        epsg_grid_free_outcome(epsg) matches Some(ok) ==> b == (ok && epsg_is_latlong(epsg)),
        outside_epsg_table(epsg) ==> !b,
        known_grid_free_latlong_code(epsg) ==> b,
        known_grid_free_other_code(epsg) ==> !b,
{
    let lookup = CatalogueProj::lookup(epsg);
    geographic_from_lookup(&lookup)
}

} // verus!
