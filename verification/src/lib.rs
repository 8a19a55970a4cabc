//! `tileforge-crs`: the consumer-agnostic CRS core.
//!
//! - [`SourceCrs`]: canonical source-CRS handle (an EPSG code).
//! - [`Reprojector`]: resolves a source EPSG and the fixed EPSG:4978 target
//!   through the proj4rs catalogue.
//! - [`parse_crs_string`] / [`parse_crs_string_epsg`]: `EPSG:NNNNN` short
//!   form or OGC WKT body to an EPSG code.
//! - [`extract_epsg_from_wkt`]: minimal OGC-WKT EPSG scanner (WKT1 and WKT2).
//! - [`CrsHint`] / [`CrsResolution`]: caller-supplied CRS policy and the
//!   outcome of resolving it.
//! - [`CrsError`]: the small error enum every consumer maps onto its own schema.
//! - [`resolve_sidecar_probes`]: which `.prj` / `.qpj` sidecar answers, from
//!   what the caller found next to an input file.
//!
//! Floating-point work (the ECEF reprojection of points and the local ENU
//! frame) is not part of this library.

mod crs_hint;
mod error;
mod reproject;
mod sidecar;
mod source_crs;
mod text;
mod wkt;
mod wkt_laws;

pub use crs_hint::{
    CrsHint, CrsResolution, lemma_detected_passes_through, lemma_georeferenced_iff_epsg,
    lemma_override_always_wins, resolution_epsg, resolve_spec,
};
pub use error::{CrsError, CrsErrorView, decimal, display_text, push_decimal, sentinel_text};
pub use reproject::{
    CatalogueProj, Reprojector, ReprojectorView, epsg_is_latlong, geographic_from_lookup,
    epsg_grid_free_outcome, known_grid_free_code, known_grid_free_latlong_code,
    known_grid_free_other_code,
    is_geographic_epsg, is_geotiff_sentinel, is_supported_epsg,
    missing_target_prefix, outside_epsg_table, supported_from_lookup, unknown_source_prefix,
};
pub use sidecar::{
    ParsedCrs, SidecarCrs, SidecarCrsView, SidecarProbe, SidecarProbeView,
    lemma_first_existing_decides, lemma_no_sidecar_iff_all_absent,
    lemma_parse_crs_agrees_with_wkt, lemma_short_form_takes_precedence, msg_expected_forms,
    parse_crs_spec, parse_crs_string, parse_crs_string_epsg, probe_outcome, resolve_sidecar_probe,
    resolve_sidecar_probes, search_from, short_form_spec, sidecar_extensions,
};
pub use source_crs::{EPSG_ECEF, SourceCrs};
pub use text::{IntErrorKind, parse_u16, parse_u16_spec, trim};
pub use wkt::{
    WktExtraction, extract_epsg_from_wkt, lemma_vertical_stripped_iff_compound_root, parse_outcome,
    root_keyword, wkt_extraction,
};
pub use wkt_laws::{
    block, bound_body, comma, compound_body, lemma_bound_crs_takes_its_source, wrapped_crs, compound_word, epsg_clause, horizontal_word, is_word,
    lemma_compound_takes_its_horizontal_component, lemma_horizontal_crs_yields_its_code,
    lemma_nested_authority_never_answers, named_crs, no_quote, quoted,
};
