//! CRS strings and sidecar files.
//!
//! A CRS string is either the GDAL short form `EPSG:NNNNN` or an OGC WKT
//! body (see [`crate::extract_epsg_from_wkt`]); the short form is tried first.
//!
//! Sidecar convention: next to an input file, a file with the input's name
//! and the extension `prj` (GIS canonical) or `qpj` (QGIS), in either lower
//! or upper case. The files themselves are found and read by the caller;
//! this module decides, from what the caller found, which sidecar answers
//! and what it says:
//!
//! - the first candidate (in [`sidecar_extensions`] order) that exists decides;
//! - an existing but unreadable or unparseable sidecar is an error, never
//!   silently skipped;
//! - no sidecar at all is `Ok(None)`.

use vstd::prelude::*;
use vstd::string::StringSliceAdditionalSpecFns;

use crate::error::{CrsError, CrsErrorView, display_text};
use crate::text::{
    decimal_bytes, eq_ignore_case, equals_ignore_case, is_ascii_graphic, lemma_decimal_bytes_are_digits,
    lemma_parse_u16_reads_decimal, lemma_trim_keeps_graphic_ends, parse_u16, parse_u16_spec, trim,
    trim_bounds,
};
use crate::wkt::{
    extract_from_bytes, find_byte, find_first, find_from, lemma_find_bounds, parse_outcome,
    text_bytes, wkt_extraction,
};

verus! {

/// Outcome of parsing a CRS string: the EPSG code and whether a vertical
/// (compound) component was present and dropped.
#[derive(Debug, Clone, Copy, PartialEq, Eq, Structural)]
pub struct ParsedCrs {
    pub epsg: u16,
    /// `true` iff the input was a compound CRS whose vertical component was
    /// discarded during parsing.
    pub vertical_stripped: bool,
}

/// The bytes of `EPSG`.
pub open spec fn epsg_bytes() -> Seq<u8> {
    seq![0x45u8, 0x50u8, 0x53u8, 0x47u8]
}

/// The short form `EPSG:NNNNN`: up to the first `:`, a trimmed `EPSG` in any
/// case; after it, a trimmed decimal `u16`. `None` when the text is not in
/// this form.
pub open spec fn short_form_spec(b: Seq<u8>) -> Option<u16> {
    match find_byte(b, 0x3Au8) {
        None => None,
        Some(k) => {
            let prefix = trim(b.subrange(0, k));
            let rest = trim(b.subrange(k + 1, b.len() as int));
            if !eq_ignore_case(prefix, epsg_bytes()) {
                None
            } else {
                match parse_u16_spec(rest) {
                    Ok(v) => Some(v),
                    Err(_) => None,
                }
            }
        },
    }
}

/// The text that precedes the WKT error when neither form parses.
pub open spec fn msg_expected_forms() -> Seq<char> {
    "expected `EPSG:NNNNN` short form or OGC WKT `PROJCS[...]` / `GEOGCS[...]` / `GEOCCS[...]` / `COMPD_CS[...]`; WKT parse error: "@
}

/// What parsing the CRS text with UTF-8 bytes `b` yields.
pub open spec fn parse_crs_spec(b: Seq<u8>) -> Result<ParsedCrs, Seq<char>> {
    match short_form_spec(b) {
        Some(epsg) => Ok(ParsedCrs { epsg, vertical_stripped: false }),
        None => match wkt_extraction(b) {
            Ok(w) => Ok(ParsedCrs { epsg: w.epsg, vertical_stripped: w.vertical_stripped }),
            Err(m) => Err(msg_expected_forms() + m),
        },
    }
}

/// The short form `EPSG:NNNNN`, or `None` (the caller falls through to WKT).
fn parse_short_form_epsg(b: &[u8]) -> (r: Option<u16>)
    ensures
        r == short_form_spec(b@),
{
    proof {
        lemma_find_bounds(b@, 0x3Au8, 0);
    }
    let n = b.len();
    let colon = find_first(b, 0x3Au8);
    let k = match colon {
        None => {
            return None;
        },
        Some(k) => k,
    };
    assert(k < n);
    let (pa, pz) = trim_bounds(b, 0, k);
    let (ra, rz) = trim_bounds(b, k + 1, n);
    let epsg = vec![0x45u8, 0x50u8, 0x53u8, 0x47u8];
    if !equals_ignore_case(&b[pa..pz], epsg.as_slice()) {
        return None;
    }
    match parse_u16(&b[ra..rz]) {
        Ok(v) => Some(v),
        Err(_) => None,
    }
}

/// Parse CRS text given as UTF-8 bytes (see [`parse_crs_spec`]).
pub(crate) fn parse_crs_bytes(b: &[u8]) -> (r: Result<ParsedCrs, CrsError>)
    ensures
        parse_outcome(r, parse_crs_spec(b@)),
{
    if let Some(epsg) = parse_short_form_epsg(b) {
        return Ok(ParsedCrs { epsg, vertical_stripped: false });
    }
    match extract_from_bytes(b) {
        Ok(w) => Ok(ParsedCrs { epsg: w.epsg, vertical_stripped: w.vertical_stripped }),
        Err(e) => {
            let mut s = String::new();
            s.append(
                "expected `EPSG:NNNNN` short form or OGC WKT `PROJCS[...]` / `GEOGCS[...]` / `GEOCCS[...]` / `COMPD_CS[...]`; WKT parse error: ",
            );
            let detail = e.to_display_string();
            s.append(detail.as_str());
            proof {
                assert(s@ =~= msg_expected_forms() + display_text(e@));
            }
            Err(CrsError::Parse(s))
        },
    }
}

/// Parse a CRS string into a [`ParsedCrs`]. Accepts the `EPSG:NNNNN` short
/// form (case-insensitive prefix, whitespace around both parts tolerated,
/// never vertical-stripped) or an OGC WKT body. A failure is a
/// [`CrsError::Parse`] naming both forms, followed by the WKT error.
pub fn parse_crs_string(body: &str) -> (r: Result<ParsedCrs, CrsError>)
    ensures
        parse_outcome(r, parse_crs_spec(text_bytes(body))),
{
    parse_crs_bytes(body.as_bytes())
}

/// [`parse_crs_string`] returning just the EPSG code.
pub fn parse_crs_string_epsg(body: &str) -> (r: Result<u16, CrsError>)
    ensures
        parse_outcome(
            r,
            match parse_crs_spec(text_bytes(body)) {
                Ok(p) => Ok(p.epsg),
                Err(m) => Err(m),
            },
        ),
{
    match parse_crs_string(body) {
        Ok(p) => Ok(p.epsg),
        Err(e) => Err(e),
    }
}

/// Result of a successful sidecar resolution.
#[derive(Debug, Clone, PartialEq, Eq)]
pub struct SidecarCrs {
    pub epsg: u16,
    /// `true` iff a compound vertical component was stripped while parsing
    /// the sidecar body (never for a short-form body).
    pub vertical_stripped: bool,
    /// The displayed path of the sidecar that produced this EPSG.
    pub source: String,
}

/// The content of a [`SidecarCrs`].
pub struct SidecarCrsView {
    pub epsg: u16,
    pub vertical_stripped: bool,
    pub source: Seq<char>,
}

impl View for SidecarCrs {
    type V = SidecarCrsView;

    open spec fn view(&self) -> SidecarCrsView {
        SidecarCrsView {
            epsg: self.epsg,
            vertical_stripped: self.vertical_stripped,
            source: self.source@,
        }
    }
}

/// What the caller found when it looked for one sidecar candidate.
#[derive(Debug, Clone, PartialEq, Eq)]
pub enum SidecarProbe {
    /// No file of that name.
    Absent,
    /// The file exists but could not be read: its displayed path and the
    /// displayed I/O error.
    Unreadable { path: String, detail: String },
    /// The file was read: its displayed path and its text.
    Present { path: String, body: String },
}

/// The content of a [`SidecarProbe`].
pub enum SidecarProbeView {
    Absent,
    Unreadable { path: Seq<char>, detail: Seq<char> },
    Present { path: Seq<char>, body: Seq<char> },
}

impl View for SidecarProbe {
    type V = SidecarProbeView;

    open spec fn view(&self) -> SidecarProbeView {
        match self {
            SidecarProbe::Absent => SidecarProbeView::Absent,
            SidecarProbe::Unreadable { path, detail } => SidecarProbeView::Unreadable {
                path: path@,
                detail: detail@,
            },
            SidecarProbe::Present { path, body } => SidecarProbeView::Present {
                path: path@,
                body: body@,
            },
        }
    }
}

/// What one sidecar candidate says: nothing if it is absent; otherwise its
/// CRS (the trimmed body parsed as a CRS string) or the error that a
/// present-but-unusable sidecar is.
pub open spec fn probe_outcome(p: SidecarProbeView) -> Option<Result<SidecarCrsView, CrsErrorView>> {
    match p {
        SidecarProbeView::Absent => None,
        SidecarProbeView::Unreadable { path, detail } => Some(
            Err(CrsErrorView::Io { path, detail: "read CRS sidecar: "@ + detail }),
        ),
        SidecarProbeView::Present { path, body } => Some(
            match parse_crs_spec(trim(vstd::utf8::encode_utf8(body))) {
                Ok(pc) => Ok(
                    SidecarCrsView {
                        epsg: pc.epsg,
                        vertical_stripped: pc.vertical_stripped,
                        source: path,
                    },
                ),
                Err(m) => Err(
                    CrsErrorView::Parse("CRS sidecar "@ + path + " is not parseable: "@ + m),
                ),
            },
        ),
    }
}

/// The outcome of a sidecar search over the candidates `ps` from index `i`:
/// the first candidate that is not absent decides; none at all is `Ok(None)`.
pub open spec fn search_from(ps: Seq<SidecarProbeView>, i: int) -> Result<
    Option<SidecarCrsView>,
    CrsErrorView,
>
    decreases ps.len() - i,
{
    if i < 0 || i >= ps.len() {
        Ok(None)
    } else {
        match probe_outcome(ps[i]) {
            None => search_from(ps, i + 1),
            Some(Ok(c)) => Ok(Some(c)),
            Some(Err(e)) => Err(e),
        }
    }
}

/// The views of the candidates.
pub open spec fn probe_views(ps: Seq<SidecarProbe>) -> Seq<SidecarProbeView> {
    ps.map_values(|p: SidecarProbe| p@)
}

/// `r` carries exactly the content `spec` describes.
pub open spec fn probe_result_is(
    r: Option<Result<SidecarCrs, CrsError>>,
    spec: Option<Result<SidecarCrsView, CrsErrorView>>,
) -> bool {
    match (r, spec) {
        (None, None) => true,
        (Some(Ok(c)), Some(Ok(v))) => c@ == v,
        (Some(Err(e)), Some(Err(v))) => e@ == v,
        _ => false,
    }
}

/// `r` carries exactly the content `spec` describes.
pub open spec fn search_result_is(
    r: Result<Option<SidecarCrs>, CrsError>,
    spec: Result<Option<SidecarCrsView>, CrsErrorView>,
) -> bool {
    match (r, spec) {
        (Ok(None), Ok(None)) => true,
        (Ok(Some(c)), Ok(Some(v))) => c@ == v,
        (Err(e), Err(v)) => e@ == v,
        _ => false,
    }
}

/// The file extensions tried for a sidecar, in order: `prj` (GIS
/// canonical) before `qpj` (QGIS), each in lower then upper case.
pub fn sidecar_extensions() -> (v: Vec<&'static str>)
    ensures
        v@.len() == 4,
        v@[0]@ == "prj"@,
        v@[1]@ == "PRJ"@,
        v@[2]@ == "qpj"@,
        v@[3]@ == "QPJ"@,
{
    vec!["prj", "PRJ", "qpj", "QPJ"]
}

/// Decide what one sidecar candidate says (see [`probe_outcome`]).
pub fn resolve_sidecar_probe(probe: SidecarProbe) -> (r: Option<Result<SidecarCrs, CrsError>>)
    ensures
        probe_result_is(r, probe_outcome(probe@)),
{
    match probe {
        SidecarProbe::Absent => None,
        SidecarProbe::Unreadable { path, detail } => {
            let mut d = String::new();
            d.append("read CRS sidecar: ");
            d.append(detail.as_str());
            proof {
                assert(d@ =~= "read CRS sidecar: "@ + detail@);
            }
            Some(Err(CrsError::Io { path, detail: d }))
        },
        SidecarProbe::Present { path, body } => {
            let bytes = body.as_str().as_bytes();
            let n = bytes.len();
            let (lo, hi) = trim_bounds(bytes, 0, n);
            proof {
                assert(bytes@.subrange(0, n as int) =~= bytes@);
            }
            match parse_crs_bytes(&bytes[lo..hi]) {
                Ok(pc) => Some(
                    Ok(
                        SidecarCrs {
                            epsg: pc.epsg,
                            vertical_stripped: pc.vertical_stripped,
                            source: path,
                        },
                    ),
                ),
                Err(e) => {
                    let mut s = String::new();
                    s.append("CRS sidecar ");
                    s.append(path.as_str());
                    s.append(" is not parseable: ");
                    let detail = e.to_display_string();
                    s.append(detail.as_str());
                    proof {
                        assert(s@ =~= "CRS sidecar "@ + path@ + " is not parseable: "@
                            + display_text(e@));
                    }
                    Some(Err(CrsError::Parse(s)))
                },
            }
        },
    }
}

/// Resolve a sidecar search from what the caller found for each candidate,
/// in [`sidecar_extensions`] order: the first candidate that exists decides
/// (its CRS, or the error it is); if none exists the answer is `Ok(None)`.
pub fn resolve_sidecar_probes(probes: Vec<SidecarProbe>) -> (r: Result<Option<SidecarCrs>, CrsError>)
    ensures
        search_result_is(r, search_from(probe_views(probes@), 0)),
{
    let ghost views = probe_views(probes@);
    let mut rest = probes;
    let ghost mut i: int = 0;
    while rest.len() > 0
        invariant
            0 <= i <= views.len(),
            views.len() == i + rest@.len(),
            forall|j: int| 0 <= j < rest@.len() ==> #[trigger] rest@[j]@ == views[i + j],
            search_from(views, i) == search_from(views, 0),
            views == probe_views(probes@),
        decreases rest@.len(),
    {
        let p = rest.remove(0);
        proof {
            assert(p@ == views[i]);
        }
        match resolve_sidecar_probe(p) {
            None => {},
            Some(Ok(c)) => {
                return Ok(Some(c));
            },
            Some(Err(e)) => {
                return Err(e);
            },
        }
        proof {
            i = i + 1;
        }
    }
    Ok(None)
}

/// The short form is tried first: when the text is a valid `EPSG:NNNNN`,
/// that code is the answer, and it never reports a stripped vertical.
pub proof fn lemma_short_form_takes_precedence(b: Seq<u8>)
    ensures
        short_form_spec(b) matches Some(e) ==> parse_crs_spec(b) == Ok::<ParsedCrs, Seq<char>>(
            ParsedCrs { epsg: e, vertical_stripped: false },
        ),
{
}

/// Every code reads back from its short form: `EPSG:` followed by the
/// decimal digits of `n` is EPSG `n`, with no vertical component stripped.
pub proof fn lemma_short_form_reads_back(n: u16)
    ensures
        parse_crs_spec(epsg_bytes() + seq![0x3Au8] + decimal_bytes(n as nat)) == Ok::<
            ParsedCrs,
            Seq<char>,
        >(ParsedCrs { epsg: n, vertical_stripped: false }),
{
    let d = decimal_bytes(n as nat);
    let b = epsg_bytes() + seq![0x3Au8] + d;
    lemma_decimal_bytes_are_digits(n as nat);
    lemma_parse_u16_reads_decimal(n);
    assert(b[4] == 0x3Au8);
    assert(find_from(b, 0x3Au8, 4) == Some(4int));
    assert(find_from(b, 0x3Au8, 3) == Some(4int));
    assert(find_from(b, 0x3Au8, 2) == Some(4int));
    assert(find_from(b, 0x3Au8, 1) == Some(4int));
    assert(find_byte(b, 0x3Au8) == Some(4int));
    assert(b.subrange(0, 4) =~= epsg_bytes());
    assert(b.subrange(5, b.len() as int) =~= d);
    lemma_trim_keeps_graphic_ends(epsg_bytes());
    assert(is_ascii_graphic(d[0]) && is_ascii_graphic(d[d.len() - 1]));
    lemma_trim_keeps_graphic_ends(d);
    assert(short_form_spec(b) == Some(n));
}

/// Otherwise a CRS string means what its WKT scan says: the same code and
/// the same vertical flag; on failure, the WKT error behind a prefix naming
/// both accepted forms.
pub proof fn lemma_parse_crs_agrees_with_wkt(b: Seq<u8>)
    ensures
        short_form_spec(b) is None ==> match wkt_extraction(b) {
            Ok(w) => parse_crs_spec(b) == Ok::<ParsedCrs, Seq<char>>(
                ParsedCrs { epsg: w.epsg, vertical_stripped: w.vertical_stripped },
            ),
            Err(m) => parse_crs_spec(b) == Err::<ParsedCrs, Seq<char>>(msg_expected_forms() + m),
        },
{
}

/// A search finds no sidecar exactly when every candidate is absent: an
/// existing sidecar is never skipped, whether it parses or not.
pub proof fn lemma_no_sidecar_iff_all_absent(ps: Seq<SidecarProbeView>, i: int)
    requires
        0 <= i <= ps.len(),
    ensures
        (search_from(ps, i) matches Ok(None)) <==> forall|j: int|
            i <= j < ps.len() ==> #[trigger] ps[j] is Absent,
    decreases ps.len() - i,
{
    if i < ps.len() {
        lemma_no_sidecar_iff_all_absent(ps, i + 1);
        if ps[i] is Absent {
            assert forall|j: int| i <= j < ps.len() && #[trigger] ps[j] is Absent implies j
                >= i by {}
        }
    }
}

/// The first candidate that exists decides the search: every later
/// candidate is ignored.
pub proof fn lemma_first_existing_decides(ps: Seq<SidecarProbeView>, k: int)
    requires
        0 <= k < ps.len(),
        forall|j: int| 0 <= j < k ==> #[trigger] ps[j] is Absent,
        !(ps[k] is Absent),
    ensures
        search_from(ps, 0) == match probe_outcome(ps[k]) {
            Some(Ok(c)) => Ok(Some(c)),
            Some(Err(e)) => Err(e),
            None => Ok(None),
        },
{
    lemma_search_skips_absent(ps, 0, k);
}

/// Absent candidates are passed over: a search from `i` is the search from `k`
/// when every candidate in between is absent.
proof fn lemma_search_skips_absent(ps: Seq<SidecarProbeView>, i: int, k: int)
    requires
        0 <= i <= k <= ps.len(),
        forall|j: int| i <= j < k ==> #[trigger] ps[j] is Absent,
    ensures
        search_from(ps, i) == search_from(ps, k),
    decreases k - i,
{
    if i < k {
        assert(ps[i] is Absent);
        lemma_search_skips_absent(ps, i + 1, k);
    }
}

} // verus!
