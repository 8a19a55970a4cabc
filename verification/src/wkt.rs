//! Minimal OGC WKT scanner: extracts the outermost EPSG authority clause
//! from a CRS WKT string.
//!
//! Not a full WKT parser: bracket-balanced scanning over the UTF-8 bytes,
//! enough to pull the EPSG code out of a real-world WKT CRS.
//!
//! Supported root blocks, **WKT1** and **WKT2**:
//! - WKT1: `PROJCS`, `GEOGCS`, `GEOCCS`, `COMPD_CS`.
//! - WKT2: `PROJCRS`, `GEOGCRS`, `GEODCRS`, `COMPOUNDCRS`, `BOUNDCRS`.
//!
//! The code is read from the outermost authority clause: WKT1
//! `AUTHORITY["EPSG","NNNN"]` or WKT2 `ID["EPSG",NNNN]` (code often
//! unquoted). A compound CRS is answered by its first horizontal subblock,
//! with `vertical_stripped` set; a `BOUNDCRS` by its `SOURCECRS`.
//!
//! [`wkt_extraction`] is the specification; [`extract_epsg_from_wkt`] meets it.

use vstd::prelude::*;
use vstd::string::StringSliceAdditionalSpecFns;

use crate::error::{CrsError, CrsErrorView};
use crate::text::{
    debug_of, debug_text, eq_ignore_case, equals_ignore_case, ident_byte, ident_end_spec,
    identifier_end, int_error_text, is_ident_byte, lemma_ident_end_bounds, lemma_skip_ws_bounds, parse_u16, parse_u16_spec, push_int_error_text,
    skip_whitespace, skip_ws_spec, text_of, trim, trim_bounds, lossy_text, IntErrorKind,
};

verus! {

/// Result of a successful WKT scan.
#[derive(Debug, Clone, Copy, PartialEq, Eq, Structural)]
pub struct WktExtraction {
    pub epsg: u16,
    /// `true` iff the input was a compound CRS and its vertical component
    /// was discarded.
    pub vertical_stripped: bool,
}

/// The WKT keywords the scanner recognises.
#[derive(Debug, Clone, Copy, PartialEq, Eq, Structural)]
pub enum Keyword {
    /// `PROJCS`
    Projcs,
    /// `GEOGCS`
    Geogcs,
    /// `GEOCCS`
    Geoccs,
    /// `PROJCRS`
    Projcrs,
    /// `GEOGCRS`
    Geogcrs,
    /// `GEODCRS`
    Geodcrs,
    /// `COMPD_CS`
    CompdCs,
    /// `COMPOUNDCRS`
    Compoundcrs,
    /// `BOUNDCRS`
    Boundcrs,
    /// `SOURCECRS`
    Sourcecrs,
    /// `AUTHORITY`
    Authority,
    /// `ID`
    Id,
}

/// The upper-case ASCII bytes of a keyword.
pub open spec fn keyword_bytes(k: Keyword) -> Seq<u8> {
    match k {
        Keyword::Projcs => seq![0x50u8, 0x52u8, 0x4Fu8, 0x4Au8, 0x43u8, 0x53u8],
        Keyword::Geogcs => seq![0x47u8, 0x45u8, 0x4Fu8, 0x47u8, 0x43u8, 0x53u8],
        Keyword::Geoccs => seq![0x47u8, 0x45u8, 0x4Fu8, 0x43u8, 0x43u8, 0x53u8],
        Keyword::Projcrs => seq![0x50u8, 0x52u8, 0x4Fu8, 0x4Au8, 0x43u8, 0x52u8, 0x53u8],
        Keyword::Geogcrs => seq![0x47u8, 0x45u8, 0x4Fu8, 0x47u8, 0x43u8, 0x52u8, 0x53u8],
        Keyword::Geodcrs => seq![0x47u8, 0x45u8, 0x4Fu8, 0x44u8, 0x43u8, 0x52u8, 0x53u8],
        Keyword::CompdCs => seq![0x43u8, 0x4Fu8, 0x4Du8, 0x50u8, 0x44u8, 0x5Fu8, 0x43u8, 0x53u8],
        Keyword::Compoundcrs => seq![0x43u8, 0x4Fu8, 0x4Du8, 0x50u8, 0x4Fu8, 0x55u8, 0x4Eu8, 0x44u8, 0x43u8, 0x52u8, 0x53u8],
        Keyword::Boundcrs => seq![0x42u8, 0x4Fu8, 0x55u8, 0x4Eu8, 0x44u8, 0x43u8, 0x52u8, 0x53u8],
        Keyword::Sourcecrs => seq![0x53u8, 0x4Fu8, 0x55u8, 0x52u8, 0x43u8, 0x45u8, 0x43u8, 0x52u8, 0x53u8],
        Keyword::Authority => seq![0x41u8, 0x55u8, 0x54u8, 0x48u8, 0x4Fu8, 0x52u8, 0x49u8, 0x54u8, 0x59u8],
        Keyword::Id => seq![0x49u8, 0x44u8],
    }
}

fn keyword_vec(k: Keyword) -> (v: Vec<u8>)
    ensures
        v@ == keyword_bytes(k),
{
    match k {
        Keyword::Projcs => vec![0x50u8, 0x52u8, 0x4Fu8, 0x4Au8, 0x43u8, 0x53u8],
        Keyword::Geogcs => vec![0x47u8, 0x45u8, 0x4Fu8, 0x47u8, 0x43u8, 0x53u8],
        Keyword::Geoccs => vec![0x47u8, 0x45u8, 0x4Fu8, 0x43u8, 0x43u8, 0x53u8],
        Keyword::Projcrs => vec![0x50u8, 0x52u8, 0x4Fu8, 0x4Au8, 0x43u8, 0x52u8, 0x53u8],
        Keyword::Geogcrs => vec![0x47u8, 0x45u8, 0x4Fu8, 0x47u8, 0x43u8, 0x52u8, 0x53u8],
        Keyword::Geodcrs => vec![0x47u8, 0x45u8, 0x4Fu8, 0x44u8, 0x43u8, 0x52u8, 0x53u8],
        Keyword::CompdCs => vec![0x43u8, 0x4Fu8, 0x4Du8, 0x50u8, 0x44u8, 0x5Fu8, 0x43u8, 0x53u8],
        Keyword::Compoundcrs => vec![0x43u8, 0x4Fu8, 0x4Du8, 0x50u8, 0x4Fu8, 0x55u8, 0x4Eu8, 0x44u8, 0x43u8, 0x52u8, 0x53u8],
        Keyword::Boundcrs => vec![0x42u8, 0x4Fu8, 0x55u8, 0x4Eu8, 0x44u8, 0x43u8, 0x52u8, 0x53u8],
        Keyword::Sourcecrs => vec![0x53u8, 0x4Fu8, 0x55u8, 0x52u8, 0x43u8, 0x45u8, 0x43u8, 0x52u8, 0x53u8],
        Keyword::Authority => vec![0x41u8, 0x55u8, 0x54u8, 0x48u8, 0x4Fu8, 0x52u8, 0x49u8, 0x54u8, 0x59u8],
        Keyword::Id => vec![0x49u8, 0x44u8],
    }
}

/// Does `id` equal the keyword `k`, ignoring ASCII case?
pub open spec fn is_keyword(id: Seq<u8>, k: Keyword) -> bool {
    eq_ignore_case(id, keyword_bytes(k))
}

/// Horizontal-CRS root keywords (WKT1 and WKT2).
pub open spec fn is_horizontal(id: Seq<u8>) -> bool {
    ||| is_keyword(id, Keyword::Projcs)
    ||| is_keyword(id, Keyword::Geogcs)
    ||| is_keyword(id, Keyword::Geoccs)
    ||| is_keyword(id, Keyword::Projcrs)
    ||| is_keyword(id, Keyword::Geogcrs)
    ||| is_keyword(id, Keyword::Geodcrs)
}

/// Compound-CRS root keywords.
pub open spec fn is_compound(id: Seq<u8>) -> bool {
    is_keyword(id, Keyword::CompdCs) || is_keyword(id, Keyword::Compoundcrs)
}

/// Authority clause keywords.
pub open spec fn is_authority(id: Seq<u8>) -> bool {
    is_keyword(id, Keyword::Authority) || is_keyword(id, Keyword::Id)
}

/// Which child blocks a search looks for.
#[derive(Debug, Clone, Copy, PartialEq, Eq, Structural)]
pub enum ChildKind {
    /// A horizontal CRS block (the component of a compound CRS).
    Horizontal,
    /// The `SOURCECRS` block of a `BOUNDCRS`.
    Source,
}

pub open spec fn child_matches(id: Seq<u8>, kind: ChildKind) -> bool {
    match kind {
        ChildKind::Horizontal => is_horizontal(id),
        ChildKind::Source => is_keyword(id, Keyword::Sourcecrs),
    }
}

// ---------------------------------------------------------------------------
// Scanning specification
// ---------------------------------------------------------------------------

/// Position just past the quoted string whose body starts at `i` (the opening
/// quote is at `i - 1`). A doubled quote `""` is an escaped quote. An
/// unterminated string runs to the end.
pub open spec fn skip_quoted_spec(b: Seq<u8>, i: int) -> int
    decreases b.len() - i,
{
    if i < 0 || i >= b.len() {
        i
    } else if b[i] == 0x22u8 {
        if i + 1 < b.len() && b[i + 1] == 0x22u8 {
            skip_quoted_spec(b, i + 2)
        } else {
            i + 1
        }
    } else {
        skip_quoted_spec(b, i + 1)
    }
}

/// Bracket matching from `i` with the given nesting `depth` and quote state:
/// the index of the `]` that brings the depth back to zero.
pub open spec fn match_from(b: Seq<u8>, i: int, depth: int, in_string: bool) -> Option<int>
    decreases b.len() - i,
{
    if i < 0 || i >= b.len() {
        None
    } else if in_string {
        if b[i] == 0x22u8 {
            if i + 1 < b.len() && b[i + 1] == 0x22u8 {
                match_from(b, i + 2, depth, true)
            } else {
                match_from(b, i + 1, depth, false)
            }
        } else {
            match_from(b, i + 1, depth, true)
        }
    } else if b[i] == 0x22u8 {
        match_from(b, i + 1, depth, true)
    } else if b[i] == 0x5Bu8 {
        match_from(b, i + 1, depth + 1, false)
    } else if b[i] == 0x5Du8 {
        if depth - 1 == 0 {
            Some(i)
        } else {
            match_from(b, i + 1, depth - 1, false)
        }
    } else {
        match_from(b, i + 1, depth, false)
    }
}

/// The index of the `]` matching the `[` at `open` (quotes respected).
pub open spec fn matching_bracket(b: Seq<u8>, open: int) -> Option<int> {
    match_from(b, open, 0, false)
}

/// Search the depth-0 tokens of `b` from `i` for the first child block whose
/// keyword matches `kind`: its start and the index of its closing bracket.
/// An unbalanced child block ends the search with `None`.
pub open spec fn child_from(b: Seq<u8>, i: int, kind: ChildKind) -> Option<(int, int)>
    decreases b.len() - i,
{
    if i < 0 || i >= b.len() {
        None
    } else if b[i] == 0x22u8 {
        let j = skip_quoted_spec(b, i + 1);
        if i < j <= b.len() {
            child_from(b, j, kind)
        } else {
            None
        }
    } else if is_ident_byte(b[i]) {
        let e = ident_end_spec(b, i);
        let a = skip_ws_spec(b, e);
        if 0 <= a < b.len() && b[a] == 0x5Bu8 {
            match matching_bracket(b, a) {
                None => None,
                Some(close) => if child_matches(b.subrange(i, e), kind) {
                    Some((i, close))
                } else if i < close + 1 <= b.len() {
                    child_from(b, close + 1, kind)
                } else {
                    None
                },
            }
        } else if i < e <= b.len() {
            child_from(b, e, kind)
        } else {
            None
        }
    } else {
        child_from(b, i + 1, kind)
    }
}

/// The first index at or after `i` where byte `c` occurs in `s`.
pub open spec fn find_from(s: Seq<u8>, c: u8, i: int) -> Option<int>
    decreases s.len() - i,
{
    if i < 0 || i >= s.len() {
        None
    } else if s[i] == c {
        Some(i)
    } else {
        find_from(s, c, i + 1)
    }
}

/// The first index of byte `c` in `s`, if any.
pub open spec fn find_byte(s: Seq<u8>, c: u8) -> Option<int> {
    find_from(s, c, 0)
}

/// Bounds (within `block`) of the body of `KEYWORD[...]`: between the first
/// `[` and its matching `]`.
pub open spec fn block_body_spec(block: Seq<u8>) -> Option<(int, int)> {
    match find_byte(block, 0x5Bu8) {
        None => None,
        Some(open) => match matching_bracket(block, open) {
            Some(close) => Some((open + 1, close)),
            None => None,
        },
    }
}

// ---------------------------------------------------------------------------
// Error texts
// ---------------------------------------------------------------------------

pub open spec fn msg_no_identifier() -> Seq<char> {
    "WKT VLR is empty or has no leading identifier"@
}

pub open spec fn msg_no_open_bracket(id: Seq<u8>) -> Seq<char> {
    "WKT VLR identifier '"@ + lossy_text(id) + "' is not followed by '['"@
}

pub open spec fn msg_unbalanced(id: Seq<u8>) -> Seq<char> {
    "WKT VLR identifier '"@ + lossy_text(id) + "' has unbalanced brackets"@
}

pub open spec fn msg_no_horizontal() -> Seq<char> {
    "compound CRS contains no horizontal (PROJCS/GEOGCS/GEOCCS/PROJCRS/GEOGCRS/GEODCRS) subblock to extract EPSG from"@
}

pub open spec fn msg_no_source() -> Seq<char> {
    "BOUNDCRS has no SOURCECRS subblock"@
}

pub open spec fn msg_source_malformed() -> Seq<char> {
    "BOUNDCRS SOURCECRS is malformed"@
}

pub open spec fn msg_unexpected_root(id: Seq<u8>) -> Seq<char> {
    "WKT VLR root is unexpected '"@ + lossy_text(id)
        + "' (want a WKT1 PROJCS/GEOGCS/GEOCCS/COMPD_CS or WKT2 PROJCRS/GEOGCRS/GEODCRS/COMPOUNDCRS/BOUNDCRS)"@
}

pub open spec fn msg_scan_unbalanced() -> Seq<char> {
    "unbalanced brackets while scanning for AUTHORITY"@
}

pub open spec fn msg_no_authority() -> Seq<char> {
    "WKT VLR has no EPSG AUTHORITY/ID clause; pre-process with `pdal translate` to inject one"@
}

pub open spec fn msg_too_few_args(inner: Seq<u8>) -> Seq<char> {
    "AUTHORITY/ID clause must have at least two arguments, got 1 ("@ + debug_text(
        lossy_text(inner),
    ) + ")"@
}

pub open spec fn msg_not_quoted(s: Seq<u8>) -> Seq<char> {
    "AUTHORITY argument is not quoted: "@ + debug_text(lossy_text(s))
}

pub open spec fn msg_non_epsg(authority: Seq<u8>) -> Seq<char> {
    "WKT VLR uses non-EPSG authority '"@ + lossy_text(authority)
        + "'; only EPSG is supported"@
}

pub open spec fn msg_bad_code(code: Seq<u8>, k: IntErrorKind) -> Seq<char> {
    "AUTHORITY/ID code is not a valid EPSG u16: "@ + debug_text(lossy_text(code)) + ": "@
        + int_error_text(k)
}

// ---------------------------------------------------------------------------
// Authority clause specification
// ---------------------------------------------------------------------------

/// `s` with one pair of surrounding double quotes removed, if it has them.
pub open spec fn has_quotes(s: Seq<u8>) -> bool {
    s.len() >= 2 && s[0] == 0x22u8 && s[s.len() - 1] == 0x22u8
}

pub open spec fn unquote(s: Seq<u8>) -> Seq<u8> {
    s.subrange(1, s.len() - 1)
}

/// The trimmed text between a required pair of surrounding double quotes.
pub open spec fn strip_quotes_spec(s: Seq<u8>) -> Result<Seq<u8>, Seq<char>> {
    let t = trim(s);
    if has_quotes(t) {
        Ok(unquote(t))
    } else {
        Err(msg_not_quoted(t))
    }
}

/// The trimmed text, without its surrounding double quotes if it has them
/// (WKT2 leaves numeric codes unquoted).
pub open spec fn strip_quotes_opt_spec(s: Seq<u8>) -> Seq<u8> {
    let t = trim(s);
    if has_quotes(t) {
        unquote(t)
    } else {
        t
    }
}

/// The code carried by the arguments of an `AUTHORITY` / `ID` block: the
/// first two comma-separated arguments, trimmed; the first must be a quoted
/// `EPSG` (any case), the second a `u16`, quoted or bare.
pub open spec fn authority_args_spec(inner: Seq<u8>) -> Result<u16, Seq<char>> {
    match find_byte(inner, 0x2Cu8) {
        None => Err(msg_too_few_args(inner)),
        Some(k0) => {
            let part0 = trim(inner.subrange(0, k0));
            let rest = inner.subrange(k0 + 1, inner.len() as int);
            let raw1 = match find_byte(rest, 0x2Cu8) {
                Some(k1) => rest.subrange(0, k1),
                None => rest,
            };
            let part1 = trim(raw1);
            match strip_quotes_spec(part0) {
                Err(m) => Err(m),
                Ok(authority) => {
                    let code = strip_quotes_opt_spec(part1);
                    if !eq_ignore_case(authority, seq![0x45u8, 0x50u8, 0x53u8, 0x47u8]) {
                        Err(msg_non_epsg(authority))
                    } else {
                        match parse_u16_spec(code) {
                            Ok(v) => Ok(v),
                            Err(k) => Err(msg_bad_code(code, k)),
                        }
                    }
                },
            }
        },
    }
}

/// Scan the depth-0 tokens of a CRS body from `i` for its `AUTHORITY` / `ID`
/// block, skipping quoted strings and other blocks whole.
pub open spec fn authority_from(b: Seq<u8>, i: int) -> Result<u16, Seq<char>>
    decreases b.len() - i,
{
    if i < 0 || i >= b.len() {
        Err(msg_no_authority())
    } else if b[i] == 0x22u8 {
        let j = skip_quoted_spec(b, i + 1);
        if i < j <= b.len() {
            authority_from(b, j)
        } else {
            Err(msg_no_authority())
        }
    } else if is_ident_byte(b[i]) {
        let e = ident_end_spec(b, i);
        let a = skip_ws_spec(b, e);
        if 0 <= a < b.len() && b[a] == 0x5Bu8 {
            match matching_bracket(b, a) {
                None => Err(msg_scan_unbalanced()),
                Some(close) => if is_authority(b.subrange(i, e)) {
                    authority_args_spec(b.subrange(a + 1, close))
                } else if i < close + 1 <= b.len() {
                    authority_from(b, close + 1)
                } else {
                    Err(msg_no_authority())
                },
            }
        } else if i < e <= b.len() {
            authority_from(b, e)
        } else {
            Err(msg_no_authority())
        }
    } else {
        authority_from(b, i + 1)
    }
}

// ---------------------------------------------------------------------------
// The extraction specification
// ---------------------------------------------------------------------------

/// What scanning the WKT bytes `b` yields: the EPSG code of the outermost
/// authority clause of the root block, or the text of the parse error.
pub open spec fn wkt_extraction(b: Seq<u8>) -> Result<WktExtraction, Seq<char>>
    decreases b.len(),
{
    let s = skip_ws_spec(b, 0);
    let e = ident_end_spec(b, s);
    let id = b.subrange(s, e);
    let a = skip_ws_spec(b, e);
    if e <= s {
        Err(msg_no_identifier())
    } else if !(0 <= a < b.len() && b[a] == 0x5Bu8) {
        Err(msg_no_open_bracket(id))
    } else {
        match matching_bracket(b, a) {
            None => Err(msg_unbalanced(id)),
            Some(close) => {
                let body = b.subrange(a + 1, close);
                if is_compound(id) {
                    match child_from(body, 0, ChildKind::Horizontal) {
                        None => Err(msg_no_horizontal()),
                        Some((ci, cc)) => {
                            let horizontal = body.subrange(ci, cc + 1);
                            if horizontal.len() < b.len() {
                                match wkt_extraction(horizontal) {
                                    Ok(w) => Ok(WktExtraction { epsg: w.epsg, vertical_stripped: true }),
                                    Err(m) => Err(m),
                                }
                            } else {
                                Err(msg_no_horizontal())
                            }
                        },
                    }
                } else if is_keyword(id, Keyword::Boundcrs) {
                    match child_from(body, 0, ChildKind::Source) {
                        None => Err(msg_no_source()),
                        Some((ci, cc)) => {
                            let source = body.subrange(ci, cc + 1);
                            match block_body_spec(source) {
                                None => Err(msg_source_malformed()),
                                Some((p, q)) => {
                                    let inner = trim(source.subrange(p, q));
                                    if inner.len() < b.len() {
                                        wkt_extraction(inner)
                                    } else {
                                        Err(msg_source_malformed())
                                    }
                                },
                            }
                        },
                    }
                } else if is_horizontal(id) {
                    match authority_from(body, 0) {
                        Ok(code) => Ok(WktExtraction { epsg: code, vertical_stripped: false }),
                        Err(m) => Err(m),
                    }
                } else {
                    Err(msg_unexpected_root(id))
                }
            },
        }
    }
}

/// The root keyword of WKT bytes: the identifier after leading whitespace.
pub open spec fn root_keyword(b: Seq<u8>) -> Seq<u8> {
    let s = skip_ws_spec(b, 0);
    b.subrange(s, ident_end_spec(b, s))
}

/// Only a compound CRS strips a vertical component: a successful scan of a
/// simple (horizontal) root never reports `vertical_stripped`, and a
/// successful scan of a compound root always does.
pub proof fn lemma_vertical_stripped_iff_compound_root(b: Seq<u8>)
    ensures
        wkt_extraction(b) matches Ok(w) ==> (is_horizontal(root_keyword(b))
            ==> !w.vertical_stripped),
        wkt_extraction(b) matches Ok(w) ==> (is_compound(root_keyword(b)) ==> w.vertical_stripped),
{
    let id = root_keyword(b);
    if is_horizontal(id) {
        assert(!is_compound(id));
        assert(!is_keyword(id, Keyword::Boundcrs));
    }
}

/// `res` is the executable form of the specified outcome `spec`: the same
/// value, or a `CrsError::Parse` carrying the specified text.
pub open spec fn parse_outcome<T>(res: Result<T, CrsError>, spec: Result<T, Seq<char>>) -> bool {
    match spec {
        Ok(v) => res == Ok::<T, CrsError>(v),
        Err(m) => res is Err && res->Err_0@ == CrsErrorView::Parse(m),
    }
}

// ---------------------------------------------------------------------------
// Bounds lemmas
// ---------------------------------------------------------------------------

pub proof fn lemma_skip_quoted_bounds(b: Seq<u8>, i: int)
    requires
        0 <= i <= b.len(),
    ensures
        i <= skip_quoted_spec(b, i) <= b.len(),
    decreases b.len() - i,
{
    if i < b.len() {
        if b[i] == 0x22u8 {
            if i + 1 < b.len() && b[i + 1] == 0x22u8 {
                lemma_skip_quoted_bounds(b, i + 2);
            }
        } else {
            lemma_skip_quoted_bounds(b, i + 1);
        }
    }
}

pub proof fn lemma_match_bounds(b: Seq<u8>, i: int, depth: int, in_string: bool)
    requires
        0 <= i,
    ensures
        match_from(b, i, depth, in_string) matches Some(c) ==> i <= c < b.len(),
    decreases b.len() - i,
{
    if i < b.len() {
        if in_string {
            if b[i] == 0x22u8 {
                if i + 1 < b.len() && b[i + 1] == 0x22u8 {
                    lemma_match_bounds(b, i + 2, depth, true);
                } else {
                    lemma_match_bounds(b, i + 1, depth, false);
                }
            } else {
                lemma_match_bounds(b, i + 1, depth, true);
            }
        } else if b[i] == 0x22u8 {
            lemma_match_bounds(b, i + 1, depth, true);
        } else if b[i] == 0x5Bu8 {
            lemma_match_bounds(b, i + 1, depth + 1, false);
        } else if b[i] == 0x5Du8 {
            if depth - 1 != 0 {
                lemma_match_bounds(b, i + 1, depth - 1, false);
            }
        } else {
            lemma_match_bounds(b, i + 1, depth, false);
        }
    }
}

pub proof fn lemma_find_bounds(s: Seq<u8>, c: u8, i: int)
    requires
        0 <= i,
    ensures
        find_from(s, c, i) matches Some(p) ==> i <= p < s.len() && s[p] == c,
    decreases s.len() - i,
{
    if i < s.len() && s[i] != c {
        lemma_find_bounds(s, c, i + 1);
    }
}

pub proof fn lemma_child_bounds(b: Seq<u8>, i: int, kind: ChildKind)
    requires
        0 <= i,
    ensures
        child_from(b, i, kind) matches Some((x, c)) ==> i <= x <= c < b.len(),
    decreases b.len() - i,
{
    if 0 <= i < b.len() {
        if b[i] == 0x22u8 {
            let j = skip_quoted_spec(b, i + 1);
            if i < j <= b.len() {
                lemma_child_bounds(b, j, kind);
            }
        } else if is_ident_byte(b[i]) {
            let e = ident_end_spec(b, i);
            lemma_ident_end_bounds(b, i);
            let a = skip_ws_spec(b, e);
            lemma_skip_ws_bounds(b, e);
            if 0 <= a < b.len() && b[a] == 0x5Bu8 {
                lemma_match_bounds(b, a, 0, false);
                match matching_bracket(b, a) {
                    None => {},
                    Some(close) => {
                        if !child_matches(b.subrange(i, e), kind) && i < close + 1 <= b.len() {
                            lemma_child_bounds(b, close + 1, kind);
                        }
                    },
                }
            } else if i < e <= b.len() {
                lemma_child_bounds(b, e, kind);
            }
        } else {
            lemma_child_bounds(b, i + 1, kind);
        }
    }
}

/// The optional index pair as integers.
pub open spec fn int_pair(r: Option<(usize, usize)>) -> Option<(int, int)> {
    match r {
        Some((x, y)) => Some((x as int, y as int)),
        None => None,
    }
}

/// The optional index as an integer.
pub open spec fn int_index(r: Option<usize>) -> Option<int> {
    match r {
        Some(x) => Some(x as int),
        None => None,
    }
}

// ---------------------------------------------------------------------------
// Executable scanner
// ---------------------------------------------------------------------------

fn keyword_matches(id: &[u8], k: Keyword) -> (r: bool)
    ensures
        r == is_keyword(id@, k),
{
    let kw = keyword_vec(k);
    equals_ignore_case(id, kw.as_slice())
}

fn is_horizontal_keyword(id: &[u8]) -> (r: bool)
    ensures
        r == is_horizontal(id@),
{
    keyword_matches(id, Keyword::Projcs) || keyword_matches(id, Keyword::Geogcs)
        || keyword_matches(id, Keyword::Geoccs) || keyword_matches(id, Keyword::Projcrs)
        || keyword_matches(id, Keyword::Geogcrs) || keyword_matches(id, Keyword::Geodcrs)
}

fn child_keyword_matches(id: &[u8], kind: ChildKind) -> (r: bool)
    ensures
        r == child_matches(id@, kind),
{
    match kind {
        ChildKind::Horizontal => is_horizontal_keyword(id),
        ChildKind::Source => keyword_matches(id, Keyword::Sourcecrs),
    }
}

/// Position just past the quoted string whose body starts at `i`.
fn skip_quoted(b: &[u8], i: usize) -> (r: usize)
    requires
        i <= b@.len(),
    ensures
        r == skip_quoted_spec(b@, i as int),
        i <= r <= b@.len(),
{
    let mut j = i;
    while j < b.len()
        invariant
            i <= j <= b@.len(),
            skip_quoted_spec(b@, j as int) == skip_quoted_spec(b@, i as int),
        decreases b@.len() - j,
    {
        if b[j] == 0x22u8 {
            if j + 1 < b.len() && b[j + 1] == 0x22u8 {
                j = j + 2;
                continue ;
            }
            return j + 1;
        }
        j = j + 1;
    }
    j
}

/// Given `b[open] == '['`, the index of the matching `]`. Quoted strings
/// (with `""` escapes) are skipped, so brackets inside names do not count.
fn find_matching_bracket(b: &[u8], open: usize) -> (r: Option<usize>)
    requires
        open < b@.len(),
        b@[open as int] == 0x5Bu8,
    ensures
        int_index(r) == matching_bracket(b@, open as int),
        r matches Some(c) ==> open < c < b@.len(),
{
    proof {
        lemma_match_bounds(b@, open as int, 0, false);
    }
    let mut depth: usize = 0;
    let mut i = open;
    let mut in_string = false;
    while i < b.len()
        invariant
            open <= i <= b@.len(),
            b@[open as int] == 0x5Bu8,
            match_from(b@, i as int, depth as int, in_string) == matching_bracket(
                b@,
                open as int,
            ),
            i == open ==> depth == 0 && !in_string,
            i > open ==> depth >= 1,
            depth <= i - open,
        decreases b@.len() - i,
    {
        let c = b[i];
        if in_string {
            if c == 0x22u8 {
                if i + 1 < b.len() && b[i + 1] == 0x22u8 {
                    i = i + 2;
                    continue ;
                }
                in_string = false;
            }
            i = i + 1;
            continue ;
        }
        if c == 0x22u8 {
            in_string = true;
        } else if c == 0x5Bu8 {
            depth = depth + 1;
        } else if c == 0x5Du8 {
            depth = depth - 1;
            if depth == 0 {
                return Some(i);
            }
        }
        i = i + 1;
    }
    None
}

/// The first index of byte `c` in `s`.
pub(crate) fn find_first(s: &[u8], c: u8) -> (r: Option<usize>)
    ensures
        int_index(r) == find_byte(s@, c),
        r matches Some(p) ==> p < s@.len(),
{
    let mut i: usize = 0;
    while i < s.len()
        invariant
            0 <= i <= s@.len(),
            find_from(s@, c, i as int) == find_byte(s@, c),
        decreases s@.len() - i,
    {
        if s[i] == c {
            return Some(i);
        }
        i = i + 1;
    }
    None
}

/// Walk the depth-0 tokens of a block body and return the bounds (start,
/// closing bracket) of the first child block whose keyword matches `kind`.
fn find_child_block(b: &[u8], kind: ChildKind) -> (r: Option<(usize, usize)>)
    ensures
        int_pair(r) == child_from(b@, 0, kind),
{
    let mut i: usize = 0;
    while i < b.len()
        invariant
            0 <= i <= b@.len(),
            child_from(b@, i as int, kind) == child_from(b@, 0, kind),
        decreases b@.len() - i,
    {
        let c = b[i];
        if c == 0x22u8 {
            let j = skip_quoted(b, i + 1);
            i = j;
            continue ;
        }
        if ident_byte(c) {
            let e = identifier_end(b, i);
            proof {
                lemma_ident_end_bounds(b@, i as int + 1);
            }
            let a = skip_whitespace(b, e);
            if a < b.len() && b[a] == 0x5Bu8 {
                match find_matching_bracket(b, a) {
                    None => {
                        return None;
                    },
                    Some(close) => {
                        if child_keyword_matches(&b[i..e], kind) {
                            return Some((i, close));
                        }
                        i = close + 1;
                        continue ;
                    },
                }
            }
            i = e;
            continue ;
        }
        i = i + 1;
    }
    None
}

/// Bounds of the body of a `KEYWORD[...]` block.
fn block_body(block: &[u8]) -> (r: Option<(usize, usize)>)
    ensures
        int_pair(r) == block_body_spec(block@),
        r matches Some((p, q)) ==> 0 < p <= q < block@.len(),
{
    proof {
        lemma_find_bounds(block@, 0x5Bu8, 0);
    }
    match find_first(block, 0x5Bu8) {
        None => None,
        Some(open) => match find_matching_bracket(block, open) {
            None => None,
            Some(close) => Some((open + 1, close)),
        },
    }
}

fn parse_error(literal: &str) -> (e: CrsError)
    ensures
        e@ == CrsErrorView::Parse(literal@),
{
    let mut s = String::new();
    s.append(literal);
    proof {
        assert(Seq::<char>::empty() + literal@ =~= literal@);
    }
    CrsError::Parse(s)
}

/// `prefix + text_of(bytes) + suffix` as a parse error.
fn parse_error_around_text(prefix: &str, bytes: &[u8], suffix: &str) -> (e: CrsError)
    ensures
        e@ == CrsErrorView::Parse(prefix@ + lossy_text(bytes@) + suffix@),
{
    let mut s = String::new();
    s.append(prefix);
    let t = text_of(bytes);
    s.append(t.as_str());
    s.append(suffix);
    proof {
        assert(Seq::<char>::empty() + prefix@ + lossy_text(bytes@) + suffix@ =~= prefix@
            + lossy_text(bytes@) + suffix@);
    }
    CrsError::Parse(s)
}

/// `prefix + debug_of(bytes) + suffix` as a parse error.
fn parse_error_around_debug(prefix: &str, bytes: &[u8], suffix: &str) -> (e: CrsError)
    ensures
        e@ == CrsErrorView::Parse(prefix@ + debug_text(lossy_text(bytes@)) + suffix@),
{
    let mut s = String::new();
    s.append(prefix);
    let t = text_of(bytes);
    let d = debug_of(t.as_str());
    s.append(d.as_str());
    s.append(suffix);
    proof {
        assert(Seq::<char>::empty() + prefix@ + debug_text(lossy_text(bytes@)) + suffix@
            =~= prefix@ + debug_text(lossy_text(bytes@)) + suffix@);
    }
    CrsError::Parse(s)
}

/// `prefix + debug_of(bytes)` as a parse error.
fn parse_error_after_debug(prefix: &str, bytes: &[u8]) -> (e: CrsError)
    ensures
        e@ == CrsErrorView::Parse(prefix@ + debug_text(lossy_text(bytes@))),
{
    let mut s = String::new();
    s.append(prefix);
    let t = text_of(bytes);
    let d = debug_of(t.as_str());
    s.append(d.as_str());
    proof {
        assert(Seq::<char>::empty() + prefix@ + debug_text(lossy_text(bytes@)) =~= prefix@
            + debug_text(lossy_text(bytes@)));
    }
    CrsError::Parse(s)
}

fn bad_code_error(code: &[u8], k: IntErrorKind) -> (e: CrsError)
    ensures
        e@ == CrsErrorView::Parse(msg_bad_code(code@, k)),
{
    let mut s = String::new();
    s.append("AUTHORITY/ID code is not a valid EPSG u16: ");
    let t = text_of(code);
    let d = debug_of(t.as_str());
    s.append(d.as_str());
    s.append(": ");
    push_int_error_text(&mut s, k);
    proof {
        assert(s@ =~= msg_bad_code(code@, k));
    }
    CrsError::Parse(s)
}

/// Strip a required pair of surrounding double quotes (after trimming).
fn strip_quotes(s: &[u8]) -> (r: Result<&[u8], CrsError>)
    ensures
        match strip_quotes_spec(s@) {
            Ok(t) => r matches Ok(u) && u@ == t,
            Err(m) => r matches Err(e) && e@ == CrsErrorView::Parse(m),
        },
{
    let (a, z) = trim_bounds(s, 0, s.len());
    proof {
        assert(s@.subrange(0, s@.len() as int) =~= s@);
    }
    let t = &s[a..z];
    if !(t.len() >= 2 && t[0] == 0x22u8 && t[t.len() - 1] == 0x22u8) {
        return Err(parse_error_after_debug("AUTHORITY argument is not quoted: ", t));
    }
    Ok(&t[1..t.len() - 1])
}

/// Strip surrounding double quotes if present (after trimming); otherwise
/// the trimmed input.
fn strip_quotes_opt(s: &[u8]) -> (r: &[u8])
    ensures
        r@ == strip_quotes_opt_spec(s@),
{
    let (a, z) = trim_bounds(s, 0, s.len());
    proof {
        assert(s@.subrange(0, s@.len() as int) =~= s@);
    }
    let t = &s[a..z];
    if t.len() >= 2 && t[0] == 0x22u8 && t[t.len() - 1] == 0x22u8 {
        &t[1..t.len() - 1]
    } else {
        t
    }
}

/// Parse the arguments of an `AUTHORITY` / `ID` block: WKT1 `"EPSG","NNNN"`
/// (code quoted) or WKT2 `"EPSG",NNNN` (code bare); arguments after the
/// second are ignored.
fn parse_authority_args(inner: &[u8]) -> (r: Result<u16, CrsError>)
    ensures
        parse_outcome(r, authority_args_spec(inner@)),
{
    proof {
        lemma_find_bounds(inner@, 0x2Cu8, 0);
    }
    let first_comma = find_first(inner, 0x2Cu8);
    let k0 = match first_comma {
        None => {
            return Err(
                parse_error_around_debug(
                    "AUTHORITY/ID clause must have at least two arguments, got 1 (",
                    inner,
                    ")",
                ),
            );
        },
        Some(k) => k,
    };
    let n = inner.len();
    assert(k0 < n);
    let (a0, z0) = trim_bounds(inner, 0, k0);
    let part0 = &inner[a0..z0];
    let rest = &inner[k0 + 1..n];
    proof {
        lemma_find_bounds(rest@, 0x2Cu8, 0);
    }
    let end1 = match find_first(rest, 0x2Cu8) {
        Some(k1) => k1,
        None => rest.len(),
    };
    let (a1, z1) = trim_bounds(rest, 0, end1);
    let part1 = &rest[a1..z1];
    proof {
        assert(rest@.subrange(0, rest@.len() as int) =~= rest@);
    }
    let authority = match strip_quotes(part0) {
        Ok(a) => a,
        Err(e) => {
            return Err(e);
        },
    };
    let code = strip_quotes_opt(part1);
    let epsg = vec![0x45u8, 0x50u8, 0x53u8, 0x47u8];
    if !equals_ignore_case(authority, epsg.as_slice()) {
        return Err(
            parse_error_around_text(
                "WKT VLR uses non-EPSG authority '",
                authority,
                "'; only EPSG is supported",
            ),
        );
    }
    match parse_u16(code) {
        Ok(v) => Ok(v),
        Err(k) => Err(bad_code_error(code, k)),
    }
}

/// Scan a simple CRS body for its depth-0 `AUTHORITY` / `ID` block and
/// return the EPSG code in it.
fn parse_epsg_authority_in_body(b: &[u8]) -> (r: Result<u16, CrsError>)
    ensures
        parse_outcome(r, authority_from(b@, 0)),
{
    let mut i: usize = 0;
    while i < b.len()
        invariant
            0 <= i <= b@.len(),
            authority_from(b@, i as int) == authority_from(b@, 0),
        decreases b@.len() - i,
    {
        let c = b[i];
        if c == 0x22u8 {
            let j = skip_quoted(b, i + 1);
            i = j;
            continue ;
        }
        if ident_byte(c) {
            let e = identifier_end(b, i);
            proof {
                lemma_ident_end_bounds(b@, i as int + 1);
            }
            let a = skip_whitespace(b, e);
            if a < b.len() && b[a] == 0x5Bu8 {
                match find_matching_bracket(b, a) {
                    None => {
                        return Err(
                            parse_error("unbalanced brackets while scanning for AUTHORITY"),
                        );
                    },
                    Some(close) => {
                        let id = &b[i..e];
                        if keyword_matches(id, Keyword::Authority) || keyword_matches(
                            id,
                            Keyword::Id,
                        ) {
                            return parse_authority_args(&b[a + 1..close]);
                        }
                        i = close + 1;
                        continue ;
                    },
                }
            }
            i = e;
            continue ;
        }
        i = i + 1;
    }
    Err(
        parse_error(
            "WKT VLR has no EPSG AUTHORITY/ID clause; pre-process with `pdal translate` to inject one",
        ),
    )
}

/// Scan the WKT bytes `b` (see [`wkt_extraction`]).
pub(crate) fn extract_from_bytes(b: &[u8]) -> (r: Result<WktExtraction, CrsError>)
    ensures
        parse_outcome(r, wkt_extraction(b@)),
    decreases b@.len(),
{
    let s = skip_whitespace(b, 0);
    let e = identifier_end(b, s);
    if e <= s {
        return Err(parse_error("WKT VLR is empty or has no leading identifier"));
    }
    let id = &b[s..e];
    let a = skip_whitespace(b, e);
    if !(a < b.len() && b[a] == 0x5Bu8) {
        return Err(parse_error_around_text("WKT VLR identifier '", id, "' is not followed by '['"));
    }
    let close = match find_matching_bracket(b, a) {
        None => {
            return Err(parse_error_around_text("WKT VLR identifier '", id, "' has unbalanced brackets"));
        },
        Some(c) => c,
    };
    let body = &b[a + 1..close];
    if keyword_matches(id, Keyword::CompdCs) || keyword_matches(id, Keyword::Compoundcrs) {
        let (ci, cc) = match find_child_block(body, ChildKind::Horizontal) {
            None => {
                return Err(
                    parse_error(
                        "compound CRS contains no horizontal (PROJCS/GEOGCS/GEOCCS/PROJCRS/GEOGCRS/GEODCRS) subblock to extract EPSG from",
                    ),
                );
            },
            Some(p) => p,
        };
        proof {
            lemma_child_bounds(body@, 0, ChildKind::Horizontal);
        }
        let horizontal = &body[ci..cc + 1];
        let inner = extract_from_bytes(horizontal);
        match inner {
            Ok(w) => Ok(WktExtraction { epsg: w.epsg, vertical_stripped: true }),
            Err(err) => Err(err),
        }
    } else if keyword_matches(id, Keyword::Boundcrs) {
        let (ci, cc) = match find_child_block(body, ChildKind::Source) {
            None => {
                return Err(parse_error("BOUNDCRS has no SOURCECRS subblock"));
            },
            Some(p) => p,
        };
        proof {
            lemma_child_bounds(body@, 0, ChildKind::Source);
        }
        let source = &body[ci..cc + 1];
        let (p, q) = match block_body(source) {
            None => {
                return Err(parse_error("BOUNDCRS SOURCECRS is malformed"));
            },
            Some(pq) => pq,
        };
        let (tp, tq) = trim_bounds(source, p, q);
        let inner = &source[tp..tq];
        extract_from_bytes(inner)
    } else if is_horizontal_keyword(id) {
        match parse_epsg_authority_in_body(body) {
            Ok(code) => Ok(WktExtraction { epsg: code, vertical_stripped: false }),
            Err(err) => Err(err),
        }
    } else {
        Err(
            parse_error_around_text(
                "WKT VLR root is unexpected '",
                id,
                "' (want a WKT1 PROJCS/GEOGCS/GEOCCS/COMPD_CS or WKT2 PROJCRS/GEOGCRS/GEODCRS/COMPOUNDCRS/BOUNDCRS)",
            ),
        )
    }
}

/// The UTF-8 bytes of the text `s`.
pub open spec fn text_bytes(s: &str) -> Seq<u8> {
    s.spec_bytes()
}

/// Extract the EPSG code from a CRS WKT string: the outermost authority
/// clause of the root block, descending into the horizontal component of a
/// compound CRS (reported as `vertical_stripped`) and into the `SOURCECRS`
/// of a `BOUNDCRS`. Every failure is a [`CrsError::Parse`] whose text is the
/// one [`wkt_extraction`] gives.
pub fn extract_epsg_from_wkt(wkt: &str) -> (r: Result<WktExtraction, CrsError>)
    ensures
        parse_outcome(r, wkt_extraction(text_bytes(wkt))),
{
    extract_from_bytes(wkt.as_bytes())
}

} // verus!
