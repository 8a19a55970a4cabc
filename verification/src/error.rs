//! `CrsError`: the crate-local, consumer-agnostic error type.
//!
//! The variants cover exactly the failure modes the core produces:
//!
//! - [`CrsError::UnknownEpsg`]: `Reprojector::new` could not resolve a
//!   source EPSG (or the fixed ECEF target) against the proj4 catalogue.
//! - [`CrsError::Reproject`]: a point reprojection failed.
//! - [`CrsError::Parse`]: a CRS string / WKT body failed to parse into an
//!   EPSG code.
//! - [`CrsError::SentinelCode`]: a GeoTIFF reserved sentinel (`0` / `32767`)
//!   seen where a CRS was expected.
//! - [`CrsError::Io`]: reading a sidecar `.prj` / `.qpj` file failed.

use vstd::prelude::*;

verus! {

/// Consumer-agnostic CRS error. Each consumer maps this onto its own error
/// schema at the boundary.
#[derive(Debug, Clone, PartialEq, Eq)]
pub enum CrsError {
    /// An EPSG code was not present in the proj4 catalogue.
    UnknownEpsg(String),
    /// A point reprojection failed.
    Reproject(String),
    /// A CRS string or WKT body failed to parse into an EPSG code.
    Parse(String),
    /// A GeoTIFF reserved sentinel code (`0` = "undefined", `32767` =
    /// "user-defined"): a declaration of "no standard CRS", not an EPSG code.
    SentinelCode(u16),
    /// An I/O error reading a sidecar file: the path and the underlying message.
    Io { path: String, detail: String },
}

/// The mathematical content of a [`CrsError`]: the variant and its text.
pub enum CrsErrorView {
    UnknownEpsg(Seq<char>),
    Reproject(Seq<char>),
    Parse(Seq<char>),
    SentinelCode(u16),
    Io { path: Seq<char>, detail: Seq<char> },
}

impl View for CrsError {
    type V = CrsErrorView;

    open spec fn view(&self) -> CrsErrorView {
        match self {
            CrsError::UnknownEpsg(m) => CrsErrorView::UnknownEpsg(m@),
            CrsError::Reproject(m) => CrsErrorView::Reproject(m@),
            CrsError::Parse(m) => CrsErrorView::Parse(m@),
            CrsError::SentinelCode(c) => CrsErrorView::SentinelCode(*c),
            CrsError::Io { path, detail } => CrsErrorView::Io { path: path@, detail: detail@ },
        }
    }
}

/// The character of a decimal digit `d < 10`.
pub open spec fn digit_char(d: nat) -> char {
    if d == 0 {
        '0'
    } else if d == 1 {
        '1'
    } else if d == 2 {
        '2'
    } else if d == 3 {
        '3'
    } else if d == 4 {
        '4'
    } else if d == 5 {
        '5'
    } else if d == 6 {
        '6'
    } else if d == 7 {
        '7'
    } else if d == 8 {
        '8'
    } else {
        '9'
    }
}

/// The shortest decimal rendering of `n` (no sign, no leading zeros).
pub open spec fn decimal(n: nat) -> Seq<char>
    decreases n,
{
    if n < 10 {
        seq![digit_char(n)]
    } else {
        decimal(n / 10) + seq![digit_char(n % 10)]
    }
}

/// The text of the sentinel-code error for `code`.
pub open spec fn sentinel_text(code: u16) -> Seq<char> {
    "EPSG:"@ + decimal(code as nat)
        + " is a GeoTIFF reserved sentinel (0 = undefined, 32767 = user-defined), not a resolvable coordinate reference system; treat it as 'no CRS' (absence), do not pass it to the proj4 catalogue"@
}

/// The human-readable text of an error, as its `Display` renders it.
pub open spec fn display_text(e: CrsErrorView) -> Seq<char> {
    match e {
        CrsErrorView::UnknownEpsg(m) => m,
        CrsErrorView::Reproject(m) => m,
        CrsErrorView::Parse(m) => m,
        CrsErrorView::SentinelCode(c) => sentinel_text(c),
        CrsErrorView::Io { path, detail } => path + ": "@ + detail,
    }
}

fn digit_str(d: u16) -> (s: &'static str)
    requires
        d < 10,
    ensures
        s@ == seq![digit_char(d as nat)],
{
    proof {
        reveal_strlit("0");
        reveal_strlit("1");
        reveal_strlit("2");
        reveal_strlit("3");
        reveal_strlit("4");
        reveal_strlit("5");
        reveal_strlit("6");
        reveal_strlit("7");
        reveal_strlit("8");
        reveal_strlit("9");
    }
    if d == 0 {
        "0"
    } else if d == 1 {
        "1"
    } else if d == 2 {
        "2"
    } else if d == 3 {
        "3"
    } else if d == 4 {
        "4"
    } else if d == 5 {
        "5"
    } else if d == 6 {
        "6"
    } else if d == 7 {
        "7"
    } else if d == 8 {
        "8"
    } else {
        "9"
    }
}

/// Append the decimal rendering of `n` to `s`.
pub fn push_decimal(s: &mut String, n: u16)
    ensures
        final(s)@ == old(s)@ + decimal(n as nat),
    decreases n,
{
    if n >= 10 {
        push_decimal(s, n / 10);
    }
    s.append(digit_str(n % 10));
}

impl CrsError {
    /// Construct a [`CrsError::UnknownEpsg`].
    pub fn unknown_epsg(msg: String) -> (e: CrsError)
        ensures
            e@ == CrsErrorView::UnknownEpsg(msg@),
    {
        CrsError::UnknownEpsg(msg)
    }

    /// Construct a [`CrsError::Reproject`].
    pub fn reproject(msg: String) -> (e: CrsError)
        ensures
            e@ == CrsErrorView::Reproject(msg@),
    {
        CrsError::Reproject(msg)
    }

    /// Construct a [`CrsError::Parse`].
    pub fn parse(msg: String) -> (e: CrsError)
        ensures
            e@ == CrsErrorView::Parse(msg@),
    {
        CrsError::Parse(msg)
    }

    /// Construct a [`CrsError::SentinelCode`] from the sentinel value seen.
    pub fn sentinel_code(epsg: u16) -> (e: CrsError)
        ensures
            e@ == CrsErrorView::SentinelCode(epsg),
    {
        CrsError::SentinelCode(epsg)
    }

    /// Construct a [`CrsError::Io`] from a displayed path and the displayed
    /// underlying error.
    pub fn io(path: String, detail: String) -> (e: CrsError)
        ensures
            e@ == (CrsErrorView::Io { path: path@, detail: detail@ }),
    {
        CrsError::Io { path, detail }
    }

    /// The error's human-readable text (what `Display` shows).
    pub fn to_display_string(&self) -> (s: String)
        ensures
            s@ == display_text(self@),
    {
        match self {
            CrsError::UnknownEpsg(m) => m.clone(),
            CrsError::Reproject(m) => m.clone(),
            CrsError::Parse(m) => m.clone(),
            CrsError::SentinelCode(c) => {
                let mut s = String::new();
                s.append("EPSG:");
                push_decimal(&mut s, *c);
                s.append(
                    " is a GeoTIFF reserved sentinel (0 = undefined, 32767 = user-defined), not a resolvable coordinate reference system; treat it as 'no CRS' (absence), do not pass it to the proj4 catalogue",
                );
                s
            },
            CrsError::Io { path, detail } => {
                let mut s = path.clone();
                s.append(": ");
                s.append(detail.as_str());
                s
            },
        }
    }
}

} // verus!
