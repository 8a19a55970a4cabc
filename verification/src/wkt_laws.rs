//! Laws of the WKT scanner, stated over the shapes of real CRS texts rather
//! than through the scanning specification: which authority clause answers
//! for a horizontal CRS, for a projected CRS with a nested base CRS, for a
//! compound CRS and for a bound CRS.
//!
//! The texts are built from keywords in any letter case, quoted names (any
//! bytes but `"`), and EPSG authority clauses with any code.

use vstd::prelude::*;

use crate::text::{
    ascii_lower, decimal_bytes, eq_ignore_case, ident_end_spec, is_ascii_graphic, is_digit,
    is_ident_byte, lemma_decimal_bytes_are_digits, lemma_parse_u16_reads_decimal,
    lemma_trim_keeps_graphic_ends, skip_ws_spec,
};
use crate::wkt::{
    block_body_spec, Keyword, WktExtraction, authority_args_spec, authority_from, child_from, find_byte,
    find_from, is_authority, is_compound, is_horizontal, is_keyword, keyword_bytes,
    match_from, matching_bracket, msg_no_authority, skip_quoted_spec, strip_quotes_opt_spec,
    strip_quotes_spec, wkt_extraction, ChildKind,
};

verus! {

// ---------------------------------------------------------------------------
// The shapes of CRS texts
// ---------------------------------------------------------------------------

/// A name that can stand between double quotes: it holds no `"`.
pub open spec fn no_quote(n: Seq<u8>) -> bool {
    forall|i: int| 0 <= i < n.len() ==> #[trigger] n[i] != 0x22u8
}

/// `"n"`.
pub open spec fn quoted(n: Seq<u8>) -> Seq<u8> {
    seq![0x22u8] + n + seq![0x22u8]
}

/// The bytes `EPSG`.
pub open spec fn epsg_word() -> Seq<u8> {
    seq![0x45u8, 0x50u8, 0x53u8, 0x47u8]
}

/// `AUTHORITY["EPSG","c"]`, the code written in decimal.
pub open spec fn epsg_clause(c: u16) -> Seq<u8> {
    keyword_bytes(Keyword::Authority) + seq![0x5Bu8] + quoted(epsg_word()) + seq![0x2Cu8]
        + quoted(decimal_bytes(c as nat)) + seq![0x5Du8]
}

/// `word[body]`.
pub open spec fn block(word: Seq<u8>, body: Seq<u8>) -> Seq<u8> {
    word + seq![0x5Bu8] + body + seq![0x5Du8]
}

/// `,x`.
pub open spec fn comma(x: Seq<u8>) -> Seq<u8> {
    seq![0x2Cu8] + x
}

/// `word["name",AUTHORITY["EPSG","c"]]`: a CRS block carrying its own code.
pub open spec fn named_crs(word: Seq<u8>, name: Seq<u8>, c: u16) -> Seq<u8> {
    block(word, quoted(name) + comma(epsg_clause(c)))
}

/// A keyword in any letter case: a non-empty run of identifier bytes.
pub open spec fn is_word(w: Seq<u8>) -> bool {
    w.len() > 0 && forall|i: int| 0 <= i < w.len() ==> is_ident_byte(#[trigger] w[i])
}

/// One of the six horizontal CRS keywords, in any letter case: `PROJCS`,
/// `GEOGCS`, `GEOCCS`, `PROJCRS`, `GEOGCRS`, `GEODCRS`.
pub open spec fn horizontal_word(w: Seq<u8>) -> bool {
    ||| eq_ignore_case(w, keyword_bytes(Keyword::Projcs))
    ||| eq_ignore_case(w, keyword_bytes(Keyword::Geogcs))
    ||| eq_ignore_case(w, keyword_bytes(Keyword::Geoccs))
    ||| eq_ignore_case(w, keyword_bytes(Keyword::Projcrs))
    ||| eq_ignore_case(w, keyword_bytes(Keyword::Geogcrs))
    ||| eq_ignore_case(w, keyword_bytes(Keyword::Geodcrs))
}

/// One of the two compound CRS keywords, in any letter case: `COMPD_CS`,
/// `COMPOUNDCRS`.
pub open spec fn compound_word(w: Seq<u8>) -> bool {
    eq_ignore_case(w, keyword_bytes(Keyword::CompdCs)) || eq_ignore_case(
        w,
        keyword_bytes(Keyword::Compoundcrs),
    )
}

// ---------------------------------------------------------------------------
// Scanning over runs of bytes
// ---------------------------------------------------------------------------

proof fn lemma_ident_run(b: Seq<u8>, i: int, j: int)
    requires
        0 <= i <= j <= b.len(),
        forall|k: int| i <= k < j ==> is_ident_byte(#[trigger] b[k]),
        j == b.len() || !is_ident_byte(b[j]),
    ensures
        ident_end_spec(b, i) == j,
    decreases j - i,
{
    if i < j {
        lemma_ident_run(b, i + 1, j);
    }
}

proof fn lemma_skip_quoted_run(b: Seq<u8>, i: int, j: int)
    requires
        0 <= i <= j < b.len(),
        forall|k: int| i <= k < j ==> #[trigger] b[k] != 0x22u8,
        b[j] == 0x22u8,
        j + 1 == b.len() || b[j + 1] != 0x22u8,
    ensures
        skip_quoted_spec(b, i) == j + 1,
    decreases j - i,
{
    if i < j {
        lemma_skip_quoted_run(b, i + 1, j);
    }
}

proof fn lemma_match_in_string(b: Seq<u8>, i: int, j: int, d: int)
    requires
        0 <= i <= j < b.len(),
        forall|k: int| i <= k < j ==> #[trigger] b[k] != 0x22u8,
        b[j] == 0x22u8,
        j + 1 == b.len() || b[j + 1] != 0x22u8,
    ensures
        match_from(b, i, d, true) == match_from(b, j + 1, d, false),
    decreases j - i,
{
    if i < j {
        lemma_match_in_string(b, i + 1, j, d);
    }
}

/// Bytes that bracket matching passes over: neither a bracket nor a quote.
pub open spec fn plain_byte(c: u8) -> bool {
    c != 0x5Bu8 && c != 0x5Du8 && c != 0x22u8
}

proof fn lemma_match_plain(b: Seq<u8>, i: int, j: int, d: int)
    requires
        0 <= i <= j <= b.len(),
        forall|k: int| i <= k < j ==> plain_byte(#[trigger] b[k]),
    ensures
        match_from(b, i, d, false) == match_from(b, j, d, false),
    decreases j - i,
{
    if i < j {
        lemma_match_plain(b, i + 1, j, d);
    }
}

proof fn lemma_find_absent(s: Seq<u8>, c: u8, i: int)
    requires
        0 <= i <= s.len(),
        forall|k: int| i <= k < s.len() ==> #[trigger] s[k] != c,
    ensures
        find_from(s, c, i) is None,
    decreases s.len() - i,
{
    if i < s.len() {
        lemma_find_absent(s, c, i + 1);
    }
}

// ---------------------------------------------------------------------------
// The authority clause
// ---------------------------------------------------------------------------

proof fn lemma_quoted_digits(c: u16)
    ensures
        ({
            let q = quoted(decimal_bytes(c as nat));
            &&& q.len() >= 3
            &&& q[0] == 0x22u8
            &&& q[q.len() - 1] == 0x22u8
            &&& forall|k: int| 1 <= k < q.len() - 1 ==> is_digit(#[trigger] q[k])
        }),
{
    lemma_decimal_bytes_are_digits(c as nat);
    let d = decimal_bytes(c as nat);
    let q = quoted(d);
    assert forall|k: int| 1 <= k < q.len() - 1 implies is_digit(#[trigger] q[k]) by {
        assert(q[k] == d[k - 1]);
    }
}

proof fn lemma_authority_args(c: u16)
    ensures
        authority_args_spec(quoted(epsg_word()) + comma(quoted(decimal_bytes(c as nat))))
            == Ok::<u16, Seq<char>>(c),
{
    let d = decimal_bytes(c as nat);
    let qe = quoted(epsg_word());
    let qd = quoted(d);
    let inner = qe + comma(qd);
    lemma_quoted_digits(c);
    lemma_parse_u16_reads_decimal(c);
    assert(inner[6] == 0x2Cu8);
    assert(find_from(inner, 0x2Cu8, 6) == Some(6int));
    assert(find_from(inner, 0x2Cu8, 5) == Some(6int));
    assert(find_from(inner, 0x2Cu8, 4) == Some(6int));
    assert(find_from(inner, 0x2Cu8, 3) == Some(6int));
    assert(find_from(inner, 0x2Cu8, 2) == Some(6int));
    assert(find_from(inner, 0x2Cu8, 1) == Some(6int));
    assert(find_byte(inner, 0x2Cu8) == Some(6int));
    assert(inner.subrange(0, 6) =~= qe);
    let rest = inner.subrange(7, inner.len() as int);
    assert(rest =~= qd);
    assert forall|k: int| 0 <= k < rest.len() implies #[trigger] rest[k] != 0x2Cu8 by {
        if 1 <= k < rest.len() - 1 {
            assert(is_digit(qd[k]));
        }
    }
    lemma_find_absent(rest, 0x2Cu8, 0);
    lemma_trim_keeps_graphic_ends(qe);
    lemma_trim_keeps_graphic_ends(qd);
    assert(strip_quotes_spec(qe) == Ok::<Seq<u8>, Seq<char>>(epsg_word())) by {
        assert(qe.subrange(1, qe.len() - 1) =~= epsg_word());
    }
    assert(strip_quotes_opt_spec(qd) == d) by {
        assert(qd.subrange(1, qd.len() - 1) =~= d);
    }
    assert(eq_ignore_case(epsg_word(), seq![0x45u8, 0x50u8, 0x53u8, 0x47u8]));
}

// ---------------------------------------------------------------------------
// Bracket matching over the shapes
// ---------------------------------------------------------------------------

proof fn lemma_match_quoted(b: Seq<u8>, p: int, n: Seq<u8>, d: int)
    requires
        0 <= p,
        p + n.len() + 2 < b.len(),
        b.subrange(p, p + n.len() + 2) == quoted(n),
        no_quote(n),
        b[p + n.len() + 2] != 0x22u8,
    ensures
        match_from(b, p, d, false) == match_from(b, p + n.len() + 2, d, false),
{
    let q = quoted(n);
    assert forall|k: int| 0 <= k < q.len() implies b[p + k] == #[trigger] q[k] by {
        assert(b.subrange(p, p + n.len() + 2)[k] == b[p + k]);
    }
    assert(b[p] == q[0]);
    assert forall|k: int| p + 1 <= k < p + n.len() + 1 implies #[trigger] b[k] != 0x22u8 by {
        assert(b[p + (k - p)] == q[k - p]);
        assert(q[k - p] == n[k - p - 1]);
    }
    assert(b[p + n.len() + 1] == q[n.len() + 1int]);
    lemma_match_in_string(b, p + 1, p + n.len() + 1, d);
}

proof fn lemma_match_clause(b: Seq<u8>, p: int, c: u16, d: int)
    requires
        0 <= p,
        d >= 0,
        p + epsg_clause(c).len() <= b.len(),
        b.subrange(p, p + epsg_clause(c).len()) == epsg_clause(c),
    ensures
        match_from(b, p, d, false) == match_from(b, p + 9, d, false),
        match_from(b, p + 9, d, false) == if d == 0 {
            Some(p + epsg_clause(c).len() - 1)
        } else {
            match_from(b, p + epsg_clause(c).len(), d, false)
        },
{
    let a = epsg_clause(c);
    let qe = quoted(epsg_word());
    let qd = quoted(decimal_bytes(c as nat));
    let len = a.len() as int;
    assert forall|k: int| 0 <= k < len implies b[p + k] == #[trigger] a[k] by {
        assert(b.subrange(p, p + len)[k] == b[p + k]);
    }
    assert forall|k: int| p <= k < p + 9 implies plain_byte(#[trigger] b[k]) by {
        assert(b[p + (k - p)] == a[k - p]);
    }
    lemma_match_plain(b, p, p + 9, d);
    assert(b[p + 9] == a[9]);
    assert(b.subrange(p + 10, p + 16) =~= qe) by {
        assert forall|t: int| 0 <= t < 6 implies #[trigger] b.subrange(p + 10, p + 16)[t]
            == qe[t] by {
            assert(b[p + (10 + t)] == a[10 + t]);
        }
    }
    assert(b[p + 16] == a[16]);
    lemma_match_quoted(b, p + 10, epsg_word(), d + 1);
    let m = qd.len() as int;
    assert(b.subrange(p + 17, p + 17 + m) =~= qd) by {
        assert forall|t: int| 0 <= t < m implies #[trigger] b.subrange(p + 17, p + 17 + m)[t]
            == qd[t] by {
            assert(b[p + (17 + t)] == a[17 + t]);
        }
    }
    assert(len == 18 + m);
    assert(b[p + 17 + m] == a[17 + m]);
    lemma_quoted_digits(c);
    lemma_decimal_bytes_are_digits(c as nat);
    assert(no_quote(decimal_bytes(c as nat)));
    lemma_match_quoted(b, p + 17, decimal_bytes(c as nat), d + 1);
    assert(b[p + len - 1] == a[len - 1]);
}

proof fn lemma_word_plain(w: Seq<u8>)
    requires
        forall|i: int| 0 <= i < w.len() ==> is_ident_byte(#[trigger] w[i]),
    ensures
        forall|i: int| 0 <= i < w.len() ==> plain_byte(#[trigger] w[i]),
{
}

/// Matching over `word["name",AUTHORITY["EPSG","c"]]` at `p`: from the `[`
/// at depth 0 it finds the final `]`; at a deeper level it passes the block.
#[verifier::spinoff_prover]
proof fn lemma_match_named(b: Seq<u8>, p: int, w: Seq<u8>, n: Seq<u8>, c: u16, d: int)
    requires
        0 <= p,
        d >= 0,
        is_word(w),
        no_quote(n),
        p + named_crs(w, n, c).len() <= b.len(),
        b.subrange(p, p + named_crs(w, n, c).len()) == named_crs(w, n, c),
    ensures
        match_from(b, p, d, false) == match_from(b, p + w.len(), d, false),
        match_from(b, p + w.len(), d, false) == if d == 0 {
            Some(p + named_crs(w, n, c).len() - 1)
        } else {
            match_from(b, p + named_crs(w, n, c).len(), d, false)
        },
{
    let seg = named_crs(w, n, c);
    let a = epsg_clause(c);
    let qn = quoted(n);
    let len = seg.len() as int;
    let wl = w.len() as int;
    let nl = n.len() as int;
    let al = a.len() as int;
    assert(len == wl + nl + al + 5);
    assert forall|k: int| 0 <= k < len implies b[p + k] == #[trigger] seg[k] by {
        assert(b.subrange(p, p + len)[k] == b[p + k]);
    }
    assert forall|k: int| p <= k < p + wl implies plain_byte(#[trigger] b[k]) by {
        assert(b[p + (k - p)] == seg[k - p]);
        assert(seg[k - p] == w[k - p]);
    }
    lemma_match_plain(b, p, p + wl, d);
    assert(b[p + wl] == seg[wl]);
    assert(b.subrange(p + wl + 1, p + wl + 1 + nl + 2) =~= qn) by {
        assert forall|t: int| 0 <= t < nl + 2 implies #[trigger] b.subrange(
            p + wl + 1,
            p + wl + 1 + nl + 2,
        )[t] == qn[t] by {
            assert(b[p + (wl + 1 + t)] == seg[wl + 1 + t]);
        }
    }
    assert(b[p + wl + nl + 3] == seg[wl + nl + 3]);
    lemma_match_quoted(b, p + wl + 1, n, d + 1);
    assert(b.subrange(p + wl + nl + 4, p + wl + nl + 4 + al) =~= a) by {
        assert forall|t: int| 0 <= t < al implies #[trigger] b.subrange(
            p + wl + nl + 4,
            p + wl + nl + 4 + al,
        )[t] == a[t] by {
            assert(b[p + (wl + nl + 4 + t)] == seg[wl + nl + 4 + t]);
        }
    }
    lemma_match_clause(b, p + wl + nl + 4, c, d + 1);
    assert(b[p + len - 1] == seg[len - 1]);
}

// ---------------------------------------------------------------------------
// Keywords
// ---------------------------------------------------------------------------

pub open spec fn upper_or_underscore(c: u8) -> bool {
    (0x41u8 <= c && c <= 0x5Au8) || c == 0x5Fu8
}

proof fn lemma_any_case_is_word(w: Seq<u8>, k: Seq<u8>)
    requires
        k.len() > 0,
        forall|j: int| 0 <= j < k.len() ==> upper_or_underscore(#[trigger] k[j]),
        eq_ignore_case(w, k),
    ensures
        is_word(w),
{
    assert forall|i: int| 0 <= i < w.len() implies is_ident_byte(#[trigger] w[i]) by {
        assert(ascii_lower(w[i]) == ascii_lower(k[i]));
        assert(upper_or_underscore(k[i]));
    }
}

proof fn lemma_keyword_upper(k: Keyword)
    ensures
        keyword_bytes(k).len() > 0,
        forall|j: int| 0 <= j < keyword_bytes(k).len() ==> upper_or_underscore(
            #[trigger] keyword_bytes(k)[j],
        ),
{
    let kb = keyword_bytes(k);
    assert forall|j: int| 0 <= j < kb.len() implies upper_or_underscore(#[trigger] kb[j]) by {
        match k {
            Keyword::Projcs => {},
            Keyword::Geogcs => {},
            Keyword::Geoccs => {},
            Keyword::Projcrs => {},
            Keyword::Geogcrs => {},
            Keyword::Geodcrs => {},
            Keyword::CompdCs => {},
            Keyword::Compoundcrs => {},
            Keyword::Boundcrs => {},
            Keyword::Sourcecrs => {},
            Keyword::Authority => {},
            Keyword::Id => {},
        }
    }
}

/// A horizontal keyword is a word of six or seven letters that the scanner
/// takes for a horizontal CRS and for nothing else.
proof fn lemma_horizontal_word(w: Seq<u8>)
    requires
        horizontal_word(w),
    ensures
        is_word(w),
        w.len() == 6 || w.len() == 7,
        is_horizontal(w),
        !is_compound(w),
        !is_keyword(w, Keyword::Boundcrs),
        !is_authority(w),
{
    if eq_ignore_case(w, keyword_bytes(Keyword::Projcs)) {
        lemma_keyword_upper(Keyword::Projcs);
        lemma_any_case_is_word(w, keyword_bytes(Keyword::Projcs));
    } else if eq_ignore_case(w, keyword_bytes(Keyword::Geogcs)) {
        lemma_keyword_upper(Keyword::Geogcs);
        lemma_any_case_is_word(w, keyword_bytes(Keyword::Geogcs));
    } else if eq_ignore_case(w, keyword_bytes(Keyword::Geoccs)) {
        lemma_keyword_upper(Keyword::Geoccs);
        lemma_any_case_is_word(w, keyword_bytes(Keyword::Geoccs));
    } else if eq_ignore_case(w, keyword_bytes(Keyword::Projcrs)) {
        lemma_keyword_upper(Keyword::Projcrs);
        lemma_any_case_is_word(w, keyword_bytes(Keyword::Projcrs));
    } else if eq_ignore_case(w, keyword_bytes(Keyword::Geogcrs)) {
        lemma_keyword_upper(Keyword::Geogcrs);
        lemma_any_case_is_word(w, keyword_bytes(Keyword::Geogcrs));
    } else {
        lemma_keyword_upper(Keyword::Geodcrs);
        lemma_any_case_is_word(w, keyword_bytes(Keyword::Geodcrs));
    }
}

/// A compound keyword is a word the scanner takes for a compound CRS.
proof fn lemma_compound_word(w: Seq<u8>)
    requires
        compound_word(w),
    ensures
        is_word(w),
        is_compound(w),
{
    if eq_ignore_case(w, keyword_bytes(Keyword::CompdCs)) {
        lemma_keyword_upper(Keyword::CompdCs);
        lemma_any_case_is_word(w, keyword_bytes(Keyword::CompdCs));
    } else {
        lemma_keyword_upper(Keyword::Compoundcrs);
        lemma_any_case_is_word(w, keyword_bytes(Keyword::Compoundcrs));
    }
}

// ---------------------------------------------------------------------------
// The depth-0 searches over a body
// ---------------------------------------------------------------------------

/// Both searches pass over a quoted name at `i` whole.
proof fn lemma_searches_skip_quoted(body: Seq<u8>, i: int, n: Seq<u8>)
    requires
        0 <= i,
        i + n.len() + 2 < body.len(),
        body.subrange(i, i + n.len() + 2) == quoted(n),
        no_quote(n),
        body[i + n.len() + 2] != 0x22u8,
    ensures
        authority_from(body, i) == authority_from(body, i + n.len() + 2),
        child_from(body, i, ChildKind::Horizontal) == child_from(
            body,
            i + n.len() + 2,
            ChildKind::Horizontal,
        ),
{
    let q = quoted(n);
    assert forall|k: int| 0 <= k < q.len() implies body[i + k] == #[trigger] q[k] by {
        assert(body.subrange(i, i + n.len() + 2)[k] == body[i + k]);
    }
    assert(body[i] == q[0]);
    assert forall|k: int| i + 1 <= k < i + n.len() + 1 implies #[trigger] body[k] != 0x22u8 by {
        assert(body[i + (k - i)] == q[k - i]);
        assert(q[k - i] == n[k - i - 1]);
    }
    assert(body[i + n.len() + 1] == q[n.len() + 1int]);
    lemma_skip_quoted_run(body, i + 1, i + n.len() + 1);
}

/// Both searches step over a `,`.
proof fn lemma_searches_skip_comma(body: Seq<u8>, i: int)
    requires
        0 <= i < body.len(),
        body[i] == 0x2Cu8,
    ensures
        authority_from(body, i) == authority_from(body, i + 1),
        child_from(body, i, ChildKind::Horizontal) == child_from(body, i + 1, ChildKind::Horizontal),
{
}

/// The authority search answers an `AUTHORITY["EPSG","c"]` that ends the
/// body with `c`.
#[verifier::spinoff_prover]
proof fn lemma_authority_clause_answers(body: Seq<u8>, p: int, c: u16)
    requires
        0 <= p,
        p + epsg_clause(c).len() == body.len(),
        body.subrange(p, body.len() as int) == epsg_clause(c),
    ensures
        authority_from(body, p) == Ok::<u16, Seq<char>>(c),
{
    let a = epsg_clause(c);
    let len = a.len() as int;
    assert forall|k: int| 0 <= k < len implies body[p + k] == #[trigger] a[k] by {
        assert(body.subrange(p, p + len)[k] == body[p + k]);
    }
    assert forall|k: int| p <= k < p + 9 implies is_ident_byte(#[trigger] body[k]) by {
        assert(body[p + (k - p)] == a[k - p]);
    }
    assert(body[p + 9] == a[9]);
    lemma_ident_run(body, p, p + 9);
    lemma_match_clause(body, p, c, 0);
    assert(body.subrange(p, p + 9) =~= keyword_bytes(Keyword::Authority));
    assert(is_authority(body.subrange(p, p + 9)));
    let inner = body.subrange(p + 10, p + len - 1);
    assert(inner =~= quoted(epsg_word()) + comma(quoted(decimal_bytes(c as nat)))) by {
        assert forall|t: int| 0 <= t < inner.len() implies #[trigger] inner[t] == (quoted(
            epsg_word(),
        ) + comma(quoted(decimal_bytes(c as nat))))[t] by {
            assert(body[p + (10 + t)] == a[10 + t]);
        }
    }
    lemma_authority_args(c);
}

/// The authority search passes over a CRS block that is not an authority
/// clause, whatever that block carries inside.
proof fn lemma_authority_skips_block(body: Seq<u8>, p: int, w: Seq<u8>, n: Seq<u8>, c: u16)
    requires
        0 <= p,
        horizontal_word(w),
        no_quote(n),
        p + named_crs(w, n, c).len() <= body.len(),
        body.subrange(p, p + named_crs(w, n, c).len()) == named_crs(w, n, c),
    ensures
        authority_from(body, p) == authority_from(body, p + named_crs(w, n, c).len()),
{
    lemma_horizontal_word(w);
    let seg = named_crs(w, n, c);
    let len = seg.len() as int;
    let wl = w.len() as int;
    assert forall|k: int| 0 <= k < len implies body[p + k] == #[trigger] seg[k] by {
        assert(body.subrange(p, p + len)[k] == body[p + k]);
    }
    assert forall|k: int| p <= k < p + wl implies is_ident_byte(#[trigger] body[k]) by {
        assert(body[p + (k - p)] == seg[k - p]);
        assert(seg[k - p] == w[k - p]);
    }
    assert(body[p + wl] == seg[wl]);
    assert(body[p] == seg[0]);
    lemma_ident_run(body, p, p + wl);
    lemma_match_named(body, p, w, n, c, 0);
    assert(body.subrange(p, p + wl) =~= w);
}

/// The horizontal-child search finds a horizontal CRS block at `p`.
proof fn lemma_child_finds_block(body: Seq<u8>, p: int, w: Seq<u8>, n: Seq<u8>, c: u16)
    requires
        0 <= p,
        horizontal_word(w),
        no_quote(n),
        p + named_crs(w, n, c).len() <= body.len(),
        body.subrange(p, p + named_crs(w, n, c).len()) == named_crs(w, n, c),
    ensures
        child_from(body, p, ChildKind::Horizontal) == Some(
            (p, p + named_crs(w, n, c).len() - 1),
        ),
{
    lemma_horizontal_word(w);
    let seg = named_crs(w, n, c);
    let len = seg.len() as int;
    let wl = w.len() as int;
    assert forall|k: int| 0 <= k < len implies body[p + k] == #[trigger] seg[k] by {
        assert(body.subrange(p, p + len)[k] == body[p + k]);
    }
    assert forall|k: int| p <= k < p + wl implies is_ident_byte(#[trigger] body[k]) by {
        assert(body[p + (k - p)] == seg[k - p]);
        assert(seg[k - p] == w[k - p]);
    }
    assert(body[p + wl] == seg[wl]);
    assert(body[p] == seg[0]);
    lemma_ident_run(body, p, p + wl);
    lemma_match_named(body, p, w, n, c, 0);
    assert(body.subrange(p, p + wl) =~= w);
}

/// The frame of a root block `word[body]`: the scanner reads `word` as its
/// keyword and, when bracket matching from inside the body reaches the final
/// `]` at depth 1, `body` as its body.
proof fn lemma_root_frame(w: Seq<u8>, body: Seq<u8>)
    requires
        is_word(w),
        match_from(block(w, body), w.len() + 1int, 1, false) == match_from(
            block(w, body),
            block(w, body).len() - 1,
            1,
            false,
        ),
    ensures
        ({
            let b = block(w, body);
            let wl = w.len() as int;
            &&& skip_ws_spec(b, 0) == 0
            &&& ident_end_spec(b, 0) == wl
            &&& skip_ws_spec(b, wl) == wl
            &&& b[wl] == 0x5Bu8
            &&& matching_bracket(b, wl) == Some(b.len() - 1)
            &&& b.subrange(0, wl) == w
            &&& b.subrange(wl + 1, b.len() - 1) == body
        }),
{
    let b = block(w, body);
    let wl = w.len() as int;
    assert forall|k: int| 0 <= k < wl implies is_ident_byte(#[trigger] b[k]) by {
        assert(b[k] == w[k]);
    }
    assert(b[wl] == 0x5Bu8);
    lemma_ident_run(b, 0, wl);
    assert(b[b.len() - 1] == 0x5Du8);
    assert(match_from(b, wl, 0, false) == match_from(b, wl + 1, 1, false));
    assert(b.subrange(0, wl) =~= w);
    assert(b.subrange(wl + 1, b.len() - 1) =~= body);
}

// ---------------------------------------------------------------------------
// The laws
// ---------------------------------------------------------------------------

/// A horizontal CRS (any of the six keywords, in any letter case) that
/// carries an EPSG authority clause is that EPSG code, with nothing
/// stripped.
#[verifier::spinoff_prover]
pub proof fn lemma_horizontal_crs_yields_its_code(w: Seq<u8>, n: Seq<u8>, c: u16)
    requires
        horizontal_word(w),
        no_quote(n),
    ensures
        wkt_extraction(named_crs(w, n, c)) == Ok::<WktExtraction, Seq<char>>(
            WktExtraction { epsg: c, vertical_stripped: false },
        ),
{
    lemma_horizontal_word(w);
    let b = named_crs(w, n, c);
    let wl = w.len() as int;
    let nl = n.len() as int;
    let len = b.len() as int;
    assert(b.subrange(0, len) =~= b);
    assert forall|k: int| 0 <= k < wl implies is_ident_byte(#[trigger] b[k]) by {
        assert(b[k] == w[k]);
    }
    assert(b[wl] == 0x5Bu8);
    lemma_ident_run(b, 0, wl);
    assert(skip_ws_spec(b, 0) == 0);
    assert(skip_ws_spec(b, wl) == wl);
    lemma_match_named(b, 0, w, n, c, 0);
    assert(b.subrange(0, wl) =~= w);
    let body = b.subrange(wl + 1, len - 1);
    let a = epsg_clause(c);
    assert(body =~= quoted(n) + comma(a));
    assert(body.subrange(0, nl + 2) =~= quoted(n));
    lemma_searches_skip_quoted(body, 0, n);
    lemma_searches_skip_comma(body, nl + 2);
    assert(body.subrange(nl + 3, body.len() as int) =~= a);
    lemma_authority_clause_answers(body, nl + 3, c);
}

proof fn lemma_block_holds_body(w: Seq<u8>, body: Seq<u8>)
    ensures
        block(w, body).subrange(w.len() + 1int, w.len() + 1int + body.len()) == body,
        block(w, body).len() == w.len() + body.len() + 2,
{
    assert(block(w, body).subrange(w.len() + 1int, w.len() + 1int + body.len()) =~= body);
}

proof fn lemma_match_name_prefix(b: Seq<u8>, p0: int, n: Seq<u8>, rest: Seq<u8>)
    requires
        0 <= p0,
        no_quote(n),
        p0 + n.len() + 3 + rest.len() <= b.len(),
        b.subrange(p0, p0 + n.len() + 3 + rest.len()) == quoted(n) + comma(rest),
    ensures
        match_from(b, p0, 1, false) == match_from(b, p0 + n.len() + 3, 1, false),
        b.subrange(p0 + n.len() + 3, p0 + n.len() + 3 + rest.len()) == rest,
{
    let nl = n.len() as int;
    let x = quoted(n) + comma(rest);
    assert forall|k: int| 0 <= k < x.len() implies b[p0 + k] == #[trigger] x[k] by {
        assert(b.subrange(p0, p0 + x.len())[k] == b[p0 + k]);
    }
    assert(b.subrange(p0, p0 + nl + 2) =~= quoted(n)) by {
        assert forall|t: int| 0 <= t < nl + 2 implies #[trigger] b.subrange(p0, p0 + nl + 2)[t]
            == quoted(n)[t] by {
            assert(b[p0 + t] == x[t]);
        }
    }
    assert(b[p0 + nl + 2] == x[nl + 2]);
    lemma_match_quoted(b, p0, n, 1);
    assert(match_from(b, p0 + nl + 2, 1, false) == match_from(b, p0 + nl + 3, 1, false));
    assert(b.subrange(p0 + nl + 3, p0 + nl + 3 + rest.len()) =~= rest) by {
        assert forall|t: int| 0 <= t < rest.len() implies #[trigger] b.subrange(
            p0 + nl + 3,
            p0 + nl + 3 + rest.len(),
        )[t] == rest[t] by {
            assert(b[p0 + (nl + 3 + t)] == x[nl + 3 + t]);
        }
    }
}

/// Matching from `p` over a named CRS block and then, if `rest` is not
/// empty, a `,`: at depth 1 it reaches what follows.
proof fn lemma_match_named_item(
    b: Seq<u8>,
    p: int,
    w: Seq<u8>,
    n: Seq<u8>,
    c: u16,
    rest: Seq<u8>,
)
    requires
        0 <= p,
        is_word(w),
        no_quote(n),
        p + named_crs(w, n, c).len() + 1 + rest.len() <= b.len(),
        b.subrange(p, p + named_crs(w, n, c).len() + 1 + rest.len()) == named_crs(w, n, c)
            + comma(rest),
    ensures
        match_from(b, p, 1, false) == match_from(
            b,
            p + named_crs(w, n, c).len() + 1,
            1,
            false,
        ),
        b.subrange(
            p + named_crs(w, n, c).len() + 1,
            p + named_crs(w, n, c).len() + 1 + rest.len(),
        ) == rest,
{
    let seg = named_crs(w, n, c);
    let sl = seg.len() as int;
    let x = seg + comma(rest);
    assert forall|k: int| 0 <= k < x.len() implies b[p + k] == #[trigger] x[k] by {
        assert(b.subrange(p, p + x.len())[k] == b[p + k]);
    }
    assert(b.subrange(p, p + sl) =~= seg) by {
        assert forall|t: int| 0 <= t < sl implies #[trigger] b.subrange(p, p + sl)[t] == seg[t] by {
            assert(b[p + t] == x[t]);
        }
    }
    lemma_match_named(b, p, w, n, c, 1);
    assert(b[p + sl] == x[sl]);
    assert(match_from(b, p + sl, 1, false) == match_from(b, p + sl + 1, 1, false));
    assert(b.subrange(p + sl + 1, p + sl + 1 + rest.len()) =~= rest) by {
        assert forall|t: int| 0 <= t < rest.len() implies #[trigger] b.subrange(
            p + sl + 1,
            p + sl + 1 + rest.len(),
        )[t] == rest[t] by {
            assert(b[p + (sl + 1 + t)] == x[sl + 1 + t]);
        }
    }
}

#[verifier::spinoff_prover]
proof fn lemma_projected_root_matches(w: Seq<u8>, n: Seq<u8>, bw: Seq<u8>, bn: Seq<u8>, bc: u16)
    requires
        is_word(w),
        is_word(bw),
        no_quote(n),
        no_quote(bn),
    ensures
        ({
            let b = block(w, quoted(n) + comma(named_crs(bw, bn, bc)));
            match_from(b, w.len() + 1int, 1, false) == match_from(b, b.len() - 1, 1, false)
        }),
{
    let seg = named_crs(bw, bn, bc);
    let body = quoted(n) + comma(seg);
    let b = block(w, body);
    let p0 = w.len() + 1int;
    lemma_block_holds_body(w, body);
    lemma_match_name_prefix(b, p0, n, seg);
    let p1 = p0 + n.len() + 3;
    lemma_match_named(b, p1, bw, bn, bc, 1);
}

#[verifier::spinoff_prover]
#[verifier::rlimit(50)]
proof fn lemma_projected_with_clause_root_matches(
    w: Seq<u8>,
    n: Seq<u8>,
    bw: Seq<u8>,
    bn: Seq<u8>,
    bc: u16,
    c: u16,
)
    requires
        is_word(w),
        is_word(bw),
        no_quote(n),
        no_quote(bn),
    ensures
        ({
            let b = block(w, quoted(n) + comma(named_crs(bw, bn, bc) + comma(epsg_clause(c))));
            match_from(b, w.len() + 1int, 1, false) == match_from(b, b.len() - 1, 1, false)
        }),
{
    let seg = named_crs(bw, bn, bc);
    let a = epsg_clause(c);
    let body = quoted(n) + comma(seg + comma(a));
    let b = block(w, body);
    let p0 = w.len() + 1int;
    lemma_block_holds_body(w, body);
    lemma_match_name_prefix(b, p0, n, seg + comma(a));
    let p1 = p0 + n.len() + 3;
    lemma_match_named_item(b, p1, bw, bn, bc, a);
    let p2 = p1 + seg.len() + 1;
    lemma_match_clause(b, p2, c, 1);
}

#[verifier::spinoff_prover]
#[verifier::rlimit(50)]
proof fn lemma_projected_search(n: Seq<u8>, bw: Seq<u8>, bn: Seq<u8>, bc: u16, c: u16)
    requires
        horizontal_word(bw),
        no_quote(n),
        no_quote(bn),
    ensures
        authority_from(quoted(n) + comma(named_crs(bw, bn, bc)), 0) == Err::<u16, Seq<char>>(
            msg_no_authority(),
        ),
        authority_from(quoted(n) + comma(named_crs(bw, bn, bc) + comma(epsg_clause(c))), 0)
            == Ok::<u16, Seq<char>>(c),
{
    let nl = n.len() as int;
    let seg = named_crs(bw, bn, bc);
    let sl = seg.len() as int;
    let a = epsg_clause(c);
    let body1 = quoted(n) + comma(seg);
    assert(body1.subrange(0, nl + 2) =~= quoted(n));
    lemma_searches_skip_quoted(body1, 0, n);
    lemma_searches_skip_comma(body1, nl + 2);
    assert(body1.subrange(nl + 3, nl + 3 + sl) =~= seg);
    lemma_authority_skips_block(body1, nl + 3, bw, bn, bc);
    let body2 = quoted(n) + comma(seg + comma(a));
    assert(body2.subrange(0, nl + 2) =~= quoted(n));
    lemma_searches_skip_quoted(body2, 0, n);
    lemma_searches_skip_comma(body2, nl + 2);
    assert(body2.subrange(nl + 3, nl + 3 + sl) =~= seg);
    lemma_authority_skips_block(body2, nl + 3, bw, bn, bc);
    lemma_searches_skip_comma(body2, nl + 3 + sl);
    assert(body2.subrange(nl + 4 + sl, body2.len() as int) =~= a);
    lemma_authority_clause_answers(body2, nl + 4 + sl, c);
}

/// A CRS's code is read from its own authority clause only, never from a
/// CRS nested in it: a horizontal CRS whose only authority clause belongs to
/// its base CRS has no code (the scan fails with the missing-authority
/// error), and one that carries its own clause after the base CRS is that
/// clause's code, whatever code the base CRS carries.
#[verifier::spinoff_prover]
pub proof fn lemma_nested_authority_never_answers(
    w: Seq<u8>,
    n: Seq<u8>,
    bw: Seq<u8>,
    bn: Seq<u8>,
    bc: u16,
    c: u16,
)
    requires
        horizontal_word(w),
        horizontal_word(bw),
        no_quote(n),
        no_quote(bn),
    ensures
        wkt_extraction(block(w, quoted(n) + comma(named_crs(bw, bn, bc)))) == Err::<
            WktExtraction,
            Seq<char>,
        >(msg_no_authority()),
        wkt_extraction(
            block(w, quoted(n) + comma(named_crs(bw, bn, bc) + comma(epsg_clause(c)))),
        ) == Ok::<WktExtraction, Seq<char>>(WktExtraction { epsg: c, vertical_stripped: false }),
{
    lemma_horizontal_word(w);
    lemma_horizontal_word(bw);
    lemma_projected_root_matches(w, n, bw, bn, bc);
    lemma_projected_with_clause_root_matches(w, n, bw, bn, bc, c);
    lemma_root_frame(w, quoted(n) + comma(named_crs(bw, bn, bc)));
    lemma_root_frame(w, quoted(n) + comma(named_crs(bw, bn, bc) + comma(epsg_clause(c))));
    lemma_projected_search(n, bw, bn, bc, c);
}

/// The body of a compound CRS: name, horizontal component, vertical
/// component, the compound's own authority clause.
pub open spec fn compound_body(
    n: Seq<u8>,
    hw: Seq<u8>,
    hn: Seq<u8>,
    hc: u16,
    vw: Seq<u8>,
    vn: Seq<u8>,
    vc: u16,
    c: u16,
) -> Seq<u8> {
    quoted(n) + comma(
        named_crs(hw, hn, hc) + comma(named_crs(vw, vn, vc) + comma(epsg_clause(c))),
    )
}

#[verifier::spinoff_prover]
#[verifier::rlimit(50)]
proof fn lemma_compound_root_matches(
    cw: Seq<u8>,
    n: Seq<u8>,
    hw: Seq<u8>,
    hn: Seq<u8>,
    hc: u16,
    vw: Seq<u8>,
    vn: Seq<u8>,
    vc: u16,
    c: u16,
)
    requires
        is_word(cw),
        is_word(hw),
        is_word(vw),
        no_quote(n),
        no_quote(hn),
        no_quote(vn),
    ensures
        ({
            let b = block(cw, compound_body(n, hw, hn, hc, vw, vn, vc, c));
            match_from(b, cw.len() + 1int, 1, false) == match_from(b, b.len() - 1, 1, false)
        }),
{
    let h = named_crs(hw, hn, hc);
    let v = named_crs(vw, vn, vc);
    let a = epsg_clause(c);
    let body = compound_body(n, hw, hn, hc, vw, vn, vc, c);
    let b = block(cw, body);
    let p0 = cw.len() + 1int;
    lemma_block_holds_body(cw, body);
    lemma_match_name_prefix(b, p0, n, h + comma(v + comma(a)));
    let p1 = p0 + n.len() + 3;
    lemma_match_named_item(b, p1, hw, hn, hc, v + comma(a));
    let p2 = p1 + h.len() + 1;
    lemma_match_named_item(b, p2, vw, vn, vc, a);
    let p3 = p2 + v.len() + 1;
    lemma_match_clause(b, p3, c, 1);
}

#[verifier::spinoff_prover]
#[verifier::rlimit(50)]
proof fn lemma_compound_search(
    n: Seq<u8>,
    hw: Seq<u8>,
    hn: Seq<u8>,
    hc: u16,
    vw: Seq<u8>,
    vn: Seq<u8>,
    vc: u16,
    c: u16,
)
    requires
        horizontal_word(hw),
        no_quote(n),
        no_quote(hn),
    ensures
        ({
            let body = compound_body(n, hw, hn, hc, vw, vn, vc, c);
            let start = n.len() + 3int;
            let end = start + named_crs(hw, hn, hc).len();
            &&& child_from(body, 0, ChildKind::Horizontal) == Some((start, end - 1))
            &&& body.subrange(start, end) == named_crs(hw, hn, hc)
        }),
{
    let nl = n.len() as int;
    let h = named_crs(hw, hn, hc);
    let hl = h.len() as int;
    let body = compound_body(n, hw, hn, hc, vw, vn, vc, c);
    assert(body.subrange(0, nl + 2) =~= quoted(n));
    lemma_searches_skip_quoted(body, 0, n);
    lemma_searches_skip_comma(body, nl + 2);
    assert(body.subrange(nl + 3, nl + 3 + hl) =~= h);
    lemma_child_finds_block(body, nl + 3, hw, hn, hc);
}

#[verifier::spinoff_prover]
#[verifier::rlimit(50)]
proof fn lemma_compound_yields_component_code(
    cw: Seq<u8>,
    n: Seq<u8>,
    hw: Seq<u8>,
    hn: Seq<u8>,
    hc: u16,
    vw: Seq<u8>,
    vn: Seq<u8>,
    vc: u16,
    c: u16,
)
    requires
        compound_word(cw),
        horizontal_word(hw),
        is_word(vw),
        no_quote(n),
        no_quote(hn),
        no_quote(vn),
    ensures
        wkt_extraction(block(cw, compound_body(n, hw, hn, hc, vw, vn, vc, c))) == Ok::<
            WktExtraction,
            Seq<char>,
        >(WktExtraction { epsg: hc, vertical_stripped: true }),
{
    lemma_compound_word(cw);
    lemma_horizontal_word(hw);
    lemma_horizontal_crs_yields_its_code(hw, hn, hc);
    lemma_compound_root_matches(cw, n, hw, hn, hc, vw, vn, vc, c);
    lemma_root_frame(cw, compound_body(n, hw, hn, hc, vw, vn, vc, c));
    lemma_compound_search(n, hw, hn, hc, vw, vn, vc, c);
    let b = block(cw, compound_body(n, hw, hn, hc, vw, vn, vc, c));
    let h = named_crs(hw, hn, hc);
    assert(h.len() < b.len());
}

/// A compound CRS (`COMPD_CS` or `COMPOUNDCRS`, any letter case) is answered
/// by its horizontal component: exactly the result that component gives on
/// its own, with `vertical_stripped` set, whatever code the vertical
/// component and the compound itself carry. For a horizontal component
/// carrying code `hc`, that is `hc`.
pub proof fn lemma_compound_takes_its_horizontal_component(
    cw: Seq<u8>,
    n: Seq<u8>,
    hw: Seq<u8>,
    hn: Seq<u8>,
    hc: u16,
    vw: Seq<u8>,
    vn: Seq<u8>,
    vc: u16,
    c: u16,
)
    requires
        compound_word(cw),
        horizontal_word(hw),
        is_word(vw),
        no_quote(n),
        no_quote(hn),
        no_quote(vn),
    ensures
        wkt_extraction(block(cw, compound_body(n, hw, hn, hc, vw, vn, vc, c))) == match wkt_extraction(
            named_crs(hw, hn, hc),
        ) {
            Ok(h) => Ok::<WktExtraction, Seq<char>>(
                WktExtraction { epsg: h.epsg, vertical_stripped: true },
            ),
            Err(m) => Err(m),
        },
        wkt_extraction(block(cw, compound_body(n, hw, hn, hc, vw, vn, vc, c))) == Ok::<
            WktExtraction,
            Seq<char>,
        >(WktExtraction { epsg: hc, vertical_stripped: true }),
{
    lemma_horizontal_crs_yields_its_code(hw, hn, hc);
    lemma_compound_yields_component_code(cw, n, hw, hn, hc, vw, vn, vc, c);
}

// ---------------------------------------------------------------------------
// Bound CRS
// ---------------------------------------------------------------------------

proof fn lemma_find_first(s: Seq<u8>, c: u8, i: int, j: int)
    requires
        0 <= i <= j < s.len(),
        forall|k: int| i <= k < j ==> #[trigger] s[k] != c,
        s[j] == c,
    ensures
        find_from(s, c, i) == Some(j),
    decreases j - i,
{
    if i < j {
        lemma_find_first(s, c, i + 1, j);
    }
}

/// `outer[word["name",AUTHORITY["EPSG","c"]]]`: a wrapper block around a CRS.
pub open spec fn wrapped_crs(outer: Seq<u8>, word: Seq<u8>, name: Seq<u8>, c: u16) -> Seq<u8> {
    block(outer, named_crs(word, name, c))
}

#[verifier::spinoff_prover]
proof fn lemma_match_wrapped(
    b: Seq<u8>,
    p: int,
    ow: Seq<u8>,
    w: Seq<u8>,
    n: Seq<u8>,
    c: u16,
    d: int,
)
    requires
        0 <= p,
        d >= 0,
        is_word(ow),
        is_word(w),
        no_quote(n),
        p + wrapped_crs(ow, w, n, c).len() <= b.len(),
        b.subrange(p, p + wrapped_crs(ow, w, n, c).len()) == wrapped_crs(ow, w, n, c),
    ensures
        match_from(b, p, d, false) == match_from(b, p + ow.len(), d, false),
        match_from(b, p + ow.len(), d, false) == if d == 0 {
            Some(p + wrapped_crs(ow, w, n, c).len() - 1)
        } else {
            match_from(b, p + wrapped_crs(ow, w, n, c).len(), d, false)
        },
{
    let seg = wrapped_crs(ow, w, n, c);
    let inner = named_crs(w, n, c);
    let len = seg.len() as int;
    let ol = ow.len() as int;
    let il = inner.len() as int;
    assert(len == ol + il + 2);
    assert forall|k: int| 0 <= k < len implies b[p + k] == #[trigger] seg[k] by {
        assert(b.subrange(p, p + len)[k] == b[p + k]);
    }
    assert forall|k: int| p <= k < p + ol implies plain_byte(#[trigger] b[k]) by {
        assert(b[p + (k - p)] == seg[k - p]);
        assert(seg[k - p] == ow[k - p]);
    }
    lemma_match_plain(b, p, p + ol, d);
    assert(b[p + ol] == seg[ol]);
    assert(b.subrange(p + ol + 1, p + ol + 1 + il) =~= inner) by {
        assert forall|t: int| 0 <= t < il implies #[trigger] b.subrange(
            p + ol + 1,
            p + ol + 1 + il,
        )[t] == inner[t] by {
            assert(b[p + (ol + 1 + t)] == seg[ol + 1 + t]);
        }
    }
    lemma_match_named(b, p + ol + 1, w, n, c, d + 1);
    assert(b[p + len - 1] == seg[len - 1]);
}

/// The body of a bound CRS: its source CRS, then its target CRS.
pub open spec fn bound_body(
    sw: Seq<u8>,
    hw: Seq<u8>,
    hn: Seq<u8>,
    hc: u16,
    tw: Seq<u8>,
    thw: Seq<u8>,
    tn: Seq<u8>,
    tc: u16,
) -> Seq<u8> {
    wrapped_crs(sw, hw, hn, hc) + comma(wrapped_crs(tw, thw, tn, tc))
}

#[verifier::spinoff_prover]
#[verifier::rlimit(50)]
proof fn lemma_bound_root_matches(
    bw: Seq<u8>,
    sw: Seq<u8>,
    hw: Seq<u8>,
    hn: Seq<u8>,
    hc: u16,
    tw: Seq<u8>,
    thw: Seq<u8>,
    tn: Seq<u8>,
    tc: u16,
)
    requires
        is_word(bw),
        is_word(sw),
        is_word(hw),
        is_word(tw),
        is_word(thw),
        no_quote(hn),
        no_quote(tn),
    ensures
        ({
            let b = block(bw, bound_body(sw, hw, hn, hc, tw, thw, tn, tc));
            match_from(b, bw.len() + 1int, 1, false) == match_from(b, b.len() - 1, 1, false)
        }),
{
    let src = wrapped_crs(sw, hw, hn, hc);
    let tgt = wrapped_crs(tw, thw, tn, tc);
    let body = bound_body(sw, hw, hn, hc, tw, thw, tn, tc);
    let b = block(bw, body);
    let p0 = bw.len() + 1int;
    let sl = src.len() as int;
    let tl = tgt.len() as int;
    lemma_block_holds_body(bw, body);
    assert forall|k: int| 0 <= k < body.len() implies b[p0 + k] == #[trigger] body[k] by {
        assert(b.subrange(p0, p0 + body.len())[k] == b[p0 + k]);
    }
    assert(b.subrange(p0, p0 + sl) =~= src) by {
        assert forall|t: int| 0 <= t < sl implies #[trigger] b.subrange(p0, p0 + sl)[t]
            == src[t] by {
            assert(b[p0 + t] == body[t]);
        }
    }
    lemma_match_wrapped(b, p0, sw, hw, hn, hc, 1);
    assert(b[p0 + sl] == body[sl]);
    assert(match_from(b, p0 + sl, 1, false) == match_from(b, p0 + sl + 1, 1, false));
    assert(b.subrange(p0 + sl + 1, p0 + sl + 1 + tl) =~= tgt) by {
        assert forall|t: int| 0 <= t < tl implies #[trigger] b.subrange(
            p0 + sl + 1,
            p0 + sl + 1 + tl,
        )[t] == tgt[t] by {
            assert(b[p0 + (sl + 1 + t)] == body[sl + 1 + t]);
        }
    }
    lemma_match_wrapped(b, p0 + sl + 1, tw, thw, tn, tc, 1);
}

#[verifier::spinoff_prover]
#[verifier::rlimit(50)]
proof fn lemma_bound_source_found(
    sw: Seq<u8>,
    hw: Seq<u8>,
    hn: Seq<u8>,
    hc: u16,
    tw: Seq<u8>,
    thw: Seq<u8>,
    tn: Seq<u8>,
    tc: u16,
)
    requires
        eq_ignore_case(sw, keyword_bytes(Keyword::Sourcecrs)),
        is_word(sw),
        is_word(hw),
        no_quote(hn),
    ensures
        ({
            let body = bound_body(sw, hw, hn, hc, tw, thw, tn, tc);
            let sl = wrapped_crs(sw, hw, hn, hc).len() as int;
            &&& child_from(body, 0, ChildKind::Source) == Some((0int, sl - 1))
            &&& body.subrange(0, sl) == wrapped_crs(sw, hw, hn, hc)
        }),
{
    let src = wrapped_crs(sw, hw, hn, hc);
    let body = bound_body(sw, hw, hn, hc, tw, thw, tn, tc);
    let sl = src.len() as int;
    let wl = sw.len() as int;
    assert(body.subrange(0, sl) =~= src);
    assert forall|k: int| 0 <= k < wl implies is_ident_byte(#[trigger] body[k]) by {
        assert(body[k] == sw[k]);
    }
    assert(body[wl] == 0x5Bu8);
    lemma_ident_run(body, 0, wl);
    lemma_match_wrapped(body, 0, sw, hw, hn, hc, 0);
    assert(body.subrange(0, wl) =~= sw);
}

#[verifier::spinoff_prover]
#[verifier::rlimit(50)]
proof fn lemma_source_block_inner(sw: Seq<u8>, hw: Seq<u8>, hn: Seq<u8>, hc: u16)
    requires
        is_word(sw),
        is_word(hw),
        no_quote(hn),
    ensures
        ({
            let src = wrapped_crs(sw, hw, hn, hc);
            &&& block_body_spec(src) == Some((sw.len() + 1int, src.len() - 1))
            &&& src.subrange(sw.len() + 1int, src.len() - 1) == named_crs(hw, hn, hc)
        }),
{
    let src = wrapped_crs(sw, hw, hn, hc);
    let wl = sw.len() as int;
    assert forall|k: int| 0 <= k < wl implies #[trigger] src[k] != 0x5Bu8 by {
        assert(src[k] == sw[k]);
    }
    assert(src[wl] == 0x5Bu8);
    lemma_find_first(src, 0x5Bu8, 0, wl);
    assert(src.subrange(0, src.len() as int) =~= src);
    lemma_match_wrapped(src, 0, sw, hw, hn, hc, 0);
    assert(src.subrange(wl + 1, src.len() - 1) =~= named_crs(hw, hn, hc));
}

/// A bound CRS (`BOUNDCRS`, any letter case) is answered by its source CRS:
/// the code of the CRS inside its `SOURCECRS` block, with nothing stripped,
/// whatever its target CRS carries.
#[verifier::spinoff_prover]
#[verifier::rlimit(50)]
pub proof fn lemma_bound_crs_takes_its_source(
    bw: Seq<u8>,
    sw: Seq<u8>,
    hw: Seq<u8>,
    hn: Seq<u8>,
    hc: u16,
    tw: Seq<u8>,
    thw: Seq<u8>,
    tn: Seq<u8>,
    tc: u16,
)
    requires
        eq_ignore_case(bw, keyword_bytes(Keyword::Boundcrs)),
        eq_ignore_case(sw, keyword_bytes(Keyword::Sourcecrs)),
        horizontal_word(hw),
        is_word(tw),
        is_word(thw),
        no_quote(hn),
        no_quote(tn),
    ensures
        wkt_extraction(block(bw, bound_body(sw, hw, hn, hc, tw, thw, tn, tc))) == Ok::<
            WktExtraction,
            Seq<char>,
        >(WktExtraction { epsg: hc, vertical_stripped: false }),
{
    lemma_keyword_upper(Keyword::Boundcrs);
    lemma_any_case_is_word(bw, keyword_bytes(Keyword::Boundcrs));
    lemma_keyword_upper(Keyword::Sourcecrs);
    lemma_any_case_is_word(sw, keyword_bytes(Keyword::Sourcecrs));
    lemma_horizontal_word(hw);
    lemma_horizontal_crs_yields_its_code(hw, hn, hc);
    lemma_bound_root_matches(bw, sw, hw, hn, hc, tw, thw, tn, tc);
    let body = bound_body(sw, hw, hn, hc, tw, thw, tn, tc);
    lemma_root_frame(bw, body);
    lemma_bound_source_found(sw, hw, hn, hc, tw, thw, tn, tc);
    lemma_source_block_inner(sw, hw, hn, hc);
    let h = named_crs(hw, hn, hc);
    assert(is_ascii_graphic(h[0]));
    assert(h[h.len() - 1] == 0x5Du8);
    lemma_trim_keeps_graphic_ends(h);
    assert(ascii_lower(bw[0]) == 0x62u8);
    assert(!is_compound(bw));
}

} // verus!
