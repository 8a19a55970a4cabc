//! Byte-level text primitives shared by the CRS string and WKT scanners.
//!
//! Every scanner in this crate works on the UTF-8 bytes of its input. The
//! characters it looks at (brackets, quotes, commas, colons, identifiers,
//! ASCII whitespace) are all ASCII, so byte positions of those characters are
//! character boundaries of the input text.
//!
//! This module holds, each with its specification:
//! - ASCII whitespace / identifier classes and the scans over them;
//! - Unicode `White_Space` trimming over UTF-8 bytes (what `str::trim` does);
//! - ASCII case-insensitive comparison;
//! - decimal `u16` parsing with the exact accept/reject behaviour of
//!   `str::parse::<u16>`, and the text of its three error kinds;
//! - the two conversions from bytes to text that messages need.

use vstd::prelude::*;

verus! {

// ---------------------------------------------------------------------------
// Character classes
// ---------------------------------------------------------------------------

/// `u8::is_ascii_whitespace`: space, tab, line feed, form feed, carriage return.
pub open spec fn is_ascii_ws(c: u8) -> bool {
    c == 0x20u8 || c == 0x09u8 || c == 0x0Au8 || c == 0x0Cu8 || c == 0x0Du8
}

/// ASCII alphanumeric or `_`: the bytes of a WKT keyword.
pub open spec fn is_ident_byte(c: u8) -> bool {
    (0x30u8 <= c && c <= 0x39u8) || (0x41u8 <= c && c <= 0x5Au8) || (0x61u8 <= c && c
        <= 0x7Au8) || c == 0x5Fu8
}

/// `u8::to_ascii_lowercase`.
pub open spec fn ascii_lower(c: u8) -> u8 {
    if 0x41u8 <= c && c <= 0x5Au8 {
        (c + 0x20u8) as u8
    } else {
        c
    }
}

/// `eq_ignore_ascii_case` on byte strings.
pub open spec fn eq_ignore_case(a: Seq<u8>, k: Seq<u8>) -> bool {
    &&& a.len() == k.len()
    &&& forall|i: int| 0 <= i < a.len() ==> #[trigger] ascii_lower(a[i]) == ascii_lower(k[i])
}

// ---------------------------------------------------------------------------
// Scans
// ---------------------------------------------------------------------------

/// First position at or after `i` that is not ASCII whitespace (or the end).
pub open spec fn skip_ws_spec(b: Seq<u8>, i: int) -> int
    decreases b.len() - i,
{
    if 0 <= i < b.len() && is_ascii_ws(b[i]) {
        skip_ws_spec(b, i + 1)
    } else {
        i
    }
}

/// End of the run of identifier bytes starting at `i`.
pub open spec fn ident_end_spec(b: Seq<u8>, i: int) -> int
    decreases b.len() - i,
{
    if 0 <= i < b.len() && is_ident_byte(b[i]) {
        ident_end_spec(b, i + 1)
    } else {
        i
    }
}

pub proof fn lemma_skip_ws_bounds(b: Seq<u8>, i: int)
    requires
        0 <= i <= b.len(),
    ensures
        i <= skip_ws_spec(b, i) <= b.len(),
    decreases b.len() - i,
{
    if i < b.len() && is_ascii_ws(b[i]) {
        lemma_skip_ws_bounds(b, i + 1);
    }
}

pub proof fn lemma_ident_end_bounds(b: Seq<u8>, i: int)
    requires
        0 <= i <= b.len(),
    ensures
        i <= ident_end_spec(b, i) <= b.len(),
        forall|j: int| i <= j < ident_end_spec(b, i) ==> is_ident_byte(#[trigger] b[j]),
    decreases b.len() - i,
{
    if i < b.len() && is_ident_byte(b[i]) {
        lemma_ident_end_bounds(b, i + 1);
    }
}

/// Skip ASCII whitespace starting at `i`.
pub fn skip_whitespace(b: &[u8], i: usize) -> (r: usize)
    requires
        i <= b@.len(),
    ensures
        r == skip_ws_spec(b@, i as int),
        i <= r <= b@.len(),
{
    let mut j = i;
    while j < b.len() && (b[j] == 0x20u8 || b[j] == 0x09u8 || b[j] == 0x0Au8 || b[j] == 0x0Cu8
        || b[j] == 0x0Du8)
        invariant
            i <= j <= b@.len(),
            skip_ws_spec(b@, j as int) == skip_ws_spec(b@, i as int),
        decreases b@.len() - j,
    {
        j = j + 1;
    }
    j
}

/// Is `c` an identifier byte?
pub fn ident_byte(c: u8) -> (r: bool)
    ensures
        r == is_ident_byte(c),
{
    (0x30u8 <= c && c <= 0x39u8) || (0x41u8 <= c && c <= 0x5Au8) || (0x61u8 <= c && c <= 0x7Au8)
        || c == 0x5Fu8
}

/// End of the identifier that starts at `i`.
pub fn identifier_end(b: &[u8], i: usize) -> (r: usize)
    requires
        i <= b@.len(),
    ensures
        r == ident_end_spec(b@, i as int),
        i <= r <= b@.len(),
{
    let mut j = i;
    while j < b.len() && ident_byte(b[j])
        invariant
            i <= j <= b@.len(),
            ident_end_spec(b@, j as int) == ident_end_spec(b@, i as int),
        decreases b@.len() - j,
    {
        j = j + 1;
    }
    j
}

fn lower(c: u8) -> (r: u8)
    ensures
        r == ascii_lower(c),
{
    if 0x41u8 <= c && c <= 0x5Au8 {
        c + 0x20u8
    } else {
        c
    }
}

/// `a.eq_ignore_ascii_case(k)`.
pub fn equals_ignore_case(a: &[u8], k: &[u8]) -> (r: bool)
    ensures
        r == eq_ignore_case(a@, k@),
{
    if a.len() != k.len() {
        return false;
    }
    let mut i: usize = 0;
    while i < a.len()
        invariant
            a@.len() == k@.len(),
            0 <= i <= a@.len(),
            forall|j: int| 0 <= j < i ==> #[trigger] ascii_lower(a@[j]) == ascii_lower(k@[j]),
        decreases a@.len() - i,
    {
        if lower(a[i]) != lower(k[i]) {
            return false;
        }
        i = i + 1;
    }
    true
}

// ---------------------------------------------------------------------------
// Unicode White_Space trimming over UTF-8 bytes
// ---------------------------------------------------------------------------

/// Length of the UTF-8 encoding of a `White_Space` character at the start
/// of `b`, or 0 if `b` does not start with one. The set is that of
/// `char::is_whitespace`: U+0009..U+000D, U+0020, U+0085, U+00A0, U+1680,
/// U+2000..U+200A, U+2028, U+2029, U+202F, U+205F, U+3000.
pub open spec fn ws_prefix_len(b: Seq<u8>) -> nat {
    if b.len() >= 1 && ((0x09u8 <= b[0] && b[0] <= 0x0Du8) || b[0] == 0x20u8) {
        1
    } else if b.len() >= 2 && b[0] == 0xC2u8 && (b[1] == 0x85u8 || b[1] == 0xA0u8) {
        2
    } else if b.len() >= 3 && is_ws3(b[0], b[1], b[2]) {
        3
    } else {
        0
    }
}

/// Length of the UTF-8 encoding of a `White_Space` character at the end
/// of `b`, or 0.
pub open spec fn ws_suffix_len(b: Seq<u8>) -> nat {
    let n = b.len();
    if n >= 1 && ((0x09u8 <= b[n - 1] && b[n - 1] <= 0x0Du8) || b[n - 1] == 0x20u8) {
        1
    } else if n >= 2 && b[n - 2] == 0xC2u8 && (b[n - 1] == 0x85u8 || b[n - 1] == 0xA0u8) {
        2
    } else if n >= 3 && is_ws3(b[n - 3], b[n - 2], b[n - 1]) {
        3
    } else {
        0
    }
}

/// The three-byte encodings of `White_Space` characters.
pub open spec fn is_ws3(x: u8, y: u8, z: u8) -> bool {
    ||| x == 0xE1u8 && y == 0x9Au8 && z == 0x80u8
    ||| x == 0xE2u8 && y == 0x80u8 && ((0x80u8 <= z && z <= 0x8Au8) || z == 0xA8u8 || z == 0xA9u8
        || z == 0xAFu8)
    ||| x == 0xE2u8 && y == 0x81u8 && z == 0x9Fu8
    ||| x == 0xE3u8 && y == 0x80u8 && z == 0x80u8
}

/// `str::trim_start` on UTF-8 bytes.
pub open spec fn trim_start(b: Seq<u8>) -> Seq<u8>
    decreases b.len(),
{
    let k = ws_prefix_len(b);
    if k > 0 {
        trim_start(b.skip(k as int))
    } else {
        b
    }
}

/// `str::trim_end` on UTF-8 bytes.
pub open spec fn trim_end(b: Seq<u8>) -> Seq<u8>
    decreases b.len(),
{
    let k = ws_suffix_len(b);
    if k > 0 {
        trim_end(b.take(b.len() - k))
    } else {
        b
    }
}

/// `str::trim` on UTF-8 bytes.
pub open spec fn trim(b: Seq<u8>) -> Seq<u8> {
    trim_end(trim_start(b))
}

fn ws3(x: u8, y: u8, z: u8) -> (r: bool)
    ensures
        r == is_ws3(x, y, z),
{
    (x == 0xE1u8 && y == 0x9Au8 && z == 0x80u8) || (x == 0xE2u8 && y == 0x80u8 && ((0x80u8 <= z
        && z <= 0x8Au8) || z == 0xA8u8 || z == 0xA9u8 || z == 0xAFu8)) || (x == 0xE2u8 && y
        == 0x81u8 && z == 0x9Fu8) || (x == 0xE3u8 && y == 0x80u8 && z == 0x80u8)
}

fn leading_ws_len(b: &[u8], lo: usize, hi: usize) -> (r: usize)
    requires
        lo <= hi <= b@.len(),
    ensures
        r as nat == ws_prefix_len(b@.subrange(lo as int, hi as int)),
{
    let n = hi - lo;
    if n >= 1 && ((0x09u8 <= b[lo] && b[lo] <= 0x0Du8) || b[lo] == 0x20u8) {
        1
    } else if n >= 2 && b[lo] == 0xC2u8 && (b[lo + 1] == 0x85u8 || b[lo + 1] == 0xA0u8) {
        2
    } else if n >= 3 && ws3(b[lo], b[lo + 1], b[lo + 2]) {
        3
    } else {
        0
    }
}

fn trailing_ws_len(b: &[u8], lo: usize, hi: usize) -> (r: usize)
    requires
        lo <= hi <= b@.len(),
    ensures
        r as nat == ws_suffix_len(b@.subrange(lo as int, hi as int)),
{
    let n = hi - lo;
    if n >= 1 && ((0x09u8 <= b[hi - 1] && b[hi - 1] <= 0x0Du8) || b[hi - 1] == 0x20u8) {
        1
    } else if n >= 2 && b[hi - 2] == 0xC2u8 && (b[hi - 1] == 0x85u8 || b[hi - 1] == 0xA0u8) {
        2
    } else if n >= 3 && ws3(b[hi - 3], b[hi - 2], b[hi - 1]) {
        3
    } else {
        0
    }
}

/// Bounds of `trim(b[lo..hi])` inside `b`.
pub fn trim_bounds(b: &[u8], lo: usize, hi: usize) -> (r: (usize, usize))
    requires
        lo <= hi <= b@.len(),
    ensures
        lo <= r.0 <= r.1 <= hi,
        b@.subrange(r.0 as int, r.1 as int) == trim(b@.subrange(lo as int, hi as int)),
{
    let mut s = lo;
    loop
        invariant
            lo <= s <= hi <= b@.len(),
            trim_start(b@.subrange(lo as int, hi as int)) == trim_start(
                b@.subrange(s as int, hi as int),
            ),
        ensures
            lo <= s <= hi,
            trim_start(b@.subrange(lo as int, hi as int)) == trim_start(
                b@.subrange(s as int, hi as int),
            ),
            ws_prefix_len(b@.subrange(s as int, hi as int)) == 0,
        decreases hi - s,
    {
        let k = leading_ws_len(b, s, hi);
        if k == 0 {
            break ;
        }
        assert(b@.subrange(s as int, hi as int).skip(k as int) =~= b@.subrange(
            (s + k) as int,
            hi as int,
        ));
        s = s + k;
    }
    let ghost started = b@.subrange(s as int, hi as int);
    assert(trim_start(started) == started);
    let mut e = hi;
    loop
        invariant
            lo <= s <= e <= hi <= b@.len(),
            trim(b@.subrange(lo as int, hi as int)) == trim_end(b@.subrange(s as int, e as int)),
        ensures
            lo <= s <= e <= hi,
            trim(b@.subrange(lo as int, hi as int)) == trim_end(b@.subrange(s as int, e as int)),
            ws_suffix_len(b@.subrange(s as int, e as int)) == 0,
        decreases e - s,
    {
        let k = trailing_ws_len(b, s, e);
        if k == 0 {
            break ;
        }
        assert(b@.subrange(s as int, e as int).take((e - s - k) as int) =~= b@.subrange(
            s as int,
            (e - k) as int,
        ));
        e = e - k;
    }
    (s, e)
}

// ---------------------------------------------------------------------------
// Decimal u16 parsing (the behaviour of `str::parse::<u16>`)
// ---------------------------------------------------------------------------

/// Why a decimal `u16` parse failed (the kinds `ParseIntError` reports).
#[derive(Debug, Clone, Copy, PartialEq, Eq, Structural)]
pub enum IntErrorKind {
    /// The input was empty.
    Empty,
    /// A byte was not a decimal digit (or the input was a lone sign).
    InvalidDigit,
    /// The value exceeds `u16::MAX`.
    PosOverflow,
}

pub open spec fn is_digit(c: u8) -> bool {
    0x30u8 <= c && c <= 0x39u8
}

/// Accumulate the digits of `d` from position `i` onto `acc`, left to right;
/// the first non-digit or the first overflow decides the error.
pub open spec fn digits_from(d: Seq<u8>, i: int, acc: nat) -> Result<u16, IntErrorKind>
    decreases d.len() - i,
{
    if i < 0 || i >= d.len() {
        Ok(acc as u16)
    } else if !is_digit(d[i]) {
        Err(IntErrorKind::InvalidDigit)
    } else if acc * 10 + (d[i] - 0x30u8) > 65535 {
        Err(IntErrorKind::PosOverflow)
    } else {
        digits_from(d, i + 1, (acc * 10 + (d[i] - 0x30u8)) as nat)
    }
}

/// `str::parse::<u16>` on the bytes `s`: an optional leading `+`, then one
/// or more decimal digits, value at most 65535. No whitespace is accepted.
pub open spec fn parse_u16_spec(s: Seq<u8>) -> Result<u16, IntErrorKind> {
    if s.len() == 0 {
        Err(IntErrorKind::Empty)
    } else if s.len() == 1 && (s[0] == 0x2Bu8 || s[0] == 0x2Du8) {
        Err(IntErrorKind::InvalidDigit)
    } else if s[0] == 0x2Bu8 {
        digits_from(s, 1, 0)
    } else {
        digits_from(s, 0, 0)
    }
}

/// The text `ParseIntError` displays for each kind.
pub open spec fn int_error_text(k: IntErrorKind) -> Seq<char> {
    match k {
        IntErrorKind::Empty => "cannot parse integer from empty string"@,
        IntErrorKind::InvalidDigit => "invalid digit found in string"@,
        IntErrorKind::PosOverflow => "number too large to fit in target type"@,
    }
}

/// Parse `b` as a decimal `u16` exactly as `str::parse::<u16>` does.
pub fn parse_u16(b: &[u8]) -> (r: Result<u16, IntErrorKind>)
    ensures
        r == parse_u16_spec(b@),
{
    if b.len() == 0 {
        return Err(IntErrorKind::Empty);
    }
    if b.len() == 1 && (b[0] == 0x2Bu8 || b[0] == 0x2Du8) {
        return Err(IntErrorKind::InvalidDigit);
    }
    let mut i: usize = if b[0] == 0x2Bu8 {
        1
    } else {
        0
    };
    let ghost start = i as int;
    let mut acc: u32 = 0;
    while i < b.len()
        invariant
            0 <= start <= i <= b@.len(),
            acc <= 65535,
            parse_u16_spec(b@) == digits_from(b@, start, 0),
            digits_from(b@, start, 0) == digits_from(b@, i as int, acc as nat),
        decreases b@.len() - i,
    {
        let c = b[i];
        if !(0x30u8 <= c && c <= 0x39u8) {
            return Err(IntErrorKind::InvalidDigit);
        }
        let next = acc * 10 + ((c - 0x30u8) as u32);
        if next > 65535 {
            return Err(IntErrorKind::PosOverflow);
        }
        acc = next;
        i = i + 1;
    }
    Ok(acc as u16)
}

/// Printable ASCII other than space: a byte that starts and ends no
/// `White_Space` character.
pub open spec fn is_ascii_graphic(c: u8) -> bool {
    0x21u8 <= c && c <= 0x7Eu8
}

/// Text that begins and ends with a printable, non-space ASCII byte is left
/// as it is by `trim`.
pub proof fn lemma_trim_keeps_graphic_ends(b: Seq<u8>)
    requires
        b.len() >= 1,
        is_ascii_graphic(b[0]),
        is_ascii_graphic(b[b.len() - 1]),
    ensures
        trim(b) == b,
{
    assert(ws_prefix_len(b) == 0);
    assert(trim_start(b) == b);
    assert(ws_suffix_len(b) == 0);
}

/// The ASCII decimal digits of `n`, most significant first, with no leading
/// zero (the text `{}` renders for an integer).
pub open spec fn decimal_bytes(n: nat) -> Seq<u8>
    decreases n,
{
    if n < 10 {
        seq![(0x30 + n) as u8]
    } else {
        decimal_bytes(n / 10).push((0x30 + n % 10) as u8)
    }
}

/// The decimal rendering is a non-empty run of digits.
pub proof fn lemma_decimal_bytes_are_digits(n: nat)
    ensures
        decimal_bytes(n).len() >= 1,
        forall|i: int| 0 <= i < decimal_bytes(n).len() ==> is_digit(#[trigger] decimal_bytes(n)[i]),
    decreases n,
{
    if n >= 10 {
        lemma_decimal_bytes_are_digits(n / 10);
    }
}

/// Reading one more digit `c` after digits that read as `v` gives `10v + c`,
/// or an overflow.
proof fn lemma_digits_push(s: Seq<u8>, c: u8, i: int, acc: nat)
    requires
        0 <= i <= s.len(),
        is_digit(c),
        acc <= 65535,
        digits_from(s, i, acc) is Ok,
    ensures
        ({
            let v = digits_from(s, i, acc)->Ok_0;
            digits_from(s.push(c), i, acc) == if v * 10 + (c - 0x30u8) > 65535 {
                Err::<u16, IntErrorKind>(IntErrorKind::PosOverflow)
            } else {
                Ok::<u16, IntErrorKind>((v * 10 + (c - 0x30u8)) as u16)
            }
        }),
    decreases s.len() - i,
{
    let t = s.push(c);
    assert(t[i] == if i < s.len() { s[i] } else { c });
    if i < s.len() {
        lemma_digits_push(s, c, i + 1, (acc * 10 + (s[i] - 0x30u8)) as nat);
    } else {
        let next = acc * 10 + (c - 0x30u8);
        if next <= 65535 {
            assert(digits_from(t, i + 1, next as nat) == Ok::<u16, IntErrorKind>(next as u16));
        }
    }
}

/// Digits of a `u16` read back as that `u16` from any starting state.
proof fn lemma_decimal_bytes_read_back(n: nat)
    requires
        n <= 65535,
    ensures
        digits_from(decimal_bytes(n), 0, 0) == Ok::<u16, IntErrorKind>(n as u16),
    decreases n,
{
    if n < 10 {
        let d = decimal_bytes(n);
        assert(digits_from(d, 1, n) == Ok::<u16, IntErrorKind>(n as u16));
    } else {
        lemma_decimal_bytes_read_back(n / 10);
        lemma_decimal_bytes_are_digits(n / 10);
        lemma_digits_push(decimal_bytes(n / 10), (0x30 + n % 10) as u8, 0, 0);
    }
}

/// Parsing reads back what `{}` renders: for every `u16`, its decimal digits
/// parse to it.
pub proof fn lemma_parse_u16_reads_decimal(n: u16)
    ensures
        parse_u16_spec(decimal_bytes(n as nat)) == Ok::<u16, IntErrorKind>(n),
{
    lemma_decimal_bytes_are_digits(n as nat);
    lemma_decimal_bytes_read_back(n as nat);
    let d = decimal_bytes(n as nat);
    assert(is_digit(d[0]));
}

/// Append the `Display` text of a parse-error kind.
pub fn push_int_error_text(s: &mut String, k: IntErrorKind)
    ensures
        final(s)@ == old(s)@ + int_error_text(k),
{
    match k {
        IntErrorKind::Empty => s.append("cannot parse integer from empty string"),
        IntErrorKind::InvalidDigit => s.append("invalid digit found in string"),
        IntErrorKind::PosOverflow => s.append("number too large to fit in target type"),
    }
}

// ---------------------------------------------------------------------------
// Bytes to text, for messages
// ---------------------------------------------------------------------------

/// The text that `String::from_utf8_lossy` makes of `b`.
pub uninterp spec fn utf8_lossy_text(b: Seq<u8>) -> Seq<char>;

/// The text of `b` as `String::from_utf8_lossy` gives it: the decoded text
/// when `b` is valid UTF-8 (as its documentation states), otherwise the
/// text with replacement characters, `utf8_lossy_text(b)`.
pub open spec fn lossy_text(b: Seq<u8>) -> Seq<char> {
    if vstd::utf8::valid_utf8(b) {
        vstd::utf8::decode_utf8(b)
    } else {
        utf8_lossy_text(b)
    }
}

/// ASCII bytes read as the characters with the same codes.
pub open spec fn ascii_text(b: Seq<u8>) -> Seq<char> {
    Seq::new(b.len(), |i: int| b[i] as char)
}

/// ASCII bytes are valid UTF-8, and their text is the characters with the
/// same codes: an error text built from an ASCII identifier, authority or
/// code holds those very characters.
pub proof fn lemma_lossy_text_of_ascii(b: Seq<u8>)
    requires
        forall|i: int| 0 <= i < b.len() ==> #[trigger] b[i] < 0x80u8,
    ensures
        vstd::utf8::valid_utf8(b),
        lossy_text(b) == ascii_text(b),
    decreases b.len(),
{
    if b.len() > 0 {
        let t = b.subrange(1, b.len() as int);
        lemma_lossy_text_of_ascii(t);
        let c = b[0];
        assert(c < 0x80u8);
        assert((c & 0x7Fu8) == c) by (bit_vector)
            requires
                c < 0x80u8,
        ;
        assert(vstd::utf8::pop_first_scalar(b) =~= t);
        assert(vstd::utf8::valid_utf8(b));
        assert(vstd::utf8::decode_utf8(b) =~= ascii_text(b));
    }
}

/// The text that `{:?}` (`Debug` for `str`) renders for `t`: the quoted,
/// escaped form.
pub uninterp spec fn debug_text(t: Seq<char>) -> Seq<char>;

/// Calls `String::from_utf8_lossy`. Trusted: the result is `lossy_text(b)`:
/// for valid UTF-8 the decoded text (as the `from_utf8_lossy` documentation
/// states), otherwise `utf8_lossy_text(b)`, a function of the bytes alone.
#[verifier::external_body]
pub(crate) fn text_of(b: &[u8]) -> (s: String)
    ensures
        vstd::utf8::valid_utf8(b@) ==> s@ == vstd::utf8::decode_utf8(b@),
        !vstd::utf8::valid_utf8(b@) ==> s@ == utf8_lossy_text(b@),
{
    String::from_utf8_lossy(b).into_owned()
}

/// Renders `t` with `{:?}` (std's `Debug` for `str`). Trusted: the result is
/// `debug_text(t@)`, a function of the text alone. What the escaping rules
/// produce character by character is not stated.
#[verifier::external_body]
pub(crate) fn debug_of(t: &str) -> (s: String)
    ensures
        s@ == debug_text(t@),
{
    format!("{:?}", t)
}

} // verus!
