use vstd::prelude::*;

verus! {

// Character classes of the expression grammar. The grammar is ASCII: space,
// operators, dots, minus signs, identifiers and digits; anything else is
// rejected where it appears.
pub open spec fn is_space_char(c: char) -> bool {
    c == ' ' || c == '\t' || c == '\n' || c == '\r'
}

pub open spec fn is_digit_char(c: char) -> bool {
    '0' <= c && c <= '9'
}

pub open spec fn is_ident_start_char(c: char) -> bool {
    ('a' <= c && c <= 'z') || ('A' <= c && c <= 'Z') || c == '_'
}

pub open spec fn is_ident_char(c: char) -> bool {
    is_ident_start_char(c) || is_digit_char(c)
}

/// A non-empty run of digits, as an integer path index renders.
pub open spec fn digits_text(t: Seq<char>) -> bool {
    t.len() > 0 && forall|m: int| 0 <= m < t.len() ==> is_digit_char(t[m])
}

/// An identifier: a starting character, then identifier characters.
pub open spec fn identifier_text(t: Seq<char>) -> bool {
    t.len() > 0 && is_ident_start_char(t[0]) && forall|m: int|
        0 <= m < t.len() ==> is_ident_char(t[m])
}

/// The end of the run of characters satisfying `p` that starts at `i`.
pub open spec fn scan_end(s: Seq<char>, i: int, p: spec_fn(char) -> bool) -> int
    decreases s.len() - i,
{
    if 0 <= i < s.len() && p(s[i]) {
        scan_end(s, i + 1, p)
    } else {
        i
    }
}

/// A scan moves forward and never past the end.
pub proof fn lemma_scan_end_bounds(s: Seq<char>, i: int, p: spec_fn(char) -> bool)
    requires
        0 <= i <= s.len(),
    ensures
        i <= scan_end(s, i, p) <= s.len(),
    decreases s.len() - i,
{
    if i < s.len() && p(s[i]) {
        lemma_scan_end_bounds(s, i + 1, p);
    }
}

/// Every character a scan passed over satisfies `p`.
pub proof fn lemma_scan_end_run(s: Seq<char>, i: int, p: spec_fn(char) -> bool)
    requires
        0 <= i <= s.len(),
    ensures
        forall|m: int| i <= m < scan_end(s, i, p) ==> p(s[m]),
    decreases s.len() - i,
{
    if i < s.len() && p(s[i]) {
        lemma_scan_end_run(s, i + 1, p);
        lemma_scan_end_bounds(s, i + 1, p);
    }
}

/// A scan started inside a run of `p`-characters that ends at `k` stops
/// exactly at `k`.
pub proof fn lemma_scan_end_stops(s: Seq<char>, i: int, k: int, p: spec_fn(char) -> bool)
    requires
        0 <= i <= k <= s.len(),
        forall|m: int| i <= m < k ==> p(s[m]),
        k == s.len() || !p(s[k]),
    ensures
        scan_end(s, i, p) == k,
    decreases k - i,
{
    if i < k {
        lemma_scan_end_stops(s, i + 1, k, p);
    }
}

/// The first position at or after `i` that does not hold whitespace.
pub open spec fn ws_end(s: Seq<char>, i: int) -> int {
    scan_end(s, i, |c: char| is_space_char(c))
}

/// The end of the digit run starting at `i`.
pub open spec fn digits_end(s: Seq<char>, i: int) -> int {
    scan_end(s, i, |c: char| is_digit_char(c))
}

/// The end of the identifier-character run starting at `i`.
pub open spec fn ident_end(s: Seq<char>, i: int) -> int {
    scan_end(s, i, |c: char| is_ident_char(c))
}

/// The end of a numeric literal starting at the digit at `i`: digits, an
/// optional fraction (a `.` followed by at least one digit), an optional
/// exponent or type suffix made of identifier characters (`e10`, `f32`), and,
/// when that suffix ends in `e` or `E` directly followed by a signed digit
/// run, that run as well (`1e-10`).
pub open spec fn number_end(s: Seq<char>, i: int) -> int {
    let j = digits_end(s, i);
    let k = if j < s.len() && s[j] == '.' && j + 1 < s.len() && is_digit_char(s[j + 1]) {
        digits_end(s, j + 1)
    } else {
        j
    };
    let m = ident_end(s, k);
    if m > k && (s[m - 1] == 'e' || s[m - 1] == 'E') && m + 1 < s.len() && (s[m] == '+' || s[m]
        == '-') && is_digit_char(s[m + 1]) {
        digits_end(s, m + 1)
    } else {
        m
    }
}

/// Whitespace skipping started inside a run of spaces ending at `k` stops at
/// `k`.
pub proof fn lemma_ws_end_stops(s: Seq<char>, i: int, k: int)
    requires
        0 <= i <= k <= s.len(),
        forall|m: int| i <= m < k ==> is_space_char(s[m]),
        k == s.len() || !is_space_char(s[k]),
    ensures
        ws_end(s, i) == k,
{
    lemma_scan_end_stops(s, i, k, |c: char| is_space_char(c));
}

/// A digit scan started inside a digit run ending at `k` stops at `k`.
pub proof fn lemma_digits_end_stops(s: Seq<char>, i: int, k: int)
    requires
        0 <= i <= k <= s.len(),
        forall|m: int| i <= m < k ==> is_digit_char(s[m]),
        k == s.len() || !is_digit_char(s[k]),
    ensures
        digits_end(s, i) == k,
{
    lemma_scan_end_stops(s, i, k, |c: char| is_digit_char(c));
}

/// An identifier scan started inside an identifier run ending at `k` stops at
/// `k`.
pub proof fn lemma_ident_end_stops(s: Seq<char>, i: int, k: int)
    requires
        0 <= i <= k <= s.len(),
        forall|m: int| i <= m < k ==> is_ident_char(s[m]),
        k == s.len() || !is_ident_char(s[k]),
    ensures
        ident_end(s, i) == k,
{
    lemma_scan_end_stops(s, i, k, |c: char| is_ident_char(c));
}

pub proof fn lemma_ws_end_bounds(s: Seq<char>, i: int)
    requires
        0 <= i <= s.len(),
    ensures
        i <= ws_end(s, i) <= s.len(),
{
    lemma_scan_end_bounds(s, i, |c: char| is_space_char(c));
}

pub proof fn lemma_digits_end_bounds(s: Seq<char>, i: int)
    requires
        0 <= i <= s.len(),
    ensures
        i <= digits_end(s, i) <= s.len(),
{
    lemma_scan_end_bounds(s, i, |c: char| is_digit_char(c));
}

pub proof fn lemma_ident_end_bounds(s: Seq<char>, i: int)
    requires
        0 <= i <= s.len(),
    ensures
        i <= ident_end(s, i) <= s.len(),
{
    lemma_scan_end_bounds(s, i, |c: char| is_ident_char(c));
}

// Executable counterparts of the character classes.
pub fn is_space(c: char) -> (r: bool)
    ensures
        r == is_space_char(c),
{
    c == ' ' || c == '\t' || c == '\n' || c == '\r'
}

pub fn is_digit(c: char) -> (r: bool)
    ensures
        r == is_digit_char(c),
{
    '0' <= c && c <= '9'
}

pub fn is_ident_start(c: char) -> (r: bool)
    ensures
        r == is_ident_start_char(c),
{
    ('a' <= c && c <= 'z') || ('A' <= c && c <= 'Z') || c == '_'
}

pub fn is_ident(c: char) -> (r: bool)
    ensures
        r == is_ident_char(c),
{
    is_ident_start(c) || is_digit(c)
}

/// Skips whitespace, starting at `i`.
pub fn skip_spaces(s: &str, i: usize) -> (r: usize)
    requires
        i <= s@.len(),
    ensures
        r == ws_end(s@, i as int),
        i <= r <= s@.len(),
{
    let n = s.unicode_len();
    let mut j = i;
    while j < n && is_space(s.get_char(j))
        invariant
            i <= j <= n,
            n == s@.len(),
            ws_end(s@, i as int) == ws_end(s@, j as int),
        decreases n - j,
    {
        j = j + 1;
    }
    proof {
        assert(ws_end(s@, j as int) == j);
    }
    j
}

/// Scans the digit run starting at `i`.
pub fn scan_digits(s: &str, i: usize) -> (r: usize)
    requires
        i <= s@.len(),
    ensures
        r == digits_end(s@, i as int),
        i <= r <= s@.len(),
{
    let n = s.unicode_len();
    let mut j = i;
    while j < n && is_digit(s.get_char(j))
        invariant
            i <= j <= n,
            n == s@.len(),
            digits_end(s@, i as int) == digits_end(s@, j as int),
        decreases n - j,
    {
        j = j + 1;
    }
    proof {
        assert(digits_end(s@, j as int) == j);
    }
    j
}

/// Scans the identifier-character run starting at `i`.
pub fn scan_ident_chars(s: &str, i: usize) -> (r: usize)
    requires
        i <= s@.len(),
    ensures
        r == ident_end(s@, i as int),
        i <= r <= s@.len(),
{
    let n = s.unicode_len();
    let mut j = i;
    while j < n && is_ident(s.get_char(j))
        invariant
            i <= j <= n,
            n == s@.len(),
            ident_end(s@, i as int) == ident_end(s@, j as int),
        decreases n - j,
    {
        j = j + 1;
    }
    proof {
        assert(ident_end(s@, j as int) == j);
    }
    j
}

/// Scans a numeric literal starting at `i`.
pub fn scan_number(s: &str, i: usize) -> (r: usize)
    requires
        i <= s@.len(),
    ensures
        r == number_end(s@, i as int),
        i <= r <= s@.len(),
{
    let n = s.unicode_len();
    let j = scan_digits(s, i);
    let k = if j < n && s.get_char(j) == '.' && j + 1 < n && is_digit(s.get_char(j + 1)) {
        scan_digits(s, j + 1)
    } else {
        j
    };
    let m = scan_ident_chars(s, k);
    if m > k && (s.get_char(m - 1) == 'e' || s.get_char(m - 1) == 'E') && m < n && m + 1 < n && (
    s.get_char(m) == '+' || s.get_char(m) == '-') && is_digit(s.get_char(m + 1)) {
        let r = scan_digits(s, m + 1);
        proof {
            assert(r == number_end(s@, i as int));
        }
        r
    } else {
        proof {
            assert(m == number_end(s@, i as int));
        }
        m
    }
}

} // verus!
