//! Character classes and low-level scanning helpers over `&str`.
//!
//! Every extraction rule of the analysis engine is built from these
//! primitives.  Each executable helper is specified against a recursive
//! spec function over the string's view (`Seq<char>`).

use vstd::prelude::*;
use vstd::string::*;

verus! {

/// True when `c` is whitespace, as Rust's `char::is_whitespace` and the
/// usual whitespace character class define it: the ASCII separators plus
/// the Unicode `White_Space` code points.
pub open spec fn is_space_char(c: char) -> bool {
    c == ' ' || c == '\t' || c == '\r' || c == '\n' || c == '\u{b}' || c == '\u{c}' || c
        == '\u{85}' || c == '\u{a0}' || c == '\u{1680}' || ('\u{2000}' <= c && c <= '\u{200a}')
        || c == '\u{2028}' || c == '\u{2029}' || c == '\u{202f}' || c == '\u{205f}' || c
        == '\u{3000}'
}

/// True when `c` is an ASCII uppercase letter.
pub open spec fn is_upper_char(c: char) -> bool {
    'A' <= c && c <= 'Z'
}

/// True when `c` may appear in an identifier: ASCII letter, digit or `_`.
pub open spec fn is_word_char(c: char) -> bool {
    ('a' <= c && c <= 'z') || ('A' <= c && c <= 'Z') || ('0' <= c && c <= '9') || c == '_'
}

/// Whitespace test shared by every extraction rule.
pub fn is_space(c: char) -> (r: bool)
    ensures
        r == is_space_char(c),
{
    c == ' ' || c == '\t' || c == '\r' || c == '\n' || c == '\u{b}' || c == '\u{c}' || c
        == '\u{85}' || c == '\u{a0}' || c == '\u{1680}' || ('\u{2000}' <= c && c <= '\u{200a}')
        || c == '\u{2028}' || c == '\u{2029}' || c == '\u{202f}' || c == '\u{205f}' || c
        == '\u{3000}'
}

/// Uppercase test used by the type-name rules.
pub fn is_upper(c: char) -> (r: bool)
    ensures
        r == is_upper_char(c),
{
    'A' <= c && c <= 'Z'
}

/// Identifier-character test used by the name rules.
pub fn is_word(c: char) -> (r: bool)
    ensures
        r == is_word_char(c),
{
    ('a' <= c && c <= 'z') || ('A' <= c && c <= 'Z') || ('0' <= c && c <= '9') || c == '_'
}

/// Number of characters in `s`.
pub fn str_len(s: &str) -> (n: usize)
    ensures
        n == s@.len(),
{
    s.unicode_len()
}

/// Character of `s` at position `i`.
pub fn char_at(s: &str, i: usize) -> (c: char)
    requires
        i < s@.len(),
    ensures
        c == s@[i as int],
{
    s.get_char(i)
}

/// Copy of the characters of `s` in positions `[a, b)`, as an owned string.
pub fn extract(s: &str, a: usize, b: usize) -> (r: String)
    requires
        a <= b <= s@.len(),
    ensures
        r@ == s@.subrange(a as int, b as int),
{
    String::from_str(s.substring_char(a, b))
}

/// First position at or after `i` holding a non-space character (or the
/// length of the text).
pub open spec fn skip_spaces_spec(s: Seq<char>, i: int) -> int
    decreases s.len() - i,
    when 0 <= i <= s.len()
{
    if i < s.len() && is_space_char(s[i]) {
        skip_spaces_spec(s, i + 1)
    } else {
        i
    }
}

pub proof fn lemma_skip_spaces_bounds(s: Seq<char>, i: int)
    requires
        0 <= i <= s.len(),
    ensures
        i <= skip_spaces_spec(s, i) <= s.len(),
        skip_spaces_spec(s, i) < s.len() ==> !is_space_char(s[skip_spaces_spec(s, i)]),
    decreases s.len() - i,
{
    if i < s.len() && is_space_char(s[i]) {
        lemma_skip_spaces_bounds(s, i + 1);
    }
}

pub fn skip_spaces(s: &str, i: usize) -> (j: usize)
    requires
        i <= s@.len(),
    ensures
        j == skip_spaces_spec(s@, i as int),
        i <= j <= s@.len(),
{
    let n = s.unicode_len();
    let mut j = i;
    while j < n && is_space(s.get_char(j))
        invariant
            i <= j <= n,
            n == s@.len(),
            skip_spaces_spec(s@, i as int) == skip_spaces_spec(s@, j as int),
        decreases n - j,
    {
        j = j + 1;
    }
    j
}

/// First position at or after `i` whose character run of identifier
/// characters ends (the end of the word starting at `i`).
pub open spec fn word_end_spec(s: Seq<char>, i: int) -> int
    decreases s.len() - i,
    when 0 <= i <= s.len()
{
    if i < s.len() && is_word_char(s[i]) {
        word_end_spec(s, i + 1)
    } else {
        i
    }
}

pub fn word_end(s: &str, i: usize) -> (j: usize)
    requires
        i <= s@.len(),
    ensures
        j == word_end_spec(s@, i as int),
        i <= j <= s@.len(),
{
    let n = s.unicode_len();
    let mut j = i;
    while j < n && is_word(s.get_char(j))
        invariant
            i <= j <= n,
            n == s@.len(),
            word_end_spec(s@, i as int) == word_end_spec(s@, j as int),
        decreases n - j,
    {
        j = j + 1;
    }
    j
}

/// First position at or after `i` holding character `c` (or the length of
/// the text when `c` does not occur there).
pub open spec fn find_char_spec(s: Seq<char>, c: char, i: int) -> int
    decreases s.len() - i,
    when 0 <= i <= s.len()
{
    if i < s.len() && s[i] != c {
        find_char_spec(s, c, i + 1)
    } else {
        i
    }
}

pub proof fn lemma_find_char_bounds(s: Seq<char>, c: char, i: int)
    requires
        0 <= i <= s.len(),
    ensures
        i <= find_char_spec(s, c, i) <= s.len(),
        find_char_spec(s, c, i) < s.len() ==> s[find_char_spec(s, c, i)] == c,
        forall|k: int| i <= k < find_char_spec(s, c, i) ==> s[k] != c,
    decreases s.len() - i,
{
    if i < s.len() && s[i] != c {
        lemma_find_char_bounds(s, c, i + 1);
    }
}

pub fn find_char(s: &str, c: char, i: usize) -> (j: usize)
    requires
        i <= s@.len(),
    ensures
        j == find_char_spec(s@, c, i as int),
        i <= j <= s@.len(),
{
    let n = s.unicode_len();
    let mut j = i;
    while j < n && s.get_char(j) != c
        invariant
            i <= j <= n,
            n == s@.len(),
            find_char_spec(s@, c, i as int) == find_char_spec(s@, c, j as int),
        decreases n - j,
    {
        j = j + 1;
    }
    j
}

/// The pattern `pat` occurs in `s` starting exactly at position `i`.
pub open spec fn has_at(s: Seq<char>, pat: Seq<char>, i: int) -> bool {
    &&& 0 <= i
    &&& i + pat.len() <= s.len()
    &&& forall|k: int| 0 <= k < pat.len() ==> s[i + k] == pat[k]
}

pub fn starts_with_at(s: &str, i: usize, pat: &str) -> (r: bool)
    requires
        i <= s@.len(),
    ensures
        r == has_at(s@, pat@, i as int),
{
    let n = s.unicode_len();
    let m = pat.unicode_len();
    if m > n - i {
        return false;
    }
    let mut k: usize = 0;
    while k < m
        invariant
            0 <= k <= m,
            m == pat@.len(),
            n == s@.len(),
            i + m <= n,
            forall|t: int| 0 <= t < k ==> s@[i + t] == pat@[t],
        decreases m - k,
    {
        if s.get_char(i + k) != pat.get_char(k) {
            return false;
        }
        k = k + 1;
    }
    true
}

/// First position at or after `i` where `pat` occurs in `s`, if any.
pub open spec fn find_sub_spec(s: Seq<char>, pat: Seq<char>, i: int) -> Option<int>
    decreases s.len() - i,
    when 0 <= i <= s.len()
{
    if i + pat.len() <= s.len() {
        if has_at(s, pat, i) {
            Some(i)
        } else {
            find_sub_spec(s, pat, i + 1)
        }
    } else {
        None
    }
}

pub proof fn lemma_find_sub_bounds(s: Seq<char>, pat: Seq<char>, i: int)
    requires
        0 <= i <= s.len(),
    ensures
        find_sub_spec(s, pat, i) matches Some(j) ==> i <= j && j + pat.len() <= s.len() && has_at(
            s,
            pat,
            j,
        ),
    decreases s.len() - i,
{
    if i + pat.len() <= s.len() && !has_at(s, pat, i) {
        lemma_find_sub_bounds(s, pat, i + 1);
    }
}

pub fn find_sub(s: &str, pat: &str, i: usize) -> (r: Option<usize>)
    requires
        i <= s@.len(),
    ensures
        match r {
            Some(j) => find_sub_spec(s@, pat@, i as int) == Some(j as int) && i <= j && j
                + pat@.len() <= s@.len(),
            None => find_sub_spec(s@, pat@, i as int) is None,
        },
{
    let n = s.unicode_len();
    let m = pat.unicode_len();
    if m == 0 {
        proof {
            assert(has_at(s@, pat@, i as int));
        }
        return Some(i);
    }
    if m > n || i > n - m {
        return None;
    }
    let mut j = i;
    while j <= n - m
        invariant
            i <= j,
            1 <= m <= n,
            j <= n - m + 1,
            n == s@.len(),
            m == pat@.len(),
            find_sub_spec(s@, pat@, i as int) == find_sub_spec(s@, pat@, j as int),
        decreases n - j,
    {
        if starts_with_at(s, j, pat) {
            return Some(j);
        }
        j = j + 1;
    }
    None
}

/// `pat` occurs somewhere in `s`.
pub open spec fn contains_sub_spec(s: Seq<char>, pat: Seq<char>) -> bool {
    exists|i: int| has_at(s, pat, i)
}

pub proof fn lemma_find_sub_complete(s: Seq<char>, pat: Seq<char>, i: int)
    requires
        0 <= i <= s.len(),
        find_sub_spec(s, pat, i) is None,
    ensures
        forall|k: int| i <= k ==> !has_at(s, pat, k),
    decreases s.len() - i,
{
    if i + pat.len() <= s.len() && !has_at(s, pat, i) {
        lemma_find_sub_complete(s, pat, i + 1);
    }
}

pub fn contains_sub(s: &str, pat: &str) -> (r: bool)
    ensures
        r == contains_sub_spec(s@, pat@),
{
    let f = find_sub(s, pat, 0);
    match f {
        Some(j) => {
            proof {
                lemma_find_sub_bounds(s@, pat@, 0);
            }
            true
        },
        None => {
            proof {
                lemma_find_sub_complete(s@, pat@, 0);
                assert(forall|i: int| i < 0 ==> !has_at(s@, pat@, i));
            }
            false
        },
    }
}

/// `s` begins with `pat`.
pub open spec fn starts_with_spec(s: Seq<char>, pat: Seq<char>) -> bool {
    has_at(s, pat, 0)
}

pub fn str_starts_with(s: &str, pat: &str) -> (r: bool)
    ensures
        r == starts_with_spec(s@, pat@),
{
    starts_with_at(s, 0, pat)
}

/// `s` ends with `pat`.
pub open spec fn ends_with_spec(s: Seq<char>, pat: Seq<char>) -> bool {
    pat.len() <= s.len() && has_at(s, pat, s.len() - pat.len())
}

pub fn str_ends_with(s: &str, pat: &str) -> (r: bool)
    ensures
        r == ends_with_spec(s@, pat@),
{
    let n = s.unicode_len();
    let m = pat.unicode_len();
    if m > n {
        return false;
    }
    starts_with_at(s, n - m, pat)
}

/// The two strings hold the same characters.
pub fn str_eq(a: &str, b: &str) -> (r: bool)
    ensures
        r == (a@ == b@),
{
    let n = a.unicode_len();
    let m = b.unicode_len();
    if n != m {
        return false;
    }
    let mut k: usize = 0;
    while k < n
        invariant
            0 <= k <= n,
            n == a@.len(),
            n == b@.len(),
            forall|t: int| 0 <= t < k ==> a@[t] == b@[t],
        decreases n - k,
    {
        if a.get_char(k) != b.get_char(k) {
            return false;
        }
        k = k + 1;
    }
    proof {
        assert(a@ =~= b@);
    }
    true
}

/// Last position `j <= i` such that every character of `s` in `[j, i)` is
/// whitespace and `s[j - 1]` is not (the left end of the trailing-space run
/// that finishes at `i`).
pub open spec fn trim_end_spec(s: Seq<char>, i: int) -> int
    decreases i,
    when 0 <= i <= s.len()
{
    if i > 0 && is_space_char(s[i - 1]) {
        trim_end_spec(s, i - 1)
    } else {
        i
    }
}

pub proof fn lemma_trim_end_bounds(s: Seq<char>, i: int)
    requires
        0 <= i <= s.len(),
    ensures
        0 <= trim_end_spec(s, i) <= i,
    decreases i,
{
    if i > 0 && is_space_char(s[i - 1]) {
        lemma_trim_end_bounds(s, i - 1);
    }
}

/// View of `s` with leading and trailing whitespace removed.
pub open spec fn trim_spec(s: Seq<char>) -> Seq<char> {
    let a = skip_spaces_spec(s, 0);
    let b = trim_end_spec(s, s.len() as int);
    if a <= b {
        s.subrange(a, b)
    } else {
        Seq::empty()
    }
}

pub fn trim<'a>(s: &'a str) -> (r: &'a str)
    ensures
        r@ == trim_spec(s@),
{
    let n = s.unicode_len();
    let a = skip_spaces(s, 0);
    if a == n {
        proof {
            lemma_trim_end_bounds(s@, n as int);
            if skip_spaces_spec(s@, 0) <= trim_end_spec(s@, n as int) {
                assert(trim_spec(s@) =~= Seq::<char>::empty());
            }
        }
        let r = s.substring_char(0, 0);
        proof {
            assert(r@ =~= Seq::<char>::empty());
        }
        return r;
    }
    proof {
        lemma_skip_spaces_bounds(s@, 0);
    }
    let mut b = n;
    while b > a + 1 && is_space(s.get_char(b - 1))
        invariant
            a < b <= n,
            n == s@.len(),
            a == skip_spaces_spec(s@, 0),
            a < n,
            !is_space_char(s@[a as int]),
            trim_end_spec(s@, n as int) == trim_end_spec(s@, b as int),
        decreases b,
    {
        b = b - 1;
    }
    proof {
        if b == a + 1 {
            if is_space_char(s@[b - 1]) {
                assert(false);
            }
        }
        assert(trim_end_spec(s@, b as int) == b as int);
    }
    s.substring_char(a, b)
}

/// Strict lexicographic order on character sequences, compared from
/// position `i` on (the first `i` characters are assumed equal).
pub open spec fn lex_lt_from(a: Seq<char>, b: Seq<char>, i: int) -> bool
    decreases a.len() - i,
    when 0 <= i <= a.len()
{
    if i >= b.len() {
        false
    } else if i >= a.len() {
        true
    } else if a[i] != b[i] {
        (a[i] as int) < (b[i] as int)
    } else {
        lex_lt_from(a, b, i + 1)
    }
}

/// Strict lexicographic order on character sequences; it matches the order
/// in which Rust compares strings.
pub open spec fn lex_lt(a: Seq<char>, b: Seq<char>) -> bool {
    lex_lt_from(a, b, 0)
}

/// Reflexive lexicographic order.
pub open spec fn lex_leq(a: Seq<char>, b: Seq<char>) -> bool {
    lex_lt(a, b) || a == b
}

pub fn str_lt(a: &str, b: &str) -> (r: bool)
    ensures
        r == lex_lt(a@, b@),
{
    let n = a.unicode_len();
    let m = b.unicode_len();
    let mut k: usize = 0;
    loop
        invariant
            0 <= k <= n,
            k <= m,
            n == a@.len(),
            m == b@.len(),
            forall|t: int| 0 <= t < k ==> a@[t] == b@[t],
            lex_lt(a@, b@) == lex_lt_from(a@, b@, k as int),
        decreases n - k,
    {
        if k >= m {
            return false;
        }
        if k >= n {
            return true;
        }
        let ca = a.get_char(k);
        let cb = b.get_char(k);
        if ca != cb {
            let r = (ca as u32) < (cb as u32);
            proof {
                assert(r == ((ca as int) < (cb as int)));
            }
            return r;
        }
        k = k + 1;
    }
}

pub proof fn lemma_lex_lt_from_connected(a: Seq<char>, b: Seq<char>, i: int)
    requires
        0 <= i <= a.len(),
        i <= b.len(),
        forall|t: int| 0 <= t < i ==> a[t] == b[t],
        !lex_lt_from(a, b, i),
        !lex_lt_from(b, a, i),
    ensures
        a == b,
    decreases a.len() - i,
{
    if i >= b.len() {
        if i >= a.len() {
            assert(a =~= b);
        } else {
            assert(lex_lt_from(b, a, i));
        }
    } else if i >= a.len() {
        assert(lex_lt_from(a, b, i));
    } else if a[i] != b[i] {
        assert((a[i] as int) != (b[i] as int));
        assert(lex_lt_from(a, b, i) || lex_lt_from(b, a, i));
    } else {
        lemma_lex_lt_from_connected(a, b, i + 1);
    }
}

/// Two sequences that neither precedes are equal: lexicographic order is
/// connected.
pub proof fn lemma_lex_connected(a: Seq<char>, b: Seq<char>)
    requires
        !lex_lt(a, b),
        !lex_lt(b, a),
    ensures
        a == b,
{
    lemma_lex_lt_from_connected(a, b, 0);
}

pub proof fn lemma_lex_lt_from_trans(a: Seq<char>, b: Seq<char>, c: Seq<char>, i: int)
    requires
        0 <= i <= a.len(),
        i <= b.len(),
        i <= c.len(),
        lex_lt_from(a, b, i),
        lex_lt_from(b, c, i),
    ensures
        lex_lt_from(a, c, i),
    decreases a.len() - i,
{
    if i >= b.len() {
    } else if i >= a.len() {
    } else if a[i] != b[i] {
    } else {
        if i >= c.len() {
        } else if b[i] != c[i] {
        } else {
            lemma_lex_lt_from_trans(a, b, c, i + 1);
        }
    }
}

/// Lexicographic order is transitive.
pub proof fn lemma_lex_trans(a: Seq<char>, b: Seq<char>, c: Seq<char>)
    requires
        lex_lt(a, b),
        lex_lt(b, c),
    ensures
        lex_lt(a, c),
{
    lemma_lex_lt_from_trans(a, b, c, 0);
}

pub proof fn lemma_lex_lt_from_irrefl(a: Seq<char>, i: int)
    requires
        0 <= i <= a.len(),
    ensures
        !lex_lt_from(a, a, i),
    decreases a.len() - i,
{
    if i < a.len() {
        lemma_lex_lt_from_irrefl(a, i + 1);
    }
}

/// No sequence precedes itself.
pub proof fn lemma_lex_irrefl(a: Seq<char>)
    ensures
        !lex_lt(a, a),
{
    lemma_lex_lt_from_irrefl(a, 0);
}

/// Start and end (exclusive) of each newline-separated segment of `s`,
/// scanning from `pos`.
pub open spec fn line_ranges(s: Seq<char>, pos: int) -> Seq<(int, int)>
    decreases s.len() - pos,
    when 0 <= pos <= s.len()
    via line_ranges_dec
{
    if pos >= s.len() {
        Seq::empty()
    } else {
        let j = find_char_spec(s, '\n', pos);
        if j == s.len() {
            seq![(pos, j)]
        } else {
            seq![(pos, j)].add(line_ranges(s, j + 1))
        }
    }
}

#[via_fn]
proof fn line_ranges_dec(s: Seq<char>, pos: int) {
    if 0 <= pos <= s.len() {
        lemma_find_char_bounds(s, '\n', pos);
    }
}

/// The text of one line given its raw segment `[a, b)`: a carriage return
/// before a line-ending newline is stripped.
pub open spec fn raw_line(s: Seq<char>, a: int, b: int) -> Seq<char>
    recommends
        0 <= a <= b <= s.len(),
{
    if b < s.len() && b > a && s[b - 1] == '\r' {
        s.subrange(a, b - 1)
    } else {
        s.subrange(a, b)
    }
}

/// The lines of `s`, as Rust's `str::lines` splits them: segments between
/// newlines, a carriage return before the newline stripped, and no empty
/// segment after a final newline.
pub open spec fn split_lines_spec(s: Seq<char>) -> Seq<Seq<char>> {
    line_ranges(s, 0).map_values(|rg: (int, int)| raw_line(s, rg.0, rg.1))
}

/// The views of a vector of string slices.
pub open spec fn strslice_views(v: Seq<&str>) -> Seq<Seq<char>> {
    v.map_values(|t: &str| t@)
}

pub fn split_lines<'a>(s: &'a str) -> (r: Vec<&'a str>)
    ensures
        strslice_views(r@) == split_lines_spec(s@),
{
    let n = s.unicode_len();
    let mut r: Vec<&'a str> = Vec::new();
    let mut pos: usize = 0;
    let ghost mut done: Seq<(int, int)> = Seq::empty();
    proof {
        assert(line_ranges(s@, 0) =~= done + line_ranges(s@, 0));
        assert(strslice_views(r@) =~= done.map_values(|rg: (int, int)| raw_line(s@, rg.0, rg.1)));
    }
    while pos < n
        invariant
            pos <= n,
            n == s@.len(),
            line_ranges(s@, 0) == done + line_ranges(s@, pos as int),
            strslice_views(r@) == done.map_values(|rg: (int, int)| raw_line(s@, rg.0, rg.1)),
        decreases n - pos,
    {
        let j = find_char(s, '\n', pos);
        proof {
            lemma_find_char_bounds(s@, '\n', pos as int);
        }
        let ghost rg: (int, int) = (pos as int, j as int);
        let end = if j < n && j > pos && s.get_char(j - 1) == '\r' {
            j - 1
        } else {
            j
        };
        let piece = s.substring_char(pos, end);
        proof {
            assert(piece@ == raw_line(s@, rg.0, rg.1));
        }
        r.push(piece);
        proof {
            let f = |rg: (int, int)| raw_line(s@, rg.0, rg.1);
            assert((done + seq![rg]).map_values(f) =~= done.map_values(f) + seq![f(rg)]);
            assert(strslice_views(r@) =~= (done + seq![rg]).map_values(f));
            if j == n {
                assert(line_ranges(s@, pos as int) =~= seq![rg]);
                assert(done + seq![rg] + line_ranges(s@, n as int) =~= done + seq![rg]);
            } else {
                assert(line_ranges(s@, pos as int) =~= seq![rg] + line_ranges(s@, j + 1));
                assert(done + line_ranges(s@, pos as int) =~= (done + seq![rg]) + line_ranges(
                    s@,
                    j + 1,
                ));
            }
            done = done + seq![rg];
        }
        if j == n {
            pos = n;
        } else {
            pos = j + 1;
        }
    }
    proof {
        assert(line_ranges(s@, pos as int) =~= Seq::<(int, int)>::empty());
        assert(line_ranges(s@, 0) =~= done);
    }
    r
}

/// The decimal digit character for `d`.
pub open spec fn digit_char(d: int) -> char {
    if d == 0 {
        '0'
    } else if d == 1 {
        '1'
    } else if d == 2 {
        '2'
    } else if d == 3 {
        '3'
    } else if d == 4 {
        '4'
    } else if d == 5 {
        '5'
    } else if d == 6 {
        '6'
    } else if d == 7 {
        '7'
    } else if d == 8 {
        '8'
    } else {
        '9'
    }
}

/// The decimal rendering of `n`, most significant digit first.
pub open spec fn dec_str(n: nat) -> Seq<char>
    decreases n,
{
    if n < 10 {
        seq![digit_char(n as int)]
    } else {
        dec_str(n / 10) + seq![digit_char((n % 10) as int)]
    }
}

fn append_digit(out: &mut String, d: u64)
    requires
        d < 10,
    ensures
        final(out)@ == old(out)@ + seq![digit_char(d as int)],
{
    proof {
        reveal_strlit("0");
        reveal_strlit("1");
        reveal_strlit("2");
        reveal_strlit("3");
        reveal_strlit("4");
        reveal_strlit("5");
        reveal_strlit("6");
        reveal_strlit("7");
        reveal_strlit("8");
        reveal_strlit("9");
    }
    if d == 0 {
        out.append("0");
    } else if d == 1 {
        out.append("1");
    } else if d == 2 {
        out.append("2");
    } else if d == 3 {
        out.append("3");
    } else if d == 4 {
        out.append("4");
    } else if d == 5 {
        out.append("5");
    } else if d == 6 {
        out.append("6");
    } else if d == 7 {
        out.append("7");
    } else if d == 8 {
        out.append("8");
    } else {
        out.append("9");
    }
    proof {
        assert(final(out)@ =~= old(out)@ + seq![digit_char(d as int)]);
    }
}

/// Appends the decimal rendering of `n`.
pub fn append_dec(out: &mut String, n: u64)
    ensures
        final(out)@ == old(out)@ + dec_str(n as nat),
    decreases n,
{
    if n >= 10 {
        append_dec(out, n / 10);
        append_digit(out, n % 10);
        proof {
            assert(final(out)@ =~= old(out)@ + dec_str(n as nat));
        }
    } else {
        append_digit(out, n);
    }
}

/// The decimal rendering of `n` as an owned string.
pub fn dec_string(n: u64) -> (r: String)
    ensures
        r@ == dec_str(n as nat),
{
    let mut out = String::new();
    append_dec(&mut out, n);
    proof {
        assert(out@ =~= dec_str(n as nat));
    }
    out
}

/// `s` with every non-overlapping occurrence of `from`, scanning left to
/// right, replaced by `to`; `s` itself when `from` is empty.
pub open spec fn replace_spec(s: Seq<char>, from: Seq<char>, to: Seq<char>) -> Seq<char>
    decreases s.len(),
    when from.len() > 0
    via replace_spec_dec
{
    match find_sub_spec(s, from, 0) {
        None => s,
        Some(p) => s.subrange(0, p) + to + replace_spec(
            s.subrange(p + from.len(), s.len() as int),
            from,
            to,
        ),
    }
}

#[via_fn]
proof fn replace_spec_dec(s: Seq<char>, from: Seq<char>, to: Seq<char>) {
    lemma_find_sub_bounds(s, from, 0);
}

/// Replaces every occurrence of `from` in `s` by `to`.
pub fn replace_all(s: &str, from: &str, to: &str) -> (r: String)
    requires
        from@.len() > 0,
    ensures
        r@ == replace_spec(s@, from@, to@),
    decreases s@.len(),
{
    let n = str_len(s);
    match find_sub(s, from, 0) {
        None => String::from_str(s),
        Some(p) => {
            let m = str_len(from);
            let rest = s.substring_char(p + m, n);
            let tail = replace_all(rest, from, to);
            let mut out = String::from_str(s.substring_char(0, p));
            out.append(to);
            out.append(tail.as_str());
            proof {
                assert(out@ =~= replace_spec(s@, from@, to@));
            }
            out
        },
    }
}

/// The number of non-overlapping occurrences of `pat` in `s`, scanning
/// left to right; zero when `pat` is empty.
pub open spec fn count_occ(s: Seq<char>, pat: Seq<char>) -> nat
    decreases s.len(),
    when pat.len() > 0
    via count_occ_dec
{
    match find_sub_spec(s, pat, 0) {
        None => 0,
        Some(p) => 1 + count_occ(s.subrange(p + pat.len(), s.len() as int), pat),
    }
}

#[via_fn]
proof fn count_occ_dec(s: Seq<char>, pat: Seq<char>) {
    lemma_find_sub_bounds(s, pat, 0);
}

/// An occurrence consumes at least one character, so the count is bounded
/// by the text's length.
pub proof fn lemma_count_occ_le(s: Seq<char>, pat: Seq<char>)
    requires
        pat.len() > 0,
    ensures
        count_occ(s, pat) <= s.len(),
    decreases s.len(),
{
    lemma_find_sub_bounds(s, pat, 0);
    match find_sub_spec(s, pat, 0) {
        None => {},
        Some(p) => {
            lemma_count_occ_le(s.subrange(p + pat.len(), s.len() as int), pat);
        },
    }
}

/// Counts the non-overlapping occurrences of `pat` in `s`.
pub fn count_matches(s: &str, pat: &str) -> (r: usize)
    requires
        pat@.len() > 0,
    ensures
        r == count_occ(s@, pat@),
    decreases s@.len(),
{
    let n = str_len(s);
    match find_sub(s, pat, 0) {
        None => 0,
        Some(p) => {
            let m = str_len(pat);
            let rest = s.substring_char(p + m, n);
            let c = count_matches(rest, pat);
            proof {
                assert(count_occ(s@, pat@) == 1 + count_occ(rest@, pat@));
                lemma_count_occ_le(rest@, pat@);
            }
            c + 1
        },
    }
}

} // verus!
