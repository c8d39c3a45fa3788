//! The extraction rules of the analysis engine.
//!
//! Each rule is a line-level matcher: the type-declaration rule, the derive
//! annotation rule, and the six type-reference rules that feed the
//! dependency graph.  Every matcher is specified by a spec function over the
//! line's view; the executable matchers are proved against them.

use vstd::prelude::*;
use crate::types::str_views;
use crate::text::{
    char_at, extract, find_char, find_char_spec, find_sub, find_sub_spec, has_at, is_space,
    is_space_char, is_upper, is_upper_char, is_word, is_word_char, lemma_find_char_bounds,
    lemma_find_sub_bounds, skip_spaces, skip_spaces_spec, starts_with_at, str_len, trim, trim_spec,
    word_end, word_end_spec,
};

verus! {

/// Position after an optional leading `pub` qualifier followed by at least
/// one whitespace character; the start of the line when there is none.
pub open spec fn after_pub(s: Seq<char>) -> int {
    if has_at(s, "pub"@, 0) && "pub"@.len() < s.len() && is_space_char(s["pub"@.len() as int]) {
        skip_spaces_spec(s, "pub"@.len() as int)
    } else {
        0
    }
}

pub fn scan_after_pub(s: &str) -> (k: usize)
    ensures
        k == after_pub(s@),
        k <= s@.len(),
{
    let n = str_len(s);
    let m = str_len("pub");
    if starts_with_at(s, 0, "pub") && m < n && is_space(char_at(s, m)) {
        skip_spaces(s, m)
    } else {
        0
    }
}

/// End of the declaration keyword (`struct`, `enum` or `type`) when one
/// starts at `k`.
pub open spec fn kw_end(s: Seq<char>, k: int) -> Option<int> {
    if has_at(s, "struct"@, k) {
        Some(k + "struct"@.len())
    } else if has_at(s, "enum"@, k) {
        Some(k + "enum"@.len())
    } else if has_at(s, "type"@, k) {
        Some(k + "type"@.len())
    } else {
        None
    }
}

pub fn scan_kw_end(s: &str, k: usize) -> (r: Option<usize>)
    requires
        k <= s@.len(),
    ensures
        match r {
            Some(e) => kw_end(s@, k as int) == Some(e as int) && k <= e <= s@.len(),
            None => kw_end(s@, k as int) is None,
        },
{
    let n = str_len(s);
    if starts_with_at(s, k, "struct") {
        Some(k + str_len("struct"))
    } else if starts_with_at(s, k, "enum") {
        Some(k + str_len("enum"))
    } else if starts_with_at(s, k, "type") {
        Some(k + str_len("type"))
    } else {
        None
    }
}

/// The capture of the type-declaration rule on a line: an optional `pub`
/// qualifier, a declaration keyword, whitespace, then an identifier that
/// begins with an uppercase letter.  The capture is that identifier.
pub open spec fn type_decl_name_spec(s: Seq<char>) -> Option<Seq<char>> {
    let k = after_pub(s);
    match kw_end(s, k) {
        None => None,
        Some(e) => if e < s.len() && is_space_char(s[e]) {
            let w = skip_spaces_spec(s, e);
            if w < s.len() && is_upper_char(s[w]) {
                Some(s.subrange(w, word_end_spec(s, w)))
            } else {
                None
            }
        } else {
            None
        },
    }
}

pub fn scan_type_decl_name(s: &str) -> (r: Option<String>)
    ensures
        match r {
            Some(t) => type_decl_name_spec(s@) == Some(t@),
            None => type_decl_name_spec(s@) is None,
        },
{
    let n = str_len(s);
    let k = scan_after_pub(s);
    let e = match scan_kw_end(s, k) {
        Some(e) => e,
        None => {
            return None;
        },
    };
    if e < n && is_space(char_at(s, e)) {
        let w = skip_spaces(s, e);
        if w < n && is_upper(char_at(s, w)) {
            let we = word_end(s, w);
            Some(extract(s, w, we))
        } else {
            None
        }
    } else {
        None
    }
}

/// Body of a derive annotation on the line: the text between the first
/// `#[derive(` and the first `)]` that follows it.
pub open spec fn derive_body_spec(s: Seq<char>) -> Option<Seq<char>> {
    match find_sub_spec(s, "#[derive("@, 0) {
        None => None,
        Some(p) => {
            let st = p + "#[derive("@.len();
            match find_sub_spec(s, ")]"@, st) {
                None => None,
                Some(q) => Some(s.subrange(st, q)),
            }
        },
    }
}

pub fn scan_derive_body(s: &str) -> (r: Option<String>)
    ensures
        match r {
            Some(t) => derive_body_spec(s@) == Some(t@),
            None => derive_body_spec(s@) is None,
        },
{
    let n = str_len(s);
    let p = match find_sub(s, "#[derive(", 0) {
        Some(p) => p,
        None => {
            return None;
        },
    };
    let st = p + str_len("#[derive(");
    let q = match find_sub(s, ")]", st) {
        Some(q) => q,
        None => {
            return None;
        },
    };
    proof {
        lemma_find_sub_bounds(s@, ")]"@, st as int);
    }
    Some(extract(s, st, q))
}

/// The pieces of `s`, split on commas and trimmed, scanning from `i`.
pub open spec fn split_commas_spec(s: Seq<char>, i: int) -> Seq<Seq<char>>
    decreases s.len() - i,
    when 0 <= i <= s.len()
    via split_commas_dec
{
    let j = find_char_spec(s, ',', i);
    if j == s.len() {
        seq![trim_spec(s.subrange(i, j))]
    } else {
        seq![trim_spec(s.subrange(i, j))].add(split_commas_spec(s, j + 1))
    }
}

#[via_fn]
proof fn split_commas_dec(s: Seq<char>, i: int) {
    if 0 <= i <= s.len() {
        lemma_find_char_bounds(s, ',', i);
    }
}

pub fn split_commas(s: &str) -> (r: Vec<String>)
    ensures
        str_views(r@) == split_commas_spec(s@, 0),
{
    let n = str_len(s);
    let mut r: Vec<String> = Vec::new();
    let mut pos: usize = 0;
    loop
        invariant_except_break
            pos <= n,
            n == s@.len(),
            split_commas_spec(s@, 0) == str_views(r@) + split_commas_spec(
                s@,
                pos as int,
            ),
        ensures
            str_views(r@) == split_commas_spec(s@, 0),
        decreases n - pos,
    {
        let j = find_char(s, ',', pos);
        proof {
            lemma_find_char_bounds(s@, ',', pos as int);
        }
        let ghost r0 = r@;
        let piece = trim(s.substring_char(pos, j));
        let owned = String::from_str(piece);
        proof {
            assert(owned@ == trim_spec(s@.subrange(pos as int, j as int)));
        }
        r.push(owned);
        proof {
            assert(r@ =~= r0 + seq![owned]);
            assert(str_views(r@) =~= str_views(r0) + seq![owned@]);
            if j == n {
                assert(split_commas_spec(s@, pos as int) =~= seq![owned@]);
                assert(str_views(r@) =~= split_commas_spec(s@, 0));
            } else {
                assert(split_commas_spec(s@, pos as int) =~= seq![owned@] + split_commas_spec(
                    s@,
                    j + 1,
                ));
                assert(split_commas_spec(s@, 0) =~= str_views(r@) + split_commas_spec(
                    s@,
                    j + 1,
                ));
            }
        }
        if j == n {
            break;
        }
        pos = j + 1;
    }
    r
}

/// A rule match at one position: capture start, capture end, and the
/// position where scanning resumes.
pub type RuleMatch = Option<(int, int, int)>;

/// All captures of the matcher `m` over `s`, scanning left to right from
/// `i`; after a match, scanning resumes at the match's resume position.
pub open spec fn collect_caps(
    s: Seq<char>,
    i: int,
    m: spec_fn(Seq<char>, int) -> RuleMatch,
) -> Seq<Seq<char>>
    decreases s.len() - i,
    when 0 <= i <= s.len()
{
    if i >= s.len() {
        Seq::empty()
    } else {
        match m(s, i) {
            Some(t) => {
                let nx = if i + 1 <= t.2 && t.2 <= s.len() {
                    t.2
                } else {
                    i + 1
                };
                seq![s.subrange(t.0, t.1)].add(collect_caps(s, nx, m))
            },
            None => collect_caps(s, i + 1, m),
        }
    }
}

/// Field-annotation rule: a colon, optional whitespace and `&`, then a type
/// name beginning with an uppercase letter; a following generic-argument
/// group is consumed but not captured.
pub open spec fn colon_match(s: Seq<char>, i: int) -> RuleMatch {
    if i < s.len() && s[i] == ':' {
        let w0 = skip_spaces_spec(s, i + 1);
        let w = if w0 < s.len() && s[w0] == '&' {
            skip_spaces_spec(s, w0 + 1)
        } else {
            w0
        };
        if w < s.len() && is_upper_char(s[w]) {
            let e = word_end_spec(s, w);
            let t = skip_spaces_spec(s, e);
            let resume = if t < s.len() && s[t] == '<' {
                let g = find_char_spec(s, '>', t + 1);
                if g < s.len() {
                    g + 1
                } else {
                    e
                }
            } else {
                e
            };
            Some((w, e, resume))
        } else {
            None
        }
    } else {
        None
    }
}

pub open spec fn colon_rule() -> spec_fn(Seq<char>, int) -> RuleMatch {
    |s: Seq<char>, i: int| colon_match(s, i)
}

pub fn colon_try(s: &str, i: usize) -> (r: Option<(usize, usize, usize)>)
    requires
        i < s@.len(),
    ensures
        match r {
            Some(t) => colon_match(s@, i as int) == Some((t.0 as int, t.1 as int, t.2 as int))
                && t.0 <= t.1 <= s@.len(),
            None => colon_match(s@, i as int) is None,
        },
{
    let n = str_len(s);
    if char_at(s, i) != ':' {
        return None;
    }
    let w0 = skip_spaces(s, i + 1);
    let w = if w0 < n && char_at(s, w0) == '&' {
        skip_spaces(s, w0 + 1)
    } else {
        w0
    };
    if w < n && is_upper(char_at(s, w)) {
        let e = word_end(s, w);
        let t = skip_spaces(s, e);
        let resume = if t < n && char_at(s, t) == '<' {
            let g = find_char(s, '>', t + 1);
            if g < n {
                g + 1
            } else {
                e
            }
        } else {
            e
        };
        Some((w, e, resume))
    } else {
        None
    }
}

/// Function-parameter rule: `fn`, whitespace, a name, an optional
/// generic-parameter group, an opening parenthesis, then — before any
/// closing parenthesis — an optional `&` and a type name beginning with an
/// uppercase letter.
pub open spec fn param_cap_from(s: Seq<char>, p: int) -> Option<int>
    decreases s.len() - p,
    when 0 <= p <= s.len()
{
    if p >= s.len() {
        None
    } else if s[p] == ')' {
        None
    } else if is_upper_char(s[p]) {
        Some(p)
    } else if s[p] == '&' && {
        let q = skip_spaces_spec(s, p + 1);
        q < s.len() && is_upper_char(s[q])
    } {
        Some(skip_spaces_spec(s, p + 1))
    } else {
        param_cap_from(s, p + 1)
    }
}

pub fn scan_param_cap(s: &str, p: usize) -> (r: Option<usize>)
    requires
        p <= s@.len(),
    ensures
        match r {
            Some(w) => param_cap_from(s@, p as int) == Some(w as int) && w < s@.len(),
            None => param_cap_from(s@, p as int) is None,
        },
{
    let n = str_len(s);
    let mut q = p;
    loop
        invariant
            p <= q <= n,
            n == s@.len(),
            param_cap_from(s@, p as int) == param_cap_from(s@, q as int),
        decreases n - q,
    {
        if q >= n {
            return None;
        }
        let c = char_at(s, q);
        if c == ')' {
            return None;
        }
        if is_upper(c) {
            return Some(q);
        }
        if c == '&' {
            let w = skip_spaces(s, q + 1);
            if w < n && is_upper(char_at(s, w)) {
                return Some(w);
            }
        }
        q = q + 1;
    }
}

pub open spec fn fn_param_match(s: Seq<char>, i: int) -> RuleMatch {
    if has_at(s, "fn"@, i) {
        let a = i + "fn"@.len();
        if a < s.len() && is_space_char(s[a]) {
            let w = skip_spaces_spec(s, a);
            if w < s.len() && is_word_char(s[w]) {
                let ne = word_end_spec(s, w);
                let g0 = skip_spaces_spec(s, ne);
                let op = if g0 < s.len() && s[g0] == '<' {
                    let g = find_char_spec(s, '>', g0 + 1);
                    if g < s.len() {
                        Some(skip_spaces_spec(s, g + 1))
                    } else {
                        None
                    }
                } else {
                    Some(g0)
                };
                match op {
                    None => None,
                    Some(pp) => if pp < s.len() && s[pp] == '(' {
                        match param_cap_from(s, pp + 1) {
                            None => None,
                            Some(c) => Some((c, word_end_spec(s, c), word_end_spec(s, c))),
                        }
                    } else {
                        None
                    },
                }
            } else {
                None
            }
        } else {
            None
        }
    } else {
        None
    }
}

pub open spec fn fn_param_rule() -> spec_fn(Seq<char>, int) -> RuleMatch {
    |s: Seq<char>, i: int| fn_param_match(s, i)
}

pub fn fn_param_try(s: &str, i: usize) -> (r: Option<(usize, usize, usize)>)
    requires
        i < s@.len(),
    ensures
        match r {
            Some(t) => fn_param_match(s@, i as int) == Some((t.0 as int, t.1 as int, t.2 as int))
                && t.0 <= t.1 <= s@.len(),
            None => fn_param_match(s@, i as int) is None,
        },
{
    let n = str_len(s);
    if !starts_with_at(s, i, "fn") {
        return None;
    }
    let a = i + str_len("fn");
    if !(a < n && is_space(char_at(s, a))) {
        return None;
    }
    let w = skip_spaces(s, a);
    if !(w < n && is_word(char_at(s, w))) {
        return None;
    }
    let ne = word_end(s, w);
    let g0 = skip_spaces(s, ne);
    let pp = if g0 < n && char_at(s, g0) == '<' {
        let g = find_char(s, '>', g0 + 1);
        if g < n {
            skip_spaces(s, g + 1)
        } else {
            return None;
        }
    } else {
        g0
    };
    if !(pp < n && char_at(s, pp) == '(') {
        return None;
    }
    match scan_param_cap(s, pp + 1) {
        None => None,
        Some(c) => {
            let e = word_end(s, c);
            Some((c, e, e))
        },
    }
}

/// Return-type rule: `->`, optional whitespace, an optional `Result<`
/// wrapper and `&`, then a type name beginning with an uppercase letter.
pub open spec fn arrow_match(s: Seq<char>, i: int) -> RuleMatch {
    if has_at(s, "->"@, i) {
        let w0 = skip_spaces_spec(s, i + "->"@.len());
        let w1 = if has_at(s, "Result<"@, w0) {
            w0 + "Result<"@.len()
        } else {
            w0
        };
        let w = if w1 < s.len() && s[w1] == '&' {
            skip_spaces_spec(s, w1 + 1)
        } else {
            w1
        };
        if w < s.len() && is_upper_char(s[w]) {
            Some((w, word_end_spec(s, w), word_end_spec(s, w)))
        } else {
            None
        }
    } else {
        None
    }
}

pub open spec fn arrow_rule() -> spec_fn(Seq<char>, int) -> RuleMatch {
    |s: Seq<char>, i: int| arrow_match(s, i)
}

pub fn arrow_try(s: &str, i: usize) -> (r: Option<(usize, usize, usize)>)
    requires
        i < s@.len(),
    ensures
        match r {
            Some(t) => arrow_match(s@, i as int) == Some((t.0 as int, t.1 as int, t.2 as int))
                && t.0 <= t.1 <= s@.len(),
            None => arrow_match(s@, i as int) is None,
        },
{
    let n = str_len(s);
    if !starts_with_at(s, i, "->") {
        return None;
    }
    let w0 = skip_spaces(s, i + str_len("->"));
    let w1 = if starts_with_at(s, w0, "Result<") {
        w0 + str_len("Result<")
    } else {
        w0
    };
    let w = if w1 < n && char_at(s, w1) == '&' {
        skip_spaces(s, w1 + 1)
    } else {
        w1
    };
    if w < n && is_upper(char_at(s, w)) {
        let e = word_end(s, w);
        Some((w, e, e))
    } else {
        None
    }
}

/// Trait-implementation rule: `impl`, an optional generic-parameter group,
/// whitespace, the implemented name beginning with an uppercase letter,
/// whitespace, then `for`.
pub open spec fn impl_match(s: Seq<char>, i: int) -> RuleMatch {
    if has_at(s, "impl"@, i) {
        let a = i + "impl"@.len();
        let g0 = skip_spaces_spec(s, a);
        let op = if g0 < s.len() && s[g0] == '<' {
            let g = find_char_spec(s, '>', g0 + 1);
            if g < s.len() {
                Some(g + 1)
            } else {
                None
            }
        } else {
            Some(a)
        };
        match op {
            None => None,
            Some(b) => if b < s.len() && is_space_char(s[b]) {
                let w = skip_spaces_spec(s, b);
                if w < s.len() && is_upper_char(s[w]) {
                    let e = word_end_spec(s, w);
                    if e < s.len() && is_space_char(s[e]) {
                        let f = skip_spaces_spec(s, e);
                        if has_at(s, "for"@, f) {
                            Some((w, e, f + "for"@.len()))
                        } else {
                            None
                        }
                    } else {
                        None
                    }
                } else {
                    None
                }
            } else {
                None
            },
        }
    } else {
        None
    }
}

pub open spec fn impl_rule() -> spec_fn(Seq<char>, int) -> RuleMatch {
    |s: Seq<char>, i: int| impl_match(s, i)
}

pub fn impl_try(s: &str, i: usize) -> (r: Option<(usize, usize, usize)>)
    requires
        i < s@.len(),
    ensures
        match r {
            Some(t) => impl_match(s@, i as int) == Some((t.0 as int, t.1 as int, t.2 as int))
                && t.0 <= t.1 <= s@.len(),
            None => impl_match(s@, i as int) is None,
        },
{
    let n = str_len(s);
    if !starts_with_at(s, i, "impl") {
        return None;
    }
    let a = i + str_len("impl");
    let g0 = skip_spaces(s, a);
    let b = if g0 < n && char_at(s, g0) == '<' {
        let g = find_char(s, '>', g0 + 1);
        if g < n {
            g + 1
        } else {
            return None;
        }
    } else {
        a
    };
    if !(b < n && is_space(char_at(s, b))) {
        return None;
    }
    let w = skip_spaces(s, b);
    if !(w < n && is_upper(char_at(s, w))) {
        return None;
    }
    let e = word_end(s, w);
    if !(e < n && is_space(char_at(s, e))) {
        return None;
    }
    let f = skip_spaces(s, e);
    if starts_with_at(s, f, "for") {
        Some((w, e, f + str_len("for")))
    } else {
        None
    }
}

/// First uppercase character at or after `p`, stopping at any `>`.
pub open spec fn upper_before_gt(s: Seq<char>, p: int) -> Option<int>
    decreases s.len() - p,
    when 0 <= p <= s.len()
{
    if p >= s.len() {
        None
    } else if s[p] == '>' {
        None
    } else if is_upper_char(s[p]) {
        Some(p)
    } else {
        upper_before_gt(s, p + 1)
    }
}

pub fn scan_upper_before_gt(s: &str, p: usize) -> (r: Option<usize>)
    requires
        p <= s@.len(),
    ensures
        match r {
            Some(w) => upper_before_gt(s@, p as int) == Some(w as int) && w < s@.len(),
            None => upper_before_gt(s@, p as int) is None,
        },
{
    let n = str_len(s);
    let mut q = p;
    loop
        invariant
            p <= q <= n,
            n == s@.len(),
            upper_before_gt(s@, p as int) == upper_before_gt(s@, q as int),
        decreases n - q,
    {
        if q >= n {
            return None;
        }
        let c = char_at(s, q);
        if c == '>' {
            return None;
        }
        if is_upper(c) {
            return Some(q);
        }
        q = q + 1;
    }
}

/// Generic-argument rule: inside an angle-bracket group, the first name
/// beginning with an uppercase letter, provided the group closes.
pub open spec fn generic_match(s: Seq<char>, i: int) -> RuleMatch {
    if i < s.len() && s[i] == '<' {
        match upper_before_gt(s, i + 1) {
            None => None,
            Some(w) => {
                let e = word_end_spec(s, w);
                let g = find_char_spec(s, '>', e);
                if g < s.len() {
                    Some((w, e, g + 1))
                } else {
                    None
                }
            },
        }
    } else {
        None
    }
}

pub open spec fn generic_rule() -> spec_fn(Seq<char>, int) -> RuleMatch {
    |s: Seq<char>, i: int| generic_match(s, i)
}

pub fn generic_try(s: &str, i: usize) -> (r: Option<(usize, usize, usize)>)
    requires
        i < s@.len(),
    ensures
        match r {
            Some(t) => generic_match(s@, i as int) == Some((t.0 as int, t.1 as int, t.2 as int))
                && t.0 <= t.1 <= s@.len(),
            None => generic_match(s@, i as int) is None,
        },
{
    let n = str_len(s);
    if char_at(s, i) != '<' {
        return None;
    }
    match scan_upper_before_gt(s, i + 1) {
        None => None,
        Some(w) => {
            let e = word_end(s, w);
            let g = find_char(s, '>', e);
            if g < n {
                Some((w, e, g + 1))
            } else {
                None
            }
        },
    }
}

/// Container rule: a `Vec`, `Option` or `Box` wrapper holding exactly one
/// name that begins with an uppercase letter.
pub open spec fn container_match(s: Seq<char>, i: int) -> RuleMatch {
    let st = if has_at(s, "Vec<"@, i) {
        Some(i + "Vec<"@.len())
    } else if has_at(s, "Option<"@, i) {
        Some(i + "Option<"@.len())
    } else if has_at(s, "Box<"@, i) {
        Some(i + "Box<"@.len())
    } else {
        None
    };
    match st {
        None => None,
        Some(w) => if w < s.len() && is_upper_char(s[w]) {
            let e = word_end_spec(s, w);
            if e < s.len() && s[e] == '>' {
                Some((w, e, e + 1))
            } else {
                None
            }
        } else {
            None
        },
    }
}

pub open spec fn container_rule() -> spec_fn(Seq<char>, int) -> RuleMatch {
    |s: Seq<char>, i: int| container_match(s, i)
}

pub fn container_try(s: &str, i: usize) -> (r: Option<(usize, usize, usize)>)
    requires
        i < s@.len(),
    ensures
        match r {
            Some(t) => container_match(s@, i as int) == Some((t.0 as int, t.1 as int, t.2 as int))
                && t.0 <= t.1 <= s@.len(),
            None => container_match(s@, i as int) is None,
        },
{
    let n = str_len(s);
    let w = if starts_with_at(s, i, "Vec<") {
        i + str_len("Vec<")
    } else if starts_with_at(s, i, "Option<") {
        i + str_len("Option<")
    } else if starts_with_at(s, i, "Box<") {
        i + str_len("Box<")
    } else {
        return None;
    };
    if w < n && is_upper(char_at(s, w)) {
        let e = word_end(s, w);
        if e < n && char_at(s, e) == '>' {
            Some((w, e, e + 1))
        } else {
            None
        }
    } else {
        None
    }
}

/// One of the six type-reference rules, in the order they are applied.
pub enum DepRule {
    Colon,
    FnParam,
    Arrow,
    Impl,
    Generic,
    Container,
}

pub open spec fn rule_fn(w: DepRule) -> spec_fn(Seq<char>, int) -> RuleMatch {
    match w {
        DepRule::Colon => colon_rule(),
        DepRule::FnParam => fn_param_rule(),
        DepRule::Arrow => arrow_rule(),
        DepRule::Impl => impl_rule(),
        DepRule::Generic => generic_rule(),
        DepRule::Container => container_rule(),
    }
}

fn rule_try(s: &str, i: usize, w: &DepRule) -> (r: Option<(usize, usize, usize)>)
    requires
        i < s@.len(),
    ensures
        match r {
            Some(t) => rule_fn(*w)(s@, i as int) == Some((t.0 as int, t.1 as int, t.2 as int))
                && t.0 <= t.1 <= s@.len(),
            None => rule_fn(*w)(s@, i as int) is None,
        },
{
    match w {
        DepRule::Colon => colon_try(s, i),
        DepRule::FnParam => fn_param_try(s, i),
        DepRule::Arrow => arrow_try(s, i),
        DepRule::Impl => impl_try(s, i),
        DepRule::Generic => generic_try(s, i),
        DepRule::Container => container_try(s, i),
    }
}

/// All captures of one type-reference rule over the whole line.
pub fn collect_rule(s: &str, w: DepRule) -> (r: Vec<String>)
    ensures
        str_views(r@) == collect_caps(s@, 0, rule_fn(w)),
{
    let n = str_len(s);
    let mut r: Vec<String> = Vec::new();
    let mut i: usize = 0;
    while i < n
        invariant
            i <= n,
            n == s@.len(),
            collect_caps(s@, 0, rule_fn(w)) == str_views(r@) + collect_caps(
                s@,
                i as int,
                rule_fn(w),
            ),
        decreases n - i,
    {
        let ghost m = rule_fn(w);
        match rule_try(s, i, &w) {
            Some(t) => {
                let ghost r0 = r@;
                let cap = extract(s, t.0, t.1);
                r.push(cap);
                let nx = if t.2 > i && t.2 <= n {
                    t.2
                } else {
                    i + 1
                };
                proof {
                    assert(m(s@, i as int) == Some((t.0 as int, t.1 as int, t.2 as int)));
                    assert(collect_caps(s@, i as int, m) =~= seq![
                        s@.subrange(t.0 as int, t.1 as int),
                    ] + collect_caps(s@, nx as int, m));
                    assert(r@ =~= r0 + seq![cap]);
                    assert(str_views(r@) =~= str_views(r0) + seq![cap@]);
                    assert(collect_caps(s@, 0, m) =~= str_views(r@) + collect_caps(
                        s@,
                        nx as int,
                        m,
                    ));
                }
                i = nx;
            },
            None => {
                proof {
                    assert(collect_caps(s@, i as int, m) == collect_caps(s@, i + 1, m));
                }
                i = i + 1;
            },
        }
    }
    proof {
        let m = rule_fn(w);
        assert(collect_caps(s@, i as int, m) =~= Seq::<Seq<char>>::empty());
        assert(collect_caps(s@, 0, m) =~= str_views(r@));
    }
    r
}

/// All captures of the six type-reference rules on one line, in rule order.
pub open spec fn dep_caps(line: Seq<char>) -> Seq<Seq<char>> {
    collect_caps(line, 0, colon_rule()) + collect_caps(line, 0, fn_param_rule()) + collect_caps(
        line,
        0,
        arrow_rule(),
    ) + collect_caps(line, 0, impl_rule()) + collect_caps(line, 0, generic_rule()) + collect_caps(
        line,
        0,
        container_rule(),
    )
}

/// All captures of the six type-reference rules on one line.
pub fn dep_captures(s: &str) -> (r: Vec<String>)
    ensures
        str_views(r@) == dep_caps(s@),
{
    let mut r = collect_rule(s, DepRule::Colon);
    let mut r2 = collect_rule(s, DepRule::FnParam);
    let mut r3 = collect_rule(s, DepRule::Arrow);
    let mut r4 = collect_rule(s, DepRule::Impl);
    let mut r5 = collect_rule(s, DepRule::Generic);
    let mut r6 = collect_rule(s, DepRule::Container);
    let ghost v1 = r@;
    let ghost v2 = r2@;
    let ghost v3 = r3@;
    let ghost v4 = r4@;
    let ghost v5 = r5@;
    let ghost v6 = r6@;
    r.append(&mut r2);
    r.append(&mut r3);
    r.append(&mut r4);
    r.append(&mut r5);
    r.append(&mut r6);
    proof {
        assert(r@ =~= v1 + v2 + v3 + v4 + v5 + v6);
        assert(str_views(r@) =~= str_views(v1) + str_views(v2) + str_views(v3) + str_views(v4)
            + str_views(v5) + str_views(v6));
    }
    r
}

} // verus!
