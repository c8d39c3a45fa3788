//! The configuration extractor.
//!
//! Three independent, stateless per-line rules: constant declarations
//! (name, declared type text, value text), conditional-feature annotations
//! (one flag name per line), and generic bracketed attributes (the raw
//! body), excluding bodies that begin with a conditional-compilation or
//! test marker.

use vstd::prelude::*;
use crate::text::{
    char_at, extract, find_char, find_char_spec, has_at, is_space, is_space_char, split_lines,
    split_lines_spec, starts_with_at, starts_with_spec, str_len, str_starts_with, strslice_views,
    skip_spaces, skip_spaces_spec, trim_spec,
};
use crate::types::{str_views, Configuration};

verus! {

/// True when `c` may start a constant name: an uppercase letter or `_`.
pub open spec fn is_const_start_char(c: char) -> bool {
    ('A' <= c && c <= 'Z') || c == '_'
}

/// True when `c` may continue a constant name: an uppercase letter, a
/// digit or `_`.
pub open spec fn is_const_char(c: char) -> bool {
    ('A' <= c && c <= 'Z') || ('0' <= c && c <= '9') || c == '_'
}

pub fn is_const_start(c: char) -> (r: bool)
    ensures
        r == is_const_start_char(c),
{
    ('A' <= c && c <= 'Z') || c == '_'
}

pub fn is_const_cont(c: char) -> (r: bool)
    ensures
        r == is_const_char(c),
{
    ('A' <= c && c <= 'Z') || ('0' <= c && c <= '9') || c == '_'
}

/// End of the run of constant-name characters starting at `i`.
pub open spec fn const_end_spec(s: Seq<char>, i: int) -> int
    decreases s.len() - i,
    when 0 <= i <= s.len()
{
    if i < s.len() && is_const_char(s[i]) {
        const_end_spec(s, i + 1)
    } else {
        i
    }
}

pub fn const_end(s: &str, i: usize) -> (j: usize)
    requires
        i <= s@.len(),
    ensures
        j == const_end_spec(s@, i as int),
        i <= j <= s@.len(),
{
    let n = str_len(s);
    let mut j = i;
    while j < n && is_const_cont(char_at(s, j))
        invariant
            i <= j <= n,
            n == s@.len(),
            const_end_spec(s@, i as int) == const_end_spec(s@, j as int),
        decreases n - j,
    {
        j = j + 1;
    }
    j
}

/// The constant rule at position `i`: optional `pub`, `const`, a
/// screaming-case name, a colon, the type text up to `=`, and the value
/// text up to `;`, both trimmed.
pub open spec fn const_match(s: Seq<char>, i: int) -> Option<(Seq<char>, Seq<char>, Seq<char>)> {
    let cst = if has_at(s, "pub"@, i) && i + "pub"@.len() < s.len() && is_space_char(
        s[i + "pub"@.len()],
    ) {
        skip_spaces_spec(s, i + "pub"@.len())
    } else {
        i
    };
    if has_at(s, "const"@, cst) {
        let a = cst + "const"@.len();
        if a < s.len() && is_space_char(s[a]) {
            let nm = skip_spaces_spec(s, a);
            if nm < s.len() && is_const_start_char(s[nm]) {
                let ne = const_end_spec(s, nm);
                let c = skip_spaces_spec(s, ne);
                if c < s.len() && s[c] == ':' {
                    let eq = find_char_spec(s, '=', c + 1);
                    if eq < s.len() && eq > c + 1 {
                        let ve = find_char_spec(s, ';', eq + 1);
                        if ve < s.len() && ve > eq + 1 {
                            Some(
                                (
                                    s.subrange(nm, ne),
                                    trim_spec(s.subrange(c + 1, eq)),
                                    trim_spec(s.subrange(eq + 1, ve)),
                                ),
                            )
                        } else {
                            None
                        }
                    } else {
                        None
                    }
                } else {
                    None
                }
            } else {
                None
            }
        } else {
            None
        }
    } else {
        None
    }
}

/// First match of the constant rule on the line.
pub open spec fn first_const(s: Seq<char>, i: int) -> Option<(Seq<char>, Seq<char>, Seq<char>)>
    decreases s.len() - i,
    when 0 <= i <= s.len()
{
    if i >= s.len() {
        None
    } else {
        match const_match(s, i) {
            Some(m) => Some(m),
            None => first_const(s, i + 1),
        }
    }
}

/// The feature rule at position `i`: a conditional-feature annotation with
/// the quoted flag name as its capture.
pub open spec fn feature_match(s: Seq<char>, i: int) -> Option<Seq<char>> {
    if has_at(s, "#[cfg(feature"@, i) {
        let t = skip_spaces_spec(s, i + "#[cfg(feature"@.len());
        if t < s.len() && s[t] == '=' {
            let u = skip_spaces_spec(s, t + 1);
            if u < s.len() && s[u] == '"' {
                let e = find_char_spec(s, '"', u + 1);
                if e < s.len() && e > u + 1 && e + 2 < s.len() && s[e + 1] == ')' && s[e + 2]
                    == ']' {
                    Some(s.subrange(u + 1, e))
                } else {
                    None
                }
            } else {
                None
            }
        } else {
            None
        }
    } else {
        None
    }
}

pub open spec fn first_feature(s: Seq<char>, i: int) -> Option<Seq<char>>
    decreases s.len() - i,
    when 0 <= i <= s.len()
{
    if i >= s.len() {
        None
    } else {
        match feature_match(s, i) {
            Some(m) => Some(m),
            None => first_feature(s, i + 1),
        }
    }
}

/// The attribute rule at position `i`: `#[`, then the raw body up to the
/// first `]`.
pub open spec fn attr_match(s: Seq<char>, i: int) -> Option<Seq<char>> {
    if has_at(s, "#["@, i) {
        let e = find_char_spec(s, ']', i + 2);
        if e < s.len() && e > i + 2 {
            Some(s.subrange(i + 2, e))
        } else {
            None
        }
    } else {
        None
    }
}

pub open spec fn first_attr(s: Seq<char>, i: int) -> Option<Seq<char>>
    decreases s.len() - i,
    when 0 <= i <= s.len()
{
    if i >= s.len() {
        None
    } else {
        match attr_match(s, i) {
            Some(m) => Some(m),
            None => first_attr(s, i + 1),
        }
    }
}

/// The constants of all lines from `i` on.
pub open spec fn consts_from(lines: Seq<Seq<char>>, i: int) -> Seq<(Seq<char>, Seq<char>, Seq<char>)>
    decreases lines.len() - i,
    when 0 <= i <= lines.len()
{
    if i >= lines.len() {
        Seq::empty()
    } else {
        let rest = consts_from(lines, i + 1);
        match first_const(lines[i], 0) {
            Some(m) => seq![m].add(rest),
            None => rest,
        }
    }
}

/// The feature flags of all lines from `i` on.
pub open spec fn feats_from(lines: Seq<Seq<char>>, i: int) -> Seq<Seq<char>>
    decreases lines.len() - i,
    when 0 <= i <= lines.len()
{
    if i >= lines.len() {
        Seq::empty()
    } else {
        let rest = feats_from(lines, i + 1);
        match first_feature(lines[i], 0) {
            Some(m) => seq![m].add(rest),
            None => rest,
        }
    }
}

/// An attribute body counts as custom unless it begins with a
/// conditional-compilation or test marker.
pub open spec fn is_custom_attr(a: Seq<char>) -> bool {
    !starts_with_spec(a, "cfg"@) && !starts_with_spec(a, "test"@)
}

/// The custom attributes of all lines from `i` on.
pub open spec fn attrs_from(lines: Seq<Seq<char>>, i: int) -> Seq<Seq<char>>
    decreases lines.len() - i,
    when 0 <= i <= lines.len()
{
    if i >= lines.len() {
        Seq::empty()
    } else {
        let rest = attrs_from(lines, i + 1);
        match first_attr(lines[i], 0) {
            Some(m) => if is_custom_attr(m) {
                seq![m].add(rest)
            } else {
                rest
            },
            None => rest,
        }
    }
}

/// The views of a vector of string triples.
pub open spec fn triple_views(v: Seq<(String, String, String)>) -> Seq<
    (Seq<char>, Seq<char>, Seq<char>),
> {
    v.map_values(|t: (String, String, String)| (t.0@, t.1@, t.2@))
}

/// The configuration model of a file's text.
pub open spec fn config_ok(c: Configuration, text: Seq<char>) -> bool {
    let lines = split_lines_spec(text);
    &&& triple_views(c.constants@) == consts_from(lines, 0)
    &&& str_views(c.feature_flags@) == feats_from(lines, 0)
    &&& str_views(c.custom_attributes@) == attrs_from(lines, 0)
}

fn scan_const_at(s: &str, i: usize) -> (r: Option<(String, String, String)>)
    requires
        i < s@.len(),
    ensures
        match r {
            Some(t) => const_match(s@, i as int) == Some((t.0@, t.1@, t.2@)),
            None => const_match(s@, i as int) is None,
        },
{
    let n = str_len(s);
    let m = str_len("pub");
    let cst = if starts_with_at(s, i, "pub") && i + m < n && is_space(char_at(s, i + m)) {
        skip_spaces(s, i + m)
    } else {
        i
    };
    if !starts_with_at(s, cst, "const") {
        return None;
    }
    let a = cst + str_len("const");
    if !(a < n && is_space(char_at(s, a))) {
        return None;
    }
    let nm = skip_spaces(s, a);
    if !(nm < n && is_const_start(char_at(s, nm))) {
        return None;
    }
    let ne = const_end(s, nm);
    let c = skip_spaces(s, ne);
    if !(c < n && char_at(s, c) == ':') {
        return None;
    }
    let eq = find_char(s, '=', c + 1);
    if !(eq < n && eq > c + 1) {
        return None;
    }
    let ve = find_char(s, ';', eq + 1);
    if !(ve < n && ve > eq + 1) {
        return None;
    }
    let ty = String::from_str(crate::text::trim(s.substring_char(c + 1, eq)));
    let va = String::from_str(crate::text::trim(s.substring_char(eq + 1, ve)));
    Some((extract(s, nm, ne), ty, va))
}

fn scan_first_const(s: &str) -> (r: Option<(String, String, String)>)
    ensures
        match r {
            Some(t) => first_const(s@, 0) == Some((t.0@, t.1@, t.2@)),
            None => first_const(s@, 0) is None,
        },
{
    let n = str_len(s);
    let mut i: usize = 0;
    while i < n
        invariant
            i <= n,
            n == s@.len(),
            first_const(s@, 0) == first_const(s@, i as int),
        decreases n - i,
    {
        match scan_const_at(s, i) {
            Some(t) => {
                return Some(t);
            },
            None => {},
        }
        i = i + 1;
    }
    None
}

fn scan_feature_at(s: &str, i: usize) -> (r: Option<String>)
    requires
        i < s@.len(),
    ensures
        match r {
            Some(t) => feature_match(s@, i as int) == Some(t@),
            None => feature_match(s@, i as int) is None,
        },
{
    let n = str_len(s);
    if !starts_with_at(s, i, "#[cfg(feature") {
        return None;
    }
    let t = skip_spaces(s, i + str_len("#[cfg(feature"));
    if !(t < n && char_at(s, t) == '=') {
        return None;
    }
    let u = skip_spaces(s, t + 1);
    if !(u < n && char_at(s, u) == '"') {
        return None;
    }
    let e = find_char(s, '"', u + 1);
    if e < n && e > u + 1 && n - e > 2 && char_at(s, e + 1) == ')' && char_at(s, e + 2) == ']' {
        Some(extract(s, u + 1, e))
    } else {
        None
    }
}

fn scan_first_feature(s: &str) -> (r: Option<String>)
    ensures
        match r {
            Some(t) => first_feature(s@, 0) == Some(t@),
            None => first_feature(s@, 0) is None,
        },
{
    let n = str_len(s);
    let mut i: usize = 0;
    while i < n
        invariant
            i <= n,
            n == s@.len(),
            first_feature(s@, 0) == first_feature(s@, i as int),
        decreases n - i,
    {
        match scan_feature_at(s, i) {
            Some(t) => {
                return Some(t);
            },
            None => {},
        }
        i = i + 1;
    }
    None
}

fn scan_attr_at(s: &str, i: usize) -> (r: Option<String>)
    requires
        i < s@.len(),
    ensures
        match r {
            Some(t) => attr_match(s@, i as int) == Some(t@),
            None => attr_match(s@, i as int) is None,
        },
{
    let n = str_len(s);
    if !starts_with_at(s, i, "#[") {
        return None;
    }
    proof {
        reveal_strlit("#[");
    }
    let e = find_char(s, ']', i + 2);
    if e < n && e > i + 2 {
        Some(extract(s, i + 2, e))
    } else {
        None
    }
}

fn scan_first_attr(s: &str) -> (r: Option<String>)
    ensures
        match r {
            Some(t) => first_attr(s@, 0) == Some(t@),
            None => first_attr(s@, 0) is None,
        },
{
    let n = str_len(s);
    let mut i: usize = 0;
    while i < n
        invariant
            i <= n,
            n == s@.len(),
            first_attr(s@, 0) == first_attr(s@, i as int),
        decreases n - i,
    {
        match scan_attr_at(s, i) {
            Some(t) => {
                return Some(t);
            },
            None => {},
        }
        i = i + 1;
    }
    None
}

/// Extracts the configuration of the text: constant declarations, feature
/// flags, and custom attributes, one match of each rule per line.
pub fn analyze_configuration(content: &str) -> (r: Configuration)
    ensures
        config_ok(r, content@),
{
    let lines = split_lines(content);
    let ghost linesv = split_lines_spec(content@);
    let nlines = lines.len();
    let mut constants: Vec<(String, String, String)> = Vec::new();
    let mut feature_flags: Vec<String> = Vec::new();
    let mut custom_attributes: Vec<String> = Vec::new();
    let mut i: usize = 0;
    while i < nlines
        invariant
            i <= nlines,
            nlines == lines@.len(),
            strslice_views(lines@) == linesv,
            consts_from(linesv, 0) == triple_views(constants@) + consts_from(linesv, i as int),
            feats_from(linesv, 0) == str_views(feature_flags@) + feats_from(linesv, i as int),
            attrs_from(linesv, 0) == str_views(custom_attributes@) + attrs_from(
                linesv,
                i as int,
            ),
        decreases nlines - i,
    {
        let line = lines[i];
        proof {
            assert(line@ == strslice_views(lines@)[i as int]);
        }
        let ghost c0 = constants@;
        let ghost f0 = feature_flags@;
        let ghost a0 = custom_attributes@;
        match scan_first_const(line) {
            Some(t) => {
                constants.push(t);
                proof {
                    assert(triple_views(constants@) =~= triple_views(c0) + seq![
                        (constants@[constants@.len() - 1].0@, constants@[constants@.len() - 1].1@,
                        constants@[constants@.len() - 1].2@),
                    ]);
                    assert(consts_from(linesv, i as int) =~= seq![
                        first_const(linesv[i as int], 0)->Some_0,
                    ] + consts_from(linesv, i + 1));
                    assert(consts_from(linesv, 0) =~= triple_views(constants@) + consts_from(
                        linesv,
                        i + 1,
                    ));
                }
            },
            None => {
                proof {
                    assert(consts_from(linesv, i as int) == consts_from(linesv, i + 1));
                }
            },
        }
        match scan_first_feature(line) {
            Some(t) => {
                feature_flags.push(t);
                proof {
                    assert(str_views(feature_flags@) =~= str_views(f0) + seq![
                        feature_flags@[feature_flags@.len() - 1]@,
                    ]);
                    assert(feats_from(linesv, i as int) =~= seq![
                        first_feature(linesv[i as int], 0)->Some_0,
                    ] + feats_from(linesv, i + 1));
                    assert(feats_from(linesv, 0) =~= str_views(feature_flags@) + feats_from(
                        linesv,
                        i + 1,
                    ));
                }
            },
            None => {
                proof {
                    assert(feats_from(linesv, i as int) == feats_from(linesv, i + 1));
                }
            },
        }
        match scan_first_attr(line) {
            Some(t) => {
                let keep = !(str_starts_with(t.as_str(), "cfg") || str_starts_with(
                    t.as_str(),
                    "test",
                ));
                if keep {
                    custom_attributes.push(t);
                    proof {
                        assert(str_views(custom_attributes@) =~= str_views(a0) + seq![
                            custom_attributes@[custom_attributes@.len() - 1]@,
                        ]);
                        assert(attrs_from(linesv, i as int) =~= seq![
                            first_attr(linesv[i as int], 0)->Some_0,
                        ] + attrs_from(linesv, i + 1));
                        assert(attrs_from(linesv, 0) =~= str_views(custom_attributes@)
                            + attrs_from(linesv, i + 1));
                    }
                } else {
                    proof {
                        assert(attrs_from(linesv, i as int) == attrs_from(linesv, i + 1));
                    }
                }
            },
            None => {
                proof {
                    assert(attrs_from(linesv, i as int) == attrs_from(linesv, i + 1));
                }
            },
        }
        i = i + 1;
    }
    proof {
        assert(consts_from(linesv, nlines as int) =~= Seq::<(Seq<char>, Seq<char>, Seq<char>)>::empty());
        assert(feats_from(linesv, nlines as int) =~= Seq::<Seq<char>>::empty());
        assert(attrs_from(linesv, nlines as int) =~= Seq::<Seq<char>>::empty());
        assert(triple_views(constants@) =~= consts_from(linesv, 0));
        assert(str_views(feature_flags@) =~= feats_from(linesv, 0));
        assert(str_views(custom_attributes@) =~= attrs_from(linesv, 0));
    }
    Configuration { constants, feature_flags, custom_attributes }
}

} // verus!
