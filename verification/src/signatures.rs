//! The method-signature extractor.
//!
//! One line-level rule with named parts: an optional visibility qualifier,
//! the method name, an optional generic-parameter group, the raw argument
//! list, and an optional return type.  The argument list is split naively
//! on commas, so a parameter whose type itself contains a comma is split
//! into several parameter strings; that behaviour is deliberate and kept.

use vstd::prelude::*;
use crate::patterns::{split_commas, split_commas_spec};
use crate::text::{
    char_at, extract, find_char, find_char_spec, has_at, is_space, is_space_char, is_word,
    is_word_char, lemma_find_char_bounds, skip_spaces, skip_spaces_spec, split_lines,
    split_lines_spec, starts_with_at, str_eq, str_len, strslice_views, trim_spec, word_end,
    word_end_spec,
};
use crate::types::{str_views, MethodSignature, Visibility};

verus! {

/// One extracted signature, as a mathematical value: visibility text,
/// name, raw argument text, and return-type text.
pub struct SigParts {
    pub vis: Seq<char>,
    pub name: Seq<char>,
    pub args: Seq<char>,
    pub ret: Seq<char>,
}

/// End of a visibility qualifier starting at `i`: `pub`, optionally
/// followed by a parenthesised restriction.
pub open spec fn vis_end(s: Seq<char>, i: int) -> Option<int> {
    if has_at(s, "pub"@, i) {
        let a = i + "pub"@.len();
        if a < s.len() && s[a] == '(' {
            let g = find_char_spec(s, ')', a + 1);
            if g < s.len() && g > a + 1 {
                Some(g + 1)
            } else {
                Some(a)
            }
        } else {
            Some(a)
        }
    } else {
        None
    }
}

/// The signature rule at position `i`: optional visibility, `fn`, the
/// name, an optional generic group, the parenthesised arguments, and an
/// optional `->` return type (the unit type's text when no arrow is
/// written; the empty text when the arrow is followed, after at least one
/// whitespace character, by a body brace or the end of the line).
pub open spec fn method_match(s: Seq<char>, i: int) -> Option<SigParts> {
    let head = match vis_end(s, i) {
        Some(ve) => {
            let w = skip_spaces_spec(s, ve);
            if has_at(s, "fn"@, w) {
                Some((s.subrange(i, ve), w))
            } else {
                None
            }
        },
        None => {
            let w = skip_spaces_spec(s, i);
            if has_at(s, "fn"@, w) {
                Some((Seq::<char>::empty(), w))
            } else {
                None
            }
        },
    };
    match head {
        None => None,
        Some(h) => {
            let a = h.1 + "fn"@.len();
            if a < s.len() && is_space_char(s[a]) {
                let nm = skip_spaces_spec(s, a);
                if nm < s.len() && is_word_char(s[nm]) {
                    let ne = word_end_spec(s, nm);
                    let g0 = skip_spaces_spec(s, ne);
                    let pp = if g0 < s.len() && s[g0] == '<' {
                        let g = find_char_spec(s, '>', g0 + 1);
                        if g < s.len() {
                            Some(skip_spaces_spec(s, g + 1))
                        } else {
                            None
                        }
                    } else {
                        Some(g0)
                    };
                    match pp {
                        None => None,
                        Some(p) => if p < s.len() && s[p] == '(' {
                            let ae = find_char_spec(s, ')', p + 1);
                            if ae < s.len() {
                                let args = s.subrange(p + 1, ae);
                                let t = skip_spaces_spec(s, ae + 1);
                                let ret = if has_at(s, "->"@, t) {
                                    let rs = skip_spaces_spec(s, t + "->"@.len());
                                    let re = find_char_spec(s, '{', rs);
                                    if re > rs {
                                        trim_spec(s.subrange(rs, re))
                                    } else if rs > t + "->"@.len() {
                                        Seq::<char>::empty()
                                    } else {
                                        "()"@
                                    }
                                } else {
                                    "()"@
                                };
                                Some(
                                    SigParts {
                                        vis: h.0,
                                        name: s.subrange(nm, ne),
                                        args,
                                        ret,
                                    },
                                )
                            } else {
                                None
                            }
                        } else {
                            None
                        },
                    }
                } else {
                    None
                }
            } else {
                None
            }
        },
    }
}

/// The first match of the signature rule on the line, scanning left to
/// right.
pub open spec fn first_method(s: Seq<char>, i: int) -> Option<SigParts>
    decreases s.len() - i,
    when 0 <= i <= s.len()
{
    if i >= s.len() {
        None
    } else {
        match method_match(s, i) {
            Some(m) => Some(m),
            None => first_method(s, i + 1),
        }
    }
}

/// Visibility denoted by the captured qualifier text: exactly `pub` is
/// public, exactly `pub(crate)` is crate-public, and anything else —
/// including no qualifier — is private.
pub open spec fn vis_of(v: Seq<char>) -> Visibility {
    if v == "pub"@ {
        Visibility::Public
    } else if v == "pub(crate)"@ {
        Visibility::PublicCrate
    } else {
        Visibility::Private
    }
}

/// The signature a line yields, assembled: name, comma-split trimmed
/// parameters, return-type text, and visibility.
pub struct SigModel {
    pub name: Seq<char>,
    pub params: Seq<Seq<char>>,
    pub ret: Seq<char>,
    pub vis: Visibility,
}

pub open spec fn sig_of_parts(m: SigParts) -> SigModel {
    SigModel {
        name: m.name,
        params: split_commas_spec(m.args, 0),
        ret: m.ret,
        vis: vis_of(m.vis),
    }
}

/// The signatures of all lines from `i` on, one per matching line.
pub open spec fn sigs_from(lines: Seq<Seq<char>>, i: int) -> Seq<SigModel>
    decreases lines.len() - i,
    when 0 <= i <= lines.len()
{
    if i >= lines.len() {
        Seq::empty()
    } else {
        let rest = sigs_from(lines, i + 1);
        match first_method(lines[i], 0) {
            Some(m) => seq![sig_of_parts(m)].add(rest),
            None => rest,
        }
    }
}

/// The signature model of a file's text.
pub open spec fn sigs_of_text(text: Seq<char>) -> Seq<SigModel> {
    sigs_from(split_lines_spec(text), 0)
}

/// The model of one produced signature value.
pub open spec fn sig_model_of(m: MethodSignature) -> SigModel {
    SigModel { name: m.name@, params: str_views(m.params@), ret: m.return_type@, vis: m.visibility }
}

pub open spec fn sigs_model(ms: Seq<MethodSignature>) -> Seq<SigModel> {
    ms.map_values(|m: MethodSignature| sig_model_of(m))
}

fn scan_vis_end(s: &str, i: usize) -> (r: Option<usize>)
    requires
        i <= s@.len(),
    ensures
        match r {
            Some(v) => vis_end(s@, i as int) == Some(v as int) && i <= v <= s@.len(),
            None => vis_end(s@, i as int) is None,
        },
{
    let n = str_len(s);
    if !starts_with_at(s, i, "pub") {
        return None;
    }
    let a = i + str_len("pub");
    if a < n && char_at(s, a) == '(' {
        let g = find_char(s, ')', a + 1);
        if g < n && g > a + 1 {
            Some(g + 1)
        } else {
            Some(a)
        }
    } else {
        Some(a)
    }
}

/// Tries the signature rule at one position.
fn scan_method_at(s: &str, i: usize) -> (r: Option<(String, String, String, String)>)
    requires
        i < s@.len(),
    ensures
        match r {
            Some(t) => method_match(s@, i as int) == Some(
                SigParts { vis: t.0@, name: t.1@, args: t.2@, ret: t.3@ },
            ),
            None => method_match(s@, i as int) is None,
        },
{
    let n = str_len(s);
    let head = match scan_vis_end(s, i) {
        Some(ve) => {
            let w = skip_spaces(s, ve);
            if starts_with_at(s, w, "fn") {
                Some((extract(s, i, ve), w))
            } else {
                None
            }
        },
        None => {
            let w = skip_spaces(s, i);
            if starts_with_at(s, w, "fn") {
                let e = extract(s, i, i);
                proof {
                    assert(e@ =~= Seq::<char>::empty());
                }
                Some((e, w))
            } else {
                None
            }
        },
    };
    let (vis, w) = match head {
        Some(h) => h,
        None => {
            return None;
        },
    };
    let a = w + str_len("fn");
    if !(a < n && is_space(char_at(s, a))) {
        return None;
    }
    let nm = skip_spaces(s, a);
    if !(nm < n && is_word(char_at(s, nm))) {
        return None;
    }
    let ne = word_end(s, nm);
    let g0 = skip_spaces(s, ne);
    let p = if g0 < n && char_at(s, g0) == '<' {
        let g = find_char(s, '>', g0 + 1);
        if g < n {
            skip_spaces(s, g + 1)
        } else {
            return None;
        }
    } else {
        g0
    };
    if !(p < n && char_at(s, p) == '(') {
        return None;
    }
    let ae = find_char(s, ')', p + 1);
    if ae >= n {
        return None;
    }
    let args = extract(s, p + 1, ae);
    let t = skip_spaces(s, ae + 1);
    let ret = if starts_with_at(s, t, "->") {
        let rs = skip_spaces(s, t + str_len("->"));
        let re = find_char(s, '{', rs);
        if re > rs {
            let piece = crate::text::trim(s.substring_char(rs, re));
            String::from_str(piece)
        } else if rs > t + str_len("->") {
            let e = String::new();
            proof {
                assert(e@ =~= Seq::<char>::empty());
            }
            e
        } else {
            String::from_str("()")
        }
    } else {
        String::from_str("()")
    };
    Some((vis, extract(s, nm, ne), args, ret))
}

/// First match of the signature rule on a line.
fn scan_first_method(s: &str) -> (r: Option<(String, String, String, String)>)
    ensures
        match r {
            Some(t) => first_method(s@, 0) == Some(
                SigParts { vis: t.0@, name: t.1@, args: t.2@, ret: t.3@ },
            ),
            None => first_method(s@, 0) is None,
        },
{
    let n = str_len(s);
    let mut i: usize = 0;
    while i < n
        invariant
            i <= n,
            n == s@.len(),
            first_method(s@, 0) == first_method(s@, i as int),
        decreases n - i,
    {
        match scan_method_at(s, i) {
            Some(t) => {
                return Some(t);
            },
            None => {},
        }
        i = i + 1;
    }
    None
}

/// Maps the captured visibility text to the visibility variant.
fn vis_value(v: &str) -> (r: Visibility)
    ensures
        r == vis_of(v@),
{
    if str_eq(v, "pub") {
        Visibility::Public
    } else if str_eq(v, "pub(crate)") {
        Visibility::PublicCrate
    } else {
        Visibility::Private
    }
}

/// Extracts every method signature in the text, one per matching line:
/// name, naively comma-split parameters, return type (the unit type's text
/// when none is written), and visibility.
pub fn analyze_method_signatures(content: &str) -> (r: Vec<MethodSignature>)
    ensures
        sigs_model(r@) == sigs_of_text(content@),
{
    let lines = split_lines(content);
    let ghost linesv = split_lines_spec(content@);
    let nlines = lines.len();
    let mut r: Vec<MethodSignature> = Vec::new();
    let mut i: usize = 0;
    while i < nlines
        invariant
            i <= nlines,
            nlines == lines@.len(),
            strslice_views(lines@) == linesv,
            sigs_from(linesv, 0) == sigs_model(r@) + sigs_from(linesv, i as int),
        decreases nlines - i,
    {
        let line = lines[i];
        proof {
            assert(line@ == strslice_views(lines@)[i as int]);
        }
        let ghost r0 = r@;
        match scan_first_method(line) {
            Some(t) => {
                let params = split_commas(t.2.as_str());
                let visibility = vis_value(t.0.as_str());
                let sig = MethodSignature {
                    name: t.1,
                    params,
                    return_type: t.3,
                    visibility,
                };
                proof {
                    let m = first_method(linesv[i as int], 0)->Some_0;
                    assert(sig_model_of(sig) == sig_of_parts(m));
                }
                r.push(sig);
                proof {
                    assert(sigs_model(r@) =~= sigs_model(r0) + seq![
                        sig_model_of(r@[r@.len() - 1]),
                    ]);
                    assert(sigs_from(linesv, i as int) =~= seq![sig_model_of(r@[r@.len() - 1])]
                        + sigs_from(linesv, i + 1));
                    assert(sigs_from(linesv, 0) =~= sigs_model(r@) + sigs_from(linesv, i + 1));
                }
            },
            None => {
                proof {
                    assert(sigs_from(linesv, i as int) == sigs_from(linesv, i + 1));
                }
            },
        }
        i = i + 1;
    }
    proof {
        assert(sigs_from(linesv, nlines as int) =~= Seq::<SigModel>::empty());
        assert(sigs_model(r@) =~= sigs_from(linesv, 0));
    }
    r
}

} // verus!
