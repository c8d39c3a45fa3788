//! The summary generator.
//!
//! The summary opens with the first five lines of the file verbatim, then
//! lists, for a fixed ordered set of rules, one labeled line per matching
//! source line.  Matches are grouped by rule, not interleaved by source
//! position: all matches of one rule appear together, in source order,
//! before any match of the next rule.  That grouping is deliberate and is
//! part of the output format.

use vstd::prelude::*;
use vstd::string::StringExecFns;
use crate::text::{
    char_at, find_char_spec, is_space, is_space_char, is_word, is_word_char, split_lines,
    split_lines_spec, str_len, str_starts_with, starts_with_spec, strslice_views, skip_spaces,
    skip_spaces_spec, trim, trim_spec,
};

verus! {

/// The fixed summary rules, in the order their groups are emitted.
#[derive(Clone, Copy)]
pub enum SummaryRule {
    DocComment,
    ModuleDoc,
    PublicFn,
    PrivateFn,
    PublicStruct,
    PublicEnum,
    PublicTrait,
    ImplBlock,
    Section,
}

/// Whether a raw (untrimmed) line matches the given rule.
pub open spec fn rule_hit(k: SummaryRule, s: Seq<char>) -> bool {
    match k {
        SummaryRule::DocComment => starts_with_spec(s, "///"@),
        SummaryRule::ModuleDoc => starts_with_spec(s, "//!"@),
        SummaryRule::PublicFn => starts_with_spec(s, "pub fn "@) && "pub fn "@.len() < s.len()
            && is_word_char(s["pub fn "@.len() as int]),
        SummaryRule::PrivateFn => starts_with_spec(s, "fn "@) && "fn "@.len() < s.len()
            && is_word_char(s["fn "@.len() as int]),
        SummaryRule::PublicStruct => starts_with_spec(s, "pub struct "@) && "pub struct "@.len()
            < s.len() && is_word_char(s["pub struct "@.len() as int]),
        SummaryRule::PublicEnum => starts_with_spec(s, "pub enum "@) && "pub enum "@.len()
            < s.len() && is_word_char(s["pub enum "@.len() as int]),
        SummaryRule::PublicTrait => starts_with_spec(s, "pub trait "@) && "pub trait "@.len()
            < s.len() && is_word_char(s["pub trait "@.len() as int]),
        SummaryRule::ImplBlock => starts_with_spec(s, "impl"@) && "impl"@.len() < s.len()
            && is_space_char(s["impl"@.len() as int]) && {
            let w = skip_spaces_spec(s, "impl"@.len() as int);
            w < s.len() && is_word_char(s[w])
        },
        SummaryRule::Section => s.len() > 0 && s[0] == '[' && {
            let e = find_char_spec(s, ']', 1);
            e < s.len()
        },
    }
}

/// The label printed before a matching line of the given rule.
pub open spec fn rule_label(k: SummaryRule) -> Seq<char> {
    match k {
        SummaryRule::DocComment => "Documentation: "@,
        SummaryRule::ModuleDoc => "Module documentation: "@,
        SummaryRule::PublicFn => "Public method: "@,
        SummaryRule::PrivateFn => "Private method: "@,
        SummaryRule::PublicStruct => "Public struct: "@,
        SummaryRule::PublicEnum => "Public enum: "@,
        SummaryRule::PublicTrait => "Public trait: "@,
        SummaryRule::ImplBlock => "Implementation: "@,
        SummaryRule::Section => "Section: "@,
    }
}

/// One rule's group: a labeled, trimmed copy of every matching line, in
/// source order.
pub open spec fn group_from(lines: Seq<Seq<char>>, i: int, k: SummaryRule) -> Seq<char>
    decreases lines.len() - i,
    when 0 <= i <= lines.len()
{
    if i >= lines.len() {
        Seq::empty()
    } else {
        let rest = group_from(lines, i + 1, k);
        if rule_hit(k, lines[i]) {
            rule_label(k) + trim_spec(lines[i]) + "\n"@ + rest
        } else {
            rest
        }
    }
}

/// The first lines of the file, each followed by a newline.
pub open spec fn head_lines(lines: Seq<Seq<char>>, i: int, e: int) -> Seq<char>
    decreases e - i,
    when 0 <= i && i <= e <= lines.len()
{
    if i >= e {
        Seq::empty()
    } else {
        lines[i] + "\n"@ + head_lines(lines, i + 1, e)
    }
}

/// The whole summary of the lines: the first five lines verbatim under a
/// heading, then the groups of the nine rules in order.
pub open spec fn summary_spec(lines: Seq<Seq<char>>) -> Seq<char> {
    let head: Seq<char> = if lines.len() == 0 {
        Seq::empty()
    } else {
        "File start:\n"@ + head_lines(
            lines,
            0,
            if lines.len() < 5 {
                lines.len() as int
            } else {
                5
            },
        )
    };
    head + group_from(lines, 0, SummaryRule::DocComment) + group_from(
        lines,
        0,
        SummaryRule::ModuleDoc,
    ) + group_from(lines, 0, SummaryRule::PublicFn) + group_from(lines, 0, SummaryRule::PrivateFn)
        + group_from(lines, 0, SummaryRule::PublicStruct) + group_from(
        lines,
        0,
        SummaryRule::PublicEnum,
    ) + group_from(lines, 0, SummaryRule::PublicTrait) + group_from(
        lines,
        0,
        SummaryRule::ImplBlock,
    ) + group_from(lines, 0, SummaryRule::Section)
}

/// The summary of a file's text.
pub open spec fn summary_of_text(text: Seq<char>) -> Seq<char> {
    summary_spec(split_lines_spec(text))
}

fn rule_matches(line: &str, k: SummaryRule) -> (r: bool)
    ensures
        r == rule_hit(k, line@),
{
    let n = str_len(line);
    match k {
        SummaryRule::DocComment => str_starts_with(line, "///"),
        SummaryRule::ModuleDoc => str_starts_with(line, "//!"),
        SummaryRule::PublicFn => {
            let m = str_len("pub fn ");
            str_starts_with(line, "pub fn ") && m < n && is_word(char_at(line, m))
        },
        SummaryRule::PrivateFn => {
            let m = str_len("fn ");
            str_starts_with(line, "fn ") && m < n && is_word(char_at(line, m))
        },
        SummaryRule::PublicStruct => {
            let m = str_len("pub struct ");
            str_starts_with(line, "pub struct ") && m < n && is_word(char_at(line, m))
        },
        SummaryRule::PublicEnum => {
            let m = str_len("pub enum ");
            str_starts_with(line, "pub enum ") && m < n && is_word(char_at(line, m))
        },
        SummaryRule::PublicTrait => {
            let m = str_len("pub trait ");
            str_starts_with(line, "pub trait ") && m < n && is_word(char_at(line, m))
        },
        SummaryRule::ImplBlock => {
            let m = str_len("impl");
            if str_starts_with(line, "impl") && m < n && is_space(char_at(line, m)) {
                let w = skip_spaces(line, m);
                w < n && is_word(char_at(line, w))
            } else {
                false
            }
        },
        SummaryRule::Section => {
            if n > 0 && char_at(line, 0) == '[' {
                let e = crate::text::find_char(line, ']', 1);
                e < n
            } else {
                false
            }
        },
    }
}

fn label_text(k: SummaryRule) -> (r: &'static str)
    ensures
        r@ == rule_label(k),
{
    match k {
        SummaryRule::DocComment => "Documentation: ",
        SummaryRule::ModuleDoc => "Module documentation: ",
        SummaryRule::PublicFn => "Public method: ",
        SummaryRule::PrivateFn => "Private method: ",
        SummaryRule::PublicStruct => "Public struct: ",
        SummaryRule::PublicEnum => "Public enum: ",
        SummaryRule::PublicTrait => "Public trait: ",
        SummaryRule::ImplBlock => "Implementation: ",
        SummaryRule::Section => "Section: ",
    }
}

/// Appends one rule's group to the summary.
fn append_group(out: &mut String, lines: &Vec<&str>, k: SummaryRule)
    ensures
        final(out)@ == old(out)@ + group_from(strslice_views(lines@), 0, k),
{
    let ghost linesv = strslice_views(lines@);
    let nlines = lines.len();
    let mut i: usize = 0;
    while i < nlines
        invariant
            i <= nlines,
            nlines == lines@.len(),
            linesv == strslice_views(lines@),
            out@ + group_from(linesv, i as int, k) == old(out)@ + group_from(linesv, 0, k),
        decreases nlines - i,
    {
        let line = lines[i];
        proof {
            assert(line@ == strslice_views(lines@)[i as int]);
        }
        if rule_matches(line, k) {
            out.append(label_text(k));
            out.append(trim(line));
            out.append("\n");
            proof {
                assert(out@ + group_from(linesv, i + 1, k) =~= old(out)@ + group_from(
                    linesv,
                    0,
                    k,
                ));
            }
        } else {
            proof {
                assert(group_from(linesv, i as int, k) == group_from(linesv, i + 1, k));
            }
        }
        i = i + 1;
    }
    proof {
        assert(group_from(linesv, nlines as int, k) =~= Seq::<char>::empty());
        assert(final(out)@ =~= old(out)@ + group_from(linesv, 0, k));
    }
}

/// Builds the file summary: the first five lines verbatim, then one
/// labeled line per matching rule, grouped by rule in a fixed order.
pub fn generate_summary(content: &str) -> (r: String)
    ensures
        r@ == summary_of_text(content@),
{
    let lines = split_lines(content);
    let ghost linesv = split_lines_spec(content@);
    let nlines = lines.len();
    let mut out = String::new();
    let ghost e: int = if linesv.len() < 5 {
        linesv.len() as int
    } else {
        5
    };
    if nlines > 0 {
        out.append("File start:\n");
        let head_end = if nlines < 5 {
            nlines
        } else {
            5
        };
        let mut i: usize = 0;
        while i < head_end
            invariant
                i <= head_end,
                head_end == e,
                nlines == lines@.len(),
                strslice_views(lines@) == linesv,
                e <= linesv.len(),
                out@ + head_lines(linesv, i as int, e) == "File start:\n"@ + head_lines(
                    linesv,
                    0,
                    e,
                ),
            decreases head_end - i,
        {
            let line = lines[i];
            proof {
                assert(line@ == strslice_views(lines@)[i as int]);
            }
            out.append(line);
            out.append("\n");
            proof {
                assert(out@ + head_lines(linesv, i + 1, e) =~= "File start:\n"@ + head_lines(
                    linesv,
                    0,
                    e,
                ));
            }
            i = i + 1;
        }
        proof {
            assert(head_lines(linesv, e, e) =~= Seq::<char>::empty());
            assert(out@ =~= "File start:\n"@ + head_lines(linesv, 0, e));
        }
    }
    let ghost head = out@;
    append_group(&mut out, &lines, SummaryRule::DocComment);
    append_group(&mut out, &lines, SummaryRule::ModuleDoc);
    append_group(&mut out, &lines, SummaryRule::PublicFn);
    append_group(&mut out, &lines, SummaryRule::PrivateFn);
    append_group(&mut out, &lines, SummaryRule::PublicStruct);
    append_group(&mut out, &lines, SummaryRule::PublicEnum);
    append_group(&mut out, &lines, SummaryRule::PublicTrait);
    append_group(&mut out, &lines, SummaryRule::ImplBlock);
    append_group(&mut out, &lines, SummaryRule::Section);
    proof {
        assert(out@ =~= summary_spec(linesv));
    }
    out
}

} // verus!
