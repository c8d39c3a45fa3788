//! File categorization by name and extension.
//!
//! A pure classification: a well-known source extension wins; otherwise the
//! whole name is checked against the known configuration, documentation and
//! test name patterns, in that order.

use vstd::prelude::*;
use crate::text::{
    char_at, contains_sub, contains_sub_spec, ends_with_spec, extract, starts_with_spec, str_eq,
    str_ends_with, str_len, str_starts_with,
};
use crate::types::FileCategory;

verus! {

/// Index of the last occurrence of `c` in `s`, or `-1` when absent.
pub open spec fn last_index_of(s: Seq<char>, c: char) -> int
    decreases s.len(),
{
    if s.len() == 0 {
        -1
    } else if s.last() == c {
        s.len() - 1
    } else {
        last_index_of(s.drop_last(), c)
    }
}

pub proof fn lemma_last_index_bounds(s: Seq<char>, c: char)
    ensures
        -1 <= last_index_of(s, c) < s.len(),
        last_index_of(s, c) >= 0 ==> s[last_index_of(s, c)] == c,
    decreases s.len(),
{
    if s.len() > 0 && s.last() != c {
        lemma_last_index_bounds(s.drop_last(), c);
    }
}

proof fn lemma_last_index_skip(s: Seq<char>, c: char, i: int)
    requires
        0 <= i <= s.len(),
        forall|t: int| i <= t < s.len() ==> s[t] != c,
    ensures
        last_index_of(s, c) == last_index_of(s.take(i), c),
    decreases s.len() - i,
{
    if i < s.len() {
        assert(s.drop_last() =~= s.take(s.len() - 1));
        lemma_last_index_skip(s.drop_last(), c, i);
        assert(s.drop_last().take(i) =~= s.take(i));
    } else {
        assert(s.take(i) =~= s);
    }
}

/// Index of the last occurrence of `c`, if any.
pub fn rfind_char(s: &str, c: char) -> (r: Option<usize>)
    ensures
        match r {
            Some(j) => last_index_of(s@, c) == j as int && j < s@.len(),
            None => last_index_of(s@, c) == -1,
        },
{
    let n = str_len(s);
    let mut j = n;
    while j > 0
        invariant
            j <= n,
            n == s@.len(),
            forall|t: int| j <= t < n ==> s@[t] != c,
        decreases j,
    {
        j = j - 1;
        if char_at(s, j) == c {
            proof {
                lemma_last_index_skip(s@, c, j + 1);
                assert(s@.take(j + 1).last() == s@[j as int]);
                assert(s@.take(j + 1).len() == j + 1);
            }
            return Some(j);
        }
    }
    proof {
        lemma_last_index_skip(s@, c, 0);
        assert(s@.take(0) =~= Seq::<char>::empty());
    }
    None
}

/// The name's extension: within the portion after the last `/`, the text
/// after the last `.`, provided that dot is not the portion's first
/// character.
pub open spec fn ext_spec(s: Seq<char>) -> Option<Seq<char>> {
    let f = s.subrange(last_index_of(s, '/') + 1, s.len() as int);
    let j = last_index_of(f, '.');
    if j <= 0 {
        None
    } else {
        Some(f.subrange(j + 1, f.len() as int))
    }
}

/// The extension of a file name, if it has one.
pub fn extension_of(s: &str) -> (r: Option<String>)
    ensures
        match r {
            Some(e) => ext_spec(s@) == Some(e@),
            None => ext_spec(s@) is None,
        },
{
    let n = str_len(s);
    let k: usize = match rfind_char(s, '/') {
        Some(j) => j + 1,
        None => 0,
    };
    proof {
        lemma_last_index_bounds(s@, '/');
    }
    let f = s.substring_char(k, n);
    proof {
        assert(f@ == s@.subrange(last_index_of(s@, '/') + 1, s@.len() as int));
    }
    match rfind_char(f, '.') {
        Some(j) => {
            if j == 0 {
                None
            } else {
                let fl = str_len(f);
                Some(extract(f, j + 1, fl))
            }
        },
        None => None,
    }
}

/// A mathematical file category: the category with the source extension as
/// a character sequence.
pub enum CategoryModel {
    Source(Seq<char>),
    Configuration,
    Documentation,
    Test,
    Unknown,
}

pub open spec fn cat_model(c: FileCategory) -> CategoryModel {
    match c {
        FileCategory::Source(e) => CategoryModel::Source(e@),
        FileCategory::Configuration => CategoryModel::Configuration,
        FileCategory::Documentation => CategoryModel::Documentation,
        FileCategory::Test => CategoryModel::Test,
        FileCategory::Unknown => CategoryModel::Unknown,
    }
}

/// The well-known source extensions.
pub open spec fn is_source_ext(e: Seq<char>) -> bool {
    e == "rs"@ || e == "go"@ || e == "js"@ || e == "py"@ || e == "java"@ || e == "cpp"@ || e
        == "c"@
}

/// The well-known configuration file names.
pub open spec fn is_config_name(n: Seq<char>) -> bool {
    n == "Cargo.toml"@ || n == "package.json"@ || n == "go.mod"@ || n == "Makefile"@ || n
        == "CMakeLists.txt"@
}

/// The well-known documentation name patterns.
pub open spec fn is_doc_name(n: Seq<char>) -> bool {
    ends_with_spec(n, ".md"@) || starts_with_spec(n, "LICENSE"@) || starts_with_spec(
        n,
        "CONTRIBUTING"@,
    ) || starts_with_spec(n, "README"@) || starts_with_spec(n, "CHANGELOG"@)
}

/// The well-known test name patterns.
pub open spec fn is_test_name(n: Seq<char>) -> bool {
    contains_sub_spec(n, "test"@) || ends_with_spec(n, "_test.go"@) || ends_with_spec(
        n,
        ".test.js"@,
    ) || ends_with_spec(n, "Test.java"@) || ends_with_spec(n, "_test.py"@) || ends_with_spec(
        n,
        "_spec.rb"@,
    )
}

/// The category a file name denotes: a source extension wins; otherwise
/// the configuration, documentation and test patterns are tried in order.
pub open spec fn cat_of(name: Seq<char>) -> CategoryModel {
    match ext_spec(name) {
        Some(e) => if is_source_ext(e) {
            CategoryModel::Source(e)
        } else {
            cat_of_name(name)
        },
        None => cat_of_name(name),
    }
}

pub open spec fn cat_of_name(name: Seq<char>) -> CategoryModel {
    if is_config_name(name) {
        CategoryModel::Configuration
    } else if is_doc_name(name) {
        CategoryModel::Documentation
    } else if is_test_name(name) {
        CategoryModel::Test
    } else {
        CategoryModel::Unknown
    }
}

/// Whether the name is one of the well-known configuration files.
pub fn is_config_file(filename: &str) -> (r: bool)
    ensures
        r == is_config_name(filename@),
{
    str_eq(filename, "Cargo.toml") || str_eq(filename, "package.json") || str_eq(
        filename,
        "go.mod",
    ) || str_eq(filename, "Makefile") || str_eq(filename, "CMakeLists.txt")
}

/// Whether the name looks like documentation.
pub fn is_documentation_file(filename: &str) -> (r: bool)
    ensures
        r == is_doc_name(filename@),
{
    str_ends_with(filename, ".md") || str_starts_with(filename, "LICENSE") || str_starts_with(
        filename,
        "CONTRIBUTING",
    ) || str_starts_with(filename, "README") || str_starts_with(filename, "CHANGELOG")
}

/// Whether the name looks like a test file.
pub fn is_test_file(filename: &str) -> (r: bool)
    ensures
        r == is_test_name(filename@),
{
    contains_sub(filename, "test") || str_ends_with(filename, "_test.go") || str_ends_with(
        filename,
        ".test.js",
    ) || str_ends_with(filename, "Test.java") || str_ends_with(filename, "_test.py")
        || str_ends_with(filename, "_spec.rb")
}

/// Categorizes a file by its name: the category is a pure function of the
/// name, so two calls on equal names always agree.
pub fn categorize_file(filename: &str) -> (r: FileCategory)
    ensures
        cat_model(r) == cat_of(filename@),
{
    match extension_of(filename) {
        Some(e) => {
            let src = str_eq(e.as_str(), "rs") || str_eq(e.as_str(), "go") || str_eq(
                e.as_str(),
                "js",
            ) || str_eq(e.as_str(), "py") || str_eq(e.as_str(), "java") || str_eq(
                e.as_str(),
                "cpp",
            ) || str_eq(e.as_str(), "c");
            if src {
                FileCategory::Source(e)
            } else {
                categorize_by_name(filename)
            }
        },
        None => categorize_by_name(filename),
    }
}

fn categorize_by_name(filename: &str) -> (r: FileCategory)
    ensures
        cat_model(r) == cat_of_name(filename@),
{
    if is_config_file(filename) {
        FileCategory::Configuration
    } else if is_documentation_file(filename) {
        FileCategory::Documentation
    } else if is_test_file(filename) {
        FileCategory::Test
    } else {
        FileCategory::Unknown
    }
}

/// Categorization is pure: any two results that meet the contract of
/// `categorize_file` on the same name are the same category, whatever the
/// order or number of calls.
pub proof fn lemma_categorize_pure(name: Seq<char>, r1: FileCategory, r2: FileCategory)
    requires
        cat_model(r1) == cat_of(name),
        cat_model(r2) == cat_of(name),
    ensures
        cat_model(r1) == cat_model(r2),
{
}

} // verus!
