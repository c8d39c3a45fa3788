//! The pure half of the repository analysis: the aggregation rules that
//! fold one fetched entry's results into the whole-project report.  The
//! crawling itself — listing, fetching, waiting — happens outside the
//! library and feeds these functions plain values.

use vstd::prelude::*;
use vstd::string::StringExecFns;
use crate::scanner::view_set;
use crate::text::{
    contains_sub_spec, count_matches, count_occ, replace_all, replace_spec, split_lines,
    split_lines_spec, str_eq, str_starts_with, starts_with_spec, strslice_views,
};
use crate::types::{
    str_views, Configuration, FileCategory, FileSummary, MethodSignature, ProjectOverview,
    ProjectSummary, RepositoryStructure, TypeRelations,
};

verus! {

/// A fresh, empty report for one branch of one repository.
pub fn empty_project_summary(repo_url: &str, branch: &str) -> (r: ProjectSummary)
    ensures
        r.repo_url@ == repo_url@,
        r.files_analyzed@.len() == 0,
        r.total_files == 0,
        r.file_summaries@.len() == 0,
        r.important_patterns@.len() == 0,
        r.project_overview.total_rust_files == 0,
        r.project_overview.total_public_types == 0,
        r.project_overview.total_public_functions == 0,
        r.project_overview.total_tests == 0,
        r.project_overview.main_modules@.len() == 0,
        r.project_overview.key_types@.len() == 0,
        r.project_overview.dependencies@.len() == 0,
        r.project_overview.type_relations@.len() == 0,
        r.project_overview.method_signatures@.len() == 0,
        r.project_overview.configuration.constants@.len() == 0,
        r.project_overview.configuration.feature_flags@.len() == 0,
        r.project_overview.configuration.custom_attributes@.len() == 0,
        !r.repository_structure.has_src_directory,
        !r.repository_structure.has_tests,
        !r.repository_structure.has_docs,
        r.repository_structure.primary_language is None,
        r.repository_structure.build_systems@.len() == 0,
        r.repository_structure.branch_analyzed@ == branch@,
{
    ProjectSummary {
        repo_url: String::from_str(repo_url),
        files_analyzed: Vec::new(),
        total_files: 0,
        file_summaries: Vec::new(),
        important_patterns: Vec::new(),
        project_overview: ProjectOverview {
            total_rust_files: 0,
            total_public_types: 0,
            total_public_functions: 0,
            total_tests: 0,
            main_modules: Vec::new(),
            key_types: Vec::new(),
            dependencies: Vec::new(),
            type_relations: Vec::new(),
            method_signatures: Vec::new(),
            configuration: Configuration {
                constants: Vec::new(),
                feature_flags: Vec::new(),
                custom_attributes: Vec::new(),
            },
        },
        repository_structure: RepositoryStructure {
            has_src_directory: false,
            has_tests: false,
            has_docs: false,
            primary_language: None,
            build_systems: Vec::new(),
            branch_analyzed: String::from_str(branch),
        },
    }
}

/// Files above this size are skipped without being fetched.
pub const MAX_FILE_SIZE: i32 = 1000000;

/// Whether a listed file is too large to analyze.
pub fn should_skip_file(size: i32) -> (r: bool)
    ensures
        r == (size > MAX_FILE_SIZE),
{
    size > MAX_FILE_SIZE
}

/// Whether a category's content is fetched and run through the core.
pub fn should_analyze(category: &FileCategory) -> (r: bool)
    ensures
        r == match category {
            FileCategory::Source(_) => true,
            FileCategory::Configuration => true,
            FileCategory::Documentation => true,
            FileCategory::Test => false,
            FileCategory::Unknown => false,
        },
{
    match category {
        FileCategory::Source(_) => true,
        FileCategory::Configuration => true,
        FileCategory::Documentation => true,
        FileCategory::Test => false,
        FileCategory::Unknown => false,
    }
}

/// The module name a source path denotes: the path with the source-root
/// prefix text and the source extension text removed.
pub open spec fn module_name_spec(path: Seq<char>) -> Seq<char> {
    replace_spec(replace_spec(path, "src/"@, ""@), ".rs"@, ""@)
}

/// Derives the module name of a directory path under the source root.
pub fn module_name_of(path: &str) -> (r: String)
    ensures
        r@ == module_name_spec(path@),
{
    proof {
        reveal_strlit("src/");
        reveal_strlit(".rs");
    }
    let s1 = replace_all(path, "src/", "");
    replace_all(s1.as_str(), ".rs", "")
}

/// Folds a directory entry into the report: a path under the source root
/// marks the source directory and records the module name once.
pub fn record_directory(ps: &mut ProjectSummary, path: &str)
    ensures
        (*final(ps) == ProjectSummary {
            project_overview: ProjectOverview {
                main_modules: final(ps).project_overview.main_modules,
                ..old(ps).project_overview
            },
            repository_structure: RepositoryStructure {
                has_src_directory: final(ps).repository_structure.has_src_directory,
                ..old(ps).repository_structure
            },
            ..*old(ps)
        }),
        ({
            let mods0 = old(ps).project_overview.main_modules@;
            let m = module_name_spec(path@);
            if starts_with_spec(path@, "src/"@) {
                &&& final(ps).repository_structure.has_src_directory
                &&& if m.len() > 0 && !view_set(mods0).contains(m) {
                    str_views(final(ps).project_overview.main_modules@) =~= str_views(mods0).push(
                        m,
                    )
                } else {
                    final(ps).project_overview.main_modules@ == mods0
                }
            } else {
                *final(ps) == *old(ps)
            }
        }),
{
    if str_starts_with(path, "src/") {
        let name = module_name_of(path);
        if name.as_str().unicode_len() > 0 && !crate::scanner::vec_contains_str(
            &ps.project_overview.main_modules,
            name.as_str(),
        ) {
            let ghost mods0 = ps.project_overview.main_modules@;
            ps.project_overview.main_modules.push(name);
            proof {
                assert(str_views(ps.project_overview.main_modules@) =~= str_views(mods0).push(
                    module_name_spec(path@),
                ));
            }
        }
        ps.repository_structure.has_src_directory = true;
    }
}

/// Folds one file's category into the repository structure: source paths
/// under the source root mark it, tests and documentation set their flags,
/// and configuration files record their build system.
pub fn update_project_structure(ps: &mut ProjectSummary, path: &str, name: &str, category: &FileCategory)
    ensures
        (*final(ps) == ProjectSummary {
            repository_structure: final(ps).repository_structure,
            ..*old(ps)
        }),
        (final(ps).repository_structure == RepositoryStructure {
            has_src_directory: final(ps).repository_structure.has_src_directory,
            has_tests: final(ps).repository_structure.has_tests,
            has_docs: final(ps).repository_structure.has_docs,
            build_systems: final(ps).repository_structure.build_systems,
            ..old(ps).repository_structure
        }),
        match category {
            FileCategory::Source(_) => {
                let was = old(ps).repository_structure.has_src_directory;
                &&& final(ps).repository_structure.has_src_directory == (was || starts_with_spec(
                    path@,
                    "src/"@,
                ))
                &&& final(ps).repository_structure.has_tests == old(
                    ps,
                ).repository_structure.has_tests
                &&& final(ps).repository_structure.has_docs == old(
                    ps,
                ).repository_structure.has_docs
                &&& final(ps).repository_structure.build_systems == old(
                    ps,
                ).repository_structure.build_systems
            },
            FileCategory::Test => {
                &&& final(ps).repository_structure.has_tests
                &&& final(ps).repository_structure.has_src_directory == old(
                    ps,
                ).repository_structure.has_src_directory
                &&& final(ps).repository_structure.has_docs == old(
                    ps,
                ).repository_structure.has_docs
                &&& final(ps).repository_structure.build_systems == old(
                    ps,
                ).repository_structure.build_systems
            },
            FileCategory::Documentation => {
                &&& final(ps).repository_structure.has_docs
                &&& final(ps).repository_structure.has_src_directory == old(
                    ps,
                ).repository_structure.has_src_directory
                &&& final(ps).repository_structure.has_tests == old(
                    ps,
                ).repository_structure.has_tests
                &&& final(ps).repository_structure.build_systems == old(
                    ps,
                ).repository_structure.build_systems
            },
            FileCategory::Configuration => {
                &&& build_systems_updated(
                    old(ps).repository_structure.build_systems@,
                    final(ps).repository_structure.build_systems@,
                    name@,
                )
                &&& final(ps).repository_structure.has_src_directory == old(
                    ps,
                ).repository_structure.has_src_directory
                &&& final(ps).repository_structure.has_tests == old(
                    ps,
                ).repository_structure.has_tests
                &&& final(ps).repository_structure.has_docs == old(
                    ps,
                ).repository_structure.has_docs
            },
            FileCategory::Unknown => *final(ps) == *old(ps),
        },
{
    match category {
        FileCategory::Source(_) => {
            if str_starts_with(path, "src/") {
                ps.repository_structure.has_src_directory = true;
            }
        },
        FileCategory::Test => {
            ps.repository_structure.has_tests = true;
        },
        FileCategory::Documentation => {
            ps.repository_structure.has_docs = true;
        },
        FileCategory::Configuration => {
            update_build_systems(ps, name);
        },
        FileCategory::Unknown => {},
    }
}

/// The build system a well-known configuration file name denotes.
pub open spec fn build_system_of(name: Seq<char>) -> Option<Seq<char>> {
    if name == "Cargo.toml"@ {
        Some("Rust/Cargo"@)
    } else if name == "package.json"@ {
        Some("Node.js/npm"@)
    } else if name == "go.mod"@ {
        Some("Go/modules"@)
    } else if name == "pom.xml"@ {
        Some("Java/Maven"@)
    } else if name == "build.gradle"@ {
        Some("Java/Gradle"@)
    } else if name == "CMakeLists.txt"@ {
        Some("C++/CMake"@)
    } else {
        None
    }
}

/// The recorded build systems after seeing a configuration file: the
/// denoted system appended once, when the name denotes one.
pub open spec fn build_systems_updated(
    before: Seq<String>,
    after: Seq<String>,
    name: Seq<char>,
) -> bool {
    match build_system_of(name) {
        Some(b) => if view_set(before).contains(b) {
            after == before
        } else {
            str_views(after) == str_views(before).push(b)
        },
        None => after == before,
    }
}

/// Records the build system that a configuration file name denotes, once.
pub fn update_build_systems(ps: &mut ProjectSummary, filename: &str)
    ensures
        build_systems_updated(
            old(ps).repository_structure.build_systems@,
            final(ps).repository_structure.build_systems@,
            filename@,
        ),
        (*final(ps) == ProjectSummary {
            repository_structure: RepositoryStructure {
                build_systems: final(ps).repository_structure.build_systems,
                ..old(ps).repository_structure
            },
            ..*old(ps)
        }),
{
    let system: Option<&str> = if str_eq(filename, "Cargo.toml") {
        Some("Rust/Cargo")
    } else if str_eq(filename, "package.json") {
        Some("Node.js/npm")
    } else if str_eq(filename, "go.mod") {
        Some("Go/modules")
    } else if str_eq(filename, "pom.xml") {
        Some("Java/Maven")
    } else if str_eq(filename, "build.gradle") {
        Some("Java/Gradle")
    } else if str_eq(filename, "CMakeLists.txt") {
        Some("C++/CMake")
    } else {
        None
    };
    match system {
        Some(b) => {
            if !crate::scanner::vec_contains_str(&ps.repository_structure.build_systems, b) {
                let ghost before = ps.repository_structure.build_systems@;
                ps.repository_structure.build_systems.push(String::from_str(b));
                proof {
                    assert(str_views(ps.repository_structure.build_systems@) =~= str_views(
                        before,
                    ).push(b@));
                }
            }
        },
        None => {},
    }
}

/// Adds `d` to a running `i32` counter, saturating at the counter's
/// maximum instead of overflowing.
pub fn saturating_count(total: i32, d: usize) -> (r: i32)
    ensures
        total >= 0 ==> (if total + d <= i32::MAX {
            r == total + d
        } else {
            r == i32::MAX
        }),
{
    if d > i32::MAX as usize {
        i32::MAX
    } else if total >= 0 && total <= i32::MAX - (d as i32) {
        total + (d as i32)
    } else if total < 0 {
        if total + (d as i32) <= i32::MAX {
            total + (d as i32)
        } else {
            i32::MAX
        }
    } else {
        i32::MAX
    }
}

/// Folds one analyzed source file's results into the language statistics:
/// the relations, signatures and configuration are appended, and the
/// public-type, public-function and test counters grow by the labeled
/// lines counted in the summary (saturating at the counters' maximum).
pub fn update_rust_stats(
    ps: &mut ProjectSummary,
    summary: &str,
    type_relations: Vec<TypeRelations>,
    method_signatures: Vec<MethodSignature>,
    configuration: Configuration,
)
    requires
        count_occ(summary@, "Public struct: "@) + count_occ(summary@, "Public enum: "@)
            + count_occ(summary@, "Public trait: "@) <= usize::MAX,
    ensures
        final(ps).repo_url == old(ps).repo_url,
        final(ps).files_analyzed == old(ps).files_analyzed,
        final(ps).total_files == old(ps).total_files,
        final(ps).file_summaries == old(ps).file_summaries,
        final(ps).important_patterns == old(ps).important_patterns,
        final(ps).repository_structure == old(ps).repository_structure,
        final(ps).project_overview.total_rust_files == old(ps).project_overview.total_rust_files,
        final(ps).project_overview.main_modules == old(ps).project_overview.main_modules,
        final(ps).project_overview.key_types == old(ps).project_overview.key_types,
        final(ps).project_overview.dependencies == old(ps).project_overview.dependencies,
        final(ps).project_overview.type_relations@ == old(
            ps,
        ).project_overview.type_relations@ + type_relations@,
        final(ps).project_overview.method_signatures@ == old(
            ps,
        ).project_overview.method_signatures@ + method_signatures@,
        final(ps).project_overview.configuration.constants@ == old(
            ps,
        ).project_overview.configuration.constants@ + configuration.constants@,
        final(ps).project_overview.configuration.feature_flags@ == old(
            ps,
        ).project_overview.configuration.feature_flags@ + configuration.feature_flags@,
        final(ps).project_overview.configuration.custom_attributes@ == old(
            ps,
        ).project_overview.configuration.custom_attributes@ + configuration.custom_attributes@,
        ({
            let types = count_occ(summary@, "Public struct: "@) + count_occ(
                summary@,
                "Public enum: "@,
            ) + count_occ(summary@, "Public trait: "@);
            old(ps).project_overview.total_public_types >= 0 ==> (if old(
                ps,
            ).project_overview.total_public_types + types <= i32::MAX {
                final(ps).project_overview.total_public_types == old(
                    ps,
                ).project_overview.total_public_types + types
            } else {
                final(ps).project_overview.total_public_types == i32::MAX
            })
        }),
        ({
            let fns = lines_with(split_lines_spec(summary@), "Public method: "@, 0);
            old(ps).project_overview.total_public_functions >= 0 ==> (if old(
                ps,
            ).project_overview.total_public_functions + fns <= i32::MAX {
                final(ps).project_overview.total_public_functions == old(
                    ps,
                ).project_overview.total_public_functions + fns
            } else {
                final(ps).project_overview.total_public_functions == i32::MAX
            })
        }),
        ({
            let tests = count_occ(summary@, "Unit test: "@);
            old(ps).project_overview.total_tests >= 0 ==> (if old(
                ps,
            ).project_overview.total_tests + tests <= i32::MAX {
                final(ps).project_overview.total_tests == old(ps).project_overview.total_tests
                    + tests
            } else {
                final(ps).project_overview.total_tests == i32::MAX
            })
        }),
{
    proof {
        reveal_strlit("Public struct: ");
        reveal_strlit("Public enum: ");
        reveal_strlit("Public trait: ");
        reveal_strlit("Unit test: ");
    }
    let mut tr = type_relations;
    ps.project_overview.type_relations.append(&mut tr);
    let mut msv = method_signatures;
    ps.project_overview.method_signatures.append(&mut msv);
    let mut cst = configuration.constants;
    ps.project_overview.configuration.constants.append(&mut cst);
    let mut ff = configuration.feature_flags;
    ps.project_overview.configuration.feature_flags.append(&mut ff);
    let mut ca = configuration.custom_attributes;
    ps.project_overview.configuration.custom_attributes.append(&mut ca);
    let types = count_matches(summary, "Public struct: ") + count_matches(summary, "Public enum: ")
        + count_matches(summary, "Public trait: ");
    ps.project_overview.total_public_types = saturating_count(
        ps.project_overview.total_public_types,
        types,
    );
    let fns = count_lines_with(summary, "Public method: ");
    ps.project_overview.total_public_functions = saturating_count(
        ps.project_overview.total_public_functions,
        fns,
    );
    let tests = count_matches(summary, "Unit test: ");
    ps.project_overview.total_tests = saturating_count(ps.project_overview.total_tests, tests);
}

/// The number of lines from index `i` on that contain `pat`.
pub open spec fn lines_with(lines: Seq<Seq<char>>, pat: Seq<char>, i: int) -> nat
    decreases lines.len() - i,
    when 0 <= i <= lines.len()
{
    if i >= lines.len() {
        0
    } else {
        (if contains_sub_spec(lines[i], pat) {
            1nat
        } else {
            0nat
        }) + lines_with(lines, pat, i + 1)
    }
}

/// Counts the lines of `s` that contain `pat`.
pub fn count_lines_with(s: &str, pat: &str) -> (r: usize)
    ensures
        r == lines_with(split_lines_spec(s@), pat@, 0),
{
    let lines = split_lines(s);
    let ghost linesv = split_lines_spec(s@);
    let n = lines.len();
    let mut r: usize = 0;
    let mut i: usize = 0;
    while i < n
        invariant
            i <= n,
            n == lines@.len(),
            strslice_views(lines@) == linesv,
            r <= i,
            r + lines_with(linesv, pat@, i as int) == lines_with(linesv, pat@, 0),
        decreases n - i,
    {
        let line = lines[i];
        proof {
            assert(line@ == strslice_views(lines@)[i as int]);
        }
        if crate::text::contains_sub(line, pat) {
            r = r + 1;
        }
        i = i + 1;
    }
    r
}

/// The number of source files among the summaries whose language is `l`.
pub open spec fn lang_count(fss: Seq<FileSummary>, l: Seq<char>, i: int) -> nat
    decreases fss.len() - i,
    when 0 <= i <= fss.len()
{
    if i >= fss.len() {
        0
    } else {
        (match fss[i].category {
            FileCategory::Source(e) => if e@ == l {
                1nat
            } else {
                0nat
            },
            _ => 0nat,
        }) + lang_count(fss, l, i + 1)
    }
}

/// Whether any summary is a source file.
pub open spec fn has_source(fss: Seq<FileSummary>) -> bool {
    exists|i: int| 0 <= i < fss.len() && (#[trigger] fss[i].category) is Source
}

/// Finalizes the report: the total file count, and the primary language —
/// a language of some analyzed source file that no other language
/// outnumbers; none when no source file was analyzed.
pub fn finalize_analysis(ps: &mut ProjectSummary)
    requires
        old(ps).files_analyzed@.len() <= i32::MAX,
        old(ps).file_summaries@.len() < usize::MAX,
    ensures
        final(ps).total_files == old(ps).files_analyzed@.len(),
        (*final(ps) == ProjectSummary {
            total_files: final(ps).total_files,
            repository_structure: RepositoryStructure {
                primary_language: final(ps).repository_structure.primary_language,
                ..old(ps).repository_structure
            },
            ..*old(ps)
        }),
        has_source(old(ps).file_summaries@) ==> match final(
            ps).repository_structure.primary_language {
            Some(l) => lang_count(old(ps).file_summaries@, l@, 0) >= 1 && forall|m: Seq<char>|
                #[trigger] lang_count(old(ps).file_summaries@, m, 0) <= lang_count(
                    old(ps).file_summaries@,
                    l@,
                    0,
                ),
            None => false,
        },
        !has_source(old(ps).file_summaries@) ==> final(ps).repository_structure.primary_language
            == old(ps).repository_structure.primary_language,
{
    ps.total_files = ps.files_analyzed.len() as i32;
    let ghost fss = ps.file_summaries@;
    let n = ps.file_summaries.len();
    let mut best: Option<String> = None;
    let mut best_count: usize = 0;
    let mut i: usize = 0;
    while i < n
        invariant
            i <= n,
            n == ps.file_summaries@.len(),
            fss == ps.file_summaries@,
            n < usize::MAX,
            ps.total_files == old(ps).files_analyzed@.len(),
            ps.files_analyzed == old(ps).files_analyzed,
            ps.file_summaries == old(ps).file_summaries,
            ps.project_overview == old(ps).project_overview,
            ps.repository_structure == old(ps).repository_structure,
            match best {
                Some(l) => best_count == lang_count(fss, l@, 0) && best_count >= 1 && (forall|
                    t: int,
                |
                    0 <= t < i ==> match #[trigger] fss[t].category {
                        FileCategory::Source(e) => lang_count(fss, e@, 0) <= best_count,
                        _ => true,
                    }),
                None => best_count == 0 && (forall|t: int|
                    0 <= t < i ==> !((#[trigger] fss[t].category) is Source)),
            },
        decreases n - i,
    {
        let fs = &ps.file_summaries[i];
        match &fs.category {
            FileCategory::Source(lang) => {
                let c = count_lang(&ps.file_summaries, lang.as_str());
                if c > best_count {
                    best_count = c;
                    best = Some(String::from_str(lang.as_str()));
                }
                proof {
                    assert(lang_count(fss, fss[i as int].category->Source_0@, 0) >= 1) by {
                        lemma_lang_count_at(fss, fss[i as int].category->Source_0@, i as int);
                    }
                }
            },
            _ => {},
        }
        i = i + 1;
    }
    match best {
        Some(l) => {
            proof {
                assert(lang_count(fss, l@, 0) >= 1);
                lemma_lang_count_pos(fss, l@, 0);
                let t = choose|t: int|
                    0 <= t < fss.len() && ((#[trigger] fss[t].category) matches
                        FileCategory::Source(e) && e@ == l@);
                assert((fss[t].category) is Source);
                assert(has_source(fss));
                assert forall|m: Seq<char>| #[trigger] lang_count(fss, m, 0) <= lang_count(
                    fss,
                    l@,
                    0,
                ) by {
                    if lang_count(fss, m, 0) >= 1 {
                        lemma_lang_count_pos(fss, m, 0);
                        let t2 = choose|t2: int|
                            0 <= t2 < fss.len() && ((#[trigger] fss[t2].category) matches
                                FileCategory::Source(e) && e@ == m);
                        assert(match fss[t2].category {
                            FileCategory::Source(e) => lang_count(fss, e@, 0) <= best_count,
                            _ => true,
                        });
                    }
                }
            }
            ps.repository_structure.primary_language = Some(l);
        },
        None => {
            proof {
                if has_source(fss) {
                    let t = choose|t: int|
                        0 <= t < fss.len() && (#[trigger] fss[t].category) is Source;
                    assert(!((fss[t].category) is Source));
                    assert(false);
                }
            }
        },
    }
}

proof fn lemma_lang_count_pos(fss: Seq<FileSummary>, l: Seq<char>, i: int)
    requires
        0 <= i <= fss.len(),
        lang_count(fss, l, i) >= 1,
    ensures
        exists|t: int|
            0 <= t < fss.len() && ((#[trigger] fss[t].category) matches FileCategory::Source(e)
                && e@ == l),
    decreases fss.len() - i,
{
    if i < fss.len() {
        match fss[i].category {
            FileCategory::Source(e) => {
                if e@ == l {
                } else {
                    lemma_lang_count_pos(fss, l, i + 1);
                }
            },
            _ => {
                lemma_lang_count_pos(fss, l, i + 1);
            },
        }
    }
}

proof fn lemma_lang_count_at(fss: Seq<FileSummary>, l: Seq<char>, i: int)
    requires
        0 <= i < fss.len(),
        fss[i].category matches FileCategory::Source(e) && e@ == l,
    ensures
        lang_count(fss, l, 0) >= 1,
{
    lemma_lang_count_split(fss, l, 0, i);
}

proof fn lemma_lang_count_split(fss: Seq<FileSummary>, l: Seq<char>, i: int, t: int)
    requires
        0 <= i <= t < fss.len(),
        fss[t].category matches FileCategory::Source(e) && e@ == l,
    ensures
        lang_count(fss, l, i) >= 1,
    decreases t - i,
{
    if i < t {
        lemma_lang_count_split(fss, l, i + 1, t);
    }
}

/// Counts the source files whose language is `l`.
fn count_lang(fss: &Vec<FileSummary>, l: &str) -> (r: usize)
    requires
        fss@.len() < usize::MAX,
    ensures
        r == lang_count(fss@, l@, 0),
{
    let n = fss.len();
    let mut r: usize = 0;
    let mut i: usize = 0;
    while i < n
        invariant
            i <= n,
            n == fss@.len(),
            n < usize::MAX,
            r <= i,
            r + lang_count(fss@, l@, i as int) == lang_count(fss@, l@, 0),
        decreases n - i,
    {
        let fs = &fss[i];
        match &fs.category {
            FileCategory::Source(e) => {
                if str_eq(e.as_str(), l) {
                    r = r + 1;
                }
            },
            _ => {},
        }
        i = i + 1;
    }
    r
}

/// Whether a category is Rust source.
pub open spec fn is_rust_source(category: FileCategory) -> bool {
    category matches FileCategory::Source(e) && e@ == "rs"@
}

/// Folds one analyzed file into the report: a Rust source file bumps the
/// Rust file counter and adds its extraction results to the language
/// statistics, and the file's digest is appended in every case.
pub fn update_project_summary(
    ps: &mut ProjectSummary,
    path: &str,
    size: i32,
    url: &str,
    summary: String,
    type_relations: Vec<TypeRelations>,
    method_signatures: Vec<MethodSignature>,
    configuration: Configuration,
    category: FileCategory,
)
    requires
        count_occ(summary@, "Public struct: "@) + count_occ(summary@, "Public enum: "@)
            + count_occ(summary@, "Public trait: "@) <= usize::MAX,
    ensures
        final(ps).repo_url == old(ps).repo_url,
        final(ps).files_analyzed == old(ps).files_analyzed,
        final(ps).total_files == old(ps).total_files,
        final(ps).repository_structure == old(ps).repository_structure,
        final(ps).file_summaries@.len() == old(ps).file_summaries@.len() + 1,
        final(ps).file_summaries@.take(old(ps).file_summaries@.len() as int) == old(
            ps,
        ).file_summaries@,
        ({
            let last = final(ps).file_summaries@.last();
            &&& last.path@ == path@
            &&& last.size == size
            &&& last.summary == summary
            &&& last.category == category
            &&& last.url@ == url@
        }),
        !is_rust_source(category) ==> final(ps).project_overview == old(ps).project_overview,
        is_rust_source(category) ==> {
            &&& final(ps).project_overview.type_relations@ == old(
                ps,
            ).project_overview.type_relations@ + type_relations@
            &&& final(ps).project_overview.method_signatures@ == old(
                ps,
            ).project_overview.method_signatures@ + method_signatures@
            &&& final(ps).project_overview.configuration.constants@ == old(
                ps,
            ).project_overview.configuration.constants@ + configuration.constants@
            &&& final(ps).project_overview.configuration.feature_flags@ == old(
                ps,
            ).project_overview.configuration.feature_flags@ + configuration.feature_flags@
            &&& final(ps).project_overview.configuration.custom_attributes@ == old(
                ps,
            ).project_overview.configuration.custom_attributes@ + configuration.custom_attributes@
            &&& final(ps).project_overview.main_modules == old(ps).project_overview.main_modules
            &&& final(ps).project_overview.key_types == old(ps).project_overview.key_types
            &&& final(ps).project_overview.dependencies == old(ps).project_overview.dependencies
            &&& (old(ps).project_overview.total_rust_files >= 0 ==> (if old(
                ps,
            ).project_overview.total_rust_files + 1 <= i32::MAX {
                final(ps).project_overview.total_rust_files == old(
                    ps,
                ).project_overview.total_rust_files + 1
            } else {
                final(ps).project_overview.total_rust_files == i32::MAX
            }))
            &&& ({
                let tests = count_occ(summary@, "Unit test: "@);
                old(ps).project_overview.total_tests >= 0 ==> (if old(
                    ps,
                ).project_overview.total_tests + tests <= i32::MAX {
                    final(ps).project_overview.total_tests == old(ps).project_overview.total_tests
                        + tests
                } else {
                    final(ps).project_overview.total_tests == i32::MAX
                })
            })
            &&& ({
                let types = count_occ(summary@, "Public struct: "@) + count_occ(
                    summary@,
                    "Public enum: "@,
                ) + count_occ(summary@, "Public trait: "@);
                old(ps).project_overview.total_public_types >= 0 ==> (if old(
                    ps,
                ).project_overview.total_public_types + types <= i32::MAX {
                    final(ps).project_overview.total_public_types == old(
                        ps,
                    ).project_overview.total_public_types + types
                } else {
                    final(ps).project_overview.total_public_types == i32::MAX
                })
            })
            &&& ({
                let fns = lines_with(split_lines_spec(summary@), "Public method: "@, 0);
                old(ps).project_overview.total_public_functions >= 0 ==> (if old(
                    ps,
                ).project_overview.total_public_functions + fns <= i32::MAX {
                    final(ps).project_overview.total_public_functions == old(
                        ps,
                    ).project_overview.total_public_functions + fns
                } else {
                    final(ps).project_overview.total_public_functions == i32::MAX
                })
            })
        },
{
    let is_rs = match &category {
        FileCategory::Source(lang) => str_eq(lang.as_str(), "rs"),
        _ => false,
    };
    let ghost ov0 = ps.project_overview;
    if is_rs {
        ps.project_overview.total_rust_files = saturating_count(
            ps.project_overview.total_rust_files,
            1,
        );
        update_rust_stats(ps, summary.as_str(), type_relations, method_signatures, configuration);
    }
    let ghost fs0 = ps.file_summaries@;
    ps.file_summaries.push(
        FileSummary {
            path: String::from_str(path),
            size,
            summary,
            category,
            url: String::from_str(url),
        },
    );
    proof {
        assert(ps.file_summaries@.take(fs0.len() as int) =~= fs0);
    }
}

} // verus!
