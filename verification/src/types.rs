//! The data model of the analysis results.

use vstd::prelude::*;

verus! {

/// What kind of file a name denotes.
#[derive(Debug, Clone, PartialEq, Eq)]
pub enum FileCategory {
    Source(String),
    Configuration,
    Documentation,
    Test,
    Unknown,
}

/// Visibility of an extracted method signature.
#[derive(Debug, Clone, PartialEq, Eq)]
pub enum Visibility {
    Public,
    Private,
    PublicCrate,
}

/// One declared type with its trait implementations and its place in the
/// type dependency graph.
#[derive(Debug, Clone, PartialEq, Eq)]
pub struct TypeRelations {
    pub name: String,
    pub implemented_traits: Vec<String>,
    pub used_by: Vec<String>,
    pub depends_on: Vec<String>,
}

/// A method signature extracted from one line.
#[derive(Debug, Clone, PartialEq, Eq)]
pub struct MethodSignature {
    pub name: String,
    pub params: Vec<String>,
    pub return_type: String,
    pub visibility: Visibility,
}

/// Module-level configuration found in a file: constants, feature flags and
/// custom attributes.
#[derive(Debug, Clone, PartialEq, Eq)]
pub struct Configuration {
    pub constants: Vec<(String, String, String)>,
    pub feature_flags: Vec<String>,
    pub custom_attributes: Vec<String>,
}

/// One entry of a repository listing, as the remote API reports it.
#[derive(Debug, Clone, PartialEq, Eq)]
pub struct GithubContent {
    pub name: String,
    pub path: String,
    pub sha: String,
    pub size: i32,
    pub url: String,
    pub content: Option<String>,
    pub encoding: Option<String>,
    pub content_type: String,
}

/// Digest of one analyzed file.
#[derive(Debug, Clone, PartialEq, Eq)]
pub struct FileSummary {
    pub path: String,
    pub size: i32,
    pub summary: String,
    pub category: FileCategory,
    pub url: String,
}

/// Shape of the repository as a whole.
#[derive(Debug, Clone, PartialEq, Eq)]
pub struct RepositoryStructure {
    pub has_src_directory: bool,
    pub has_tests: bool,
    pub has_docs: bool,
    pub primary_language: Option<String>,
    pub build_systems: Vec<String>,
    pub branch_analyzed: String,
}

/// Aggregated per-language statistics and extraction results.
#[derive(Debug, Clone, PartialEq, Eq)]
pub struct ProjectOverview {
    pub total_rust_files: i32,
    pub total_public_types: i32,
    pub total_public_functions: i32,
    pub total_tests: i32,
    pub main_modules: Vec<String>,
    pub key_types: Vec<String>,
    pub dependencies: Vec<String>,
    pub type_relations: Vec<TypeRelations>,
    pub method_signatures: Vec<MethodSignature>,
    pub configuration: Configuration,
}

/// The whole-project report.
#[derive(Debug, Clone, PartialEq, Eq)]
pub struct ProjectSummary {
    pub repo_url: String,
    pub files_analyzed: Vec<String>,
    pub total_files: i32,
    pub file_summaries: Vec<FileSummary>,
    pub important_patterns: Vec<String>,
    pub project_overview: ProjectOverview,
    pub repository_structure: RepositoryStructure,
}

/// The views of a vector of strings.
pub open spec fn str_views(v: Seq<String>) -> Seq<Seq<char>> {
    v.map_values(|s: String| s@)
}

} // verus!
