//! The per-file analyzer: ties the scanner, the closure builder, and the
//! independent extractors together.

use vstd::prelude::*;
use vstd::relations::sorted_by;
use crate::closure::{build_type_relations, closed_rel, dep_edge, lex_lt_f, reach, reach_within, wf_relations};
use crate::config::{analyze_configuration, config_ok};
use crate::scanner::{
    lemma_scan_wf, rel_model_of, rels_model, rels_names, scan_relations, scan_text, view_set,
    RelModel,
};
use crate::signatures::{analyze_method_signatures, sigs_model, sigs_of_text};
use crate::summary::{generate_summary, summary_of_text};
use crate::types::{str_views, Configuration, MethodSignature, TypeRelations};

verus! {

/// Direct dependency edge between two records of the scan model.
pub open spec fn medge(ms: Seq<RelModel>, i: int, j: int) -> bool {
    &&& 0 <= i < ms.len()
    &&& 0 <= j < ms.len()
    &&& ms[i].deps.contains(ms[j].name)
}

/// `j` is reachable from `i` along at least one and at most `n + 1` edges
/// of the scan model's dependency graph.
pub open spec fn mreach_within(ms: Seq<RelModel>, i: int, j: int, n: nat) -> bool
    decreases n,
{
    medge(ms, i, j) || (n > 0 && exists|m: int|
        #[trigger] medge(ms, i, m) && mreach_within(ms, m, j, (n - 1) as nat))
}

/// `j` is reachable from `i` along one or more dependency edges of the
/// scan model.
pub open spec fn mreach(ms: Seq<RelModel>, i: int, j: int) -> bool {
    exists|n: nat| mreach_within(ms, i, j, n)
}

proof fn lemma_edge_equiv(rs: Seq<TypeRelations>, i: int, j: int)
    ensures
        dep_edge(rs, i, j) == medge(rels_model(rs), i, j),
{
    let ms = rels_model(rs);
    if 0 <= i < rs.len() && 0 <= j < rs.len() {
        assert(ms[i].deps == view_set(rs[i].depends_on@));
        assert(ms[j].name == rs[j].name@);
        assert(view_set(rs[i].depends_on@).contains(rs[j].name@) == str_views(
            rs[i].depends_on@,
        ).contains(rs[j].name@));
    }
}

proof fn lemma_reach_within_equiv(rs: Seq<TypeRelations>, i: int, j: int, n: nat)
    ensures
        reach_within(rs, i, j, n) == mreach_within(rels_model(rs), i, j, n),
    decreases n,
{
    let ms = rels_model(rs);
    lemma_edge_equiv(rs, i, j);
    if n > 0 {
        if reach_within(rs, i, j, n) && !dep_edge(rs, i, j) {
            let m = choose|m: int| #[trigger] dep_edge(rs, i, m) && reach_within(
                rs,
                m,
                j,
                (n - 1) as nat,
            );
            lemma_edge_equiv(rs, i, m);
            lemma_reach_within_equiv(rs, m, j, (n - 1) as nat);
            assert(medge(ms, i, m) && mreach_within(ms, m, j, (n - 1) as nat));
        }
        if mreach_within(ms, i, j, n) && !medge(ms, i, j) {
            let m = choose|m: int| #[trigger] medge(ms, i, m) && mreach_within(
                ms,
                m,
                j,
                (n - 1) as nat,
            );
            lemma_edge_equiv(rs, i, m);
            lemma_reach_within_equiv(rs, m, j, (n - 1) as nat);
            assert(dep_edge(rs, i, m) && reach_within(rs, m, j, (n - 1) as nat));
        }
    }
}

proof fn lemma_reach_equiv(rs: Seq<TypeRelations>, i: int, j: int)
    ensures
        reach(rs, i, j) == mreach(rels_model(rs), i, j),
{
    if reach(rs, i, j) {
        let n = choose|n: nat| reach_within(rs, i, j, n);
        lemma_reach_within_equiv(rs, i, j, n);
    }
    if mreach(rels_model(rs), i, j) {
        let n = choose|n: nat| mreach_within(rels_model(rs), i, j, n);
        lemma_reach_within_equiv(rs, i, j, n);
    }
}

/// One closed relation as the analysis returns it, stated over the scan
/// model `ms`: the name and traits of the `i`-th scanned record;
/// `depends_on` sorted and holding exactly the names this record reaches;
/// `used_by` sorted and holding exactly the names that reach it, when
/// anything depends on it directly, and the recorded users unchanged
/// otherwise.
pub open spec fn analyzed_rel(ms: Seq<RelModel>, r: TypeRelations, i: int) -> bool {
    &&& r.name@ == ms[i].name
    &&& str_views(r.implemented_traits@) == ms[i].traits
    &&& sorted_by(str_views(r.depends_on@), lex_lt_f())
    &&& forall|y: Seq<char>|
        str_views(r.depends_on@).contains(y) <==> exists|j: int|
            0 <= j < ms.len() && #[trigger] mreach(ms, i, j) && ms[j].name == y
    &&& (exists|j: int| #[trigger] medge(ms, j, i)) ==> {
        &&& sorted_by(str_views(r.used_by@), lex_lt_f())
        &&& forall|y: Seq<char>|
            str_views(r.used_by@).contains(y) <==> exists|j: int|
                0 <= j < ms.len() && #[trigger] mreach(ms, j, i) && ms[j].name == y
    }
    &&& !(exists|j: int| #[trigger] medge(ms, j, i)) ==> view_set(r.used_by@) == ms[i].used_by
}

/// The whole relation analysis of a text, stated over the scan model.
pub open spec fn analyzed_relations(rs: Seq<TypeRelations>, text: Seq<char>) -> bool {
    let ms = scan_text(text).rels;
    &&& rs.len() == ms.len()
    &&& forall|i: int| 0 <= i < ms.len() ==> analyzed_rel(ms, #[trigger] rs[i], i)
}

/// The per-file structural analyzer.  It holds no state: the extraction
/// rules are fixed, and every analysis reads only its input text.
pub struct FileAnalyzer {
}

impl FileAnalyzer {
    pub fn new() -> (r: FileAnalyzer)
    {
        FileAnalyzer {  }
    }

    /// Extracts the type relations of the text: the scanner's records, with
    /// the dependency and usage sets closed transitively and sorted.
    pub fn analyze_type_relations(&self, content: &str) -> (r: Vec<TypeRelations>)
        ensures
            analyzed_relations(r@, content@),
    {
        let mut rels = scan_relations(content);
        let ghost rs0 = rels@;
        let ghost ms = scan_text(content@).rels;
        proof {
            lemma_scan_wf(content@);
            assert forall|i: int, j: int| 0 <= i < j < rs0.len() implies rs0[i].name@
                != rs0[j].name@ by {
                assert(rels_model(rs0)[i].name == rs0[i].name@);
                assert(rels_model(rs0)[j].name == rs0[j].name@);
            }
            assert forall|i: int, k: int|
                0 <= i < rs0.len() && 0 <= k < rs0[i].depends_on@.len() implies exists|j: int|
                0 <= j < rs0.len() && rs0[j].name@ == #[trigger] rs0[i].depends_on@[k]@ by {
                let y = rs0[i].depends_on@[k]@;
                assert(str_views(rs0[i].depends_on@)[k] == y);
                assert(view_set(rs0[i].depends_on@).contains(y));
                assert(ms[i].deps.contains(y));
                assert(rels_names(ms).contains(y));
                let a = choose|a: int| 0 <= a < ms.len() && ms[a].name == y;
                assert(rs0[a].name@ == y);
            }
            assert(wf_relations(rs0));
        }
        build_type_relations(&mut rels);
        proof {
            assert forall|i: int| 0 <= i < ms.len() implies analyzed_rel(
                ms,
                #[trigger] rels@[i],
                i,
            ) by {
                assert(closed_rel(rs0, rs0[i], rels@[i], i));
                let r = rels@[i];
                assert(r.name@ == ms[i].name);
                assert(str_views(rs0[i].implemented_traits@) == ms[i].traits);
                assert forall|y: Seq<char>|
                    str_views(r.depends_on@).contains(y) <==> exists|j: int|
                        0 <= j < ms.len() && #[trigger] mreach(ms, i, j) && ms[j].name == y by {
                    if str_views(r.depends_on@).contains(y) {
                        let j = choose|j: int|
                            0 <= j < rs0.len() && #[trigger] reach(rs0, i, j) && rs0[j].name@
                                == y;
                        lemma_reach_equiv(rs0, i, j);
                        assert(mreach(ms, i, j) && ms[j].name == y);
                    }
                    if exists|j: int|
                        0 <= j < ms.len() && #[trigger] mreach(ms, i, j) && ms[j].name == y {
                        let j = choose|j: int|
                            0 <= j < ms.len() && #[trigger] mreach(ms, i, j) && ms[j].name == y;
                        lemma_reach_equiv(rs0, i, j);
                        assert(reach(rs0, i, j) && rs0[j].name@ == y);
                    }
                }
                assert forall|j: int| medge(ms, j, i) implies #[trigger] dep_edge(rs0, j, i) by {
                    lemma_edge_equiv(rs0, j, i);
                }
                assert forall|j: int| dep_edge(rs0, j, i) implies #[trigger] medge(ms, j, i) by {
                    lemma_edge_equiv(rs0, j, i);
                }
                if exists|j: int| #[trigger] medge(ms, j, i) {
                    let j0 = choose|j: int| #[trigger] medge(ms, j, i);
                    assert(dep_edge(rs0, j0, i));
                    assert forall|y: Seq<char>|
                        str_views(r.used_by@).contains(y) <==> exists|j: int|
                            0 <= j < ms.len() && #[trigger] mreach(ms, j, i) && ms[j].name
                                == y by {
                        if str_views(r.used_by@).contains(y) {
                            let j = choose|j: int|
                                0 <= j < rs0.len() && #[trigger] reach(rs0, j, i)
                                    && rs0[j].name@ == y;
                            lemma_reach_equiv(rs0, j, i);
                            assert(mreach(ms, j, i) && ms[j].name == y);
                        }
                        if exists|j: int|
                            0 <= j < ms.len() && #[trigger] mreach(ms, j, i) && ms[j].name == y {
                            let j = choose|j: int|
                                0 <= j < ms.len() && #[trigger] mreach(ms, j, i) && ms[j].name
                                    == y;
                            lemma_reach_equiv(rs0, j, i);
                            assert(reach(rs0, j, i) && rs0[j].name@ == y);
                        }
                    }
                } else {
                    if exists|j: int| #[trigger] dep_edge(rs0, j, i) {
                        let j0 = choose|j: int| #[trigger] dep_edge(rs0, j, i);
                        assert(medge(ms, j0, i));
                        assert(false);
                    }
                    assert(r.used_by@ == rs0[i].used_by@);
                    assert(view_set(r.used_by@) == ms[i].used_by);
                }
            }
        }
        rels
    }

    /// Builds the file summary; see `summary::generate_summary`.
    pub fn generate_summary(&self, content: &str) -> (r: String)
        ensures
            r@ == summary_of_text(content@),
    {
        generate_summary(content)
    }

    /// Extracts the method signatures; see
    /// `signatures::analyze_method_signatures`.
    pub fn analyze_method_signatures(&self, content: &str) -> (r: Vec<MethodSignature>)
        ensures
            sigs_model(r@) == sigs_of_text(content@),
    {
        analyze_method_signatures(content)
    }

    /// Extracts the configuration; see `config::analyze_configuration`.
    pub fn analyze_configuration(&self, content: &str) -> (r: Configuration)
        ensures
            config_ok(r, content@),
    {
        analyze_configuration(content)
    }

    /// Analyzes one file's content: the summary, the closed type relations,
    /// the method signatures, and the configuration.  The analysis is a
    /// pure function of the text; it never fails, whatever the input, and
    /// unrecognized lines only yield fewer extracted facts.
    pub fn analyze_content(&self, content: &str, _file_path: &str) -> (r: (
        String,
        Vec<TypeRelations>,
        Vec<MethodSignature>,
        Configuration,
    ))
        ensures
            r.0@ == summary_of_text(content@),
            analyzed_relations(r.1@, content@),
            sigs_model(r.2@) == sigs_of_text(content@),
            config_ok(r.3, content@),
    {
        let summary = self.generate_summary(content);
        let type_relations = self.analyze_type_relations(content);
        let method_signatures = self.analyze_method_signatures(content);
        let configuration = self.analyze_configuration(content);
        (summary, type_relations, method_signatures, configuration)
    }
}

} // verus!
