//! Laws of the analysis engine, stated and proved once for all inputs.

use vstd::prelude::*;
use vstd::relations::sorted_by;
use crate::closure::{
    closed_rel, dep_edge, lemma_reach_edge, lemma_reach_trans, lemma_users_iff, lex_lt_f, reach,
    reach_within, wf_relations,
};
use crate::patterns::type_decl_name_spec;
use crate::scanner::{
    scan_from, scan_init, scan_text, step_decl, step_deps, step_derive, ScanModel,
};
use crate::text::{lemma_lex_irrefl, lemma_lex_trans, split_lines_spec, trim_spec};
use crate::types::{str_views, TypeRelations};

verus! {

proof fn lemma_no_decl_from(
    lines: Seq<Seq<char>>,
    i: int,
    st: ScanModel,
    universe: Set<Seq<char>>,
)
    requires
        0 <= i <= lines.len(),
        st.cur is None,
        st.rels.len() == 0,
        forall|t: int|
            0 <= t < lines.len() ==> type_decl_name_spec(trim_spec(#[trigger] lines[t])) is None,
    ensures
        scan_from(lines, i, st, universe).cur is None,
        scan_from(lines, i, st, universe).rels.len() == 0,
    decreases lines.len() - i,
{
    if i < lines.len() {
        let next = if i + 1 < lines.len() {
            Some(trim_spec(lines[i + 1]))
        } else {
            None
        };
        let tline = trim_spec(lines[i]);
        let st1 = step_derive(st, tline, next);
        assert(st1.cur is None && st1.rels.len() == 0);
        let st2 = step_decl(st1, tline);
        assert(type_decl_name_spec(tline) is None);
        assert(st2 == st1);
        let st3 = step_deps(st2, tline, universe);
        assert(st3 == st2);
        lemma_no_decl_from(lines, i + 1, st3, universe);
    }
}

/// Text with no type declaration yields no relations: when no line matches
/// the type-declaration rule, the scan produces an empty record list — and
/// the analysis never fails on any input, since it is a total verified
/// function.
pub proof fn lemma_no_declarations_no_relations(text: Seq<char>)
    requires
        forall|t: int|
            0 <= t < split_lines_spec(text).len() ==> type_decl_name_spec(
                trim_spec(#[trigger] split_lines_spec(text)[t]),
            ) is None,
    ensures
        scan_text(text).rels.len() == 0,
{
    let lines = split_lines_spec(text);
    lemma_no_decl_from(lines, 0, scan_init(), crate::scanner::universe_spec(lines));
}

/// Two strictly sorted name lists with the same members are the same list.
pub proof fn lemma_sorted_views_unique(a: Seq<Seq<char>>, b: Seq<Seq<char>>)
    requires
        sorted_by(a, lex_lt_f()),
        sorted_by(b, lex_lt_f()),
        forall|y: Seq<char>| a.contains(y) <==> b.contains(y),
    ensures
        a == b,
    decreases a.len(),
{
    let f = lex_lt_f();
    if a.len() == 0 {
        if b.len() > 0 {
            assert(b.contains(b[0]));
            assert(a.contains(b[0]));
            assert(false);
        }
        assert(a =~= b);
    } else {
        assert(a.contains(a[0]));
        assert(b.contains(a[0]));
        let k = choose|k: int| 0 <= k < b.len() && b[k] == a[0];
        assert(a.contains(b[0]));
        let t = choose|t: int| 0 <= t < a.len() && a[t] == b[0];
        if a[0] != b[0] {
            assert(k > 0);
            assert(t > 0);
            assert(f(b[0], b[k]));
            assert(f(a[0], a[t]));
            lemma_lex_trans(a[0], b[0], a[0]);
            lemma_lex_irrefl(a[0]);
            assert(false);
        }
        let a1 = a.drop_first();
        let b1 = b.drop_first();
        assert forall|p: int, q: int| 0 <= p < q < a1.len() implies #[trigger] f(
            a1[p],
            a1[q],
        ) by {
            assert(f(a[p + 1], a[q + 1]));
        }
        assert forall|p: int, q: int| 0 <= p < q < b1.len() implies #[trigger] f(
            b1[p],
            b1[q],
        ) by {
            assert(f(b[p + 1], b[q + 1]));
        }
        assert forall|y: Seq<char>| a1.contains(y) implies b1.contains(y) by {
            let p = choose|p: int| 0 <= p < a1.len() && a1[p] == y;
            assert(a[p + 1] == y);
            assert(f(a[0], a[p + 1]));
            lemma_lex_irrefl(a[0]);
            assert(y != a[0]);
            assert(a.contains(y));
            assert(b.contains(y));
            let q = choose|q: int| 0 <= q < b.len() && b[q] == y;
            assert(q > 0);
            assert(b1[q - 1] == y);
        }
        assert forall|y: Seq<char>| b1.contains(y) implies a1.contains(y) by {
            let p = choose|p: int| 0 <= p < b1.len() && b1[p] == y;
            assert(b[p + 1] == y);
            assert(f(b[0], b[p + 1]));
            lemma_lex_irrefl(b[0]);
            assert(y != b[0]);
            assert(b.contains(y));
            assert(a.contains(y));
            let q = choose|q: int| 0 <= q < a.len() && a[q] == y;
            assert(q > 0);
            assert(a1[q - 1] == y);
        }
        lemma_sorted_views_unique(a1, b1);
        assert forall|p: int| 0 <= p < a.len() implies a[p] == b[p] by {
            if p > 0 {
                assert(a1[p - 1] == a[p]);
                assert(b1[p - 1] == b[p]);
            }
        }
        assert(a =~= b);
    }
}

proof fn lemma_edge2_is_reach(rs: Seq<TypeRelations>, rs2: Seq<TypeRelations>, i: int, j: int)
    requires
        wf_relations(rs),
        rs2.len() == rs.len(),
        forall|t: int| 0 <= t < rs.len() ==> closed_rel(rs, rs[t], #[trigger] rs2[t], t),
        0 <= i < rs.len(),
        0 <= j < rs.len(),
    ensures
        dep_edge(rs2, i, j) == reach(rs, i, j),
{
    assert(closed_rel(rs, rs[i], rs2[i], i));
    assert(closed_rel(rs, rs[j], rs2[j], j));
    if dep_edge(rs2, i, j) {
        assert(str_views(rs2[i].depends_on@).contains(rs2[j].name@));
        let j2 = choose|t: int|
            0 <= t < rs.len() && #[trigger] reach(rs, i, t) && rs[t].name@ == rs2[j].name@;
        assert(rs[j2].name@ == rs[j].name@);
        if j2 != j {
            assert(rs[j2].name@ != rs[j].name@);
            assert(false);
        }
    }
    if reach(rs, i, j) {
        assert(rs2[j].name@ == rs[j].name@);
        assert(str_views(rs2[i].depends_on@).contains(rs2[j].name@));
    }
}

proof fn lemma_reach2_to_reach(
    rs: Seq<TypeRelations>,
    rs2: Seq<TypeRelations>,
    i: int,
    j: int,
    n: nat,
)
    requires
        wf_relations(rs),
        rs2.len() == rs.len(),
        forall|t: int| 0 <= t < rs.len() ==> closed_rel(rs, rs[t], #[trigger] rs2[t], t),
        reach_within(rs2, i, j, n),
    ensures
        reach(rs, i, j),
    decreases n,
{
    if dep_edge(rs2, i, j) {
        lemma_edge2_is_reach(rs, rs2, i, j);
    } else {
        let m = choose|m: int| #[trigger] dep_edge(rs2, i, m) && reach_within(
            rs2,
            m,
            j,
            (n - 1) as nat,
        );
        lemma_edge2_is_reach(rs, rs2, i, m);
        lemma_reach2_to_reach(rs, rs2, m, j, (n - 1) as nat);
        lemma_reach_trans(rs, i, m, j);
    }
}

proof fn lemma_reach_equal(rs: Seq<TypeRelations>, rs2: Seq<TypeRelations>, i: int, j: int)
    requires
        wf_relations(rs),
        rs2.len() == rs.len(),
        forall|t: int| 0 <= t < rs.len() ==> closed_rel(rs, rs[t], #[trigger] rs2[t], t),
        0 <= i < rs.len(),
        0 <= j < rs.len(),
    ensures
        reach(rs2, i, j) == reach(rs, i, j),
{
    if reach(rs2, i, j) {
        let n = choose|n: nat| reach_within(rs2, i, j, n);
        lemma_reach2_to_reach(rs, rs2, i, j, n);
    }
    if reach(rs, i, j) {
        lemma_edge2_is_reach(rs, rs2, i, j);
        assert(reach_within(rs2, i, j, 0));
        assert(reach(rs2, i, j));
    }
}

/// Closure is idempotent: when `rs2` is the closed form of `rs` and `rs3`
/// the closed form of `rs2`, the second closing changed nothing — every
/// record keeps its name, traits, dependency list and user list.
pub proof fn lemma_closure_idempotent(
    rs: Seq<TypeRelations>,
    rs2: Seq<TypeRelations>,
    rs3: Seq<TypeRelations>,
)
    requires
        wf_relations(rs),
        rs2.len() == rs.len(),
        forall|t: int| 0 <= t < rs.len() ==> closed_rel(rs, rs[t], #[trigger] rs2[t], t),
        rs3.len() == rs2.len(),
        forall|t: int| 0 <= t < rs2.len() ==> closed_rel(rs2, rs2[t], #[trigger] rs3[t], t),
    ensures
        forall|i: int|
            0 <= i < rs.len() ==> {
                &&& (#[trigger] rs3[i]).name@ == rs2[i].name@
                &&& str_views(rs3[i].implemented_traits@) == str_views(rs2[i].implemented_traits@)
                &&& str_views(rs3[i].depends_on@) == str_views(rs2[i].depends_on@)
                &&& str_views(rs3[i].used_by@) == str_views(rs2[i].used_by@)
            },
{
    assert forall|i: int| 0 <= i < rs.len() implies {
        &&& (#[trigger] rs3[i]).name@ == rs2[i].name@
        &&& str_views(rs3[i].implemented_traits@) == str_views(rs2[i].implemented_traits@)
        &&& str_views(rs3[i].depends_on@) == str_views(rs2[i].depends_on@)
        &&& str_views(rs3[i].used_by@) == str_views(rs2[i].used_by@)
    } by {
        assert(closed_rel(rs, rs[i], rs2[i], i));
        assert(closed_rel(rs2, rs2[i], rs3[i], i));
        assert forall|y: Seq<char>| str_views(rs3[i].depends_on@).contains(y)
            <==> str_views(rs2[i].depends_on@).contains(y) by {
            if str_views(rs3[i].depends_on@).contains(y) {
                let j = choose|j: int|
                    0 <= j < rs2.len() && #[trigger] reach(rs2, i, j) && rs2[j].name@ == y;
                lemma_reach_equal(rs, rs2, i, j);
                assert(reach(rs, i, j) && rs[j].name@ == y);
            }
            if str_views(rs2[i].depends_on@).contains(y) {
                let j = choose|j: int|
                    0 <= j < rs.len() && #[trigger] reach(rs, i, j) && rs[j].name@ == y;
                lemma_reach_equal(rs, rs2, i, j);
                assert(reach(rs2, i, j) && rs2[j].name@ == y);
            }
        }
        lemma_sorted_views_unique(
            str_views(rs3[i].depends_on@),
            str_views(rs2[i].depends_on@),
        );
        assert forall|j: int| dep_edge(rs2, j, i) implies #[trigger] reach(rs, j, i) by {
            lemma_edge2_is_reach(rs, rs2, j, i);
        }
        if exists|j: int| #[trigger] dep_edge(rs2, j, i) {
            let j0 = choose|j: int| #[trigger] dep_edge(rs2, j, i);
            assert(reach(rs, j0, i));
            lemma_users_iff(rs, i);
            assert(exists|j: int| #[trigger] dep_edge(rs, j, i));
            assert forall|y: Seq<char>| str_views(rs3[i].used_by@).contains(y)
                <==> str_views(rs2[i].used_by@).contains(y) by {
                if str_views(rs3[i].used_by@).contains(y) {
                    let j = choose|j: int|
                        0 <= j < rs2.len() && #[trigger] reach(rs2, j, i) && rs2[j].name@ == y;
                    lemma_reach_equal(rs, rs2, j, i);
                    assert(reach(rs, j, i) && rs[j].name@ == y);
                }
                if str_views(rs2[i].used_by@).contains(y) {
                    let j = choose|j: int|
                        0 <= j < rs.len() && #[trigger] reach(rs, j, i) && rs[j].name@ == y;
                    lemma_reach_equal(rs, rs2, j, i);
                    assert(reach(rs2, j, i) && rs2[j].name@ == y);
                }
            }
            lemma_sorted_views_unique(str_views(rs3[i].used_by@), str_views(rs2[i].used_by@));
        } else {
            if exists|j: int| #[trigger] dep_edge(rs, j, i) {
                let j0 = choose|j: int| #[trigger] dep_edge(rs, j, i);
                lemma_reach_edge(rs, j0, i);
                lemma_edge2_is_reach(rs, rs2, j0, i);
                assert(dep_edge(rs2, j0, i));
                assert(false);
            }
            assert(rs3[i].used_by@ == rs2[i].used_by@);
        }
    }
}

} // verus!
