//! Transitive closure of the type-relation graph.
//!
//! The closure is computed by iterative fixed-point relaxation over an
//! explicit adjacency matrix: every pass unions each type's reachable set
//! with the sets of its neighbours, until a full pass changes nothing.  The
//! result is proved to hold exactly the pairs connected by one or more
//! dependency edges, so cycles terminate and a type can reach itself.

use vstd::prelude::*;
use vstd::relations::sorted_by;
use crate::text::{lemma_lex_connected, lemma_lex_trans, lex_lt, str_eq, str_lt};
use crate::types::{str_views, TypeRelations};

verus! {

/// Well-formed relation list: distinct type names, and every dependency
/// entry among the listed type names.
pub open spec fn wf_relations(rs: Seq<TypeRelations>) -> bool {
    &&& forall|i: int, j: int|
        0 <= i < j < rs.len() ==> rs[i].name@ != rs[j].name@
    &&& forall|i: int, k: int|
        0 <= i < rs.len() && 0 <= k < rs[i].depends_on@.len() ==> exists|j: int|
            0 <= j < rs.len() && rs[j].name@ == #[trigger] rs[i].depends_on@[k]@
}

/// Direct dependency edge between two indices of the relation list.
pub open spec fn dep_edge(rs: Seq<TypeRelations>, i: int, j: int) -> bool {
    &&& 0 <= i < rs.len()
    &&& 0 <= j < rs.len()
    &&& str_views(rs[i].depends_on@).contains(rs[j].name@)
}

/// `j` is reachable from `i` along at least one and at most `n + 1`
/// dependency edges.
pub open spec fn reach_within(rs: Seq<TypeRelations>, i: int, j: int, n: nat) -> bool
    decreases n,
{
    dep_edge(rs, i, j) || (n > 0 && exists|m: int|
        #[trigger] dep_edge(rs, i, m) && reach_within(rs, m, j, (n - 1) as nat))
}

/// `j` is reachable from `i` along one or more dependency edges.
pub open spec fn reach(rs: Seq<TypeRelations>, i: int, j: int) -> bool {
    exists|n: nat| reach_within(rs, i, j, n)
}

pub proof fn lemma_reach_bounds(rs: Seq<TypeRelations>, i: int, j: int, n: nat)
    requires
        reach_within(rs, i, j, n),
    ensures
        0 <= i < rs.len(),
        0 <= j < rs.len(),
    decreases n,
{
    if !dep_edge(rs, i, j) {
        let m = choose|m: int| #[trigger] dep_edge(rs, i, m) && reach_within(
            rs,
            m,
            j,
            (n - 1) as nat,
        );
        lemma_reach_bounds(rs, m, j, (n - 1) as nat);
    }
}

pub proof fn lemma_reach_within_mono(rs: Seq<TypeRelations>, i: int, j: int, n1: nat, n2: nat)
    requires
        n1 <= n2,
        reach_within(rs, i, j, n1),
    ensures
        reach_within(rs, i, j, n2),
    decreases n1,
{
    if !dep_edge(rs, i, j) {
        let m = choose|m: int| #[trigger] dep_edge(rs, i, m) && reach_within(
            rs,
            m,
            j,
            (n1 - 1) as nat,
        );
        lemma_reach_within_mono(rs, m, j, (n1 - 1) as nat, (n2 - 1) as nat);
        assert(dep_edge(rs, i, m) && reach_within(rs, m, j, (n2 - 1) as nat));
    }
}

pub proof fn lemma_reach_within_trans(
    rs: Seq<TypeRelations>,
    i: int,
    j: int,
    k: int,
    n1: nat,
    n2: nat,
)
    requires
        reach_within(rs, i, j, n1),
        reach_within(rs, j, k, n2),
    ensures
        reach_within(rs, i, k, (n1 + n2 + 1) as nat),
    decreases n1,
{
    if dep_edge(rs, i, j) {
        lemma_reach_within_mono(rs, j, k, n2, (n1 + n2) as nat);
        assert(dep_edge(rs, i, j) && reach_within(rs, j, k, (n1 + n2) as nat));
    } else {
        let m = choose|m: int| #[trigger] dep_edge(rs, i, m) && reach_within(
            rs,
            m,
            j,
            (n1 - 1) as nat,
        );
        lemma_reach_within_trans(rs, m, j, k, (n1 - 1) as nat, n2);
        assert(dep_edge(rs, i, m) && reach_within(rs, m, k, (n1 + n2) as nat));
    }
}

/// Reachability composes across an intermediate type.
pub proof fn lemma_reach_trans(rs: Seq<TypeRelations>, i: int, j: int, k: int)
    requires
        reach(rs, i, j),
        reach(rs, j, k),
    ensures
        reach(rs, i, k),
{
    let n1 = choose|n: nat| reach_within(rs, i, j, n);
    let n2 = choose|n: nat| reach_within(rs, j, k, n);
    lemma_reach_within_trans(rs, i, j, k, n1, n2);
}

/// Every direct edge is a reachability pair.
pub proof fn lemma_reach_edge(rs: Seq<TypeRelations>, i: int, j: int)
    requires
        dep_edge(rs, i, j),
    ensures
        reach(rs, i, j),
{
    assert(reach_within(rs, i, j, 0));
}

/// View of a boolean matrix.
pub open spec fn matv(m: Vec<Vec<bool>>) -> Seq<Seq<bool>> {
    m@.map_values(|r: Vec<bool>| r@)
}

pub open spec fn square(g: Seq<Seq<bool>>, n: int) -> bool {
    g.len() == n && forall|i: int| 0 <= i < n ==> #[trigger] g[i].len() == n
}

/// Every set entry is a true reachability pair.
pub open spec fn sound(g: Seq<Seq<bool>>, rs: Seq<TypeRelations>) -> bool {
    forall|i: int, j: int|
        0 <= i < rs.len() && 0 <= j < rs.len() && #[trigger] g[i][j] ==> reach(rs, i, j)
}

/// Every direct edge is set.
pub open spec fn covers(g: Seq<Seq<bool>>, rs: Seq<TypeRelations>) -> bool {
    forall|i: int, j: int| dep_edge(rs, i, j) ==> #[trigger] g[i][j]
}

pub open spec fn triple_ok(g: Seq<Seq<bool>>, a: int, b: int, c: int) -> bool {
    g[a][b] && g[b][c] ==> g[a][c]
}

/// The matrix is transitively closed.
pub open spec fn closed(g: Seq<Seq<bool>>, n: int) -> bool {
    forall|a: int, b: int, c: int|
        0 <= a < n && 0 <= b < n && 0 <= c < n ==> #[trigger] triple_ok(g, a, b, c)
}

pub open spec fn triple_before(a: int, b: int, c: int, i: int, j: int, k: int) -> bool {
    a < i || (a == i && b < j) || (a == i && b == j && c < k)
}

/// The matrix is closed on every triple that precedes `(i, j, k)` in the
/// scanning order of one relaxation pass.
pub open spec fn closed_before(g: Seq<Seq<bool>>, n: int, i: int, j: int, k: int) -> bool {
    forall|a: int, b: int, c: int|
        0 <= a < n && 0 <= b < n && 0 <= c < n && triple_before(a, b, c, i, j, k)
            ==> #[trigger] triple_ok(g, a, b, c)
}

pub open spec fn count_row(r: Seq<bool>) -> nat
    decreases r.len(),
{
    if r.len() == 0 {
        0
    } else {
        count_row(r.drop_last()) + if r.last() {
            1nat
        } else {
            0nat
        }
    }
}

pub open spec fn count_mat(g: Seq<Seq<bool>>) -> nat
    decreases g.len(),
{
    if g.len() == 0 {
        0
    } else {
        count_mat(g.drop_last()) + count_row(g.last())
    }
}

proof fn lemma_count_row_le(r: Seq<bool>)
    ensures
        count_row(r) <= r.len(),
    decreases r.len(),
{
    if r.len() > 0 {
        lemma_count_row_le(r.drop_last());
    }
}

proof fn lemma_count_row_update(r: Seq<bool>, k: int)
    requires
        0 <= k < r.len(),
        !r[k],
    ensures
        count_row(r.update(k, true)) == count_row(r) + 1,
    decreases r.len(),
{
    let r2 = r.update(k, true);
    if k == r.len() - 1 {
        assert(r2.drop_last() =~= r.drop_last());
    } else {
        assert(r2.drop_last() =~= r.drop_last().update(k, true));
        lemma_count_row_update(r.drop_last(), k);
        assert(r2.last() == r.last());
    }
}

proof fn lemma_count_mat_update(g: Seq<Seq<bool>>, i: int, r2: Seq<bool>)
    requires
        0 <= i < g.len(),
    ensures
        count_mat(g.update(i, r2)) + count_row(g[i]) == count_mat(g) + count_row(r2),
    decreases g.len(),
{
    let g2 = g.update(i, r2);
    if i == g.len() - 1 {
        assert(g2.drop_last() =~= g.drop_last());
        assert(g2.last() == r2);
    } else {
        assert(g2.drop_last() =~= g.drop_last().update(i, r2));
        lemma_count_mat_update(g.drop_last(), i, r2);
        assert(g2.last() == g.last());
    }
}

proof fn lemma_count_mat_le(g: Seq<Seq<bool>>, n: nat)
    requires
        forall|i: int| 0 <= i < g.len() ==> #[trigger] g[i].len() == n,
    ensures
        count_mat(g) <= g.len() * n,
    decreases g.len(),
{
    if g.len() > 0 {
        lemma_count_mat_le(g.drop_last(), n);
        lemma_count_row_le(g.last());
        assert((g.len() - 1) * n + n == g.len() * n) by (nonlinear_arith);
    }
}

/// Sets entry `(i, j)` of the matrix.
fn mat_set(m: &mut Vec<Vec<bool>>, i: usize, j: usize)
    requires
        i < old(m)@.len(),
        j < matv(*old(m))[i as int].len(),
    ensures
        matv(*final(m)) == matv(*old(m)).update(
            i as int,
            matv(*old(m))[i as int].update(j as int, true),
        ),
        final(m)@.len() == old(m)@.len(),
        !matv(*old(m))[i as int][j as int] ==> count_mat(matv(*final(m))) == count_mat(
            matv(*old(m)),
        ) + 1,
{
    let ghost g0 = matv(*old(m));
    proof {
        assert(g0[i as int] == old(m)@[i as int]@);
    }
    let mut row = m.remove(i);
    row[j] = true;
    m.insert(i, row);
    proof {
        assert(matv(*m) =~= g0.update(i as int, g0[i as int].update(j as int, true)));
        if !g0[i as int][j as int] {
            lemma_count_row_update(g0[i as int], j as int);
            lemma_count_mat_update(g0, i as int, g0[i as int].update(j as int, true));
        }
    }
}

/// Reads entry `(i, j)` of the matrix.
fn mat_get(m: &Vec<Vec<bool>>, i: usize, j: usize) -> (b: bool)
    requires
        i < m@.len(),
        j < matv(*m)[i as int].len(),
    ensures
        b == matv(*m)[i as int][j as int],
{
    proof {
        assert(matv(*m)[i as int] == m@[i as int]@);
    }
    let row = &m[i];
    row[j]
}

/// One relaxation pass: for every pair of set entries `(i, j)` and
/// `(j, k)`, sets `(i, k)`.  Reports whether anything changed; when nothing
/// did, the matrix is transitively closed.
fn closure_pass(m: &mut Vec<Vec<bool>>, Ghost(rs): Ghost<Seq<TypeRelations>>) -> (changed: bool)
    requires
        old(m)@.len() == rs.len(),
        square(matv(*old(m)), rs.len() as int),
        sound(matv(*old(m)), rs),
    ensures
        final(m)@.len() == rs.len(),
        square(matv(*final(m)), rs.len() as int),
        sound(matv(*final(m)), rs),
        forall|a: int, b: int|
            0 <= a < rs.len() && 0 <= b < rs.len() && matv(*old(m))[a][b]
                ==> #[trigger] matv(*final(m))[a][b],
        !changed ==> matv(*final(m)) == matv(*old(m)) && closed(
            matv(*final(m)),
            rs.len() as int,
        ),
        changed ==> count_mat(matv(*final(m))) > count_mat(matv(*old(m))),
{
    let n = m.len();
    let mut changed = false;
    let ghost g0 = matv(*m);
    let mut i: usize = 0;
    while i < n
        invariant
            i <= n,
            n == rs.len(),
            m@.len() == n,
            square(matv(*m), n as int),
            sound(matv(*m), rs),
            g0 == matv(*old(m)),
            square(g0, n as int),
            forall|a: int, b: int|
                0 <= a < n && 0 <= b < n && g0[a][b] ==> #[trigger] matv(*m)[a][b],
            !changed ==> matv(*m) == g0 && closed_before(matv(*m), n as int, i as int, 0, 0),
            changed ==> count_mat(matv(*m)) > count_mat(g0),
        decreases n - i,
    {
        let mut j: usize = 0;
        while j < n
            invariant
                i < n,
                j <= n,
                n == rs.len(),
                m@.len() == n,
                square(matv(*m), n as int),
                sound(matv(*m), rs),
                g0 == matv(*old(m)),
                square(g0, n as int),
                forall|a: int, b: int|
                    0 <= a < n && 0 <= b < n && g0[a][b] ==> #[trigger] matv(*m)[a][b],
                !changed ==> matv(*m) == g0 && closed_before(
                    matv(*m),
                    n as int,
                    i as int,
                    j as int,
                    0,
                ),
                changed ==> count_mat(matv(*m)) > count_mat(g0),
            decreases n - j,
        {
            if mat_get(m, i, j) {
                let mut k: usize = 0;
                while k < n
                    invariant
                        i < n,
                        j < n,
                        k <= n,
                        n == rs.len(),
                        m@.len() == n,
                        square(matv(*m), n as int),
                        sound(matv(*m), rs),
                        g0 == matv(*old(m)),
                        square(g0, n as int),
                        matv(*m)[i as int][j as int],
                        forall|a: int, b: int|
                            0 <= a < n && 0 <= b < n && g0[a][b] ==> #[trigger] matv(*m)[a][b],
                        !changed ==> matv(*m) == g0 && closed_before(
                            matv(*m),
                            n as int,
                            i as int,
                            j as int,
                            k as int,
                        ),
                        changed ==> count_mat(matv(*m)) > count_mat(g0),
                    decreases n - k,
                {
                    if mat_get(m, j, k) && !mat_get(m, i, k) {
                        proof {
                            lemma_reach_trans(rs, i as int, j as int, k as int);
                        }
                        let ghost gprev = matv(*m);
                        mat_set(m, i, k);
                        proof {
                            if changed {
                                assert(count_mat(matv(*m)) == count_mat(gprev) + 1);
                            }
                            assert(matv(*m)[i as int] =~= gprev[i as int].update(
                                k as int,
                                true,
                            ));
                            assert forall|a: int, b: int|
                                0 <= a < n && 0 <= b < n && gprev[a][b] implies #[trigger] matv(
                                *m,
                            )[a][b] by {}
                            assert forall|a: int, b: int|
                                0 <= a < n && 0 <= b < n && 0 <= a && matv(*m)[a][b] && !(a
                                    == i as int && b == k as int) implies gprev[a][b] by {}
                        }
                        changed = true;
                    } else {
                        proof {
                            if !changed {
                                let g = matv(*m);
                                assert(triple_ok(g, i as int, j as int, k as int));
                                assert forall|a: int, b: int, c: int|
                                    0 <= a < n && 0 <= b < n && 0 <= c < n && triple_before(
                                        a,
                                        b,
                                        c,
                                        i as int,
                                        j as int,
                                        k as int + 1,
                                    ) implies #[trigger] triple_ok(g, a, b, c) by {
                                    if !triple_before(a, b, c, i as int, j as int, k as int) {
                                        assert(a == i as int && b == j as int && c == k as int);
                                    }
                                }
                            }
                        }
                    }
                    k = k + 1;
                }
                proof {
                    if !changed {
                        let g = matv(*m);
                        assert forall|a: int, b: int, c: int|
                            0 <= a < n && 0 <= b < n && 0 <= c < n && triple_before(
                                a,
                                b,
                                c,
                                i as int,
                                j as int + 1,
                                0,
                            ) implies #[trigger] triple_ok(g, a, b, c) by {
                            assert(triple_before(a, b, c, i as int, j as int, n as int));
                        }
                    }
                }
            } else {
                proof {
                    if !changed {
                        let g = matv(*m);
                        assert forall|a: int, b: int, c: int|
                            0 <= a < n && 0 <= b < n && 0 <= c < n && triple_before(
                                a,
                                b,
                                c,
                                i as int,
                                j as int + 1,
                                0,
                            ) implies #[trigger] triple_ok(g, a, b, c) by {
                            if !triple_before(a, b, c, i as int, j as int, 0) {
                                assert(a == i as int && b == j as int);
                                assert(!g[a][b]);
                            }
                        }
                    }
                }
            }
            j = j + 1;
        }
        proof {
            if !changed {
                let g = matv(*m);
                assert forall|a: int, b: int, c: int|
                    0 <= a < n && 0 <= b < n && 0 <= c < n && triple_before(
                        a,
                        b,
                        c,
                        i as int + 1,
                        0,
                        0,
                    ) implies #[trigger] triple_ok(g, a, b, c) by {
                    assert(triple_before(a, b, c, i as int, n as int, 0));
                }
            }
        }
        i = i + 1;
    }
    proof {
        if !changed {
            let g = matv(*m);
            assert forall|a: int, b: int, c: int|
                0 <= a < n && 0 <= b < n && 0 <= c < n implies #[trigger] triple_ok(g, a, b, c) by {
                assert(triple_before(a, b, c, n as int, 0, 0));
            }
        }
    }
    changed
}

/// Closes the matrix under transitivity by repeated relaxation passes.
fn compute_closure(m: &mut Vec<Vec<bool>>, Ghost(rs): Ghost<Seq<TypeRelations>>)
    requires
        old(m)@.len() == rs.len(),
        square(matv(*old(m)), rs.len() as int),
        sound(matv(*old(m)), rs),
        covers(matv(*old(m)), rs),
    ensures
        final(m)@.len() == rs.len(),
        square(matv(*final(m)), rs.len() as int),
        forall|i: int, j: int|
            0 <= i < rs.len() && 0 <= j < rs.len() ==> (#[trigger] matv(*final(m))[i][j]
                <==> reach(rs, i, j)),
{
    let ghost n = rs.len();
    loop
        invariant
            m@.len() == n,
            n == rs.len(),
            square(matv(*m), n as int),
            sound(matv(*m), rs),
            covers(matv(*m), rs),
        ensures
            m@.len() == n,
            square(matv(*m), n as int),
            sound(matv(*m), rs),
            covers(matv(*m), rs),
            closed(matv(*m), n as int),
        decreases n * n - count_mat(matv(*m)),
    {
        proof {
            lemma_count_mat_le(matv(*m), n);
        }
        let ghost gprev = matv(*m);
        let changed = closure_pass(m, Ghost(rs));
        proof {
            assert forall|i: int, j: int| dep_edge(rs, i, j) implies #[trigger] matv(*m)[i][j] by {
                assert(gprev[i][j]);
            }
        }
        if !changed {
            break;
        }
        proof {
            lemma_count_mat_le(matv(*m), n);
            assert(count_mat(matv(*m)) <= n * n) by {
                assert(matv(*m).len() == n);
            }
        }
    }
    proof {
        assert forall|i: int, j: int|
            0 <= i < rs.len() && 0 <= j < rs.len() && reach(rs, i, j) implies #[trigger] matv(
            *m,
        )[i][j] by {
            let nn = choose|nn: nat| reach_within(rs, i, j, nn);
            lemma_closed_complete(matv(*m), rs, i, j, nn);
        }
    }
}

proof fn lemma_closed_complete(g: Seq<Seq<bool>>, rs: Seq<TypeRelations>, i: int, j: int, n: nat)
    requires
        square(g, rs.len() as int),
        covers(g, rs),
        closed(g, rs.len() as int),
        reach_within(rs, i, j, n),
    ensures
        g[i][j],
    decreases n,
{
    lemma_reach_bounds(rs, i, j, n);
    if !dep_edge(rs, i, j) {
        let m = choose|m: int| #[trigger] dep_edge(rs, i, m) && reach_within(
            rs,
            m,
            j,
            (n - 1) as nat,
        );
        lemma_closed_complete(g, rs, m, j, (n - 1) as nat);
        assert(triple_ok(g, i, m, j));
    }
}

/// A path into a type always ends with a direct edge into it: something
/// reaches `i` exactly when something depends on it directly.
pub proof fn lemma_users_iff(rs: Seq<TypeRelations>, i: int)
    ensures
        (exists|j: int| #[trigger] reach(rs, j, i)) <==> (exists|j: int|
            #[trigger] dep_edge(rs, j, i)),
{
    if exists|j: int| #[trigger] reach(rs, j, i) {
        let j = choose|j: int| #[trigger] reach(rs, j, i);
        let n = choose|n: nat| reach_within(rs, j, i, n);
        lemma_last_edge(rs, j, i, n);
    }
    if exists|j: int| #[trigger] dep_edge(rs, j, i) {
        let j = choose|j: int| #[trigger] dep_edge(rs, j, i);
        lemma_reach_edge(rs, j, i);
        assert(reach(rs, j, i));
    }
}

proof fn lemma_last_edge(rs: Seq<TypeRelations>, j: int, i: int, n: nat)
    requires
        reach_within(rs, j, i, n),
    ensures
        exists|m: int| #[trigger] dep_edge(rs, m, i),
    decreases n,
{
    if !dep_edge(rs, j, i) {
        let m = choose|m: int| #[trigger] dep_edge(rs, j, m) && reach_within(
            rs,
            m,
            i,
            (n - 1) as nat,
        );
        lemma_last_edge(rs, m, i, (n - 1) as nat);
    }
}

/// Strict lexicographic order on views, the order of the sorted output.
pub open spec fn lex_lt_f() -> spec_fn(Seq<char>, Seq<char>) -> bool {
    |x: Seq<char>, y: Seq<char>| lex_lt(x, y)
}

/// Inserts `x` into a strictly sorted vector, keeping it sorted.
fn insert_sorted(out: &mut Vec<String>, x: String)
    requires
        sorted_by(str_views(old(out)@), lex_lt_f()),
        !str_views(old(out)@).contains(x@),
    ensures
        sorted_by(str_views(final(out)@), lex_lt_f()),
        final(out)@.len() == old(out)@.len() + 1,
        forall|y: Seq<char>|
            str_views(final(out)@).contains(y) <==> (str_views(old(out)@).contains(y) || y
                == x@),
{
    let n = out.len();
    let mut idx: usize = 0;
    while idx < n && str_lt(out[idx].as_str(), x.as_str())
        invariant
            idx <= n,
            n == out@.len(),
            *out == *old(out),
            forall|t: int| 0 <= t < idx ==> lex_lt(#[trigger] out@[t]@, x@),
        decreases n - idx,
    {
        idx = idx + 1;
    }
    let ghost v0 = str_views(out@);
    proof {
        if idx < n {
            assert(v0[idx as int] == out@[idx as int]@);
            assert(v0.contains(v0[idx as int]));
            assert(out@[idx as int]@ != x@);
            if !lex_lt(x@, out@[idx as int]@) {
                lemma_lex_connected(x@, out@[idx as int]@);
                assert(false);
            }
        }
    }
    out.insert(idx, x);
    proof {
        let v1 = str_views(out@);
        assert(v1 =~= v0.insert(idx as int, x@));
        let f = lex_lt_f();
        assert forall|a: int, b: int| 0 <= a < b < v1.len() implies #[trigger] f(v1[a], v1[b]) by {
            if b < idx {
                assert(f(v0[a], v0[b]));
            } else if a < idx && b == idx {
                assert(lex_lt(v0[a], x@));
            } else if a < idx && b > idx {
                assert(f(v0[a], v0[b - 1]));
            } else if a == idx && b > idx {
                assert(v1[b] == v0[b - 1]);
                if b - 1 == idx {
                    assert(lex_lt(x@, v0[idx as int]));
                } else {
                    assert(f(v0[idx as int], v0[b - 1]));
                    lemma_lex_trans(x@, v0[idx as int], v0[b - 1]);
                }
            } else {
                assert(f(v0[a - 1], v0[b - 1]));
            }
        }
        assert forall|y: Seq<char>| v1.contains(y) implies (v0.contains(y) || y == x@) by {
            let t = choose|t: int| 0 <= t < v1.len() && v1[t] == y;
            if t < idx {
                assert(v0[t] == y);
            } else if t > idx {
                assert(v0[t - 1] == y);
            }
        }
        assert forall|y: Seq<char>| (v0.contains(y) || y == x@) implies v1.contains(y) by {
            if v0.contains(y) {
                let t = choose|t: int| 0 <= t < v0.len() && v0[t] == y;
                if t < idx {
                    assert(v1[t] == y);
                } else {
                    assert(v1[t + 1] == y);
                }
            } else {
                assert(v1[idx as int] == y);
            }
        }
    }
}

/// Index of the name `x` in the name table.
fn find_name(names: &Vec<String>, x: &str) -> (r: Option<usize>)
    ensures
        match r {
            Some(j) => j < names@.len() && names@[j as int]@ == x@,
            None => !str_views(names@).contains(x@),
        },
{
    let n = names.len();
    let mut j: usize = 0;
    while j < n
        invariant
            j <= n,
            n == names@.len(),
            forall|t: int| 0 <= t < j ==> #[trigger] names@[t]@ != x@,
        decreases n - j,
    {
        if str_eq(names[j].as_str(), x) {
            return Some(j);
        }
        j = j + 1;
    }
    proof {
        assert forall|t: int| 0 <= t < str_views(names@).len() implies str_views(names@)[t]
            != x@ by {
            assert(str_views(names@)[t] == names@[t]@);
        }
    }
    None
}

/// The names selected by the mask, in strictly increasing lexicographic
/// order.
fn select_sorted(names: &Vec<String>, sel: &Vec<bool>) -> (out: Vec<String>)
    requires
        sel@.len() == names@.len(),
        forall|a: int, b: int| 0 <= a < b < names@.len() ==> names@[a]@ != names@[b]@,
    ensures
        sorted_by(str_views(out@), lex_lt_f()),
        forall|y: Seq<char>|
            str_views(out@).contains(y) <==> exists|j: int|
                0 <= j < names@.len() && #[trigger] sel@[j] && names@[j]@ == y,
{
    let n = names.len();
    let mut out: Vec<String> = Vec::new();
    let mut j: usize = 0;
    proof {
        assert(str_views(out@) =~= Seq::<Seq<char>>::empty());
    }
    while j < n
        invariant
            j <= n,
            n == names@.len(),
            sel@.len() == n,
            forall|a: int, b: int| 0 <= a < b < names@.len() ==> names@[a]@ != names@[b]@,
            sorted_by(str_views(out@), lex_lt_f()),
            forall|y: Seq<char>|
                str_views(out@).contains(y) <==> exists|jj: int|
                    0 <= jj < j && #[trigger] sel@[jj] && names@[jj]@ == y,
        decreases n - j,
    {
        if sel[j] {
            let x = names[j].clone();
            proof {
                assert(x@ == names@[j as int]@);
                if str_views(out@).contains(x@) {
                    let jj = choose|jj: int| 0 <= jj < j && #[trigger] sel@[jj] && names@[jj]@
                        == x@;
                    assert(names@[jj]@ != names@[j as int]@);
                    assert(false);
                }
            }
            insert_sorted(&mut out, x);
            proof {
                assert forall|y: Seq<char>| str_views(out@).contains(y) implies exists|jj: int|
                    0 <= jj < j + 1 && #[trigger] sel@[jj] && names@[jj]@ == y by {
                    if y == names@[j as int]@ {
                        assert(sel@[j as int] && names@[j as int]@ == y);
                    }
                }
                assert forall|y: Seq<char>|
                    (exists|jj: int| 0 <= jj < j + 1 && #[trigger] sel@[jj] && names@[jj]@ == y)
                    implies str_views(out@).contains(y) by {}
            }
        }
        j = j + 1;
    }
    out
}

/// Copy of row `i` of the matrix.
fn mat_row(m: &Vec<Vec<bool>>, i: usize) -> (r: Vec<bool>)
    requires
        i < m@.len(),
    ensures
        r@ == matv(*m)[i as int],
{
    let r = m[i].clone();
    proof {
        assert(r@ =~= matv(*m)[i as int]);
    }
    r
}

/// Copy of column `i` of the matrix.
fn mat_col(m: &Vec<Vec<bool>>, i: usize) -> (r: Vec<bool>)
    requires
        square(matv(*m), m@.len() as int),
        i < m@.len(),
    ensures
        r@.len() == m@.len(),
        forall|j: int| 0 <= j < m@.len() ==> #[trigger] r@[j] == matv(*m)[j][i as int],
{
    let n = m.len();
    let mut r: Vec<bool> = Vec::new();
    let mut j: usize = 0;
    while j < n
        invariant
            j <= n,
            n == m@.len(),
            square(matv(*m), n as int),
            i < n,
            r@.len() == j,
            forall|t: int| 0 <= t < j ==> #[trigger] r@[t] == matv(*m)[t][i as int],
        decreases n - j,
    {
        r.push(mat_get(m, j, i));
        j = j + 1;
    }
    r
}

/// The replacement of one relation after closure: same name and traits;
/// `depends_on` holds exactly the names this type reaches, sorted; when
/// anything depends on the type, `used_by` holds exactly the names that
/// reach it, sorted, and otherwise the recorded users are kept.
pub open spec fn closed_rel(
    rs0: Seq<TypeRelations>,
    r0: TypeRelations,
    r1: TypeRelations,
    i: int,
) -> bool {
    &&& r1.name@ == r0.name@
    &&& str_views(r1.implemented_traits@) == str_views(r0.implemented_traits@)
    &&& sorted_by(str_views(r1.depends_on@), lex_lt_f())
    &&& forall|y: Seq<char>|
        str_views(r1.depends_on@).contains(y) <==> exists|j: int|
            0 <= j < rs0.len() && #[trigger] reach(rs0, i, j) && rs0[j].name@ == y
    &&& (exists|j: int| #[trigger] dep_edge(rs0, j, i)) ==> {
        &&& sorted_by(str_views(r1.used_by@), lex_lt_f())
        &&& forall|y: Seq<char>|
            str_views(r1.used_by@).contains(y) <==> exists|j: int|
                0 <= j < rs0.len() && #[trigger] reach(rs0, j, i) && rs0[j].name@ == y
    }
    &&& !(exists|j: int| #[trigger] dep_edge(rs0, j, i)) ==> r1.used_by@ == r0.used_by@
}

/// Builds the transitive closure of the relations' dependency graph by
/// fixed-point relaxation and replaces each relation's `depends_on` and
/// `used_by` with the closed sets in sorted order.
pub fn build_type_relations(rels: &mut Vec<TypeRelations>)
    requires
        wf_relations(old(rels)@),
    ensures
        final(rels)@.len() == old(rels)@.len(),
        forall|i: int|
            0 <= i < old(rels)@.len() ==> closed_rel(
                old(rels)@,
                old(rels)@[i],
                #[trigger] final(rels)@[i],
                i,
            ),
{
    let ghost rs0 = rels@;
    let n = rels.len();
    let mut names: Vec<String> = Vec::new();
    let mut i: usize = 0;
    while i < n
        invariant
            i <= n,
            n == rels@.len(),
            rels@ == rs0,
            names@.len() == i,
            forall|t: int| 0 <= t < i ==> #[trigger] names@[t]@ == rs0[t].name@,
        decreases n - i,
    {
        let r = &rels[i];
        names.push(r.name.clone());
        i = i + 1;
    }
    let mut m: Vec<Vec<bool>> = Vec::new();
    let mut i: usize = 0;
    while i < n
        invariant
            i <= n,
            n == rels@.len(),
            rels@ == rs0,
            names@.len() == n,
            forall|t: int| 0 <= t < n ==> #[trigger] names@[t]@ == rs0[t].name@,
            wf_relations(rs0),
            m@.len() == i,
            forall|t: int| 0 <= t < i ==> #[trigger] matv(m)[t].len() == n,
            forall|a: int, b: int|
                0 <= a < i && 0 <= b < n ==> (#[trigger] matv(m)[a][b] <==> dep_edge(rs0, a, b)),
        decreases n - i,
    {
        let mut row: Vec<bool> = Vec::new();
        let mut t: usize = 0;
        while t < n
            invariant
                t <= n,
                row@.len() == t,
                forall|b: int| 0 <= b < t ==> !(#[trigger] row@[b]),
            decreases n - t,
        {
            row.push(false);
            t = t + 1;
        }
        let deps_len = rels[i].depends_on.len();
        let mut k: usize = 0;
        while k < deps_len
            invariant
                k <= deps_len,
                i < n,
                n == rels@.len(),
                rels@ == rs0,
                names@.len() == n,
                forall|t: int| 0 <= t < n ==> #[trigger] names@[t]@ == rs0[t].name@,
                wf_relations(rs0),
                deps_len == rs0[i as int].depends_on@.len(),
                row@.len() == n,
                forall|b: int|
                    0 <= b < n ==> (#[trigger] row@[b] <==> exists|kk: int|
                        0 <= kk < k && rs0[i as int].depends_on@[kk]@ == rs0[b].name@),
            decreases deps_len - k,
        {
            let r = &rels[i];
            let dep = &r.depends_on[k];
            let ghost row_prev = row@;
            match find_name(&names, dep.as_str()) {
                Some(j) => {
                    row[j] = true;
                    proof {
                        assert forall|b: int|
                            0 <= b < n implies (#[trigger] row@[b] <==> exists|kk: int|
                            0 <= kk < k + 1 && rs0[i as int].depends_on@[kk]@
                                == rs0[b].name@) by {
                            if b == j {
                                assert(rs0[i as int].depends_on@[k as int]@ == rs0[b].name@);
                            } else {
                                assert(row@[b] == row_prev[b]);
                                if rs0[i as int].depends_on@[k as int]@ == rs0[b].name@ {
                                    assert(rs0[j as int].name@ == rs0[b].name@);
                                    assert(false);
                                }
                            }
                        }
                    }
                },
                None => {
                    proof {
                        let kk = k as int;
                        let ii = i as int;
                        let depv = rs0[ii].depends_on@[kk]@;
                        assert(exists|j: int| 0 <= j < rs0.len() && rs0[j].name@ == depv);
                        let j = choose|j: int|
                            0 <= j < rs0.len() && rs0[j].name@ == rs0[ii].depends_on@[kk]@;
                        assert(str_views(names@)[j] == names@[j]@);
                        assert(str_views(names@).contains(dep@));
                        assert(false);
                    }
                },
            }
            k = k + 1;
        }
        let ghost mprev = matv(m);
        m.push(row);
        proof {
            assert(matv(m) =~= mprev.push(row@));
            assert forall|b: int|
                0 <= b < n implies (#[trigger] matv(m)[i as int][b] <==> dep_edge(
                rs0,
                i as int,
                b,
            )) by {
                assert(matv(m)[i as int] == row@);
                if row@[b] {
                    let kk = choose|kk: int|
                        0 <= kk < deps_len && rs0[i as int].depends_on@[kk]@ == rs0[b].name@;
                    assert(str_views(rs0[i as int].depends_on@)[kk] == rs0[
                        i as int
                    ].depends_on@[kk]@);
                    assert(str_views(rs0[i as int].depends_on@).contains(rs0[b].name@));
                }
                if dep_edge(rs0, i as int, b) {
                    let kk = choose|kk: int|
                        0 <= kk < str_views(rs0[i as int].depends_on@).len() && str_views(
                            rs0[i as int].depends_on@,
                        )[kk] == rs0[b].name@;
                    assert(rs0[i as int].depends_on@[kk]@ == rs0[b].name@);
                }
            }
        }
        i = i + 1;
    }
    proof {
        assert(square(matv(m), n as int));
        assert forall|a: int, b: int| dep_edge(rs0, a, b) implies #[trigger] matv(m)[a][b] by {}
        assert forall|a: int, b: int|
            0 <= a < rs0.len() && 0 <= b < rs0.len() && #[trigger] matv(m)[a][b] implies reach(
            rs0,
            a,
            b,
        ) by {
            lemma_reach_edge(rs0, a, b);
        }
    }
    compute_closure(&mut m, Ghost(rs0));
    let mut out: Vec<TypeRelations> = Vec::new();
    let mut i: usize = 0;
    while i < n
        invariant
            i <= n,
            n == rels@.len(),
            rels@ == rs0,
            names@.len() == n,
            forall|t: int| 0 <= t < n ==> #[trigger] names@[t]@ == rs0[t].name@,
            wf_relations(rs0),
            m@.len() == n,
            square(matv(m), n as int),
            forall|a: int, b: int|
                0 <= a < n && 0 <= b < n ==> (#[trigger] matv(m)[a][b] <==> reach(rs0, a, b)),
            out@.len() == i,
            forall|t: int| 0 <= t < i ==> closed_rel(rs0, rs0[t], #[trigger] out@[t], t),
        decreases n - i,
    {
        let row = mat_row(&m, i);
        proof {
            assert forall|a: int, b: int| 0 <= a < b < names@.len() implies names@[a]@
                != names@[b]@ by {
                assert(rs0[a].name@ != rs0[b].name@);
            }
        }
        let deps = select_sorted(&names, &row);
        let col = mat_col(&m, i);
        let mut has_user = false;
        let mut j: usize = 0;
        while j < n
            invariant
                j <= n,
                n == m@.len(),
                i < n,
                square(matv(m), n as int),
                has_user ==> exists|t: int| 0 <= t < n && #[trigger] matv(m)[t][i as int],
                !has_user ==> forall|t: int| 0 <= t < j ==> !(#[trigger] matv(m)[t][i as int]),
            decreases n - j,
        {
            if mat_get(&m, j, i) {
                has_user = true;
            }
            j = j + 1;
        }
        proof {
            lemma_users_iff(rs0, i as int);
            if has_user {
                let t = choose|t: int| 0 <= t < n && #[trigger] matv(m)[t][i as int];
                assert(reach(rs0, t, i as int));
            } else {
                if exists|t: int| #[trigger] dep_edge(rs0, t, i as int) {
                    let t = choose|t: int| #[trigger] dep_edge(rs0, t, i as int);
                    lemma_reach_edge(rs0, t, i as int);
                    assert(matv(m)[t][i as int]);
                    assert(false);
                }
            }
        }
        let r = &rels[i];
        let used_by = if has_user {
            select_sorted(&names, &col)
        } else {
            let u = r.used_by.clone();
            proof {
                assert(u@ =~= rs0[i as int].used_by@);
            }
            u
        };
        let traits = r.implemented_traits.clone();
        proof {
            assert(traits@ =~= rs0[i as int].implemented_traits@);
            assert(str_views(traits@) =~= str_views(rs0[i as int].implemented_traits@));
        }
        let rel = TypeRelations {
            name: r.name.clone(),
            implemented_traits: traits,
            used_by,
            depends_on: deps,
        };
        proof {
            assert forall|y: Seq<char>| str_views(rel.depends_on@).contains(y) implies exists|
                jj: int,
            | 0 <= jj < rs0.len() && #[trigger] reach(rs0, i as int, jj) && rs0[jj].name@ == y by {
                let jj = choose|jj: int|
                    0 <= jj < names@.len() && #[trigger] row@[jj] && names@[jj]@ == y;
                assert(matv(m)[i as int][jj]);
                assert(reach(rs0, i as int, jj) && rs0[jj].name@ == y);
            }
            assert forall|y: Seq<char>|
                (exists|jj: int| 0 <= jj < rs0.len() && #[trigger] reach(rs0, i as int, jj)
                    && rs0[jj].name@ == y) implies str_views(rel.depends_on@).contains(y) by {
                let jj = choose|jj: int|
                    0 <= jj < rs0.len() && #[trigger] reach(rs0, i as int, jj) && rs0[jj].name@
                        == y;
                assert(matv(m)[i as int][jj]);
                assert(row@[jj] && names@[jj]@ == y);
            }
            if has_user {
                assert forall|y: Seq<char>| str_views(rel.used_by@).contains(y) implies exists|
                    jj: int,
                | 0 <= jj < rs0.len() && #[trigger] reach(rs0, jj, i as int) && rs0[jj].name@
                    == y by {
                    let jj = choose|jj: int|
                        0 <= jj < names@.len() && #[trigger] col@[jj] && names@[jj]@ == y;
                    assert(matv(m)[jj][i as int]);
                }
                assert forall|y: Seq<char>|
                    (exists|jj: int| 0 <= jj < rs0.len() && #[trigger] reach(rs0, jj, i as int)
                        && rs0[jj].name@ == y) implies str_views(rel.used_by@).contains(y) by {
                    let jj = choose|jj: int|
                        0 <= jj < rs0.len() && #[trigger] reach(rs0, jj, i as int)
                            && rs0[jj].name@ == y;
                    assert(matv(m)[jj][i as int]);
                    assert(col@[jj] && names@[jj]@ == y);
                }
            }
            assert(closed_rel(rs0, rs0[i as int], rel, i as int));
        }
        out.push(rel);
        i = i + 1;
    }
    *rels = out;
}

} // verus!
