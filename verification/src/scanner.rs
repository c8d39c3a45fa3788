//! The context-tracking scanner.
//!
//! A first pass collects the type universe: every type name declared in the
//! file.  A second pass walks the lines in order with an explicit state —
//! the open type context, its accumulated dependency set, the set of names
//! already seen, the derive-trait map and the usage map — and folds every
//! line through three steps: derive lookahead, declaration check, and
//! dependency extraction.  The whole scan is specified as a mathematical
//! fold (`scan_from`) over the lines, and the executable scanner is proved
//! to compute exactly that fold.

use vstd::prelude::*;
use crate::patterns::{
    dep_caps, dep_captures, derive_body_spec, scan_derive_body, scan_type_decl_name, split_commas,
    split_commas_spec, type_decl_name_spec,
};
use crate::text::{
    split_lines, split_lines_spec, starts_with_spec, str_eq, str_starts_with, strslice_views, trim,
    trim_spec,
};
use crate::types::{str_views, TypeRelations};

verus! {

/// A set of names given as the views of a string vector.
pub open spec fn view_set(v: Seq<String>) -> Set<Seq<char>> {
    Set::new(|x: Seq<char>| str_views(v).contains(x))
}

/// One finalized record of the scan: a type name, the derive traits
/// attached to it, its accumulated direct dependencies and its recorded
/// direct users.
pub struct RelModel {
    pub name: Seq<char>,
    pub traits: Seq<Seq<char>>,
    pub deps: Set<Seq<char>>,
    pub used_by: Set<Seq<char>>,
}

/// The scanner's state as a mathematical value.
pub struct ScanModel {
    pub cur: Option<Seq<char>>,
    pub deps: Set<Seq<char>>,
    pub processed: Set<Seq<char>>,
    pub traits: Map<Seq<char>, Seq<Seq<char>>>,
    pub usage: Map<Seq<char>, Set<Seq<char>>>,
    pub rels: Seq<RelModel>,
}

/// The set of type names declared anywhere in the lines: the type universe.
pub open spec fn universe_spec(lines: Seq<Seq<char>>) -> Set<Seq<char>> {
    Set::new(
        |n: Seq<char>|
            exists|i: int|
                0 <= i < lines.len() && type_decl_name_spec(trim_spec(#[trigger] lines[i]))
                    == Some(n),
    )
}

pub open spec fn scan_init() -> ScanModel {
    ScanModel {
        cur: None,
        deps: Set::empty(),
        processed: Set::empty(),
        traits: Map::empty(),
        usage: Map::empty(),
        rels: Seq::empty(),
    }
}

pub open spec fn traits_of(st: ScanModel, t: Seq<char>) -> Seq<Seq<char>> {
    if st.traits.contains_key(t) {
        st.traits[t]
    } else {
        Seq::empty()
    }
}

pub open spec fn usage_of(st: ScanModel, t: Seq<char>) -> Set<Seq<char>> {
    if st.usage.contains_key(t) {
        st.usage[t]
    } else {
        Set::empty()
    }
}

/// Closes the open context, if any: its record is appended with the
/// accumulated dependencies, the traits recorded for it, and its users as
/// recorded so far.
pub open spec fn finalize(st: ScanModel) -> ScanModel {
    match st.cur {
        Some(t) => ScanModel {
            cur: None,
            deps: Set::empty(),
            rels: st.rels.push(
                RelModel { name: t, traits: traits_of(st, t), deps: st.deps, used_by: usage_of(st, t) },
            ),
            ..st
        },
        None => st,
    }
}

/// Derive lookahead: when the line starts a derive annotation and the very
/// next line declares a type, the derive body's comma-split tokens are
/// recorded for that type.
pub open spec fn step_derive(st: ScanModel, tline: Seq<char>, next: Option<Seq<char>>) -> ScanModel {
    if starts_with_spec(tline, "#[derive"@) {
        match next {
            Some(nl) => match type_decl_name_spec(nl) {
                Some(nm) => match derive_body_spec(tline) {
                    Some(body) => ScanModel {
                        traits: st.traits.insert(nm, split_commas_spec(body, 0)),
                        ..st
                    },
                    None => st,
                },
                None => st,
            },
            None => st,
        }
    } else {
        st
    }
}

/// Declaration check: a newly seen declared name closes the open context
/// and opens its own; a re-declaration changes nothing.
pub open spec fn step_decl(st: ScanModel, tline: Seq<char>) -> ScanModel {
    match type_decl_name_spec(tline) {
        Some(nm) => if !st.processed.contains(nm) {
            let st1 = finalize(st);
            ScanModel { cur: Some(nm), processed: st1.processed.insert(nm), ..st1 }
        } else {
            st
        },
        None => st,
    }
}

/// Records one captured reference under the open context `c`: a member of
/// the universe other than `c` joins the dependency accumulator, and `c` is
/// recorded as its user.
pub open spec fn add_dep(
    st: ScanModel,
    c: Seq<char>,
    d: Seq<char>,
    universe: Set<Seq<char>>,
) -> ScanModel {
    if universe.contains(d) && d != c {
        ScanModel {
            deps: st.deps.insert(d),
            usage: st.usage.insert(d, usage_of(st, d).insert(c)),
            ..st
        }
    } else {
        st
    }
}

pub open spec fn add_deps(
    st: ScanModel,
    c: Seq<char>,
    caps: Seq<Seq<char>>,
    i: int,
    universe: Set<Seq<char>>,
) -> ScanModel
    decreases caps.len() - i,
    when 0 <= i <= caps.len()
{
    if i >= caps.len() {
        st
    } else {
        add_deps(add_dep(st, c, caps[i], universe), c, caps, i + 1, universe)
    }
}

/// Dependency extraction: with a context open, every capture of the six
/// reference rules on the line is recorded in order.
pub open spec fn step_deps(st: ScanModel, tline: Seq<char>, universe: Set<Seq<char>>) -> ScanModel {
    match st.cur {
        Some(c) => add_deps(st, c, dep_caps(tline), 0, universe),
        None => st,
    }
}

/// One line of the scan: derive lookahead, declaration check, dependency
/// extraction — each on the trimmed line (and trimmed next line).
pub open spec fn scan_line(
    st: ScanModel,
    tline: Seq<char>,
    next: Option<Seq<char>>,
    universe: Set<Seq<char>>,
) -> ScanModel {
    step_deps(step_decl(step_derive(st, tline, next), tline), tline, universe)
}

/// The fold of the scan over the lines from index `i` on.
pub open spec fn scan_from(
    lines: Seq<Seq<char>>,
    i: int,
    st: ScanModel,
    universe: Set<Seq<char>>,
) -> ScanModel
    decreases lines.len() - i,
    when 0 <= i <= lines.len()
{
    if i >= lines.len() {
        st
    } else {
        let next = if i + 1 < lines.len() {
            Some(trim_spec(lines[i + 1]))
        } else {
            None
        };
        scan_from(lines, i + 1, scan_line(st, trim_spec(lines[i]), next, universe), universe)
    }
}

/// The whole scan of a file's lines: the fold over every line, with the
/// last open context closed at the end.
pub open spec fn scan_lines(lines: Seq<Seq<char>>) -> ScanModel {
    finalize(scan_from(lines, 0, scan_init(), universe_spec(lines)))
}

/// The scan of a file's text.
pub open spec fn scan_text(text: Seq<char>) -> ScanModel {
    scan_lines(split_lines_spec(text))
}

/// The record abstraction of one produced relation.
pub open spec fn rel_model_of(r: TypeRelations) -> RelModel {
    RelModel {
        name: r.name@,
        traits: str_views(r.implemented_traits@),
        deps: view_set(r.depends_on@),
        used_by: view_set(r.used_by@),
    }
}

/// The record abstraction of the produced relation list.
pub open spec fn rels_model(rs: Seq<TypeRelations>) -> Seq<RelModel> {
    rs.map_values(|r: TypeRelations| rel_model_of(r))
}

/// The abstraction of the scanner's executable state.
pub open spec fn abs_state(
    cur: Option<String>,
    deps: Seq<String>,
    processed: Seq<String>,
    tm: Seq<(String, Vec<String>)>,
    um: Seq<(String, Vec<String>)>,
    rels: Seq<TypeRelations>,
) -> ScanModel {
    ScanModel {
        cur: match cur {
            Some(c) => Some(c@),
            None => None,
        },
        deps: view_set(deps),
        processed: view_set(processed),
        traits: traits_map_v(tm),
        usage: usage_map_v(um),
        rels: rels_model(rels),
    }
}

/// The trait map that a key-value list denotes: a later entry for a key
/// replaces an earlier one.
pub open spec fn traits_map_v(s: Seq<(String, Vec<String>)>) -> Map<Seq<char>, Seq<Seq<char>>>
    decreases s.len(),
{
    if s.len() == 0 {
        Map::empty()
    } else {
        traits_map_v(s.drop_last()).insert(s.last().0@, str_views(s.last().1@))
    }
}

/// The usage map that a key-value list denotes; each value is read as a set.
pub open spec fn usage_map_v(s: Seq<(String, Vec<String>)>) -> Map<Seq<char>, Set<Seq<char>>>
    decreases s.len(),
{
    if s.len() == 0 {
        Map::empty()
    } else {
        usage_map_v(s.drop_last()).insert(s.last().0@, view_set(s.last().1@))
    }
}

/// Membership test in a name list read as a set.
pub fn vec_contains_str(v: &Vec<String>, x: &str) -> (r: bool)
    ensures
        r == view_set(v@).contains(x@),
{
    let n = v.len();
    let mut i: usize = 0;
    while i < n
        invariant
            i <= n,
            n == v@.len(),
            forall|t: int| 0 <= t < i ==> #[trigger] v@[t]@ != x@,
        decreases n - i,
    {
        if str_eq(v[i].as_str(), x) {
            proof {
                assert(str_views(v@)[i as int] == x@);
            }
            return true;
        }
        i = i + 1;
    }
    proof {
        assert forall|t: int| 0 <= t < str_views(v@).len() implies str_views(v@)[t] != x@ by {
            assert(str_views(v@)[t] == v@[t]@);
        }
    }
    false
}

proof fn lemma_traits_skip(s: Seq<(String, Vec<String>)>, i: int, k: Seq<char>)
    requires
        0 <= i <= s.len(),
        forall|t: int| i <= t < s.len() ==> #[trigger] s[t].0@ != k,
    ensures
        traits_map_v(s).contains_key(k) == traits_map_v(s.take(i)).contains_key(k),
        traits_map_v(s).contains_key(k) ==> traits_map_v(s)[k] == traits_map_v(s.take(i))[k],
    decreases s.len() - i,
{
    if i < s.len() {
        assert forall|t: int| i <= t < s.drop_last().len() implies #[trigger] s.drop_last()[t].0@
            != k by {
            assert(s.drop_last()[t] == s[t]);
        }
        assert(s.drop_last().take(i) =~= s.take(i));
        lemma_traits_skip(s.drop_last(), i, k);
        assert(s[s.len() - 1].0@ != k);
        assert(traits_map_v(s) == traits_map_v(s.drop_last()).insert(
            s.last().0@,
            str_views(s.last().1@),
        ));
    } else {
        assert(s.take(i) =~= s);
    }
}

proof fn lemma_usage_skip(s: Seq<(String, Vec<String>)>, i: int, k: Seq<char>)
    requires
        0 <= i <= s.len(),
        forall|t: int| i <= t < s.len() ==> #[trigger] s[t].0@ != k,
    ensures
        usage_map_v(s).contains_key(k) == usage_map_v(s.take(i)).contains_key(k),
        usage_map_v(s).contains_key(k) ==> usage_map_v(s)[k] == usage_map_v(s.take(i))[k],
    decreases s.len() - i,
{
    if i < s.len() {
        assert forall|t: int| i <= t < s.drop_last().len() implies #[trigger] s.drop_last()[t].0@
            != k by {
            assert(s.drop_last()[t] == s[t]);
        }
        assert(s.drop_last().take(i) =~= s.take(i));
        lemma_usage_skip(s.drop_last(), i, k);
        assert(s[s.len() - 1].0@ != k);
        assert(usage_map_v(s) == usage_map_v(s.drop_last()).insert(
            s.last().0@,
            view_set(s.last().1@),
        ));
    } else {
        assert(s.take(i) =~= s);
    }
}

/// The traits recorded for `k`, or the empty list.
fn traits_lookup(tm: &Vec<(String, Vec<String>)>, k: &str) -> (r: Vec<String>)
    ensures
        str_views(r@) == (if traits_map_v(tm@).contains_key(k@) {
            traits_map_v(tm@)[k@]
        } else {
            Seq::<Seq<char>>::empty()
        }),
{
    let n = tm.len();
    let mut j = n;
    while j > 0
        invariant
            j <= n,
            n == tm@.len(),
            forall|t: int| j <= t < n ==> #[trigger] tm@[t].0@ != k@,
        decreases j,
    {
        j = j - 1;
        if str_eq(tm[j].0.as_str(), k) {
            let v = tm[j].1.clone();
            proof {
                let s = tm@;
                assert(s.take(j + 1).drop_last() =~= s.take(j as int));
                assert(s.take(j + 1).last() == s[j as int]);
                assert(traits_map_v(s.take(j + 1)) == traits_map_v(s.take(j as int)).insert(
                    s[j as int].0@,
                    str_views(s[j as int].1@),
                ));
                lemma_traits_skip(s, j + 1, k@);
                assert forall|t: int| 0 <= t < v@.len() implies v@[t] == s[j as int].1@[t] by {
                    assert(cloned::<String>(s[j as int].1@[t], v@[t]));
                }
                assert(v@ =~= s[j as int].1@);
                assert(str_views(v@) =~= str_views(s[j as int].1@));
            }
            return v;
        }
    }
    proof {
        lemma_traits_skip(tm@, 0, k@);
        assert(tm@.take(0) =~= Seq::<(String, Vec<String>)>::empty());
    }
    let r: Vec<String> = Vec::new();
    proof {
        assert(str_views(r@) =~= Seq::<Seq<char>>::empty());
    }
    r
}

/// The users recorded for `k`, or the empty list.
fn usage_lookup(um: &Vec<(String, Vec<String>)>, k: &str) -> (r: Vec<String>)
    ensures
        view_set(r@) == (if usage_map_v(um@).contains_key(k@) {
            usage_map_v(um@)[k@]
        } else {
            Set::<Seq<char>>::empty()
        }),
{
    let n = um.len();
    let mut j = n;
    while j > 0
        invariant
            j <= n,
            n == um@.len(),
            forall|t: int| j <= t < n ==> #[trigger] um@[t].0@ != k@,
        decreases j,
    {
        j = j - 1;
        if str_eq(um[j].0.as_str(), k) {
            let v = um[j].1.clone();
            proof {
                let s = um@;
                assert(s.take(j + 1).drop_last() =~= s.take(j as int));
                assert(s.take(j + 1).last() == s[j as int]);
                assert(usage_map_v(s.take(j + 1)) == usage_map_v(s.take(j as int)).insert(
                    s[j as int].0@,
                    view_set(s[j as int].1@),
                ));
                lemma_usage_skip(s, j + 1, k@);
                assert forall|t: int| 0 <= t < v@.len() implies v@[t] == s[j as int].1@[t] by {
                    assert(cloned::<String>(s[j as int].1@[t], v@[t]));
                }
                assert(v@ =~= s[j as int].1@);
                assert(str_views(v@) =~= str_views(s[j as int].1@));
                assert(view_set(v@) =~= view_set(s[j as int].1@));
            }
            return v;
        }
    }
    proof {
        lemma_usage_skip(um@, 0, k@);
        assert(um@.take(0) =~= Seq::<(String, Vec<String>)>::empty());
    }
    let r: Vec<String> = Vec::new();
    proof {
        assert(str_views(r@) =~= Seq::<Seq<char>>::empty());
        assert(view_set(r@) =~= Set::<Seq<char>>::empty());
    }
    r
}

/// Records the derive tokens for `k`, replacing what was recorded before.
fn traits_set(tm: &mut Vec<(String, Vec<String>)>, k: String, v: Vec<String>)
    ensures
        traits_map_v(final(tm)@) == traits_map_v(old(tm)@).insert(k@, str_views(v@)),
{
    let ghost s0 = tm@;
    let ghost kk = k@;
    let ghost vv = v@;
    tm.push((k, v));
    proof {
        assert(tm@.drop_last() =~= s0);
        assert(tm@.last().0@ == kk && tm@.last().1@ == vv);
    }
}

/// Records `user` as a user of `k`.
fn usage_add(um: &mut Vec<(String, Vec<String>)>, k: &str, user: &str)
    ensures
        usage_map_v(final(um)@) == usage_map_v(old(um)@).insert(
            k@,
            (if usage_map_v(old(um)@).contains_key(k@) {
                usage_map_v(old(um)@)[k@]
            } else {
                Set::<Seq<char>>::empty()
            }).insert(user@),
        ),
{
    let ghost s0 = um@;
    let mut cur = usage_lookup(um, k);
    let ghost oldset = view_set(cur@);
    if !vec_contains_str(&cur, user) {
        let ghost c0 = cur@;
        cur.push(String::from_str(user));
        proof {
            assert(str_views(cur@) =~= str_views(c0).push(user@));
            assert forall|x: Seq<char>|
                view_set(cur@).contains(x) <==> (view_set(c0).contains(x) || x == user@) by {
                if view_set(cur@).contains(x) {
                    let t = choose|t: int|
                        0 <= t < str_views(cur@).len() && str_views(cur@)[t] == x;
                    if t < c0.len() {
                        assert(str_views(c0)[t] == x);
                    }
                }
                if view_set(c0).contains(x) {
                    let t = choose|t: int| 0 <= t < str_views(c0).len() && str_views(c0)[t] == x;
                    assert(str_views(cur@)[t] == x);
                }
                if x == user@ {
                    assert(str_views(cur@)[c0.len() as int] == x);
                }
            }
            assert(view_set(cur@) =~= oldset.insert(user@));
        }
    } else {
        proof {
            assert(view_set(cur@) =~= oldset.insert(user@));
        }
    }
    let key = String::from_str(k);
    let ghost curv = cur@;
    um.push((key, cur));
    proof {
        assert(um@.drop_last() =~= s0);
        assert(um@.last().0@ == k@ && um@.last().1@ == curv);
    }
}

/// Pushing one name onto a name list inserts its view into the denoted set.
pub proof fn lemma_view_set_push(v: Seq<String>, x: String)
    ensures
        view_set(v.push(x)) == view_set(v).insert(x@),
{
    assert(str_views(v.push(x)) =~= str_views(v).push(x@));
    assert forall|y: Seq<char>| #[trigger]
        str_views(v.push(x)).contains(y) implies (str_views(v).contains(y) || y == x@) by {
        let t = choose|t: int| 0 <= t < str_views(v.push(x)).len() && str_views(v.push(x))[t] == y;
        if t < v.len() {
            assert(str_views(v)[t] == y);
        }
    }
    assert forall|y: Seq<char>|
        str_views(v).contains(y) || y == x@ implies #[trigger] str_views(v.push(x)).contains(
        y,
    ) by {
        if str_views(v).contains(y) {
            let t = choose|t: int| 0 <= t < str_views(v).len() && str_views(v)[t] == y;
            assert(str_views(v.push(x))[t] == y);
        } else {
            assert(str_views(v.push(x))[v.len() as int] == y);
        }
    }
    assert(view_set(v.push(x)) =~= view_set(v).insert(x@));
}

/// Appending one record extends the record abstraction by its model.
pub proof fn lemma_rels_model_push(rs: Seq<TypeRelations>, x: TypeRelations)
    ensures
        rels_model(rs.push(x)) == rels_model(rs).push(rel_model_of(x)),
{
    assert(rels_model(rs.push(x)) =~= rels_model(rs).push(rel_model_of(x)));
}

/// Scans the text and produces one record per declared type, in the order
/// the contexts were closed, exactly as the scan fold states it.
pub fn scan_relations(content: &str) -> (r: Vec<TypeRelations>)
    ensures
        rels_model(r@) == scan_text(content@).rels,
{
    let lines = split_lines(content);
    let ghost linesv = split_lines_spec(content@);
    let ghost uni = universe_spec(linesv);
    let nlines = lines.len();
    let mut universe: Vec<String> = Vec::new();
    let mut i: usize = 0;
    proof {
        assert(strslice_views(lines@) == linesv);
    }
    while i < nlines
        invariant
            i <= nlines,
            nlines == lines@.len(),
            strslice_views(lines@) == linesv,
            linesv == split_lines_spec(content@),
            forall|x: Seq<char>|
                view_set(universe@).contains(x) <==> exists|t: int|
                    0 <= t < i && type_decl_name_spec(trim_spec(#[trigger] linesv[t])) == Some(x),
        decreases nlines - i,
    {
        let tline = trim(lines[i]);
        proof {
            assert(lines@[i as int]@ == strslice_views(lines@)[i as int]);
            assert(tline@ == trim_spec(linesv[i as int]));
        }
        let ghost u0 = universe@;
        match scan_type_decl_name(tline) {
            Some(nm) => {
                proof {
                    lemma_view_set_push(u0, nm);
                }
                universe.push(nm);
                proof {
                    assert forall|x: Seq<char>|
                        view_set(universe@).contains(x) <==> exists|t: int|
                            0 <= t < i + 1 && type_decl_name_spec(
                                trim_spec(#[trigger] linesv[t]),
                            ) == Some(x) by {
                        if view_set(universe@).contains(x) {
                            if view_set(u0).contains(x) {
                            } else {
                                assert(type_decl_name_spec(trim_spec(linesv[i as int])) == Some(
                                    x,
                                ));
                            }
                        }
                    }
                }
            },
            None => {
                proof {
                    assert forall|x: Seq<char>|
                        view_set(universe@).contains(x) <==> exists|t: int|
                            0 <= t < i + 1 && type_decl_name_spec(
                                trim_spec(#[trigger] linesv[t]),
                            ) == Some(x) by {}
                }
            },
        }
        i = i + 1;
    }
    proof {
        assert(view_set(universe@) =~= uni);
    }
    let mut cur: Option<String> = None;
    let mut deps: Vec<String> = Vec::new();
    let mut processed: Vec<String> = Vec::new();
    let mut tm: Vec<(String, Vec<String>)> = Vec::new();
    let mut um: Vec<(String, Vec<String>)> = Vec::new();
    let mut rels: Vec<TypeRelations> = Vec::new();
    let mut i: usize = 0;
    proof {
        let st0 = abs_state(cur, deps@, processed@, tm@, um@, rels@);
        assert(st0.deps =~= scan_init().deps);
        assert(st0.processed =~= scan_init().processed);
        assert(st0.traits =~= scan_init().traits);
        assert(st0.usage =~= scan_init().usage);
        assert(st0.rels =~= scan_init().rels);
        assert(st0 == scan_init());
    }
    while i < nlines
        invariant
            i <= nlines,
            nlines == lines@.len(),
            strslice_views(lines@) == linesv,
            linesv == split_lines_spec(content@),
            view_set(universe@) == uni,
            uni == universe_spec(linesv),
            scan_from(linesv, i as int, abs_state(cur, deps@, processed@, tm@, um@, rels@), uni)
                == scan_from(linesv, 0, scan_init(), uni),
        decreases nlines - i,
    {
        let ghost st_a = abs_state(cur, deps@, processed@, tm@, um@, rels@);
        let tline = trim(lines[i]);
        proof {
            assert(lines@[i as int]@ == strslice_views(lines@)[i as int]);
            assert(tline@ == trim_spec(linesv[i as int]));
        }
        let ghost tlv = tline@;
        let ghost nextv: Option<Seq<char>> = if i + 1 < nlines {
            Some(trim_spec(linesv[i + 1]))
        } else {
            None
        };
        // Derive lookahead.
        if str_starts_with(tline, "#[derive") {
            if i + 1 < nlines {
                let ntline = trim(lines[i + 1]);
                proof {
                    assert(lines@[i + 1]@ == strslice_views(lines@)[i + 1]);
                    assert(ntline@ == trim_spec(linesv[i + 1]));
                }
                match scan_type_decl_name(ntline) {
                    Some(nm) => {
                        match scan_derive_body(tline) {
                            Some(body) => {
                                let toks = split_commas(body.as_str());
                                traits_set(&mut tm, nm, toks);
                            },
                            None => {},
                        }
                    },
                    None => {},
                }
            }
        }
        let ghost st_b = abs_state(cur, deps@, processed@, tm@, um@, rels@);
        proof {
            assert(st_b == step_derive(st_a, tlv, nextv));
        }
        // Declaration check.
        match scan_type_decl_name(tline) {
            Some(nm) => {
                if !vec_contains_str(&processed, nm.as_str()) {
                    let prev_opt = cur.take();
                    let ghost rels0 = rels@;
                    let ghost deps0 = deps@;
                    match prev_opt {
                        Some(prev) => {
                            let traits_v = traits_lookup(&tm, prev.as_str());
                            let used_v = usage_lookup(&um, prev.as_str());
                            let deps_taken = deps;
                            deps = Vec::new();
                            let rel = TypeRelations {
                                name: prev,
                                implemented_traits: traits_v,
                                used_by: used_v,
                                depends_on: deps_taken,
                            };
                            proof {
                                lemma_rels_model_push(rels0, rel);
                                assert(rel_model_of(rel) == RelModel {
                                    name: rel.name@,
                                    traits: traits_of(st_b, rel.name@),
                                    deps: view_set(deps0),
                                    used_by: usage_of(st_b, rel.name@),
                                });
                            }
                            rels.push(rel);
                        },
                        None => {},
                    }
                    let ghost st_f = abs_state(cur, deps@, processed@, tm@, um@, rels@);
                    proof {
                        if st_b.cur is Some {
                            assert(view_set(deps@) =~= Set::<Seq<char>>::empty());
                        }
                        assert(st_f == finalize(st_b));
                    }
                    let nmc = nm.clone();
                    proof {
                        lemma_view_set_push(processed@, nmc);
                    }
                    processed.push(nmc);
                    cur = Some(nm);
                }
            },
            None => {},
        }
        let ghost st_c = abs_state(cur, deps@, processed@, tm@, um@, rels@);
        proof {
            assert(st_c == step_decl(st_b, tlv));
        }
        // Dependency extraction.
        if let Some(c) = &cur {
            let caps = dep_captures(tline);
            let ghost capsv = dep_caps(tlv);
            let cl = caps.len();
            let mut k: usize = 0;
            while k < cl
                invariant
                    k <= cl,
                    cl == caps@.len(),
                    str_views(caps@) == capsv,
                    capsv == dep_caps(tlv),
                    view_set(universe@) == uni,
                    cur == Some(*c),
                    add_deps(
                        abs_state(cur, deps@, processed@, tm@, um@, rels@),
                        c@,
                        capsv,
                        k as int,
                        uni,
                    ) == add_deps(st_c, c@, capsv, 0, uni),
                    abs_state(cur, deps@, processed@, tm@, um@, rels@).cur == Some(c@),
                decreases cl - k,
            {
                let ghost st_k = abs_state(cur, deps@, processed@, tm@, um@, rels@);
                let cap = &caps[k];
                proof {
                    assert(cap@ == str_views(caps@)[k as int]);
                }
                if vec_contains_str(&universe, cap.as_str()) && !str_eq(cap.as_str(), c.as_str())
                 {
                    let ghost deps0 = deps@;
                    let capc = String::from_str(cap.as_str());
                    proof {
                        lemma_view_set_push(deps0, capc);
                    }
                    deps.push(capc);
                    usage_add(&mut um, cap.as_str(), c.as_str());
                    proof {
                        let st_k2 = abs_state(cur, deps@, processed@, tm@, um@, rels@);
                        assert(st_k2 == add_dep(st_k, c@, capsv[k as int], uni));
                    }
                } else {
                    proof {
                        let st_k2 = abs_state(cur, deps@, processed@, tm@, um@, rels@);
                        assert(st_k2 == add_dep(st_k, c@, capsv[k as int], uni));
                    }
                }
                k = k + 1;
            }
        }
        let ghost st_d = abs_state(cur, deps@, processed@, tm@, um@, rels@);
        proof {
            assert(st_d == step_deps(st_c, tlv, uni));
            assert(st_d == scan_line(st_a, tlv, nextv, uni));
            assert(scan_from(linesv, i as int, st_a, uni) == scan_from(linesv, i + 1, st_d, uni));
        }
        i = i + 1;
    }
    // Close the last open context.
    let ghost st_end = abs_state(cur, deps@, processed@, tm@, um@, rels@);
    let prev_opt = cur.take();
    match prev_opt {
        Some(prev) => {
            let traits_v = traits_lookup(&tm, prev.as_str());
            let used_v = usage_lookup(&um, prev.as_str());
            let rel = TypeRelations {
                name: prev,
                implemented_traits: traits_v,
                used_by: used_v,
                depends_on: deps,
            };
            let ghost rels0 = rels@;
            proof {
                lemma_rels_model_push(rels0, rel);
                assert(rel_model_of(rel) == RelModel {
                    name: rel.name@,
                    traits: traits_of(st_end, rel.name@),
                    deps: st_end.deps,
                    used_by: usage_of(st_end, rel.name@),
                });
            }
            rels.push(rel);
        },
        None => {},
    }
    proof {
        assert(rels_model(rels@) == finalize(st_end).rels);
        assert(scan_from(linesv, nlines as int, st_end, uni) == st_end);
        assert(rels_model(rels@) == scan_text(content@).rels);
    }
    rels
}

/// The set of names of the records produced so far.
pub open spec fn rels_names(rels: Seq<RelModel>) -> Set<Seq<char>> {
    Set::new(|x: Seq<char>| exists|a: int| 0 <= a < rels.len() && rels[a].name == x)
}

/// The standing invariant of the scan state: record names are distinct and
/// already seen, every recorded dependency lies in the universe, and the
/// seen names are exactly the record names plus the open context.
pub open spec fn scan_inv(st: ScanModel, universe: Set<Seq<char>>) -> bool {
    &&& forall|a: int, b: int| 0 <= a < b < st.rels.len() ==> st.rels[a].name != st.rels[b].name
    &&& forall|a: int| 0 <= a < st.rels.len() ==> (#[trigger] st.rels[a].deps).subset_of(universe)
    &&& st.deps.subset_of(universe)
    &&& st.processed.subset_of(universe)
    &&& forall|x: Seq<char>|
        #![auto]
        st.processed.contains(x) <==> (rels_names(st.rels).contains(x) || st.cur == Some(x))
    &&& match st.cur {
        Some(c) => !rels_names(st.rels).contains(c),
        None => true,
    }
}

proof fn lemma_rels_names_push(rels: Seq<RelModel>, r: RelModel)
    ensures
        forall|x: Seq<char>|
            #![auto]
            rels_names(rels.push(r)).contains(x) <==> (rels_names(rels).contains(x) || x
                == r.name),
{
    assert forall|x: Seq<char>|
        #![auto]
        rels_names(rels.push(r)).contains(x) <==> (rels_names(rels).contains(x) || x
            == r.name) by {
        if rels_names(rels.push(r)).contains(x) {
            let a = choose|a: int| 0 <= a < rels.push(r).len() && rels.push(r)[a].name == x;
            if a < rels.len() {
                assert(rels[a].name == x);
            }
        }
        if rels_names(rels).contains(x) {
            let a = choose|a: int| 0 <= a < rels.len() && rels[a].name == x;
            assert(rels.push(r)[a].name == x);
        }
        if x == r.name {
            assert(rels.push(r)[rels.len() as int].name == x);
        }
    }
}

proof fn lemma_add_deps_frame(
    st: ScanModel,
    c: Seq<char>,
    caps: Seq<Seq<char>>,
    i: int,
    universe: Set<Seq<char>>,
)
    requires
        0 <= i <= caps.len(),
        st.deps.subset_of(universe),
    ensures
        ({
            let r = add_deps(st, c, caps, i, universe);
            &&& r.cur == st.cur
            &&& r.processed == st.processed
            &&& r.rels == st.rels
            &&& r.traits == st.traits
            &&& r.deps.subset_of(universe)
        }),
    decreases caps.len() - i,
{
    if i < caps.len() {
        let st1 = add_dep(st, c, caps[i], universe);
        assert(st1.deps.subset_of(universe));
        lemma_add_deps_frame(st1, c, caps, i + 1, universe);
    }
}

proof fn lemma_scan_line_inv(
    st: ScanModel,
    tline: Seq<char>,
    next: Option<Seq<char>>,
    universe: Set<Seq<char>>,
)
    requires
        scan_inv(st, universe),
        match type_decl_name_spec(tline) {
            Some(nm) => universe.contains(nm),
            None => true,
        },
    ensures
        scan_inv(scan_line(st, tline, next, universe), universe),
        st.processed.subset_of(scan_line(st, tline, next, universe).processed),
        match type_decl_name_spec(tline) {
            Some(nm) => scan_line(st, tline, next, universe).processed.contains(nm),
            None => true,
        },
{
    let st1 = step_derive(st, tline, next);
    assert(scan_inv(st1, universe));
    let st2 = step_decl(st1, tline);
    match type_decl_name_spec(tline) {
        Some(nm) => {
            if !st1.processed.contains(nm) {
                let stf = finalize(st1);
                match st1.cur {
                    Some(c) => {
                        let rel = RelModel {
                            name: c,
                            traits: traits_of(st1, c),
                            deps: st1.deps,
                            used_by: usage_of(st1, c),
                        };
                        lemma_rels_names_push(st1.rels, rel);
                        assert forall|a: int, b: int|
                            0 <= a < b < stf.rels.len() implies stf.rels[a].name
                            != stf.rels[b].name by {
                            if b == stf.rels.len() - 1 {
                                assert(rels_names(st1.rels).contains(st1.rels[a].name));
                            }
                        }
                    },
                    None => {},
                }
                assert(scan_inv(st2, universe));
            } else {
                assert(st2 == st1);
            }
        },
        None => {},
    }
    let st3 = step_deps(st2, tline, universe);
    match st2.cur {
        Some(c) => {
            lemma_add_deps_frame(st2, c, dep_caps(tline), 0, universe);
        },
        None => {},
    }
    assert(scan_inv(st3, universe));
}

proof fn lemma_scan_from_inv(
    lines: Seq<Seq<char>>,
    i: int,
    st: ScanModel,
    universe: Set<Seq<char>>,
)
    requires
        0 <= i <= lines.len(),
        universe == universe_spec(lines),
        scan_inv(st, universe),
        forall|t: int|
            0 <= t < i ==> match type_decl_name_spec(trim_spec(#[trigger] lines[t])) {
                Some(nm) => st.processed.contains(nm),
                None => true,
            },
    ensures
        ({
            let r = scan_from(lines, i, st, universe);
            &&& scan_inv(r, universe)
            &&& forall|t: int|
                0 <= t < lines.len() ==> match type_decl_name_spec(
                    trim_spec(#[trigger] lines[t]),
                ) {
                    Some(nm) => r.processed.contains(nm),
                    None => true,
                }
        }),
    decreases lines.len() - i,
{
    if i < lines.len() {
        let next = if i + 1 < lines.len() {
            Some(trim_spec(lines[i + 1]))
        } else {
            None
        };
        let tline = trim_spec(lines[i]);
        match type_decl_name_spec(tline) {
            Some(nm) => {
                assert(universe.contains(nm));
            },
            None => {},
        }
        lemma_scan_line_inv(st, tline, next, universe);
        let st1 = scan_line(st, tline, next, universe);
        lemma_scan_from_inv(lines, i + 1, st1, universe);
    }
}

/// The finished scan is well formed: record names are distinct, and every
/// recorded dependency is itself the name of some record.
pub proof fn lemma_scan_wf(text: Seq<char>)
    ensures
        ({
            let m = scan_text(text);
            &&& forall|a: int, b: int|
                0 <= a < b < m.rels.len() ==> m.rels[a].name != m.rels[b].name
            &&& forall|a: int|
                0 <= a < m.rels.len() ==> (#[trigger] m.rels[a].deps).subset_of(
                    rels_names(m.rels),
                )
        }),
{
    let lines = split_lines_spec(text);
    let universe = universe_spec(lines);
    assert(scan_inv(scan_init(), universe));
    lemma_scan_from_inv(lines, 0, scan_init(), universe);
    let st1 = scan_from(lines, 0, scan_init(), universe);
    assert forall|x: Seq<char>| universe.contains(x) implies st1.processed.contains(x) by {
        let t = choose|t: int|
            0 <= t < lines.len() && type_decl_name_spec(trim_spec(#[trigger] lines[t])) == Some(
                x,
            );
        assert(match type_decl_name_spec(trim_spec(lines[t])) {
            Some(nm) => st1.processed.contains(nm),
            None => true,
        });
    }
    let m = finalize(st1);
    match st1.cur {
        Some(c) => {
            let rel = RelModel {
                name: c,
                traits: traits_of(st1, c),
                deps: st1.deps,
                used_by: usage_of(st1, c),
            };
            lemma_rels_names_push(st1.rels, rel);
            assert forall|a: int, b: int| 0 <= a < b < m.rels.len() implies m.rels[a].name
                != m.rels[b].name by {
                if b == m.rels.len() - 1 {
                    assert(rels_names(st1.rels).contains(st1.rels[a].name));
                }
            }
            assert forall|x: Seq<char>| st1.processed.contains(x) implies rels_names(
                m.rels,
            ).contains(x) by {}
        },
        None => {
            assert forall|x: Seq<char>| st1.processed.contains(x) implies rels_names(
                m.rels,
            ).contains(x) by {}
        },
    }
    assert forall|a: int| 0 <= a < m.rels.len() implies (#[trigger] m.rels[a].deps).subset_of(
        rels_names(m.rels),
    ) by {
        assert forall|y: Seq<char>| m.rels[a].deps.contains(y) implies rels_names(
            m.rels,
        ).contains(y) by {
            assert(universe.contains(y));
            assert(st1.processed.contains(y));
        }
    }
}

} // verus!
