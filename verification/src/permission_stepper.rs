//! Lifting point-granular permission snapshots onto source-level statements,
//! and differencing the lifted snapshots in program order.
//!
//! The lifter visits every program point after its effect, skips points that
//! lie exclusively on unwind/cleanup paths, resolves each remaining point to
//! its enclosing statement, and joins the point's domain into that
//! statement's accumulated domain. The differ then walks the statements in
//! depth-first source order, keeping one running snapshot seeded from the
//! function's entry permissions, and records per statement which places
//! changed, finally dropping compiler temporaries and unchanged statements
//! from the report.

use vstd::prelude::*;

use crate::AquascopeError;
use crate::AquascopeResult;
use crate::facts::{AquascopeFacts, PlaceFacts, PointFacts, spec_domain_of, spec_domains};
use crate::facts::{compute, initial_body_permissions};
use crate::permissions::{PermsDiff, PermissionsData, PermissionsDomain, spec_join};
use crate::tree::{SyntaxNode, SyntaxTree, location_to_stmt, spec_stmt_of, spec_stmt_order};
use crate::tree::{lemma_subtree_stmts_in_range, statement_order};

verus! {

/// The domains of a point sequence, as mathematical values.
pub open spec fn doms_view(doms: Seq<PermissionsDomain>) -> Seq<Seq<PermissionsData>> {
    Seq::new(doms.len(), |p: int| doms[p]@)
}

/// The statement that program point `p` contributes to: none when the point
/// is unwind-only, has no originating node, or its walk up the tree finds no
/// statement.
pub open spec fn spec_lift_target(
    nodes: Seq<SyntaxNode>,
    points: Seq<PointFacts>,
    p: int,
) -> Option<int> {
    if 0 <= p < points.len() && !points[p].is_cleanup && points[p].node is Some
        && points[p].node.unwrap() < nodes.len() {
        spec_stmt_of(nodes, points[p].node.unwrap() as int)
    } else {
        None
    }
}

/// The statement-indexed accumulation of the first `upto` points' domains:
/// each contributing point's domain is joined into the entry of its target
/// statement, and statements nothing contributes to stay absent.
pub open spec fn spec_lift(
    nodes: Seq<SyntaxNode>,
    points: Seq<PointFacts>,
    doms: Seq<Seq<PermissionsData>>,
    upto: int,
) -> Seq<Option<Seq<PermissionsData>>>
    decreases upto,
{
    if upto <= 0 {
        Seq::new(nodes.len(), |s: int| None)
    } else {
        let prev = spec_lift(nodes, points, doms, upto - 1);
        let p = upto - 1;
        match spec_lift_target(nodes, points, p) {
            None => prev,
            Some(s) => {
                let merged = match prev[s] {
                    None => doms[p],
                    Some(d) => spec_join(d, doms[p]),
                };
                prev.update(s, Some(merged))
            },
        }
    }
}

/// Whether the exec-level lifted map carries exactly the domains of the
/// mathematical lifted map.
pub open spec fn lifted_matches(
    m: Seq<Option<PermissionsDomain>>,
    l: Seq<Option<Seq<PermissionsData>>>,
) -> bool {
    &&& m.len() == l.len()
    &&& forall|s: int|
        0 <= s < m.len() ==> match #[trigger] m[s] {
            None => l[s] is None,
            Some(d) => l[s] == Some(d@),
        }
}

/// The lifted map always has one entry per syntax node.
pub proof fn lemma_lift_len(
    nodes: Seq<SyntaxNode>,
    points: Seq<PointFacts>,
    doms: Seq<Seq<PermissionsData>>,
    upto: int,
)
    ensures
        spec_lift(nodes, points, doms, upto).len() == nodes.len(),
    decreases upto,
{
    if upto > 0 {
        lemma_lift_len(nodes, points, doms, upto - 1);
        lemma_lift_target_in_range(nodes, points, upto - 1);
        let prev = spec_lift(nodes, points, doms, upto - 1);
        match spec_lift_target(nodes, points, upto - 1) {
            None => {
                assert(spec_lift(nodes, points, doms, upto) == prev);
            },
            Some(s) => {
                let merged = match prev[s] {
                    None => doms[upto - 1],
                    Some(d) => spec_join(d, doms[upto - 1]),
                };
                assert(spec_lift(nodes, points, doms, upto) == prev.update(s, Some(merged)));
            },
        }
    }
}

/// A lift target is always a node of the tree.
pub proof fn lemma_lift_target_in_range(nodes: Seq<SyntaxNode>, points: Seq<PointFacts>, p: int)
    ensures
        spec_lift_target(nodes, points, p) matches Some(s) ==> 0 <= s < nodes.len(),
{
    if 0 <= p < points.len() && !points[p].is_cleanup && points[p].node is Some
        && points[p].node.unwrap() < nodes.len() {
        crate::tree::lemma_stmt_of_in_range(nodes, points[p].node.unwrap() as int);
    }
}

/// Unwind-exclusion law: a program point flagged unwind-only never
/// contributes to any statement's lifted domain — the lifted result does not
/// depend on what the analysis computed at cleanup points, whatever their
/// content.
pub proof fn lemma_unwind_exclusion(
    nodes: Seq<SyntaxNode>,
    points: Seq<PointFacts>,
    doms1: Seq<Seq<PermissionsData>>,
    doms2: Seq<Seq<PermissionsData>>,
    upto: int,
)
    requires
        forall|p: int|
            0 <= p < points.len() && !(#[trigger] points[p]).is_cleanup ==> doms1[p] == doms2[p],
        upto <= points.len(),
    ensures
        spec_lift(nodes, points, doms1, upto) == spec_lift(nodes, points, doms2, upto),
    decreases upto,
{
    if upto > 0 {
        lemma_unwind_exclusion(nodes, points, doms1, doms2, upto - 1);
        let p = upto - 1;
        if spec_lift_target(nodes, points, p) is Some {
            assert(!points[p].is_cleanup);
            assert(doms1[p] == doms2[p]);
        }
    }
}

/// A statement carries a lifted domain exactly when some one of the first
/// `upto` program points contributes to it.
pub proof fn lemma_lift_some_iff(
    nodes: Seq<SyntaxNode>,
    points: Seq<PointFacts>,
    doms: Seq<Seq<PermissionsData>>,
    upto: int,
)
    requires
        0 <= upto,
    ensures
        forall|s: int|
            0 <= s < nodes.len() ==> (#[trigger] spec_lift(nodes, points, doms, upto)[s] is Some
                <==> exists|p: int|
                0 <= p < upto && spec_lift_target(nodes, points, p) == Some(s)),
    decreases upto,
{
    if upto > 0 {
        lemma_lift_some_iff(nodes, points, doms, upto - 1);
        lemma_lift_len(nodes, points, doms, upto - 1);
        lemma_lift_target_in_range(nodes, points, upto - 1);
        let prev = spec_lift(nodes, points, doms, upto - 1);
        let cur = spec_lift(nodes, points, doms, upto);
        assert forall|s: int| 0 <= s < nodes.len() implies (#[trigger] cur[s] is Some <==> exists|
            p: int,
        | 0 <= p < upto && spec_lift_target(nodes, points, p) == Some(s)) by {
            match spec_lift_target(nodes, points, upto - 1) {
                None => {
                    assert(cur[s] == prev[s]);
                    if exists|p: int| 0 <= p < upto && spec_lift_target(nodes, points, p) == Some(
                        s,
                    ) {
                        let p = choose|p: int|
                            0 <= p < upto && spec_lift_target(nodes, points, p) == Some(s);
                        assert(p < upto - 1 || p == upto - 1);
                        assert(0 <= p < upto - 1 && spec_lift_target(nodes, points, p) == Some(s));
                    }
                },
                Some(s0) => {
                    if s == s0 {
                        assert(cur[s] is Some);
                        assert(spec_lift_target(nodes, points, upto - 1) == Some(s));
                    } else {
                        assert(cur[s] == prev[s]);
                        if exists|p: int|
                            0 <= p < upto && spec_lift_target(nodes, points, p) == Some(s) {
                            let p = choose|p: int|
                                0 <= p < upto && spec_lift_target(nodes, points, p) == Some(s);
                            assert(0 <= p < upto - 1 && spec_lift_target(nodes, points, p) == Some(
                                s,
                            ));
                        }
                    }
                },
            }
        }
    }
}

/// Lifts the per-point domains onto statement nodes: every non-unwind point
/// whose span resolves to a statement has its domain joined into that
/// statement's entry, so a statement spanning several points ends up with the
/// conservative intersection of their capabilities.
pub fn lift(tree: &SyntaxTree, facts: &AquascopeFacts, doms: &Vec<PermissionsDomain>) -> (m: Vec<
    Option<PermissionsDomain>,
>)
    requires
        tree.wf(),
        facts.wf(),
        doms@.len() == facts.points@.len(),
        forall|p: int|
            0 <= p < doms@.len() ==> (#[trigger] doms@[p])@.len() == facts.places@.len(),
    ensures
        m@.len() == tree.nodes@.len(),
        lifted_matches(
            m@,
            spec_lift(tree.nodes@, facts.points@, doms_view(doms@), facts.points@.len() as int),
        ),
        forall|s: int|
            0 <= s < m@.len() ==> (#[trigger] m@[s] matches Some(d) ==> d@.len()
                == facts.places@.len()),
{
    let mut m: Vec<Option<PermissionsDomain>> = Vec::new();
    let mut s: usize = 0;
    while s < tree.nodes.len()
        invariant
            s <= tree.nodes@.len(),
            m@.len() == s,
            forall|j: int| 0 <= j < s ==> #[trigger] m@[j] is None,
        decreases tree.nodes@.len() - s,
    {
        m.push(None);
        s = s + 1;
    }
    let ghost nodes = tree.nodes@;
    let ghost points = facts.points@;
    let ghost dv = doms_view(doms@);
    proof {
        assert(lifted_matches(m@, spec_lift(nodes, points, dv, 0)));
    }
    let mut p: usize = 0;
    while p < facts.points.len()
        invariant
            p <= facts.points@.len(),
            tree.wf(),
            facts.wf(),
            nodes == tree.nodes@,
            points == facts.points@,
            dv == doms_view(doms@),
            doms@.len() == facts.points@.len(),
            forall|q: int|
                0 <= q < doms@.len() ==> (#[trigger] doms@[q])@.len() == facts.places@.len(),
            m@.len() == tree.nodes@.len(),
            lifted_matches(m@, spec_lift(nodes, points, dv, p as int)),
            forall|s: int|
                0 <= s < m@.len() ==> (#[trigger] m@[s] matches Some(d) ==> d@.len()
                    == facts.places@.len()),
        decreases facts.points@.len() - p,
    {
        let ghost prev_m = m@;
        let ghost prev_l = spec_lift(nodes, points, dv, p as int);
        let pt = &facts.points[p];
        if !pt.is_cleanup {
            if let Some(nd) = pt.node {
                if nd < tree.nodes.len() {
                    if let Some(stmt) = location_to_stmt(tree, nd) {
                        proof {
                            crate::tree::lemma_stmt_of_in_range(nodes, nd as int);
                            lemma_lift_len(nodes, points, dv, p as int);
                            assert(spec_lift_target(nodes, points, p as int) == Some(stmt as int));
                            assert(stmt < m@.len());
                        }
                        let cur = m[stmt].take();
                        match cur {
                            None => {
                                m[stmt] = Some(doms[p].clone());
                            },
                            Some(mut d) => {
                                d.join(&doms[p]);
                                m[stmt] = Some(d);
                            },
                        }
                        proof {
                            let merged = match prev_l[stmt as int] {
                                None => dv[p as int],
                                Some(d) => spec_join(d, dv[p as int]),
                            };
                            assert(m@ =~= prev_m.update(stmt as int, m@[stmt as int]));
                            assert(m@[stmt as int] matches Some(d) && d@ == merged);
                            assert(spec_lift(nodes, points, dv, p as int + 1) == prev_l.update(
                                stmt as int,
                                Some(merged),
                            ));
                        }
                    } else {
                        proof {
                            assert(spec_lift_target(nodes, points, p as int) is None);
                        }
                    }
                }
            }
        }
        proof {
            assert(lifted_matches(m@, spec_lift(nodes, points, dv, p as int + 1)));
        }
        p = p + 1;
    }
    m
}

/// The per-place capability transitions between two consecutive snapshots of
/// the same place universe; a place present in one snapshot but absent in the
/// other is an internal defect of the analysis, reported as an error rather
/// than skipped.
pub fn domain_step(before: &PermissionsDomain, after: &PermissionsDomain) -> (r: Result<
    Vec<PermsDiff>,
    AquascopeError,
>)
    ensures
        before@.len() == after@.len() ==> (r matches Ok(v) && v@.len() == before@.len() && forall|
            pl: int,
        |
            0 <= pl < before@.len() ==> v@[pl] == PermsDiff::spec_step(
                before@[pl].spec_permissions(),
                after@[pl].spec_permissions(),
            )),
        before@.len() != after@.len() ==> (r matches Err(e) && e is AnalysisError),
{
    if before.len() != after.len() {
        return Err(
            AquascopeError::AnalysisError(
                String::from_str("domain step compared snapshots of different place universes"),
            ),
        );
    }
    let n = before.len();
    let mut v: Vec<PermsDiff> = Vec::new();
    let mut pl: usize = 0;
    while pl < n
        invariant
            pl <= n,
            n == before@.len(),
            n == after@.len(),
            v@.len() == pl,
            forall|k: int|
                0 <= k < pl ==> v@[k] == PermsDiff::spec_step(
                    before@[k].spec_permissions(),
                    after@[k].spec_permissions(),
                ),
        decreases n - pl,
    {
        v.push(before.get(pl).step(after.get(pl)));
        pl = pl + 1;
    }
    Ok(v)
}

/// The lifted domains of the whole function, one optional entry per syntax
/// node.
pub open spec fn spec_lifted(facts: AquascopeFacts, nodes: Seq<SyntaxNode>) -> Seq<
    Option<Seq<PermissionsData>>,
> {
    spec_lift(nodes, facts.points@, spec_domains(facts), facts.points@.len() as int)
}

/// Whether every statement visited by the program-order walk has a lifted
/// domain — the dataflow engine's guarantee, whose failure is an internal
/// error.
pub open spec fn all_statements_mapped(facts: AquascopeFacts, nodes: Seq<SyntaxNode>) -> bool {
    forall|i: int|
        0 <= i < spec_stmt_order(nodes).len() ==> spec_lifted(facts, nodes)[(
        #[trigger] spec_stmt_order(nodes)[i]) as int] is Some
}

/// The running snapshot just before the `i`-th statement of the walk: the
/// entry permissions for the first statement, afterwards the lifted domain of
/// the statement just visited.
pub open spec fn spec_snapshot_before(
    facts: AquascopeFacts,
    nodes: Seq<SyntaxNode>,
    i: int,
) -> Seq<PermissionsData> {
    if i == 0 {
        spec_domain_of(facts.places@, facts.entry@)
    } else {
        spec_lifted(facts, nodes)[spec_stmt_order(nodes)[i - 1] as int].unwrap()
    }
}

/// The raw per-place diff of the `i`-th statement of the walk.
pub open spec fn spec_stmt_diff(facts: AquascopeFacts, nodes: Seq<SyntaxNode>, i: int) -> Seq<
    PermsDiff,
> {
    let before = spec_snapshot_before(facts, nodes, i);
    let after = spec_lifted(facts, nodes)[spec_stmt_order(nodes)[i] as int].unwrap();
    Seq::new(
        before.len(),
        |pl: int|
            PermsDiff::spec_step(before[pl].spec_permissions(), after[pl].spec_permissions()),
    )
}

/// The user-visible part of one statement's diff: the places that are
/// user-named source variables and actually changed, as (place, diff) pairs
/// in place-table order over the first `k` places.
pub open spec fn spec_visible_pairs(diffs: Seq<PermsDiff>, places: Seq<PlaceFacts>, k: int) -> Seq<
    (usize, PermsDiff),
>
    decreases k,
{
    if k <= 0 {
        Seq::<(usize, PermsDiff)>::empty()
    } else {
        spec_visible_pairs(diffs, places, k - 1) + (if places[k - 1].is_user_variable && !diffs[k
            - 1].spec_is_empty() {
            seq![(((k - 1) as usize), diffs[k - 1])]
        } else {
            Seq::<(usize, PermsDiff)>::empty()
        })
    }
}

/// The filtered step report over the first `i` statements of the walk:
/// statements whose visible diff is empty are omitted entirely.
pub open spec fn spec_steps(facts: AquascopeFacts, nodes: Seq<SyntaxNode>, i: int) -> Seq<
    (usize, Seq<(usize, PermsDiff)>),
>
    decreases i,
{
    if i <= 0 {
        Seq::<(usize, Seq<(usize, PermsDiff)>)>::empty()
    } else {
        let prefix = spec_steps(facts, nodes, i - 1);
        let pairs = spec_visible_pairs(
            spec_stmt_diff(facts, nodes, i - 1),
            facts.places@,
            facts.places@.len() as int,
        );
        if pairs.len() > 0 {
            prefix.push((spec_stmt_order(nodes)[i - 1], pairs))
        } else {
            prefix
        }
    }
}

/// Whether an exec-level step report carries exactly the model's entries.
pub open spec fn steps_match(
    steps: Seq<(usize, Vec<(usize, PermsDiff)>)>,
    model: Seq<(usize, Seq<(usize, PermsDiff)>)>,
) -> bool {
    &&& steps.len() == model.len()
    &&& forall|i: int|
        0 <= i < steps.len() ==> (#[trigger] steps[i]).0 == model[i].0 && steps[i].1@ == model[i].1
}

/// Extracts the user-visible pairs of one statement's raw diff.
fn visible_pairs(diffs: &Vec<PermsDiff>, places: &Vec<PlaceFacts>) -> (v: Vec<(usize, PermsDiff)>)
    requires
        diffs@.len() == places@.len(),
    ensures
        v@ == spec_visible_pairs(diffs@, places@, diffs@.len() as int),
        forall|j: int| 0 <= j < v@.len() ==> (#[trigger] v@[j]).0 < places@.len(),
{
    let mut v: Vec<(usize, PermsDiff)> = Vec::new();
    let mut k: usize = 0;
    while k < diffs.len()
        invariant
            k <= diffs@.len(),
            diffs@.len() == places@.len(),
            v@ == spec_visible_pairs(diffs@, places@, k as int),
            forall|j: int| 0 <= j < v@.len() ==> (#[trigger] v@[j]).0 < places@.len(),
        decreases diffs@.len() - k,
    {
        if places[k].is_user_variable && !diffs[k].is_empty() {
            v.push((k, diffs[k]));
        }
        proof {
            assert(v@ =~= spec_visible_pairs(diffs@, places@, k as int + 1));
        }
        k = k + 1;
    }
    v
}

/// Computes the statement-by-statement permission report of one analyzed
/// function: derives every point's domain, lifts the domains onto statements
/// (ignoring unwind-only points), walks the statements in depth-first source
/// order differencing each against the running snapshot, and keeps, per
/// statement, the changed user-named places. Statements with no visible
/// change are omitted. Fails exactly when some visited statement has no
/// lifted domain, which the engine's guarantees rule out for consistent
/// facts.
pub fn compute_permission_steps(facts: &AquascopeFacts, tree: &SyntaxTree) -> (r: AquascopeResult<
    Vec<(usize, Vec<(usize, PermsDiff)>)>,
>)
    requires
        facts.wf(),
        tree.wf(),
    ensures
        r is Ok <==> all_statements_mapped(*facts, tree.nodes@),
        r matches Ok(steps) ==> steps_match(
            steps@,
            spec_steps(*facts, tree.nodes@, spec_stmt_order(tree.nodes@).len() as int),
        ),
        r matches Ok(steps) ==> forall|i: int|
            0 <= i < steps@.len() ==> (#[trigger] steps@[i]).0 < tree.nodes@.len() && forall|
                j: int,
            | 0 <= j < steps@[i].1@.len() ==> (#[trigger] steps@[i].1@[j]).0
                < facts.places@.len(),
        r matches Err(e) ==> e is AnalysisError,
{
    let doms = compute(facts);
    proof {
        assert(doms_view(doms@) =~= spec_domains(*facts));
    }
    let lifted = lift(tree, facts, &doms);
    let order = statement_order(tree);
    let n_nodes = tree.nodes.len();
    proof {
        if n_nodes > 0 {
            lemma_subtree_stmts_in_range(tree.nodes@, 0);
        }
    }
    let mut last: PermissionsDomain = initial_body_permissions(facts);
    let mut out: Vec<(usize, Vec<(usize, PermsDiff)>)> = Vec::new();
    let ghost nodes = tree.nodes@;
    let mut i: usize = 0;
    while i < order.len()
        invariant
            i <= order@.len(),
            facts.wf(),
            tree.wf(),
            nodes == tree.nodes@,
            order@ == spec_stmt_order(nodes),
            forall|j: int| 0 <= j < order@.len() ==> (#[trigger] order@[j]) < nodes.len(),
            lifted@.len() == nodes.len(),
            lifted_matches(lifted@, spec_lifted(*facts, nodes)),
            forall|s: int|
                0 <= s < lifted@.len() ==> (#[trigger] lifted@[s] matches Some(d) ==> d@.len()
                    == facts.places@.len()),
            forall|j: int|
                0 <= j < i ==> spec_lifted(*facts, nodes)[(#[trigger] order@[j]) as int] is Some,
            last@ == spec_snapshot_before(*facts, nodes, i as int),
            last@.len() == facts.places@.len(),
            steps_match(out@, spec_steps(*facts, nodes, i as int)),
            forall|k: int|
                0 <= k < out@.len() ==> (#[trigger] out@[k]).0 < nodes.len() && forall|j: int|
                    0 <= j < out@[k].1@.len() ==> (#[trigger] out@[k].1@[j]).0
                        < facts.places@.len(),
        decreases order@.len() - i,
    {
        let s = order[i];
        match &lifted[s] {
            None => {
                proof {
                    assert(spec_lifted(*facts, nodes)[order@[i as int] as int] is None);
                }
                return Err(
                    AquascopeError::AnalysisError(
                        String::from_str("no lifted domain for a visited statement"),
                    ),
                );
            },
            Some(d) => {
                let diffs = match domain_step(&last, d) {
                    Ok(v) => v,
                    Err(e) => {
                        // Both snapshots provably span the place universe, so
                        // this arm cannot be reached.
                        proof {
                            assert(false);
                        }
                        return Err(e);
                    },
                };
                let pairs = visible_pairs(&diffs, &facts.places);
                proof {
                    assert(diffs@ =~= spec_stmt_diff(*facts, nodes, i as int));
                }
                if pairs.len() > 0 {
                    out.push((s, pairs));
                }
                last = d.clone();
                proof {
                    assert(steps_match(out@, spec_steps(*facts, nodes, i as int + 1)));
                }
            },
        }
        i = i + 1;
    }
    Ok(out)
}

} // verus!
