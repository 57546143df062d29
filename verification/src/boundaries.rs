//! Presentation-ready records: permission boundaries at call expressions and
//! the per-statement diff report, both keyed by source ranges.

use vstd::prelude::*;

use itertools::Itertools;

use crate::AquascopeError;
use crate::AquascopeResult;
use crate::Range;
use crate::facts::AquascopeFacts;
use crate::facts::compute;
use crate::facts::spec_domains;
use crate::permission_stepper::{compute_permission_steps, all_statements_mapped};
use crate::permission_stepper::{spec_steps, steps_match};
use crate::permissions::{PermsDiff, Permissions, PermissionsData, RefinementRegion};
use crate::tree::{SyntaxTree, spec_stmt_order};

verus! {

/// One call expression paired with what the analysis should report about it:
/// the syntax node whose range locates the call, the program point and the
/// place whose permissions are inspected there, the permissions the call
/// expects, and the refinement region explaining a shortfall, if the fact
/// provider attributed one.
#[derive(Debug)]
pub struct CallSite {
    pub node: usize,
    pub point: usize,
    pub place: usize,
    pub expected: Permissions,
    pub refinement: Option<RefinementRegion>,
}

/// The permission state at one call expression: where it is, what the call
/// expects, and what actually holds there.
#[derive(Debug)]
pub struct PermissionsBoundary {
    pub location: Range,
    pub expected: Permissions,
    pub actual: PermissionsData,
    pub refinement: Option<RefinementRegion>,
}

/// The boundary records of one analysis run, one per call expression.
#[derive(Debug)]
pub struct PermissionsBoundaryOutput(pub Vec<PermissionsBoundary>);

/// The per-statement diff of one statement, located by its source range: for
/// every user-named place whose permissions changed, the bit transitions.
#[derive(Debug)]
pub struct PermissionsStateStep {
    pub location: Range,
    pub state: Vec<(String, PermsDiff)>,
}

/// The step report of one analysis run, in program order.
#[derive(Debug)]
pub struct PermissionsDiffOutput(pub Vec<PermissionsStateStep>);

/// Whether two ranges denote the same span of the same file.
pub open spec fn same_location(a: Range, b: Range) -> bool {
    &&& a.char_start == b.char_start
    &&& a.char_end == b.char_end
    &&& a.byte_start == b.byte_start
    &&& a.byte_end == b.byte_end
    &&& a.filename@ == b.filename@
}

/// Whether two optional refinement regions carry the same refiner and the
/// same ranges.
pub open spec fn opt_region_matches(
    a: Option<RefinementRegion>,
    b: Option<RefinementRegion>,
) -> bool {
    match (a, b) {
        (None, None) => true,
        (Some(x), Some(y)) => x.refiner_point == y.refiner_point && x.refined_ranges@
            == y.refined_ranges@,
        _ => false,
    }
}

/// Keeps, for each source range, only the first boundary reported for it,
/// preserving order. Boundaries reported twice for one range are
/// content-identical by construction, so nothing is lost.
pub open spec fn spec_unique_by_location(s: Seq<PermissionsBoundary>) -> Seq<PermissionsBoundary>
    decreases s.len(),
{
    if s.len() == 0 {
        s
    } else {
        let prefix = spec_unique_by_location(s.drop_last());
        if exists|j: int| 0 <= j < s.len() - 1 && same_location(s[j].location, s.last().location) {
            prefix
        } else {
            prefix.push(s.last())
        }
    }
}

/// Relies on itertools' `unique_by`: of elements with equal keys, only the
/// first is yielded, and the order of the yielded elements is the input
/// order. The key is the boundary's location, whose derived equality is
/// field-for-field, matching [`same_location`].
#[verifier::external_body]
fn unique_by_location(v: Vec<PermissionsBoundary>) -> (r: Vec<PermissionsBoundary>)
    ensures
        r@ == spec_unique_by_location(v@),
{
    v.into_iter().unique_by(|b| b.location.clone()).collect()
}

impl PermissionsBoundaryOutput {
    /// Merges the boundary records of two analysis runs over overlapping
    /// spans, deduplicating by source range.
    pub fn join(self, other: Self) -> (r: Self)
        ensures
            r.0@ == spec_unique_by_location(self.0@ + other.0@),
    {
        let mut v = self.0;
        let mut o = other.0;
        v.append(&mut o);
        PermissionsBoundaryOutput(unique_by_location(v))
    }
}

impl PermissionsDiffOutput {
    /// Concatenates the step reports of two analysis runs.
    pub fn join(self, other: Self) -> (r: Self)
        ensures
            r.0@ == self.0@ + other.0@,
    {
        let mut v = self.0;
        let mut o = other.0;
        v.append(&mut o);
        PermissionsDiffOutput(v)
    }
}

/// Clones an optional refinement region.
fn clone_refinement(o: &Option<RefinementRegion>) -> (r: Option<RefinementRegion>)
    ensures
        opt_region_matches(r, *o),
{
    match o {
        None => None,
        Some(region) => Some(region.clone()),
    }
}

/// Whether a call site's indices all fall inside the analyzed function's
/// tables.
pub open spec fn spec_call_in_range(c: CallSite, facts: AquascopeFacts, tree: SyntaxTree) -> bool {
    &&& c.node < tree.nodes@.len()
    &&& c.point < facts.points@.len()
    &&& c.place < facts.places@.len()
}

/// Builds the boundary record of every call expression: the permission state
/// actually holding at the call's program point for the inspected place,
/// beside what the call expects. Fails exactly when some call site points
/// outside the function's tables, which the front end's guarantees rule out.
pub fn permission_boundaries(facts: &AquascopeFacts, tree: &SyntaxTree, calls: Vec<CallSite>) -> (r:
    AquascopeResult<PermissionsBoundaryOutput>)
    requires
        facts.wf(),
        tree.wf(),
    ensures
        r is Ok <==> (forall|i: int|
            0 <= i < calls@.len() ==> spec_call_in_range(#[trigger] calls@[i], *facts, *tree)),
        r matches Ok(out) ==> out.0@.len() == calls@.len() && forall|i: int|
            0 <= i < calls@.len() ==> {
                let b = #[trigger] out.0@[i];
                &&& b.location == tree.nodes@[calls@[i].node as int].range
                &&& b.expected == calls@[i].expected
                &&& b.actual == spec_domains(*facts)[calls@[i].point as int][calls@[i].place as int]
                &&& opt_region_matches(b.refinement, calls@[i].refinement)
            },
        r matches Err(e) ==> e is AnalysisError,
{
    let domains = compute(facts);
    let mut out: Vec<PermissionsBoundary> = Vec::new();
    let mut i: usize = 0;
    while i < calls.len()
        invariant
            i <= calls@.len(),
            facts.wf(),
            tree.wf(),
            domains@.len() == facts.points@.len(),
            forall|p: int|
                0 <= p < domains@.len() ==> (#[trigger] domains@[p])@ == spec_domains(*facts)[p],
            forall|j: int|
                0 <= j < i ==> spec_call_in_range(#[trigger] calls@[j], *facts, *tree),
            out@.len() == i,
            forall|j: int|
                0 <= j < i ==> {
                    let b = #[trigger] out@[j];
                    &&& b.location == tree.nodes@[calls@[j].node as int].range
                    &&& b.expected == calls@[j].expected
                    &&& b.actual == spec_domains(*facts)[calls@[j].point as int][calls@[j].place
                        as int]
                    &&& opt_region_matches(b.refinement, calls@[j].refinement)
                },
        decreases calls@.len() - i,
    {
        let c = &calls[i];
        if c.node >= tree.nodes.len() || c.point >= domains.len() || c.place >= facts.places.len() {
            return Err(
                AquascopeError::AnalysisError(
                    String::from_str("call site outside the analyzed function's tables"),
                ),
            );
        }
        let boundary = PermissionsBoundary {
            location: tree.nodes[c.node].range.clone(),
            expected: c.expected,
            actual: *domains[c.point].get(c.place),
            refinement: clone_refinement(&c.refinement),
        };
        out.push(boundary);
        i = i + 1;
    }
    Ok(PermissionsBoundaryOutput(out))
}

/// Builds the user-facing step report: runs the statement differ and locates
/// every reported statement by its source range, naming each changed place
/// by its stable display name. Fails exactly when the differ does.
pub fn permission_diffs(facts: &AquascopeFacts, tree: &SyntaxTree) -> (r: AquascopeResult<
    PermissionsDiffOutput,
>)
    requires
        facts.wf(),
        tree.wf(),
    ensures
        r is Ok <==> all_statements_mapped(*facts, tree.nodes@),
        r matches Ok(out) ==> {
            let model = spec_steps(*facts, tree.nodes@, spec_stmt_order(tree.nodes@).len() as int);
            &&& out.0@.len() == model.len()
            &&& forall|i: int|
                0 <= i < model.len() ==> {
                    let step = #[trigger] out.0@[i];
                    &&& step.location == tree.nodes@[model[i].0 as int].range
                    &&& step.state@.len() == model[i].1.len()
                    &&& forall|j: int|
                        0 <= j < model[i].1.len() ==> (#[trigger] step.state@[j]).0@
                            == facts.places@[model[i].1[j].0 as int].name@ && step.state@[j].1
                            == model[i].1[j].1
                }
        },
        r matches Err(e) ==> e is AnalysisError,
{
    let steps = match compute_permission_steps(facts, tree) {
        Ok(steps) => steps,
        Err(e) => {
            return Err(e);
        },
    };
    let ghost model = spec_steps(*facts, tree.nodes@, spec_stmt_order(tree.nodes@).len() as int);
    let mut out: Vec<PermissionsStateStep> = Vec::new();
    let mut i: usize = 0;
    while i < steps.len()
        invariant
            i <= steps@.len(),
            facts.wf(),
            tree.wf(),
            steps_match(steps@, model),
            forall|k: int|
                0 <= k < steps@.len() ==> (#[trigger] steps@[k]).0 < tree.nodes@.len() && forall|
                    j: int,
                | 0 <= j < steps@[k].1@.len() ==> (#[trigger] steps@[k].1@[j]).0
                    < facts.places@.len(),
            out@.len() == i,
            forall|k: int|
                0 <= k < i ==> {
                    let step = #[trigger] out@[k];
                    &&& step.location == tree.nodes@[model[k].0 as int].range
                    &&& step.state@.len() == model[k].1.len()
                    &&& forall|j: int|
                        0 <= j < model[k].1.len() ==> (#[trigger] step.state@[j]).0@
                            == facts.places@[model[k].1[j].0 as int].name@ && step.state@[j].1
                            == model[k].1[j].1
                },
        decreases steps@.len() - i,
    {
        let entry = &steps[i];
        let location = tree.nodes[entry.0].range.clone();
        let mut state: Vec<(String, PermsDiff)> = Vec::new();
        let mut j: usize = 0;
        while j < entry.1.len()
            invariant
                j <= entry.1@.len(),
                facts.wf(),
                entry == steps@[i as int],
                i < steps@.len(),
                forall|m: int|
                    0 <= m < entry.1@.len() ==> (#[trigger] entry.1@[m]).0 < facts.places@.len(),
                state@.len() == j,
                forall|m: int|
                    0 <= m < j ==> (#[trigger] state@[m]).0@ == facts.places@[entry.1@[m].0
                        as int].name@ && state@[m].1 == entry.1@[m].1,
            decreases entry.1@.len() - j,
        {
            let pair = &entry.1[j];
            state.push((facts.places[pair.0].name.clone(), pair.1));
            j = j + 1;
        }
        out.push(PermissionsStateStep { location, state });
        i = i + 1;
    }
    Ok(PermissionsDiffOutput(out))
}

} // verus!
