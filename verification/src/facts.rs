//! The fact provider's view of one analyzed function, and the dataflow
//! engine that turns those facts into one permission snapshot per program
//! point.
//!
//! The external ownership solver runs its own fixed point over the
//! instruction graph; the facts it hands over for each program point already
//! reflect every control-flow merge that reaches the point. The engine here
//! reproduces the framework's contract: for every point it derives the
//! domain of all places from the point's facts through the single derivation
//! rule of [`crate::permissions::PermissionsData::spec_permissions`]. The
//! join that merges snapshots (used when several points collapse onto one
//! statement) lives on [`crate::permissions::PermissionsDomain`].

use vstd::prelude::*;

use crate::permissions::{LoanKey, PermissionsData, PermissionsDomain};

verus! {

/// Facts fixed for one place across the whole function: its declared-type
/// capabilities and how it is presented to the user.
#[derive(Debug)]
pub struct PlaceFacts {
    /// Stable display name of the place.
    pub name: String,
    /// Whether the place is a user-named source variable, as opposed to a
    /// compiler-introduced temporary.
    pub is_user_variable: bool,
    /// Whether the declared type can be dropped.
    pub type_droppable: bool,
    /// Whether the declared type admits writes.
    pub type_writeable: bool,
    /// Whether the declared type is copyable.
    pub type_copyable: bool,
}

/// Facts about one place at one program point, as solved by the fact
/// provider.
#[derive(Clone, Copy, Debug, PartialEq, Eq)]
pub struct PlacePointFacts {
    /// Whether the place's value may still be used forward from this point.
    pub is_live: bool,
    /// Whether the value has been moved out along the current path.
    pub path_moved: bool,
    /// Loan currently blocking reads, if any.
    pub loan_read_refined: Option<LoanKey>,
    /// Loan currently blocking writes, if any.
    pub loan_write_refined: Option<LoanKey>,
    /// Loan currently blocking drops, if any.
    pub loan_drop_refined: Option<LoanKey>,
}

/// Facts about one program point of the instruction graph.
#[derive(Debug)]
pub struct PointFacts {
    /// Whether the point lies exclusively on an unwind/cleanup path.
    pub is_cleanup: bool,
    /// The syntax node the point originates from, as resolved by the
    /// external span mapping; absent when no node spans the point.
    pub node: Option<usize>,
    /// Per-place facts holding after the point's effect, index-aligned with
    /// the place table.
    pub places: Vec<PlacePointFacts>,
}

/// Everything the fact provider supplies for one analyzed function: the
/// place table, the per-point facts, and the facts holding at function
/// entry.
#[derive(Debug)]
pub struct AquascopeFacts {
    /// The place universe of the function; place identity is the index into
    /// this table, stable across all program points of one analysis run.
    pub places: Vec<PlaceFacts>,
    /// One entry per program point of the instruction graph.
    pub points: Vec<PointFacts>,
    /// Per-place facts at function entry, before any statement has run;
    /// index-aligned with the place table.
    pub entry: Vec<PlacePointFacts>,
}

impl AquascopeFacts {
    /// Every per-point fact table and the entry fact table range over the
    /// same place universe.
    pub open spec fn wf(self) -> bool {
        &&& self.entry@.len() == self.places@.len()
        &&& forall|p: int|
            0 <= p < self.points@.len() ==> (#[trigger] self.points@[p]).places@.len()
                == self.places@.len()
    }

    /// Checks [`AquascopeFacts::wf`] at run time.
    pub fn is_wf(&self) -> (b: bool)
        ensures
            b == self.wf(),
    {
        if self.entry.len() != self.places.len() {
            return false;
        }
        let mut p: usize = 0;
        while p < self.points.len()
            invariant
                p <= self.points@.len(),
                self.entry@.len() == self.places@.len(),
                forall|q: int|
                    0 <= q < p ==> (#[trigger] self.points@[q]).places@.len()
                        == self.places@.len(),
            decreases self.points@.len() - p,
        {
            if self.points[p].places.len() != self.places.len() {
                return false;
            }
            p = p + 1;
        }
        true
    }
}

/// The snapshot of one place at one point, assembled from the place's fixed
/// type facts and the point's solved facts.
pub open spec fn spec_data_of(pf: PlaceFacts, pp: PlacePointFacts) -> PermissionsData {
    PermissionsData {
        type_droppable: pf.type_droppable,
        type_writeable: pf.type_writeable,
        type_copyable: pf.type_copyable,
        is_live: pp.is_live,
        path_moved: pp.path_moved,
        loan_read_refined: pp.loan_read_refined,
        loan_write_refined: pp.loan_write_refined,
        loan_drop_refined: pp.loan_drop_refined,
    }
}

/// The whole-domain view of one point: every place's snapshot, in place-table
/// order.
pub open spec fn spec_domain_of(places: Seq<PlaceFacts>, pps: Seq<PlacePointFacts>) -> Seq<
    PermissionsData,
> {
    Seq::new(places.len(), |i: int| spec_data_of(places[i], pps[i]))
}

/// Builds the domain of one program point from the place table and the
/// point's per-place facts.
fn domain_of(places: &Vec<PlaceFacts>, pps: &Vec<PlacePointFacts>) -> (d: PermissionsDomain)
    requires
        pps@.len() == places@.len(),
    ensures
        d@ == spec_domain_of(places@, pps@),
{
    let mut data: Vec<PermissionsData> = Vec::new();
    let mut i: usize = 0;
    while i < places.len()
        invariant
            i <= places@.len(),
            pps@.len() == places@.len(),
            data@.len() == i,
            forall|k: int| 0 <= k < i ==> data@[k] == spec_domain_of(places@, pps@)[k],
        decreases places@.len() - i,
    {
        let pf = &places[i];
        let pp = &pps[i];
        data.push(
            PermissionsData {
                type_droppable: pf.type_droppable,
                type_writeable: pf.type_writeable,
                type_copyable: pf.type_copyable,
                is_live: pp.is_live,
                path_moved: pp.path_moved,
                loan_read_refined: pp.loan_read_refined,
                loan_write_refined: pp.loan_write_refined,
                loan_drop_refined: pp.loan_drop_refined,
            },
        );
        i = i + 1;
    }
    proof {
        assert(data@ =~= spec_domain_of(places@, pps@));
    }
    PermissionsDomain::from(data)
}

/// The function's declared entry permissions: the domain derived from the
/// facts holding before any statement has run. It seeds the step differ.
pub fn initial_body_permissions(facts: &AquascopeFacts) -> (d: PermissionsDomain)
    requires
        facts.wf(),
    ensures
        d@ == spec_domain_of(facts.places@, facts.entry@),
{
    domain_of(&facts.places, &facts.entry)
}

/// The domains of every program point, in point order.
pub open spec fn spec_domains(facts: AquascopeFacts) -> Seq<Seq<PermissionsData>> {
    Seq::new(
        facts.points@.len(),
        |p: int| spec_domain_of(facts.places@, facts.points@[p].places@),
    )
}

/// The dataflow engine: one permission snapshot per program point, each
/// derived from the point's solved facts through the single derivation rule.
pub fn compute(facts: &AquascopeFacts) -> (r: Vec<PermissionsDomain>)
    requires
        facts.wf(),
    ensures
        r@.len() == facts.points@.len(),
        forall|p: int| 0 <= p < r@.len() ==> (#[trigger] r@[p])@ == spec_domains(*facts)[p],
{
    let mut r: Vec<PermissionsDomain> = Vec::new();
    let mut p: usize = 0;
    while p < facts.points.len()
        invariant
            p <= facts.points@.len(),
            facts.wf(),
            r@.len() == p,
            forall|q: int| 0 <= q < p ==> (#[trigger] r@[q])@ == spec_domains(*facts)[q],
        decreases facts.points@.len() - p,
    {
        r.push(domain_of(&facts.places, &facts.points[p].places));
        p = p + 1;
    }
    r
}

} // verus!
