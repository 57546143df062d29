//! The permission domain model: capability bits per place, the data they are
//! derived from, and the join-semilattice of per-point permission snapshots.

use vstd::prelude::*;

verus! {

/// Opaque identifier of a loan (an active borrow), issued by the fact provider.
pub type LoanKey = u32;

/// Opaque identifier of a move event, issued by the fact provider.
pub type MoveKey = u32;

/// Mutability of the pointee of a reference type.
#[derive(Clone, Copy, Debug, PartialEq, Eq, Structural)]
pub enum Mutability {
    Not,
    Mut,
}

/// The three capability bits of one place at one program point.
///
/// There is no universal "top" value: the maximum attainable permissions
/// depend on the place's declared type, so a per-place maximum is always
/// computed, never a constant.
#[derive(Clone, Copy, Debug, PartialEq, Eq, Hash, Structural)]
pub struct Permissions {
    pub read: bool,
    pub write: bool,
    pub drop: bool,
}

impl Permissions {
    /// The all-false permission value.
    pub fn bottom() -> (p: Permissions)
        ensures
            p == (Permissions { read: false, write: false, drop: false }),
    {
        Permissions { read: false, write: false, drop: false }
    }

    /// Permissions expected of a value of a declared type, given only the
    /// type's reference mutability. Expected permissions do not depend on the
    /// mutability of any binding: an owned value is expected to be readable
    /// and droppable, a shared reference only readable, and a mutable
    /// reference readable and writeable.
    pub open spec fn spec_from(ref_mutability: Option<Mutability>) -> Permissions {
        match ref_mutability {
            None => Permissions { read: true, write: false, drop: true },
            Some(Mutability::Not) => Permissions { read: true, write: false, drop: false },
            Some(Mutability::Mut) => Permissions { read: true, write: true, drop: false },
        }
    }

    /// Executable form of [`Permissions::spec_from`].
    pub fn from(ref_mutability: Option<Mutability>) -> (p: Permissions)
        ensures
            p == Permissions::spec_from(ref_mutability),
    {
        let read = true;
        let (write, drop) = match ref_mutability {
            None => (false, true),
            Some(Mutability::Not) => (false, false),
            Some(Mutability::Mut) => (true, false),
        };
        Permissions { read, write, drop }
    }

    /// The compact rendering of the three bits: `R`, `W` and `D` for the
    /// capabilities that are present, in that order, or the empty-set sign
    /// when none is.
    pub open spec fn spec_debug_str(self) -> Seq<char> {
        if !self.read && !self.write && !self.drop {
            "∅"@
        } else {
            (if self.read {
                "R"@
            } else {
                Seq::<char>::empty()
            }) + (if self.write {
                "W"@
            } else {
                Seq::<char>::empty()
            }) + (if self.drop {
                "D"@
            } else {
                Seq::<char>::empty()
            })
        }
    }

    /// Renders the permission bits as a short human-readable tag.
    pub fn debug_string(&self) -> (s: String)
        ensures
            s@ == self.spec_debug_str(),
    {
        proof {
            reveal_strlit("∅");
            reveal_strlit("R");
            reveal_strlit("W");
            reveal_strlit("D");
            reveal_strlit("RW");
            reveal_strlit("RD");
            reveal_strlit("WD");
            reveal_strlit("RWD");
            reveal_strlit("");
        }
        match (self.read, self.write, self.drop) {
            (false, false, false) => String::from_str("∅"),
            (true, false, false) => String::from_str("R"),
            (false, true, false) => String::from_str("W"),
            (false, false, true) => String::from_str("D"),
            (true, true, false) => String::from_str("RW"),
            (true, false, true) => String::from_str("RD"),
            (false, true, true) => String::from_str("WD"),
            (true, true, true) => String::from_str("RWD"),
        }
    }
}

/// Everything that factors into the permissions of one place at one program
/// point: declared-type capabilities, liveness, move state, and loan
/// refinements. The three capability bits are never stored; they are derived
/// on demand by [`PermissionsData::spec_permissions`], so they cannot fall out
/// of sync with the facts they summarize.
#[derive(Clone, Copy, Debug, PartialEq, Eq, Hash)]
pub struct PermissionsData {
    /// Whether the place's declared type can be dropped.
    pub type_droppable: bool,
    /// Whether the place's declared type admits writes.
    pub type_writeable: bool,
    /// Whether the place's declared type is copyable.
    pub type_copyable: bool,
    /// Whether the place's current value may still be used from this point on.
    pub is_live: bool,
    /// Whether the value has been moved out of this place on the current path.
    pub path_moved: bool,
    /// Loan currently blocking the read capability, if any.
    pub loan_read_refined: Option<LoanKey>,
    /// Loan currently blocking the write capability, if any.
    pub loan_write_refined: Option<LoanKey>,
    /// Loan currently blocking the drop capability, if any.
    pub loan_drop_refined: Option<LoanKey>,
}

impl PermissionsData {
    /// The derivation rule: the single source of truth turning raw facts into
    /// capability bits, under conservative ownership semantics.
    pub open spec fn spec_permissions(self) -> Permissions {
        Permissions {
            read: self.is_live && !self.path_moved && self.loan_read_refined is None,
            write: self.is_live && self.type_writeable && !self.path_moved
                && self.loan_write_refined is None,
            drop: self.is_live && self.type_droppable && (!self.path_moved || self.type_copyable)
                && self.loan_drop_refined is None,
        }
    }

    /// Derives the three capability bits from the stored facts.
    pub fn permissions(&self) -> (p: Permissions)
        ensures
            p == self.spec_permissions(),
    {
        Permissions {
            read: self.is_live && !self.path_moved && self.loan_read_refined.is_none(),
            write: self.is_live && self.type_writeable && !self.path_moved
                && self.loan_write_refined.is_none(),
            drop: self.is_live && self.type_droppable && (!self.path_moved || self.type_copyable)
                && self.loan_drop_refined.is_none(),
        }
    }

    /// The capability-bit transitions from `self`'s derived permissions to
    /// `other`'s.
    pub fn step(&self, other: &PermissionsData) -> (d: PermsDiff)
        ensures
            d == PermsDiff::spec_step(self.spec_permissions(), other.spec_permissions()),
    {
        let before = self.permissions();
        let after = other.permissions();
        PermsDiff {
            read: BoolStep::of(before.read, after.read),
            write: BoolStep::of(before.write, after.write),
            drop: BoolStep::of(before.drop, after.drop),
        }
    }

    /// Rebases every loan key in this snapshot by `loan_shift`, used when the
    /// fact provider merges fact tables whose loan numbering overlaps.
    pub fn shift_keys(self, loan_shift: LoanKey) -> (r: PermissionsData)
        requires
            self.loan_read_refined matches Some(l) ==> l + loan_shift <= u32::MAX,
            self.loan_write_refined matches Some(l) ==> l + loan_shift <= u32::MAX,
            self.loan_drop_refined matches Some(l) ==> l + loan_shift <= u32::MAX,
        ensures
            r.type_droppable == self.type_droppable,
            r.type_writeable == self.type_writeable,
            r.type_copyable == self.type_copyable,
            r.is_live == self.is_live,
            r.path_moved == self.path_moved,
            r.loan_read_refined == spec_shift_key(self.loan_read_refined, loan_shift),
            r.loan_write_refined == spec_shift_key(self.loan_write_refined, loan_shift),
            r.loan_drop_refined == spec_shift_key(self.loan_drop_refined, loan_shift),
    {
        PermissionsData {
            loan_read_refined: match self.loan_read_refined {
                None => None,
                Some(l) => Some(l + loan_shift),
            },
            loan_write_refined: match self.loan_write_refined {
                None => None,
                Some(l) => Some(l + loan_shift),
            },
            loan_drop_refined: match self.loan_drop_refined {
                None => None,
                Some(l) => Some(l + loan_shift),
            },
            ..self
        }
    }
}

/// Rebases one optional loan key by `shift`.
pub open spec fn spec_shift_key(k: Option<LoanKey>, shift: LoanKey) -> Option<LoanKey> {
    match k {
        None => None,
        Some(l) => Some((l + shift) as LoanKey),
    }
}

/// Transition of one capability bit between two consecutive snapshots.
#[derive(Clone, Copy, Debug, PartialEq, Eq, Structural)]
pub enum BoolStep {
    Gained,
    Lost,
    Unchanged,
}

impl BoolStep {
    /// The transition from bit value `before` to bit value `after`.
    pub open spec fn spec_of(before: bool, after: bool) -> BoolStep {
        if !before && after {
            BoolStep::Gained
        } else if before && !after {
            BoolStep::Lost
        } else {
            BoolStep::Unchanged
        }
    }

    /// Executable form of [`BoolStep::spec_of`].
    pub fn of(before: bool, after: bool) -> (s: BoolStep)
        ensures
            s == BoolStep::spec_of(before, after),
    {
        if !before && after {
            BoolStep::Gained
        } else if before && !after {
            BoolStep::Lost
        } else {
            BoolStep::Unchanged
        }
    }
}

/// Per-place set of capability-bit transitions between two consecutive
/// permission snapshots.
#[derive(Clone, Copy, Debug, PartialEq, Eq, Structural)]
pub struct PermsDiff {
    pub read: BoolStep,
    pub write: BoolStep,
    pub drop: BoolStep,
}

impl PermsDiff {
    /// The bit-by-bit transitions from `before` to `after`.
    pub open spec fn spec_step(before: Permissions, after: Permissions) -> PermsDiff {
        PermsDiff {
            read: BoolStep::spec_of(before.read, after.read),
            write: BoolStep::spec_of(before.write, after.write),
            drop: BoolStep::spec_of(before.drop, after.drop),
        }
    }

    /// Whether no capability bit changed.
    pub open spec fn spec_is_empty(self) -> bool {
        &&& self.read is Unchanged
        &&& self.write is Unchanged
        &&& self.drop is Unchanged
    }

    /// Executable form of [`PermsDiff::spec_is_empty`].
    pub fn is_empty(&self) -> (b: bool)
        ensures
            b == self.spec_is_empty(),
    {
        matches!(self.read, BoolStep::Unchanged) && matches!(self.write, BoolStep::Unchanged)
            && matches!(self.drop, BoolStep::Unchanged)
    }
}

/// The event responsible for reducing a place's permissions below its
/// type-derived maximum: either an active loan or a move.
#[derive(Clone, Copy, Debug, PartialEq, Eq)]
pub enum Refiner {
    Loan(LoanKey),
    Move(MoveKey),
}

/// A refiner together with the source ranges over which its refinement is in
/// effect. Consumed by the presentation layer, not by the core algorithms.
#[derive(Debug, PartialEq, Eq)]
pub struct RefinementRegion {
    pub refiner_point: Refiner,
    pub refined_ranges: Vec<crate::Range>,
}

impl Clone for RefinementRegion {
    fn clone(&self) -> (res: Self)
        ensures
            res.refiner_point == self.refiner_point,
            res.refined_ranges@ == self.refined_ranges@,
    {
        let mut ranges: Vec<crate::Range> = Vec::new();
        let mut i: usize = 0;
        while i < self.refined_ranges.len()
            invariant
                i <= self.refined_ranges@.len(),
                ranges@ == self.refined_ranges@.subrange(0, i as int),
            decreases self.refined_ranges@.len() - i,
        {
            ranges.push(self.refined_ranges[i].clone());
            i = i + 1;
            proof {
                assert(ranges@ =~= self.refined_ranges@.subrange(0, i as int));
            }
        }
        proof {
            assert(ranges@ =~= self.refined_ranges@);
        }
        RefinementRegion { refiner_point: self.refiner_point, refined_ranges: ranges }
    }
}

/// Whether two snapshots agree on the declared-type capabilities. Within one
/// analyzed function the type-derived flags of a place never change from
/// point to point, so any two snapshots of the same place satisfy this.
pub open spec fn same_type_flags(a: PermissionsData, b: PermissionsData) -> bool {
    &&& a.type_droppable == b.type_droppable
    &&& a.type_writeable == b.type_writeable
    &&& a.type_copyable == b.type_copyable
}

/// The join of two snapshots of the same place: a capability survives the
/// merge of two incoming paths only if it is valid along both, so liveness is
/// intersected, move state is unioned, and a loan refinement survives if it
/// is present on either side.
pub open spec fn spec_join_data(a: PermissionsData, b: PermissionsData) -> PermissionsData {
    PermissionsData {
        type_droppable: a.type_droppable && b.type_droppable,
        type_writeable: a.type_writeable && b.type_writeable,
        type_copyable: a.type_copyable && b.type_copyable,
        is_live: a.is_live && b.is_live,
        path_moved: a.path_moved || b.path_moved,
        loan_read_refined: if a.loan_read_refined is Some {
            a.loan_read_refined
        } else {
            b.loan_read_refined
        },
        loan_write_refined: if a.loan_write_refined is Some {
            a.loan_write_refined
        } else {
            b.loan_write_refined
        },
        loan_drop_refined: if a.loan_drop_refined is Some {
            a.loan_drop_refined
        } else {
            b.loan_drop_refined
        },
    }
}

/// Executable form of [`spec_join_data`].
fn join_data(a: &PermissionsData, b: &PermissionsData) -> (r: PermissionsData)
    ensures
        r == spec_join_data(*a, *b),
{
    PermissionsData {
        type_droppable: a.type_droppable && b.type_droppable,
        type_writeable: a.type_writeable && b.type_writeable,
        type_copyable: a.type_copyable && b.type_copyable,
        is_live: a.is_live && b.is_live,
        path_moved: a.path_moved || b.path_moved,
        loan_read_refined: if a.loan_read_refined.is_some() {
            a.loan_read_refined
        } else {
            b.loan_read_refined
        },
        loan_write_refined: if a.loan_write_refined.is_some() {
            a.loan_write_refined
        } else {
            b.loan_write_refined
        },
        loan_drop_refined: if a.loan_drop_refined.is_some() {
            a.loan_drop_refined
        } else {
            b.loan_drop_refined
        },
    }
}

/// The pointwise join of two permission snapshots over the same place
/// universe.
pub open spec fn spec_join(a: Seq<PermissionsData>, b: Seq<PermissionsData>) -> Seq<
    PermissionsData,
> {
    Seq::new(a.len(), |i: int| spec_join_data(a[i], b[i]))
}

/// The permissions of every tracked place at one program point. Places are
/// identified by their index into the analyzed function's place table, so two
/// domains describe the same place universe exactly when they have the same
/// length.
#[derive(Debug, PartialEq, Eq)]
pub struct PermissionsDomain(Vec<PermissionsData>);

impl View for PermissionsDomain {
    type V = Seq<PermissionsData>;

    closed spec fn view(&self) -> Seq<PermissionsData> {
        self.0@
    }
}

impl Clone for PermissionsDomain {
    fn clone(&self) -> (res: Self)
        ensures
            res@ == self@,
    {
        let mut data: Vec<PermissionsData> = Vec::new();
        let mut i: usize = 0;
        while i < self.0.len()
            invariant
                i <= self@.len(),
                data@ == self@.subrange(0, i as int),
            decreases self@.len() - i,
        {
            data.push(self.0[i]);
            i = i + 1;
            proof {
                assert(data@ =~= self@.subrange(0, i as int));
            }
        }
        proof {
            assert(data@ =~= self@);
        }
        PermissionsDomain(data)
    }
}

impl PermissionsDomain {
    /// Wraps a place-indexed table of snapshots as a domain.
    pub fn from(data: Vec<PermissionsData>) -> (d: PermissionsDomain)
        ensures
            d@ == data@,
    {
        PermissionsDomain(data)
    }

    /// Number of places in this domain's place universe.
    pub fn len(&self) -> (n: usize)
        ensures
            n == self@.len(),
    {
        self.0.len()
    }

    /// The snapshot of the place with index `place`.
    pub fn get(&self, place: usize) -> (d: &PermissionsData)
        requires
            place < self@.len(),
        ensures
            *d == self@[place as int],
    {
        &self.0[place]
    }

    /// Joins `other` into `self`, pointwise per place. Both domains must
    /// describe the same place universe; the dataflow engine guarantees this
    /// for all domains of one analyzed function.
    pub fn join(&mut self, other: &PermissionsDomain)
        requires
            old(self)@.len() == other@.len(),
        ensures
            final(self)@ == spec_join(old(self)@, other@),
    {
        let n = self.0.len();
        let mut i: usize = 0;
        while i < n
            invariant
                i <= n,
                n == other@.len(),
                old(self)@.len() == n,
                self@.len() == n,
                forall|k: int| 0 <= k < i ==> self@[k] == spec_join(old(self)@, other@)[k],
                forall|k: int| i <= k < n ==> self@[k] == old(self)@[k],
            decreases n - i,
        {
            let merged = join_data(&self.0[i], other.get(i));
            self.0[i] = merged;
            i = i + 1;
        }
        proof {
            assert(self@ =~= spec_join(old(self)@, other@));
        }
    }
}

/// Moved-place law: once a non-copyable value has been moved out of a place,
/// the place retains no capability at all.
pub proof fn lemma_moved_place_loses_permissions(d: PermissionsData)
    requires
        d.path_moved,
        !d.type_copyable,
    ensures
        d.spec_permissions() == (Permissions { read: false, write: false, drop: false }),
{
}

/// Type-bound law: a place can never hold a capability its declared type does
/// not admit — write implies a writeable type and drop implies a droppable
/// type.
pub proof fn lemma_permissions_bound_by_type(d: PermissionsData)
    ensures
        d.spec_permissions().write ==> d.type_writeable,
        d.spec_permissions().drop ==> d.type_droppable,
{
}

/// Join-conservativeness law: over a shared place universe with type flags
/// fixed per place, each capability bit of a joined snapshot is the logical
/// AND of the corresponding bits of the two sides, and joining a domain with
/// itself gives the domain back.
pub proof fn lemma_join_conservative(a: Seq<PermissionsData>, b: Seq<PermissionsData>)
    requires
        a.len() == b.len(),
        forall|i: int| 0 <= i < a.len() ==> same_type_flags(#[trigger] a[i], b[i]),
    ensures
        forall|i: int|
            0 <= i < a.len() ==> {
                let j = (#[trigger] spec_join(a, b)[i]).spec_permissions();
                &&& j.read == (a[i].spec_permissions().read && b[i].spec_permissions().read)
                &&& j.write == (a[i].spec_permissions().write && b[i].spec_permissions().write)
                &&& j.drop == (a[i].spec_permissions().drop && b[i].spec_permissions().drop)
            },
        spec_join(a, a) == a,
{
    assert(spec_join(a, a) =~= a);
}

/// Diff-emptiness law: differencing a snapshot against itself reports every
/// capability bit as unchanged.
pub proof fn lemma_step_empty_on_no_change(d: PermissionsData)
    ensures
        PermsDiff::spec_step(d.spec_permissions(), d.spec_permissions()).spec_is_empty(),
{
}

} // verus!

