//! One leapfrog sub-step: the electric field is advanced from the curl of the
//! magnetic field, then the magnetic field from the curl of the new electric
//! field.
use vstd::prelude::*;
use crate::electromagnetic_field::ElectromagneticField;
use crate::grid::{cell_count, cell_stencil, lemma_stencil_in_bounds, valid_size, Stencil};
use crate::vector_field::{accepts_all, gather, phase_result};

verus! {

/// Each pair of opposite neighbours in the stencil holds the same value, so
/// every central difference of the stencil vanishes.
pub open spec fn balanced<T>(s: Stencil<T>) -> bool {
    &&& s.x_minus == s.x_plus
    &&& s.y_minus == s.y_plus
    &&& s.z_minus == s.z_plus
}

/// `rule` leaves a cell unchanged whenever the stencil it reads is balanced,
/// as a curl update does: a zero curl gives a zero change.
pub open spec fn steady_when_balanced<T, D, F: Fn(T, Stencil<T>, D) -> T>(rule: F, dt: D) -> bool {
    forall|c: T, s: Stencil<T>, r: T| #[trigger] rule.ensures((c, s, dt), r) && balanced(s) ==> r == c
}

/// Every cell holds the same value.
pub open spec fn uniform<T>(cells: Seq<T>) -> bool {
    forall|i: int, j: int| 0 <= i < cells.len() && 0 <= j < cells.len() ==> cells[i] == cells[j]
}

/// The two per-cell rules of a sub-step: the electric rule adds the scaled
/// curl of the magnetic stencil to an electric cell, the magnetic rule
/// subtracts the scaled curl of the electric stencil from a magnetic cell.
pub struct ElectromagneticFieldUpdater<FE, FM> {
    electric_rule: FE,
    magnetic_rule: FM,
}

impl<FE, FM> ElectromagneticFieldUpdater<FE, FM> {
    /// The rule that advances an electric cell.
    pub closed spec fn electric(&self) -> FE {
        self.electric_rule
    }

    /// The rule that advances a magnetic cell.
    pub closed spec fn magnetic(&self) -> FM {
        self.magnetic_rule
    }

    /// `(e2, b2)` is what one sub-step makes of the fields `(e, b)` with step
    /// `dt`: first every electric cell from the old magnetic field, then every
    /// magnetic cell from the new electric field.
    pub open spec fn sub_step<T, D>(
        &self,
        size: [u32; 3],
        e: Seq<T>,
        b: Seq<T>,
        dt: D,
        e2: Seq<T>,
        b2: Seq<T>,
    ) -> bool where FE: Fn(T, Stencil<T>, D) -> T, FM: Fn(T, Stencil<T>, D) -> T {
        &&& phase_result(size, self.electric(), e, b, dt, e2)
        &&& phase_result(size, self.magnetic(), b, e2, dt, b2)
    }

    /// Both rules can be applied to every cell with the step `dt`.
    pub open spec fn accepts<T, D>(&self, dt: D) -> bool where
        FE: Fn(T, Stencil<T>, D) -> T,
        FM: Fn(T, Stencil<T>, D) -> T,
     {
        &&& accepts_all(self.electric(), dt)
        &&& accepts_all(self.magnetic(), dt)
    }

    /// An updater with the given per-cell rules. Each rule receives a cell's
    /// old value, the stencil of the other field around the cell, and the step.
    pub fn new(electric_rule: FE, magnetic_rule: FM) -> (r: Self)
        ensures
            r.electric() == electric_rule,
            r.magnetic() == magnetic_rule,
    {
        Self { electric_rule, magnetic_rule }
    }

    /// Runs one sub-step on `field`. The electric pass completes over the whole
    /// grid before the magnetic pass begins.
    ///
    /// The scheme is not time-reversible: a sub-step with `dt` followed by one
    /// with `-dt` does not in general restore the fields.
    pub fn update<T: Copy, D: Copy>(&self, field: &mut ElectromagneticField<T>, time_delta: D) where
        FE: Fn(T, Stencil<T>, D) -> T,
        FM: Fn(T, Stencil<T>, D) -> T,

        requires
            old(field).wf(),
            self.accepts::<T, D>(time_delta),
        ensures
            final(field).wf(),
            final(field).electric_field.dims() == old(field).electric_field.dims(),
            self.sub_step(
                old(field).electric_field.dims(),
                old(field).electric_field.cells(),
                old(field).magnetic_field.cells(),
                time_delta,
                final(field).electric_field.cells(),
                final(field).magnetic_field.cells(),
            ),
    {
        field.electric_field.advance(&field.magnetic_field, &self.electric_rule, time_delta);
        field.magnetic_field.advance(&field.electric_field, &self.magnetic_rule, time_delta);
    }
}

/// In a uniform field of a valid grid every cell's stencil is balanced.
pub proof fn lemma_uniform_stencils_balanced<T>(size: [u32; 3], cells: Seq<T>, i: int)
    requires
        valid_size(size),
        cells.len() == cell_count(size),
        uniform(cells),
        0 <= i < cell_count(size),
    ensures
        balanced(gather(cells, cell_stencil(size, i))),
{
    lemma_stencil_in_bounds(size, i);
}

/// When both fields are uniform and each rule leaves a cell unchanged on a
/// balanced stencil, a sub-step leaves both fields as they were: the curl of
/// a uniform field is zero.
pub proof fn lemma_uniform_fixed_point<T, D, FE, FM>(
    updater: ElectromagneticFieldUpdater<FE, FM>,
    size: [u32; 3],
    e: Seq<T>,
    b: Seq<T>,
    dt: D,
    e2: Seq<T>,
    b2: Seq<T>,
) where FE: Fn(T, Stencil<T>, D) -> T, FM: Fn(T, Stencil<T>, D) -> T
    requires
        valid_size(size),
        e.len() == cell_count(size),
        b.len() == cell_count(size),
        uniform(e),
        uniform(b),
        steady_when_balanced(updater.electric(), dt),
        steady_when_balanced(updater.magnetic(), dt),
        updater.sub_step(size, e, b, dt, e2, b2),
    ensures
        e2 == e,
        b2 == b,
{
    reveal(phase_result);
    assert forall|i: int| 0 <= i < e.len() implies e2[i] == e[i] by {
        lemma_uniform_stencils_balanced(size, b, i);
    }
    assert(e2 =~= e);
    assert forall|i: int| 0 <= i < b.len() implies b2[i] == b[i] by {
        lemma_uniform_stencils_balanced(size, e, i);
    }
    assert(b2 =~= b);
}

/// On a grid of a single cell every neighbour of the cell is the cell itself,
/// so under rules that leave a cell unchanged on a balanced stencil a sub-step
/// leaves both fields as they were; fields that start at zero stay at zero.
pub proof fn lemma_single_cell_fixed_point<T, D, FE, FM>(
    updater: ElectromagneticFieldUpdater<FE, FM>,
    size: [u32; 3],
    e: Seq<T>,
    b: Seq<T>,
    dt: D,
    e2: Seq<T>,
    b2: Seq<T>,
) where FE: Fn(T, Stencil<T>, D) -> T, FM: Fn(T, Stencil<T>, D) -> T
    requires
        size[0] == 1,
        size[1] == 1,
        size[2] == 1,
        e.len() == cell_count(size),
        b.len() == cell_count(size),
        steady_when_balanced(updater.electric(), dt),
        steady_when_balanced(updater.magnetic(), dt),
        updater.sub_step(size, e, b, dt, e2, b2),
    ensures
        e2 == e,
        b2 == b,
{
    assert(cell_count(size) == 1) by (nonlinear_arith)
        requires
            size[0] == 1,
            size[1] == 1,
            size[2] == 1,
    ;
    lemma_singleton_uniform(e);
    lemma_singleton_uniform(b);
    lemma_uniform_fixed_point(updater, size, e, b, dt, e2, b2);
}

/// A sequence of one value is uniform.
proof fn lemma_singleton_uniform<T>(cells: Seq<T>)
    requires
        cells.len() == 1,
    ensures
        uniform(cells),
{
}

} // verus!
