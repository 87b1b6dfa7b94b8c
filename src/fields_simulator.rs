//! The simulator that owns the fields and advances them a frame at a time,
//! and the geometry of the point-charge starting field.
use vstd::prelude::*;
use crate::electromagnetic_field::ElectromagneticField;
use crate::electromagnetic_field_updater::ElectromagneticFieldUpdater;
use crate::grid::{in_grid, valid_size, Stencil};

verus! {

/// Sub-steps run for each frame: several small explicit steps keep the scheme
/// stable where one large step could blow up.
pub const SUB_STEPS: usize = 4;

/// `es` and `bs` are the successive states of the electric and magnetic
/// fields over a run of sub-steps of `updater` with step `dt`: each state
/// after the first is what one sub-step makes of the one before.
pub open spec fn is_run<T, D, FE, FM>(
    updater: ElectromagneticFieldUpdater<FE, FM>,
    size: [u32; 3],
    es: Seq<Seq<T>>,
    bs: Seq<Seq<T>>,
    dt: D,
) -> bool where FE: Fn(T, Stencil<T>, D) -> T, FM: Fn(T, Stencil<T>, D) -> T {
    &&& es.len() >= 1
    &&& bs.len() == es.len()
    &&& forall|k: int|
        0 <= k < es.len() - 1 ==> #[trigger] updater.sub_step(size, es[k], bs[k], dt, es[k + 1], bs[k + 1])
}

/// `(e2, b2)` is what `n` sub-steps of `updater` with step `dt` make of the
/// fields `(e, b)`.
pub open spec fn sub_steps<T, D, FE, FM>(
    updater: ElectromagneticFieldUpdater<FE, FM>,
    size: [u32; 3],
    e: Seq<T>,
    b: Seq<T>,
    dt: D,
    n: nat,
    e2: Seq<T>,
    b2: Seq<T>,
) -> bool where FE: Fn(T, Stencil<T>, D) -> T, FM: Fn(T, Stencil<T>, D) -> T {
    exists|es: Seq<Seq<T>>, bs: Seq<Seq<T>>|
        #[trigger] is_run(updater, size, es, bs, dt) && es.len() == n + 1 && es[0] == e && bs[0] == b
            && es[n as int] == e2 && bs[n as int] == b2
}

/// Owns the electric and magnetic fields and the updater that advances them.
pub struct FieldsSimulator<T, FE, FM> {
    electromagnetic_field: ElectromagneticField<T>,
    field_updater: ElectromagneticFieldUpdater<FE, FM>,
}

impl<T, FE, FM> FieldsSimulator<T, FE, FM> {
    /// The fields being simulated.
    pub closed spec fn fields(&self) -> ElectromagneticField<T> {
        self.electromagnetic_field
    }

    /// The updater that advances the fields.
    pub closed spec fn updater(&self) -> ElectromagneticFieldUpdater<FE, FM> {
        self.field_updater
    }

    /// The fields are well formed and share their dimensions.
    pub open spec fn wf(&self) -> bool {
        self.fields().wf()
    }

    /// A simulator that starts from `electromagnetic_field`.
    pub fn new(
        electromagnetic_field: ElectromagneticField<T>,
        field_updater: ElectromagneticFieldUpdater<FE, FM>,
    ) -> (r: Self)
        requires
            electromagnetic_field.wf(),
        ensures
            r.wf(),
            r.fields() == electromagnetic_field,
            r.updater() == field_updater,
    {
        Self { electromagnetic_field, field_updater }
    }

    /// Advances the fields by one frame: `SUB_STEPS` sub-steps, each with the
    /// step `time_delta`.
    pub fn update<D: Copy>(&mut self, time_delta: D) where
        T: Copy,
        FE: Fn(T, Stencil<T>, D) -> T,
        FM: Fn(T, Stencil<T>, D) -> T,

        requires
            old(self).wf(),
            old(self).updater().accepts::<T, D>(time_delta),
        ensures
            final(self).wf(),
            final(self).updater() == old(self).updater(),
            final(self).fields().electric_field.dims() == old(self).fields().electric_field.dims(),
            sub_steps(
                old(self).updater(),
                old(self).fields().electric_field.dims(),
                old(self).fields().electric_field.cells(),
                old(self).fields().magnetic_field.cells(),
                time_delta,
                SUB_STEPS as nat,
                final(self).fields().electric_field.cells(),
                final(self).fields().magnetic_field.cells(),
            ),
    {
        let ghost size = self.electromagnetic_field.electric_field.dims();
        let ghost e = self.electromagnetic_field.electric_field.cells();
        let ghost b = self.electromagnetic_field.magnetic_field.cells();
        let ghost mut es: Seq<Seq<T>> = seq![e];
        let ghost mut bs: Seq<Seq<T>> = seq![b];
        let mut i: usize = 0;
        while i < SUB_STEPS
            invariant
                i <= SUB_STEPS,
                self.wf(),
                self.updater() == old(self).updater(),
                self.updater().accepts::<T, D>(time_delta),
                self.fields().electric_field.dims() == size,
                is_run(self.updater(), size, es, bs, time_delta),
                es.len() == i + 1,
                es[0] == e,
                bs[0] == b,
                es[i as int] == self.fields().electric_field.cells(),
                bs[i as int] == self.fields().magnetic_field.cells(),
            decreases SUB_STEPS - i,
        {
            self.field_updater.update(&mut self.electromagnetic_field, time_delta);
            proof {
                let es2 = es.push(self.electromagnetic_field.electric_field.cells());
                let bs2 = bs.push(self.electromagnetic_field.magnetic_field.cells());
                assert forall|k: int| 0 <= k < es2.len() - 1 implies #[trigger] self.updater().sub_step(
                    size,
                    es2[k],
                    bs2[k],
                    time_delta,
                    es2[k + 1],
                    bs2[k + 1],
                ) by {
                    if k < i {
                        assert(es2[k] == es[k] && es2[k + 1] == es[k + 1]);
                        assert(bs2[k] == bs[k] && bs2[k + 1] == bs[k + 1]);
                    }
                }
                es = es2;
                bs = bs2;
            }
            i = i + 1;
        }
        assert(is_run(self.updater(), size, es, bs, time_delta));
    }

    /// The fields, for reading by a renderer.
    pub fn electromagnetic_field(&self) -> (r: &ElectromagneticField<T>)
        ensures
            *r == self.fields(),
    {
        &self.electromagnetic_field
    }
}

/// Offset of the cell `(x, y, z)` from the grid centre `(nx, ny, nz) / 2`, in
/// half-cell units: `(2x - nx, 2y - ny, 2z - nz)`.
pub open spec fn charge_offset_of(size: [u32; 3], x: int, y: int, z: int) -> (int, int, int) {
    (2 * x - size[0], 2 * y - size[1], 2 * z - size[2])
}

/// Squared length of an offset.
pub open spec fn offset_length_sq(d: (int, int, int)) -> int {
    d.0 * d.0 + d.1 * d.1 + d.2 * d.2
}

/// Offset, in half-cell units, of the cell `(x, y, z)` from a point charge at
/// the grid centre. `None` for a cell that sits on the charge itself, where the
/// inverse-square field is not defined and the cell holds the zero vector.
pub fn charge_offset(size: [u32; 3], x: u32, y: u32, z: u32) -> (r: Option<[i64; 3]>)
    requires
        in_grid(size, x as int, y as int, z as int),
    ensures
        r is None <==> charge_offset_of(size, x as int, y as int, z as int) == (0int, 0int, 0int),
        r matches Some(d) ==> (d[0] as int, d[1] as int, d[2] as int) == charge_offset_of(
            size,
            x as int,
            y as int,
            z as int,
        ),
{
    let dx = 2 * (x as i64) - size[0] as i64;
    let dy = 2 * (y as i64) - size[1] as i64;
    let dz = 2 * (z as i64) - size[2] as i64;
    if dx == 0 && dy == 0 && dz == 0 {
        None
    } else {
        Some([dx, dy, dz])
    }
}

/// On a valid grid whose dimensions are all even, the cell at the centre
/// coordinate `(nx / 2, ny / 2, nz / 2)` lies in the grid and is the one cell
/// that sits on the charge.
pub proof fn lemma_charge_center(size: [u32; 3])
    requires
        valid_size(size),
        size[0] % 2 == 0,
        size[1] % 2 == 0,
        size[2] % 2 == 0,
    ensures
        ({
            let (cx, cy, cz) = ((size[0] / 2) as int, (size[1] / 2) as int, (size[2] / 2) as int);
            &&& in_grid(size, cx, cy, cz)
            &&& charge_offset_of(size, cx, cy, cz) == (0int, 0int, 0int)
            &&& forall|x: int, y: int, z: int|
                #![trigger charge_offset_of(size, x, y, z)]
                in_grid(size, x, y, z) && charge_offset_of(size, x, y, z) == (0int, 0int, 0int)
                    ==> x == cx && y == cy && z == cz
        }),
{
}

/// Cells placed symmetrically about the centre have offsets of equal length
/// and mirrored direction: reflecting one coordinate (`x` to `nx - x`, and so
/// on) negates that component of the offset and keeps the others, and
/// reflecting all three negates the whole offset.
pub proof fn lemma_charge_mirror(size: [u32; 3], x: int, y: int, z: int)
    ensures
        ({
            let d = charge_offset_of(size, x, y, z);
            let mx = charge_offset_of(size, size[0] - x, y, z);
            let my = charge_offset_of(size, x, size[1] - y, z);
            let mz = charge_offset_of(size, x, y, size[2] - z);
            let m = charge_offset_of(size, size[0] - x, size[1] - y, size[2] - z);
            &&& mx == (-d.0, d.1, d.2)
            &&& my == (d.0, -d.1, d.2)
            &&& mz == (d.0, d.1, -d.2)
            &&& m == (-d.0, -d.1, -d.2)
            &&& offset_length_sq(mx) == offset_length_sq(d)
            &&& offset_length_sq(my) == offset_length_sq(d)
            &&& offset_length_sq(mz) == offset_length_sq(d)
            &&& offset_length_sq(m) == offset_length_sq(d)
        }),
{
    let d = charge_offset_of(size, x, y, z);
    assert((-d.0) * (-d.0) == d.0 * d.0) by (nonlinear_arith);
    assert((-d.1) * (-d.1) == d.1 * d.1) by (nonlinear_arith);
    assert((-d.2) * (-d.2) == d.2 * d.2) by (nonlinear_arith);
}

} // verus!
