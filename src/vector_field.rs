//! A fixed-size three-dimensional grid of cell values.
use vstd::prelude::*;
use crate::grid::{
    cell_coords, cell_count, cell_stencil, in_grid, lemma_cell_index_bounds, lemma_index_coords,
    stencil_indices, valid_size, Stencil,
};

verus! {

/// Tests that a field can be built with these dimensions: no axis is empty
/// and the cell count fits in 32 bits.
pub fn is_valid_size(size: [u32; 3]) -> (r: bool)
    ensures
        r == valid_size(size),
{
    if size[0] == 0 || size[1] == 0 || size[2] == 0 {
        return false;
    }
    proof {
        let nx = size[0] as int;
        let ny = size[1] as int;
        assert(nx * ny <= 0xffff_ffff * 0xffff_ffff) by (nonlinear_arith)
            requires
                0 <= nx <= 0xffff_ffff,
                0 <= ny <= 0xffff_ffff,
        ;
    }
    let layer: u64 = size[0] as u64 * size[1] as u64;
    if layer > u32::MAX as u64 {
        proof {
            let nx = size[0] as int;
            let ny = size[1] as int;
            let nz = size[2] as int;
            assert(nx * ny <= nx * ny * nz) by (nonlinear_arith)
                requires
                    nz >= 1,
                    nx * ny >= 0,
            ;
        }
        return false;
    }
    proof {
        let nz = size[2] as int;
        assert(layer * nz <= 0xffff_ffff * 0xffff_ffff) by (nonlinear_arith)
            requires
                0 <= layer <= 0xffff_ffff,
                0 <= nz <= 0xffff_ffff,
        ;
    }
    let count: u64 = layer * size[2] as u64;
    count <= u32::MAX as u64
}

/// The cells of the grid, addressed `x + y * nx + z * nx * ny`, each a value of
/// type `T` (for a physical field, a three-component vector).
pub struct VectorField<T> {
    size: [u32; 3],
    buffer: Vec<T>,
}

/// The values of the stencil addressed by `s` in `cells`.
pub open spec fn gather<T>(cells: Seq<T>, s: Stencil<int>) -> Stencil<T> {
    Stencil {
        center: cells[s.center],
        x_minus: cells[s.x_minus],
        x_plus: cells[s.x_plus],
        y_minus: cells[s.y_minus],
        y_plus: cells[s.y_plus],
        z_minus: cells[s.z_minus],
        z_plus: cells[s.z_plus],
    }
}

/// `after` is `before` with every cell advanced once by `rule`, which sees the
/// cell's old value, the stencil of `source` around the cell, and `dt`.
#[verifier::opaque]
pub open spec fn phase_result<T, D, F: Fn(T, Stencil<T>, D) -> T>(
    size: [u32; 3],
    rule: F,
    before: Seq<T>,
    source: Seq<T>,
    dt: D,
    after: Seq<T>,
) -> bool {
    &&& after.len() == before.len()
    &&& forall|i: int|
        0 <= i < before.len() ==> rule.ensures(
            (before[i], gather(source, cell_stencil(size, i)), dt),
            #[trigger] after[i],
        )
}

/// `rule` can be applied to every cell value and stencil with the step `dt`.
pub open spec fn accepts_all<T, D, F: Fn(T, Stencil<T>, D) -> T>(rule: F, dt: D) -> bool {
    forall|c: T, s: Stencil<T>| #[trigger] rule.requires((c, s, dt))
}

impl<T> VectorField<T> {
    /// The grid dimensions.
    pub closed spec fn dims(&self) -> [u32; 3] {
        self.size
    }

    /// The cell values, by linear address.
    pub closed spec fn cells(&self) -> Seq<T> {
        self.buffer@
    }

    /// The dimensions are valid and there is one value per cell.
    pub open spec fn wf(&self) -> bool {
        &&& valid_size(self.dims())
        &&& self.cells().len() == cell_count(self.dims())
    }

    /// A field whose every cell holds `zero`.
    pub fn new(size: [u32; 3], zero: T) -> (r: Self) where T: Copy
        requires
            valid_size(size),
        ensures
            r.wf(),
            r.dims() == size,
            r.cells() == Seq::new(cell_count(size) as nat, |i: int| zero),
    {
        let count = cell_total(size);
        let mut buffer: Vec<T> = Vec::new();
        let mut i: usize = 0;
        while i < count
            invariant
                count as int == cell_count(size),
                i <= count,
                buffer@.len() == i,
                forall|j: int| 0 <= j < i ==> #[trigger] buffer@[j] == zero,
            decreases count - i,
        {
            buffer.push(zero);
            i = i + 1;
        }
        let r = Self { size, buffer };
        assert(r.cells() == Seq::new(cell_count(size) as nat, |i: int| zero));
        r
    }

    /// A field holding `data`, one value per cell by linear address.
    pub fn new_with_data(size: [u32; 3], data: Vec<T>) -> (r: Self)
        requires
            valid_size(size),
            data@.len() == cell_count(size),
        ensures
            r.wf(),
            r.dims() == size,
            r.cells() == data@,
    {
        Self { size, buffer: data }
    }

    /// A field whose cell `(x, y, z)` holds `f(x, y, z)`.
    pub fn from_fn<F: Fn(u32, u32, u32) -> T>(size: [u32; 3], f: F) -> (r: Self)
        requires
            valid_size(size),
            forall|x: u32, y: u32, z: u32|
                in_grid(size, x as int, y as int, z as int) ==> #[trigger] f.requires((x, y, z)),
        ensures
            r.wf(),
            r.dims() == size,
            forall|i: int|
                0 <= i < cell_count(size) ==> {
                    let (x, y, z) = cell_coords(size, i);
                    f.ensures((x as u32, y as u32, z as u32), #[trigger] r.cells()[i])
                },
    {
        let count = cell_total(size);
        let nx = size[0] as usize;
        let ny = size[1] as usize;
        let mut buffer: Vec<T> = Vec::new();
        let mut i: usize = 0;
        while i < count
            invariant
                valid_size(size),
                count as int == cell_count(size),
                nx == size[0],
                ny == size[1],
                forall|x: u32, y: u32, z: u32|
                    in_grid(size, x as int, y as int, z as int) ==> #[trigger] f.requires(
                        (x, y, z),
                    ),
                i <= count,
                buffer@.len() == i,
                forall|j: int|
                    0 <= j < i ==> {
                        let (x, y, z) = cell_coords(size, j);
                        f.ensures((x as u32, y as u32, z as u32), #[trigger] buffer@[j])
                    },
            decreases count - i,
        {
            proof {
                lemma_index_coords(size, i as int);
            }
            let x = (i % nx) as u32;
            let y = ((i / nx) % ny) as u32;
            let z = ((i / nx) / ny) as u32;
            let v = f(x, y, z);
            buffer.push(v);
            i = i + 1;
        }
        Self { size, buffer }
    }

    /// The grid dimensions.
    pub fn get_size(&self) -> (r: [u32; 3])
        ensures
            r == self.dims(),
    {
        self.size
    }

    /// The cell values, by linear address.
    pub fn get_buffer(&self) -> (r: &[T])
        ensures
            r@ == self.cells(),
    {
        self.buffer.as_slice()
    }

    /// The cell values, by linear address, for writing in place. The slice
    /// cannot change length, so the dimensions stay valid for the contents.
    pub fn get_buffer_mut(&mut self) -> (r: &mut [T])
        ensures
            r@ == old(self).cells(),
            final(self).dims() == old(self).dims(),
            final(self).cells() == final(r)@,
    {
        self.buffer.as_mut_slice()
    }

    /// Advances every cell once by `rule`, from the cell's own old value and
    /// the stencil of `source` around it. No cell reads a value written in the
    /// same pass, so the result does not depend on the order of the visits.
    pub fn advance<D: Copy, F: Fn(T, Stencil<T>, D) -> T>(
        &mut self,
        source: &VectorField<T>,
        rule: &F,
        dt: D,
    ) where T: Copy
        requires
            old(self).wf(),
            source.wf(),
            source.dims() == old(self).dims(),
            accepts_all(*rule, dt),
        ensures
            final(self).wf(),
            final(self).dims() == old(self).dims(),
            phase_result(old(self).dims(), *rule, old(self).cells(), source.cells(), dt, final(self).cells()),
    {
        let size = self.size;
        let count = cell_total(size);
        let nx = size[0] as usize;
        let ny = size[1] as usize;
        let ghost before = self.buffer@;
        let mut i: usize = 0;
        while i < count
            invariant
                valid_size(size),
                self.size == size,
                count as int == cell_count(size),
                nx == size[0],
                ny == size[1],
                source.cells().len() == count,
                before.len() == count,
                accepts_all(*rule, dt),
                i <= count,
                self.buffer@.len() == count,
                forall|j: int|
                    0 <= j < i ==> rule.ensures(
                        (before[j], gather(source.cells(), cell_stencil(size, j)), dt),
                        #[trigger] self.buffer@[j],
                    ),
                forall|j: int| i <= j < count ==> #[trigger] self.buffer@[j] == before[j],
            decreases count - i,
        {
            proof {
                lemma_index_coords(size, i as int);
            }
            let x = (i % nx) as u32;
            let y = ((i / nx) % ny) as u32;
            let z = ((i / nx) / ny) as u32;
            let at = stencil_indices(size, x, y, z);
            let cells = source.buffer.as_slice();
            let samples = Stencil {
                center: cells[at.center],
                x_minus: cells[at.x_minus],
                x_plus: cells[at.x_plus],
                y_minus: cells[at.y_minus],
                y_plus: cells[at.y_plus],
                z_minus: cells[at.z_minus],
                z_plus: cells[at.z_plus],
            };
            assert(samples == gather(source.cells(), cell_stencil(size, i as int)));
            let old_value = self.buffer[i];
            let v = rule(old_value, samples, dt);
            self.buffer.set(i, v);
            i = i + 1;
        }
        proof {
            reveal(phase_result);
        }
    }

    /// Replaces the value of the cell at linear address `i`.
    pub fn set_cell(&mut self, i: usize, value: T)
        requires
            i < old(self).cells().len(),
        ensures
            final(self).dims() == old(self).dims(),
            final(self).cells() == old(self).cells().update(i as int, value),
    {
        self.buffer.set(i, value);
    }
}

/// The number of cells, computed without overflow.
fn cell_total(size: [u32; 3]) -> (r: usize)
    requires
        valid_size(size),
    ensures
        r as int == cell_count(size),
{
    proof {
        lemma_cell_index_bounds(size, 0, 0, 0);
    }
    let layer = size[0] as usize * size[1] as usize;
    layer * size[2] as usize
}

} // verus!
