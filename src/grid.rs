//! Grid dimensions, the linear cell address and clamped neighbour addressing.
use vstd::prelude::*;

verus! {

/// Number of cells of a grid with the given dimensions.
pub open spec fn cell_count(size: [u32; 3]) -> int {
    size[0] as int * size[1] as int * size[2] as int
}

/// Dimensions that a field can be built with: no axis is empty and every
/// linear address fits in 32 bits.
pub open spec fn valid_size(size: [u32; 3]) -> bool {
    &&& size[0] >= 1
    &&& size[1] >= 1
    &&& size[2] >= 1
    &&& cell_count(size) <= u32::MAX
}

/// The coordinate `(x, y, z)` lies inside the grid.
pub open spec fn in_grid(size: [u32; 3], x: int, y: int, z: int) -> bool {
    &&& 0 <= x < size[0]
    &&& 0 <= y < size[1]
    &&& 0 <= z < size[2]
}

/// Linear address of a cell: `x + y * nx + z * nx * ny`.
pub open spec fn cell_index(size: [u32; 3], x: int, y: int, z: int) -> int {
    x + y * size[0] + z * (size[0] * size[1])
}

/// Coordinates of the cell at a linear address.
pub open spec fn cell_coords(size: [u32; 3], i: int) -> (int, int, int) {
    (i % size[0] as int, (i / size[0] as int) % size[1] as int, (i / size[0] as int) / size[1] as int)
}

/// The lower neighbour along one axis, clamped to the first cell.
pub open spec fn minus_coord(c: int) -> int {
    if c >= 1 {
        c - 1
    } else {
        0
    }
}

/// The upper neighbour along an axis of `n` cells, clamped to the last cell.
pub open spec fn plus_coord(c: int, n: int) -> int {
    if c + 1 < n {
        c + 1
    } else {
        n - 1
    }
}

/// A cell together with its six axis neighbours.
pub struct Stencil<T> {
    pub center: T,
    pub x_minus: T,
    pub x_plus: T,
    pub y_minus: T,
    pub y_plus: T,
    pub z_minus: T,
    pub z_plus: T,
}

/// Linear addresses of the stencil around the cell `(x, y, z)`.
pub open spec fn stencil_at(size: [u32; 3], x: int, y: int, z: int) -> Stencil<int> {
    Stencil {
        center: cell_index(size, x, y, z),
        x_minus: cell_index(size, minus_coord(x), y, z),
        x_plus: cell_index(size, plus_coord(x, size[0] as int), y, z),
        y_minus: cell_index(size, x, minus_coord(y), z),
        y_plus: cell_index(size, x, plus_coord(y, size[1] as int), z),
        z_minus: cell_index(size, x, y, minus_coord(z)),
        z_plus: cell_index(size, x, y, plus_coord(z, size[2] as int)),
    }
}

/// Linear addresses of the stencil around the cell at linear address `i`.
pub open spec fn cell_stencil(size: [u32; 3], i: int) -> Stencil<int> {
    let (x, y, z) = cell_coords(size, i);
    stencil_at(size, x, y, z)
}

/// Every address of the stencil lies in `[0, n)`.
pub open spec fn stencil_within(s: Stencil<int>, n: int) -> bool {
    &&& 0 <= s.center < n
    &&& 0 <= s.x_minus < n
    &&& 0 <= s.x_plus < n
    &&& 0 <= s.y_minus < n
    &&& 0 <= s.y_plus < n
    &&& 0 <= s.z_minus < n
    &&& 0 <= s.z_plus < n
}

/// The executable stencil holds the addresses of the specified one.
pub open spec fn stencil_matches(r: Stencil<usize>, s: Stencil<int>) -> bool {
    &&& r.center as int == s.center
    &&& r.x_minus as int == s.x_minus
    &&& r.x_plus as int == s.x_plus
    &&& r.y_minus as int == s.y_minus
    &&& r.y_plus as int == s.y_plus
    &&& r.z_minus as int == s.z_minus
    &&& r.z_plus as int == s.z_plus
}

/// The address of a cell inside the grid is below the cell count, and the
/// partial sums of the address stay within their layer.
pub proof fn lemma_cell_index_bounds(size: [u32; 3], x: int, y: int, z: int)
    requires
        in_grid(size, x, y, z),
    ensures
        0 <= y * size[0] <= x + y * size[0] < size[0] * size[1],
        0 <= z * (size[0] * size[1]),
        0 <= cell_index(size, x, y, z) < cell_count(size),
        size[0] * size[1] <= cell_count(size),
{
    let nx = size[0] as int;
    let ny = size[1] as int;
    let nz = size[2] as int;
    assert(0 <= y * nx <= x + y * nx < nx * ny) by (nonlinear_arith)
        requires
            0 <= x < nx,
            0 <= y < ny,
    ;
    assert(0 <= z * (nx * ny) && x + y * nx + z * (nx * ny) < nx * ny * nz && nx * ny <= nx * ny
        * nz) by (nonlinear_arith)
        requires
            0 <= x + y * nx < nx * ny,
            0 <= z < nz,
    ;
}

/// Every linear address below the cell count is the address of a cell inside
/// the grid, namely of the cell at its coordinates.
pub proof fn lemma_index_coords(size: [u32; 3], i: int)
    requires
        valid_size(size),
        0 <= i < cell_count(size),
    ensures
        ({
            let (x, y, z) = cell_coords(size, i);
            in_grid(size, x, y, z) && cell_index(size, x, y, z) == i
        }),
{
    let nx = size[0] as int;
    let ny = size[1] as int;
    let nz = size[2] as int;
    let (x, y, z) = cell_coords(size, i);
    let q = i / nx;
    assert(i == nx * q + x && 0 <= x < nx && 0 <= q) by {
        vstd::arithmetic::div_mod::lemma_fundamental_div_mod(i, nx);
        vstd::arithmetic::div_mod::lemma_mod_bound(i, nx);
        vstd::arithmetic::div_mod::lemma_div_pos_is_pos(i, nx);
    }
    assert(q == ny * z + y && 0 <= y < ny && 0 <= z) by {
        vstd::arithmetic::div_mod::lemma_fundamental_div_mod(q, ny);
        vstd::arithmetic::div_mod::lemma_mod_bound(q, ny);
        vstd::arithmetic::div_mod::lemma_div_pos_is_pos(q, ny);
    }
    assert(z < nz && i == x + y * nx + z * (nx * ny)) by (nonlinear_arith)
        requires
            i == nx * q + x,
            q == ny * z + y,
            0 <= x < nx,
            0 <= y < ny,
            0 <= z,
            i < nx * ny * nz,
    ;
}

/// Every address of the stencil around any cell of a valid grid lies in
/// `[0, nx * ny * nz)`: clamped neighbour addressing never leaves the grid.
pub proof fn lemma_stencil_in_bounds(size: [u32; 3], i: int)
    requires
        valid_size(size),
        0 <= i < cell_count(size),
    ensures
        stencil_within(cell_stencil(size, i), cell_count(size)),
{
    lemma_index_coords(size, i);
    let (x, y, z) = cell_coords(size, i);
    lemma_stencil_at_in_bounds(size, x, y, z);
}

proof fn lemma_stencil_at_in_bounds(size: [u32; 3], x: int, y: int, z: int)
    requires
        in_grid(size, x, y, z),
    ensures
        stencil_within(stencil_at(size, x, y, z), cell_count(size)),
{
    let nx = size[0] as int;
    let ny = size[1] as int;
    let nz = size[2] as int;
    lemma_cell_index_bounds(size, x, y, z);
    lemma_cell_index_bounds(size, minus_coord(x), y, z);
    lemma_cell_index_bounds(size, plus_coord(x, nx), y, z);
    lemma_cell_index_bounds(size, x, minus_coord(y), z);
    lemma_cell_index_bounds(size, x, plus_coord(y, ny), z);
    lemma_cell_index_bounds(size, x, y, minus_coord(z));
    lemma_cell_index_bounds(size, x, y, plus_coord(z, nz));
}

/// Lower clamped neighbour of coordinate `c`.
pub fn minus_neighbor(c: u32) -> (r: u32)
    ensures
        r as int == minus_coord(c as int),
{
    if c >= 1 {
        c - 1
    } else {
        0
    }
}

/// Upper clamped neighbour of coordinate `c` on an axis of `n` cells.
pub fn plus_neighbor(c: u32, n: u32) -> (r: u32)
    requires
        c < n,
    ensures
        r as int == plus_coord(c as int, n as int),
{
    if c < n - 1 {
        c + 1
    } else {
        n - 1
    }
}

/// Linear address of the cell `(x, y, z)`.
pub fn cell_address(size: [u32; 3], x: u32, y: u32, z: u32) -> (r: usize)
    requires
        valid_size(size),
        in_grid(size, x as int, y as int, z as int),
    ensures
        r as int == cell_index(size, x as int, y as int, z as int),
        r < cell_count(size),
{
    proof {
        lemma_cell_index_bounds(size, x as int, y as int, z as int);
    }
    let nx = size[0] as usize;
    let ny = size[1] as usize;
    let layer = nx * ny;
    x as usize + y as usize * nx + z as usize * layer
}

/// Linear addresses of the cell `(x, y, z)` and of its six clamped axis
/// neighbours.
pub fn stencil_indices(size: [u32; 3], x: u32, y: u32, z: u32) -> (r: Stencil<usize>)
    requires
        valid_size(size),
        in_grid(size, x as int, y as int, z as int),
    ensures
        stencil_matches(r, stencil_at(size, x as int, y as int, z as int)),
        stencil_within(stencil_at(size, x as int, y as int, z as int), cell_count(size)),
{
    let xm = minus_neighbor(x);
    let xp = plus_neighbor(x, size[0]);
    let ym = minus_neighbor(y);
    let yp = plus_neighbor(y, size[1]);
    let zm = minus_neighbor(z);
    let zp = plus_neighbor(z, size[2]);
    proof {
        lemma_stencil_at_in_bounds(size, x as int, y as int, z as int);
    }
    Stencil {
        center: cell_address(size, x, y, z),
        x_minus: cell_address(size, xm, y, z),
        x_plus: cell_address(size, xp, y, z),
        y_minus: cell_address(size, x, ym, z),
        y_plus: cell_address(size, x, yp, z),
        z_minus: cell_address(size, x, y, zm),
        z_plus: cell_address(size, x, y, zp),
    }
}

} // verus!
