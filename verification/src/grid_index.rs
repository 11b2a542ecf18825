//! Flat indexing of a three-dimensional cell grid stored x-fastest, then y, then z.
use vstd::prelude::*;

verus! {

use vstd::arithmetic::div_mod::{
    lemma_fundamental_div_mod,
    lemma_fundamental_div_mod_converse,
    lemma_mod_bound,
    lemma_div_pos_is_pos,
    lemma_multiply_divide_lt,
};
use vstd::arithmetic::mul::{lemma_mul_inequality, lemma_mul_is_associative};

/// The flat position of cell `(x, y, z)` in a grid `nx` cells wide and `ny` cells deep.
pub open spec fn cell_index(x: int, y: int, z: int, nx: int, ny: int) -> int {
    x + y * nx + z * nx * ny
}

/// The number of cells of an `nx` by `ny` by `nz` grid.
pub open spec fn cell_count(nx: int, ny: int, nz: int) -> int {
    nx * ny * nz
}

/// Whether `(x, y, z)` names a cell of an `nx` by `ny` by `nz` grid.
pub open spec fn in_grid(x: int, y: int, z: int, nx: int, ny: int, nz: int) -> bool {
    &&& 0 <= x < nx
    &&& 0 <= y < ny
    &&& 0 <= z < nz
}

/// The x coordinate of the cell stored at flat position `i`.
pub open spec fn cell_x(i: int, nx: int) -> int {
    i % nx
}

/// The y coordinate of the cell stored at flat position `i`.
pub open spec fn cell_y(i: int, nx: int, ny: int) -> int {
    (i / nx) % ny
}

/// The z coordinate of the cell stored at flat position `i`.
pub open spec fn cell_z(i: int, nx: int, ny: int) -> int {
    (i / nx) / ny
}

proof fn lemma_index_nested(x: int, y: int, z: int, nx: int, ny: int)
    ensures
        cell_index(x, y, z, nx, ny) == x + nx * (y + ny * z),
{
    assert(z * nx * ny == nx * (ny * z)) by (nonlinear_arith);
    assert(y * nx == nx * y) by (nonlinear_arith);
    assert(nx * (y + ny * z) == nx * y + nx * (ny * z)) by (nonlinear_arith);
}

/// Every cell of the grid is stored at a position inside the grid's storage.
pub proof fn lemma_index_in_range(x: int, y: int, z: int, nx: int, ny: int, nz: int)
    requires
        in_grid(x, y, z, nx, ny, nz),
    ensures
        0 <= cell_index(x, y, z, nx, ny) < cell_count(nx, ny, nz),
{
    lemma_index_nested(x, y, z, nx, ny);
    let yz = y + ny * z;
    assert(0 <= ny * z <= ny * (nz - 1)) by (nonlinear_arith)
        requires
            0 <= z <= nz - 1,
            ny > 0,
    ;
    assert(ny * (nz - 1) == ny * nz - ny) by (nonlinear_arith);
    assert(0 <= yz <= ny * nz - 1);
    assert(0 <= nx * yz <= nx * (ny * nz - 1)) by (nonlinear_arith)
        requires
            0 <= yz <= ny * nz - 1,
            nx > 0,
    ;
    assert(nx * (ny * nz - 1) == nx * ny * nz - nx) by (nonlinear_arith);
}

/// Two cells of the grid stored at the same position are the same cell.
pub proof fn lemma_index_unique(
    x1: int,
    y1: int,
    z1: int,
    x2: int,
    y2: int,
    z2: int,
    nx: int,
    ny: int,
    nz: int,
)
    requires
        in_grid(x1, y1, z1, nx, ny, nz),
        in_grid(x2, y2, z2, nx, ny, nz),
        cell_index(x1, y1, z1, nx, ny) == cell_index(x2, y2, z2, nx, ny),
    ensures
        x1 == x2,
        y1 == y2,
        z1 == z2,
{
    lemma_coords_of_index(x1, y1, z1, nx, ny, nz);
    lemma_coords_of_index(x2, y2, z2, nx, ny, nz);
}

/// The coordinates read back from a cell's flat position are the cell's own coordinates.
pub proof fn lemma_coords_of_index(x: int, y: int, z: int, nx: int, ny: int, nz: int)
    requires
        in_grid(x, y, z, nx, ny, nz),
    ensures
        cell_x(cell_index(x, y, z, nx, ny), nx) == x,
        cell_y(cell_index(x, y, z, nx, ny), nx, ny) == y,
        cell_z(cell_index(x, y, z, nx, ny), nx, ny) == z,
{
    let i = cell_index(x, y, z, nx, ny);
    lemma_index_nested(x, y, z, nx, ny);
    let yz = y + ny * z;
    assert(i == yz * nx + x) by (nonlinear_arith)
        requires
            i == x + nx * yz,
    ;
    lemma_fundamental_div_mod_converse(i, nx, yz, x);
    assert(yz == z * ny + y) by (nonlinear_arith)
        requires
            yz == y + ny * z,
    ;
    lemma_fundamental_div_mod_converse(yz, ny, z, y);
}

/// Every position of the grid's storage holds a cell of the grid, whose
/// coordinates are read back by `cell_x`, `cell_y` and `cell_z`.
pub proof fn lemma_index_decomposes(i: int, nx: int, ny: int, nz: int)
    requires
        0 <= i < cell_count(nx, ny, nz),
        nx >= 0,
        ny >= 0,
        nz >= 0,
    ensures
        in_grid(cell_x(i, nx), cell_y(i, nx, ny), cell_z(i, nx, ny), nx, ny, nz),
        cell_index(cell_x(i, nx), cell_y(i, nx, ny), cell_z(i, nx, ny), nx, ny) == i,
{
    assert(nx > 0 && ny > 0 && nz > 0) by (nonlinear_arith)
        requires
            0 <= i < nx * ny * nz,
            nx >= 0,
            ny >= 0,
            nz >= 0,
    ;
    let q = i / nx;
    let x = i % nx;
    lemma_fundamental_div_mod(i, nx);
    lemma_mod_bound(i, nx);
    lemma_div_pos_is_pos(i, nx);
    lemma_mul_is_associative(nx, ny, nz);
    lemma_multiply_divide_lt(i, nx, ny * nz);
    assert(q < ny * nz);
    let y = q % ny;
    let z = q / ny;
    lemma_fundamental_div_mod(q, ny);
    lemma_mod_bound(q, ny);
    lemma_div_pos_is_pos(q, ny);
    lemma_multiply_divide_lt(q, ny, nz);
    assert(i == x + nx * (y + ny * z));
    lemma_index_nested(x, y, z, nx, ny);
}

/// A cell whose position is below the grid's cell count lies in a grid whose
/// `z * nx` and `y * nx` products are bounded by that position.
pub proof fn lemma_index_parts_bounded(x: int, y: int, z: int, nx: int, ny: int, nz: int)
    requires
        x >= 0,
        y >= 0,
        z >= 0,
        nx >= 0,
        ny >= 0,
        nz >= 0,
        cell_index(x, y, z, nx, ny) < cell_count(nx, ny, nz),
    ensures
        ny > 0,
        z * nx <= cell_index(x, y, z, nx, ny),
        y * nx <= cell_index(x, y, z, nx, ny),
{
    assert(ny > 0) by (nonlinear_arith)
        requires
            x + y * nx + z * nx * ny < nx * ny * nz,
            x >= 0,
            y >= 0,
            z >= 0,
            nx >= 0,
            nz >= 0,
            ny >= 0,
    ;
    assert(z * nx <= z * nx * ny) by (nonlinear_arith)
        requires
            z >= 0,
            nx >= 0,
            ny >= 1,
    ;
    assert(y * nx >= 0 && z * nx * ny >= 0) by (nonlinear_arith)
        requires
            z >= 0,
            nx >= 0,
            ny >= 1,
            y >= 0,
    ;
}

/// Whether cell `(x1, y1, z1)` comes before cell `(x2, y2, z2)` when the grid
/// is walked z-slowest, then y, then x-fastest.
pub open spec fn precedes(x1: int, y1: int, z1: int, x2: int, y2: int, z2: int) -> bool {
    ||| z1 < z2
    ||| z1 == z2 && y1 < y2
    ||| z1 == z2 && y1 == y2 && x1 < x2
}

/// The cell, along an axis of `n` cells, whose value a cell at coordinate `k`
/// holds after the border is extrapolated: each end of the axis takes the
/// value of its inner neighbour, the inside keeps its own. On an axis of two
/// cells the far end is copied after the near end has taken its value, so both
/// end up with the value of coordinate 1.
pub open spec fn border_source(k: int, n: int) -> int {
    if k == 0 {
        1
    } else if k == n - 1 && n != 2 {
        n - 2
    } else {
        k
    }
}

/// Two distinct cells of the grid are stored at distinct positions.
pub proof fn lemma_distinct_cells(
    x1: int,
    y1: int,
    z1: int,
    x2: int,
    y2: int,
    z2: int,
    nx: int,
    ny: int,
    nz: int,
)
    requires
        in_grid(x1, y1, z1, nx, ny, nz),
        in_grid(x2, y2, z2, nx, ny, nz),
        x1 != x2 || y1 != y2 || z1 != z2,
    ensures
        cell_index(x1, y1, z1, nx, ny) != cell_index(x2, y2, z2, nx, ny),
{
    if cell_index(x1, y1, z1, nx, ny) == cell_index(x2, y2, z2, nx, ny) {
        lemma_index_unique(x1, y1, z1, x2, y2, z2, nx, ny, nz);
    }
}

/// The storage layout is x-fastest: cell `(0, 0, 0)` is stored first, one step
/// along x moves one position, one step along y moves `nx` positions, and one
/// step along z moves `nx * ny` positions.
pub proof fn law_index_steps(x: int, y: int, z: int, nx: int, ny: int)
    ensures
        cell_index(0, 0, 0, nx, ny) == 0,
        cell_index(x + 1, y, z, nx, ny) == cell_index(x, y, z, nx, ny) + 1,
        cell_index(x, y + 1, z, nx, ny) == cell_index(x, y, z, nx, ny) + nx,
        cell_index(x, y, z + 1, nx, ny) == cell_index(x, y, z, nx, ny) + nx * ny,
        cell_index(x - 1, y, z, nx, ny) == cell_index(x, y, z, nx, ny) - 1,
        cell_index(x, y - 1, z, nx, ny) == cell_index(x, y, z, nx, ny) - nx,
        cell_index(x, y, z - 1, nx, ny) == cell_index(x, y, z, nx, ny) - nx * ny,
{
    assert(0 * nx + 0 * nx * ny == 0) by (nonlinear_arith);
    assert((y + 1) * nx == y * nx + nx) by (nonlinear_arith);
    assert((z + 1) * nx * ny == z * nx * ny + nx * ny) by (nonlinear_arith);
    assert((y - 1) * nx == y * nx - nx) by (nonlinear_arith);
    assert((z - 1) * nx * ny == z * nx * ny - nx * ny) by (nonlinear_arith);
}

proof fn lemma_mixed_radix_less(a1: int, b1: int, a2: int, b2: int, n: int)
    requires
        0 <= a1 < n,
        0 <= a2 < n,
        0 <= b1 < b2,
    ensures
        a1 + n * b1 < a2 + n * b2,
{
    assert(n * (b1 + 1) <= n * b2) by (nonlinear_arith)
        requires
            b1 + 1 <= b2,
            n > 0,
    ;
    assert(n * (b1 + 1) == n * b1 + n) by (nonlinear_arith);
}

/// Walking the grid z-slowest, then y, then x-fastest visits the cells in
/// storage order: one cell comes before another exactly when it is stored at
/// a smaller position.
pub proof fn law_precedes_is_storage_order(
    x1: int,
    y1: int,
    z1: int,
    x2: int,
    y2: int,
    z2: int,
    nx: int,
    ny: int,
    nz: int,
)
    requires
        in_grid(x1, y1, z1, nx, ny, nz),
        in_grid(x2, y2, z2, nx, ny, nz),
    ensures
        precedes(x1, y1, z1, x2, y2, z2) <==> cell_index(x1, y1, z1, nx, ny) < cell_index(
            x2,
            y2,
            z2,
            nx,
            ny,
        ),
{
    lemma_index_nested(x1, y1, z1, nx, ny);
    lemma_index_nested(x2, y2, z2, nx, ny);
    assert(0 <= ny * z1 && 0 <= ny * z2) by (nonlinear_arith)
        requires
            z1 >= 0,
            z2 >= 0,
            ny > 0,
    ;
    if precedes(x1, y1, z1, x2, y2, z2) {
        if z1 < z2 {
            lemma_mixed_radix_less(y1, z1, y2, z2, ny);
            lemma_mixed_radix_less(x1, y1 + ny * z1, x2, y2 + ny * z2, nx);
        } else if y1 < y2 {
            lemma_mixed_radix_less(x1, y1 + ny * z1, x2, y2 + ny * z2, nx);
        }
    } else if precedes(x2, y2, z2, x1, y1, z1) {
        if z2 < z1 {
            lemma_mixed_radix_less(y2, z2, y1, z1, ny);
            lemma_mixed_radix_less(x2, y2 + ny * z2, x1, y1 + ny * z1, nx);
        } else if y2 < y1 {
            lemma_mixed_radix_less(x2, y2 + ny * z2, x1, y1 + ny * z1, nx);
        }
    }
}

/// At either end of an axis of at least two cells the border takes the value
/// of its inner neighbour; every other cell keeps its own. On an axis of three
/// or more cells the last cell takes the value of the second to last.
pub proof fn law_border_source(k: int, n: int)
    requires
        n >= 2,
        0 <= k < n,
    ensures
        0 <= border_source(k, n) < n,
        k == 0 ==> border_source(k, n) == 1,
        n >= 3 && k == n - 1 ==> border_source(k, n) == n - 2,
        n == 2 && k == 1 ==> border_source(k, n) == 1,
        0 < k < n - 1 ==> border_source(k, n) == k,
{
}

/// Computes the flat position of cell `(x, y, z)` in a grid `nx` cells wide and `ny` deep.
pub fn flat_index(x: usize, y: usize, z: usize, nx: usize, ny: usize) -> (i: usize)
    requires
        z * nx <= usize::MAX,
        cell_index(x as int, y as int, z as int, nx as int, ny as int) <= usize::MAX,
    ensures
        i == cell_index(x as int, y as int, z as int, nx as int, ny as int),
{
    assert(y * nx <= cell_index(x as int, y as int, z as int, nx as int, ny as int))
        by (nonlinear_arith)
        requires
            z * nx * ny >= 0,
            x >= 0,
    ;
    assert(z * nx * ny >= 0) by (nonlinear_arith);
    x + y * nx + z * nx * ny
}

} // verus!
