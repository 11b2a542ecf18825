//! Properties of the grid that span several operations.
use vstd::prelude::*;

verus! {

use crate::fluid_grid::{count_open, step_up, CellRecord, Field, GridView, Inlet, Stencil};
use crate::grid_index::{
    cell_index,
    cell_x,
    cell_y,
    cell_z,
    law_index_steps,
    lemma_coords_of_index,
    lemma_index_in_range,
};

/// A solid cell refuses every velocity and density written to it: the grid
/// is left exactly as it was.
pub proof fn law_solid_cell_refuses_writes(v: GridView, i: int, vx: u32, vy: u32, vz: u32, d: u32)
    requires
        v.wf(),
        0 <= i < v.size(),
        !v.active[i],
    ensures
        v.with_velocity(i, vx, vy, vz) == v,
        v.with_density(i, d) == v,
{
}

/// An open cell reads back the velocity and density last written to it, and
/// no other cell is touched by the write.
pub proof fn law_open_cell_reads_back(v: GridView, i: int, vx: u32, vy: u32, vz: u32, d: u32)
    requires
        v.wf(),
        0 <= i < v.size(),
        v.active[i],
    ensures
        v.with_velocity(i, vx, vy, vz).vel_x[i] == vx,
        v.with_velocity(i, vx, vy, vz).vel_y[i] == vy,
        v.with_velocity(i, vx, vy, vz).vel_z[i] == vz,
        v.with_density(i, d).density[i] == d,
        forall|j: int|
            0 <= j < v.size() && j != i ==> {
                &&& #[trigger] v.with_velocity(i, vx, vy, vz).vel_x[j] == v.vel_x[j]
                &&& v.with_velocity(i, vx, vy, vz).vel_y[j] == v.vel_y[j]
                &&& v.with_velocity(i, vx, vy, vz).vel_z[j] == v.vel_z[j]
                &&& v.with_density(i, d).density[j] == v.density[j]
            },
{
}

/// A cell made solid holds zero in every value, current and previous, and
/// keeps holding zero whatever velocity or density is then written to it.
pub proof fn law_solid_cell_is_empty(v: GridView, i: int, vx: u32, vy: u32, vz: u32, d: u32)
    requires
        v.wf(),
        0 <= i < v.size(),
    ensures
        ({
            let w = v.with_activity(i, false);
            &&& !w.active[i]
            &&& w.vel_x[i] == 0 && w.vel_y[i] == 0 && w.vel_z[i] == 0 && w.density[i] == 0
            &&& w.prev_vel_x[i] == 0 && w.prev_vel_y[i] == 0 && w.prev_vel_z[i] == 0
            &&& w.prev_density[i] == 0
            &&& w.with_velocity(i, vx, vy, vz) == w
            &&& w.with_density(i, d) == w
        }),
{
}

/// Setting a velocity, setting a density and marking a cell open or solid each
/// keep every solid cell empty, and keep the grid well formed.
pub proof fn law_writes_keep_walls_empty(
    v: GridView,
    i: int,
    vx: u32,
    vy: u32,
    vz: u32,
    d: u32,
    open: bool,
)
    requires
        v.wf(),
        v.walls_empty(),
        0 <= i < v.size(),
    ensures
        v.with_velocity(i, vx, vy, vz).wf(),
        v.with_velocity(i, vx, vy, vz).walls_empty(),
        v.with_density(i, d).wf(),
        v.with_density(i, d).walls_empty(),
        v.with_activity(i, open).wf(),
        v.with_activity(i, open).walls_empty(),
{
    assert(v.with_velocity(i, vx, vy, vz).wf()) by {
        let w = v.with_velocity(i, vx, vy, vz);
        assert forall|k: int| 0 <= k < w.inlets.len() implies w.addresses(
            #[trigger] w.inlets[k].x as int,
            w.inlets[k].y as int,
            w.inlets[k].z as int,
        ) by {
            assert(v.inlets[k] == w.inlets[k]);
        }
    }
    assert(v.with_density(i, d).wf()) by {
        let w = v.with_density(i, d);
        assert forall|k: int| 0 <= k < w.inlets.len() implies w.addresses(
            #[trigger] w.inlets[k].x as int,
            w.inlets[k].y as int,
            w.inlets[k].z as int,
        ) by {
            assert(v.inlets[k] == w.inlets[k]);
        }
    }
    assert(v.with_activity(i, open).wf()) by {
        let w = v.with_activity(i, open);
        assert forall|k: int| 0 <= k < w.inlets.len() implies w.addresses(
            #[trigger] w.inlets[k].x as int,
            w.inlets[k].y as int,
            w.inlets[k].z as int,
        ) by {
            assert(v.inlets[k] == w.inlets[k]);
        }
    }
}

/// Applying inlets keeps every solid cell empty: an inlet on a solid cell
/// has no effect.
pub proof fn law_inlets_keep_walls_empty(v: GridView, inlets: Seq<Inlet>)
    requires
        v.wf(),
        v.walls_empty(),
        forall|k: int|
            0 <= k < inlets.len() ==> v.addresses(
                #[trigger] inlets[k].x as int,
                inlets[k].y as int,
                inlets[k].z as int,
            ),
    ensures
        v.with_inlets_applied(inlets).wf(),
        v.with_inlets_applied(inlets).walls_empty(),
        v.with_inlets_applied(inlets).active == v.active,
        v.with_inlets_applied(inlets).nx == v.nx,
        v.with_inlets_applied(inlets).ny == v.ny,
        v.with_inlets_applied(inlets).nz == v.nz,
    decreases inlets.len(),
{
    if inlets.len() > 0 {
        let rest = inlets.drop_last();
        assert forall|k: int| 0 <= k < rest.len() implies v.addresses(
            #[trigger] rest[k].x as int,
            rest[k].y as int,
            rest[k].z as int,
        ) by {
            assert(rest[k] == inlets[k]);
        }
        law_inlets_keep_walls_empty(v, rest);
        let w = v.with_inlets_applied(rest);
        let last = inlets.last();
        assert(v.addresses(last.x as int, last.y as int, last.z as int));
        law_writes_keep_walls_empty(
            w,
            v.index(last.x as int, last.y as int, last.z as int),
            last.vx,
            last.vy,
            last.vz,
            0,
            true,
        );
    }
}

/// Emptying the walls leaves every solid cell empty and every open cell as
/// it was, and changes nothing on a grid whose walls are already empty.
pub proof fn law_enforce_walls(v: GridView)
    requires
        v.wf(),
    ensures
        v.with_walls_emptied().wf(),
        v.with_walls_emptied().walls_empty(),
        forall|i: int|
            0 <= i < v.size() && #[trigger] v.active[i] ==> {
                &&& v.with_walls_emptied().vel_x[i] == v.vel_x[i]
                &&& v.with_walls_emptied().vel_y[i] == v.vel_y[i]
                &&& v.with_walls_emptied().vel_z[i] == v.vel_z[i]
                &&& v.with_walls_emptied().density[i] == v.density[i]
            },
        v.walls_empty() ==> v.with_walls_emptied() == v,
{
    let w = v.with_walls_emptied();
    assert forall|k: int| 0 <= k < w.inlets.len() implies w.addresses(
        #[trigger] w.inlets[k].x as int,
        w.inlets[k].y as int,
        w.inlets[k].z as int,
    ) by {
        assert(v.inlets[k] == w.inlets[k]);
    }
    if v.walls_empty() {
        assert(w.vel_x =~= v.vel_x);
        assert(w.vel_y =~= v.vel_y);
        assert(w.vel_z =~= v.vel_z);
        assert(w.density =~= v.density);
        assert(w =~= v);
    }
}

/// Setting a velocity touches nothing but the three velocity components of
/// that one cell.
pub proof fn law_velocity_write_is_local(v: GridView, i: int, vx: u32, vy: u32, vz: u32)
    requires
        v.wf(),
        0 <= i < v.size(),
    ensures
        ({
            let w = v.with_velocity(i, vx, vy, vz);
            &&& w.nx == v.nx && w.ny == v.ny && w.nz == v.nz
            &&& w.active == v.active
            &&& w.density == v.density
            &&& w.prev_vel_x == v.prev_vel_x && w.prev_vel_y == v.prev_vel_y
            &&& w.prev_vel_z == v.prev_vel_z && w.prev_density == v.prev_density
            &&& w.inlets == v.inlets
            &&& w.vel_x == (if v.active[i] { v.vel_x.update(i, vx) } else { v.vel_x })
            &&& w.vel_y == (if v.active[i] { v.vel_y.update(i, vy) } else { v.vel_y })
            &&& w.vel_z == (if v.active[i] { v.vel_z.update(i, vz) } else { v.vel_z })
        }),
{
}

/// Setting a density touches nothing but the density of that one cell.
pub proof fn law_density_write_is_local(v: GridView, i: int, d: u32)
    requires
        v.wf(),
        0 <= i < v.size(),
    ensures
        ({
            let w = v.with_density(i, d);
            &&& w.nx == v.nx && w.ny == v.ny && w.nz == v.nz
            &&& w.active == v.active
            &&& w.vel_x == v.vel_x && w.vel_y == v.vel_y && w.vel_z == v.vel_z
            &&& w.prev_vel_x == v.prev_vel_x && w.prev_vel_y == v.prev_vel_y
            &&& w.prev_vel_z == v.prev_vel_z && w.prev_density == v.prev_density
            &&& w.inlets == v.inlets
            &&& w.density == (if v.active[i] { v.density.update(i, d) } else { v.density })
        }),
{
}

/// Marking a cell open changes only that cell's flag: every value of every
/// cell, and every other flag, stays as it was.
pub proof fn law_opening_changes_only_the_flag(v: GridView, i: int)
    requires
        v.wf(),
        0 <= i < v.size(),
    ensures
        ({
            let w = v.with_activity(i, true);
            &&& w.active == v.active.update(i, true)
            &&& w.nx == v.nx && w.ny == v.ny && w.nz == v.nz
            &&& w.vel_x == v.vel_x && w.vel_y == v.vel_y && w.vel_z == v.vel_z
            &&& w.density == v.density
            &&& w.prev_vel_x == v.prev_vel_x && w.prev_vel_y == v.prev_vel_y
            &&& w.prev_vel_z == v.prev_vel_z && w.prev_density == v.prev_density
            &&& w.inlets == v.inlets
        }),
{
}

/// Marking a cell solid clears its flag and resets its eight values to zero,
/// and touches no other cell.
pub proof fn law_closing_empties_only_that_cell(v: GridView, i: int)
    requires
        v.wf(),
        0 <= i < v.size(),
    ensures
        ({
            let w = v.with_activity(i, false);
            &&& w.active == v.active.update(i, false)
            &&& w.nx == v.nx && w.ny == v.ny && w.nz == v.nz
            &&& w.vel_x == v.vel_x.update(i, 0) && w.vel_y == v.vel_y.update(i, 0)
            &&& w.vel_z == v.vel_z.update(i, 0) && w.density == v.density.update(i, 0)
            &&& w.prev_vel_x == v.prev_vel_x.update(i, 0)
            &&& w.prev_vel_y == v.prev_vel_y.update(i, 0)
            &&& w.prev_vel_z == v.prev_vel_z.update(i, 0)
            &&& w.prev_density == v.prev_density.update(i, 0)
            &&& w.inlets == v.inlets
        }),
{
}

/// Each field names its own storage, current and previous.
pub proof fn law_fields_name_their_storage(v: GridView)
    ensures
        v.field(Field::VelocityX) == v.vel_x,
        v.field(Field::VelocityY) == v.vel_y,
        v.field(Field::VelocityZ) == v.vel_z,
        v.field(Field::Density) == v.density,
        v.previous(Field::VelocityX) == v.prev_vel_x,
        v.previous(Field::VelocityY) == v.prev_vel_y,
        v.previous(Field::VelocityZ) == v.prev_vel_z,
        v.previous(Field::Density) == v.prev_density,
{
}

/// Storing a value in one field at one position changes that entry only.
pub proof fn law_field_write_is_local(v: GridView, f: Field, i: int, bits: u32)
    requires
        v.wf(),
        0 <= i < v.size(),
    ensures
        v.with_field(f, i, bits).field(f) == v.field(f).update(i, bits),
        v.with_field(f, i, bits).active == v.active,
        v.with_field(Field::VelocityX, i, bits) == (GridView { vel_x: v.vel_x.update(i, bits), ..v }),
        v.with_field(Field::VelocityY, i, bits) == (GridView { vel_y: v.vel_y.update(i, bits), ..v }),
        v.with_field(Field::VelocityZ, i, bits) == (GridView { vel_z: v.vel_z.update(i, bits), ..v }),
        v.with_field(Field::Density, i, bits) == (GridView {
            density: v.density.update(i, bits),
            ..v
        }),
{
}

/// Emptying the walls changes no open/solid flag, no previous value and no
/// inlet; it resets the velocity and density of every solid cell to zero and
/// leaves those of every open cell as they were.
pub proof fn law_emptying_walls_keeps_flags(v: GridView)
    requires
        v.wf(),
    ensures
        ({
            let w = v.with_walls_emptied();
            &&& w.active == v.active
            &&& w.nx == v.nx && w.ny == v.ny && w.nz == v.nz
            &&& w.prev_vel_x == v.prev_vel_x && w.prev_vel_y == v.prev_vel_y
            &&& w.prev_vel_z == v.prev_vel_z && w.prev_density == v.prev_density
            &&& w.inlets == v.inlets
            &&& w.vel_x.len() == v.size() && w.vel_y.len() == v.size()
            &&& w.vel_z.len() == v.size() && w.density.len() == v.size()
            &&& forall|i: int|
                0 <= i < v.size() ==> {
                    &&& #[trigger] w.vel_x[i] == (if v.active[i] { v.vel_x[i] } else { 0 })
                    &&& w.vel_y[i] == (if v.active[i] { v.vel_y[i] } else { 0 })
                    &&& w.vel_z[i] == (if v.active[i] { v.vel_z[i] } else { 0 })
                    &&& w.density[i] == (if v.active[i] { v.density[i] } else { 0 })
                }
        }),
{
}

/// Advection samples a solid cell as zero, whatever its previous buffers
/// hold, and an open cell as its stored previous value.
pub proof fn law_walls_sample_as_zero(v: GridView, f: Field, x: int, y: int, z: int)
    requires
        v.wf(),
        v.contains(x, y, z),
    ensures
        !v.active[cell_index(x, y, z, v.nx as int, v.ny as int)] ==> v.sample_previous(f, x, y, z)
            == 0,
        v.active[cell_index(x, y, z, v.nx as int, v.ny as int)] ==> v.sample_previous(f, x, y, z)
            == v.previous(f)[cell_index(x, y, z, v.nx as int, v.ny as int)],
        f == Field::Density && v.active[cell_index(x, y, z, v.nx as int, v.ny as int)]
            ==> v.sample_previous(f, x, y, z) == v.prev_density[cell_index(
            x,
            y,
            z,
            v.nx as int,
            v.ny as int,
        )],
{
}

/// The upper corner coordinate is one step up, except at the last cell of
/// the axis, which is its own upper corner.
pub proof fn law_step_up(c: int, n: int)
    requires
        0 <= c < n,
    ensures
        0 <= step_up(c, n) < n,
        c + 1 < n ==> step_up(c, n) == c + 1,
        c == n - 1 ==> step_up(c, n) == c,
{
}

/// Counting open neighbours: none open counts zero, and opening any one
/// neighbour adds exactly one.
pub proof fn law_count_open(a: bool, b: bool, c: bool, d: bool, e: bool, f: bool)
    ensures
        count_open(false, false, false, false, false, false) == 0,
        count_open(true, b, c, d, e, f) == count_open(false, b, c, d, e, f) + 1,
        count_open(a, true, c, d, e, f) == count_open(a, false, c, d, e, f) + 1,
        count_open(a, b, true, d, e, f) == count_open(a, b, false, d, e, f) + 1,
        count_open(a, b, c, true, e, f) == count_open(a, b, c, false, e, f) + 1,
        count_open(a, b, c, d, true, f) == count_open(a, b, c, d, false, f) + 1,
        count_open(a, b, c, d, e, true) == count_open(a, b, c, d, e, false) + 1,
        count_open(a, b, c, d, e, f) > 0 <==> (a || b || c || d || e || f),
{
}

/// A stencil of an interior cell holds the positions of the cell's six face
/// neighbours, one step away along each axis, and each neighbour's open flag
/// is the flag stored at that neighbour's position.
pub proof fn law_stencil_reads_its_neighbours(v: GridView, s: Stencil)
    requires
        v.wf(),
        v.describes(s),
        v.interior(s.x as int, s.y as int, s.z as int),
    ensures
        s.center == cell_index(s.x as int, s.y as int, s.z as int, v.nx as int, v.ny as int),
        s.x_minus == s.center - 1,
        s.x_plus == s.center + 1,
        s.y_minus == s.center - v.nx,
        s.y_plus == s.center + v.nx,
        s.z_minus == s.center - v.nx * v.ny,
        s.z_plus == s.center + v.nx * v.ny,
        s.center < v.size(),
        s.x_minus < v.size() && s.x_plus < v.size(),
        s.y_minus < v.size() && s.y_plus < v.size(),
        s.z_minus < v.size() && s.z_plus < v.size(),
        s.open_x_minus == v.active[s.x_minus as int],
        s.open_x_plus == v.active[s.x_plus as int],
        s.open_y_minus == v.active[s.y_minus as int],
        s.open_y_plus == v.active[s.y_plus as int],
        s.open_z_minus == v.active[s.z_minus as int],
        s.open_z_plus == v.active[s.z_plus as int],
{
    let (x, y, z, nx, ny, nz) = (
        s.x as int,
        s.y as int,
        s.z as int,
        v.nx as int,
        v.ny as int,
        v.nz as int,
    );
    law_index_steps(x, y, z, nx, ny);
    lemma_index_in_range(x, y, z, nx, ny, nz);
    lemma_index_in_range(x - 1, y, z, nx, ny, nz);
    lemma_index_in_range(x + 1, y, z, nx, ny, nz);
    lemma_index_in_range(x, y - 1, z, nx, ny, nz);
    lemma_index_in_range(x, y + 1, z, nx, ny, nz);
    lemma_index_in_range(x, y, z - 1, nx, ny, nz);
    lemma_index_in_range(x, y, z + 1, nx, ny, nz);
}

/// The pressure solver relaxes exactly the open cells at least one step from
/// every face of the grid that have at least one open face neighbour.
pub proof fn law_relaxed_cells(v: GridView, x: int, y: int, z: int)
    requires
        v.wf(),
    ensures
        v.relaxes(x, y, z) <==> {
            let (nx, ny) = (v.nx as int, v.ny as int);
            let i = cell_index(x, y, z, nx, ny);
            &&& 1 <= x < v.nx - 1
            &&& 1 <= y < v.ny - 1
            &&& 1 <= z < v.nz - 1
            &&& v.active[i]
            &&& (v.active[i - 1] || v.active[i + 1] || v.active[i - nx] || v.active[i + nx]
                || v.active[i - nx * ny] || v.active[i + nx * ny])
        },
{
    law_index_steps(x, y, z, v.nx as int, v.ny as int);
    law_count_open(
        v.open_at(x - 1, y, z),
        v.open_at(x + 1, y, z),
        v.open_at(x, y - 1, z),
        v.open_at(x, y + 1, z),
        v.open_at(x, y, z - 1),
        v.open_at(x, y, z + 1),
    );
}

/// Applying inlets keeps the grid's shape and its open/solid flags.
pub proof fn law_inlets_keep_flags(v: GridView, inlets: Seq<Inlet>)
    ensures
        v.with_inlets_applied(inlets).active == v.active,
        v.with_inlets_applied(inlets).nx == v.nx,
        v.with_inlets_applied(inlets).ny == v.ny,
        v.with_inlets_applied(inlets).nz == v.nz,
        v.with_inlets_applied(inlets).density == v.density,
        v.with_inlets_applied(inlets).inlets == v.inlets,
    decreases inlets.len(),
{
    if inlets.len() > 0 {
        law_inlets_keep_flags(v, inlets.drop_last());
    }
}

/// The last inlet added wins: after applying inlets ending with `last`, an
/// open inlet cell holds exactly `last`'s velocity.
pub proof fn law_last_inlet_wins(v: GridView, inlets: Seq<Inlet>, last: Inlet)
    requires
        v.wf(),
        forall|k: int|
            0 <= k < inlets.len() ==> v.addresses(
                #[trigger] inlets[k].x as int,
                inlets[k].y as int,
                inlets[k].z as int,
            ),
        v.addresses(last.x as int, last.y as int, last.z as int),
        v.active[cell_index(last.x as int, last.y as int, last.z as int, v.nx as int, v.ny as int)],
    ensures
        ({
            let i = cell_index(last.x as int, last.y as int, last.z as int, v.nx as int, v.ny as int);
            let w = v.with_inlets_applied(inlets.push(last));
            &&& w.vel_x[i] == last.vx
            &&& w.vel_y[i] == last.vy
            &&& w.vel_z[i] == last.vz
        }),
{
    assert(inlets.push(last).drop_last() =~= inlets);
    law_inlets_keep_flags(v, inlets);
    law_inlets_lengths(v, inlets);
}

proof fn law_inlets_lengths(v: GridView, inlets: Seq<Inlet>)
    requires
        v.wf(),
        forall|k: int|
            0 <= k < inlets.len() ==> v.addresses(
                #[trigger] inlets[k].x as int,
                inlets[k].y as int,
                inlets[k].z as int,
            ),
    ensures
        v.with_inlets_applied(inlets).vel_x.len() == v.vel_x.len(),
        v.with_inlets_applied(inlets).vel_y.len() == v.vel_y.len(),
        v.with_inlets_applied(inlets).vel_z.len() == v.vel_z.len(),
    decreases inlets.len(),
{
    if inlets.len() > 0 {
        let rest = inlets.drop_last();
        assert forall|k: int| 0 <= k < rest.len() implies v.addresses(
            #[trigger] rest[k].x as int,
            rest[k].y as int,
            rest[k].z as int,
        ) by {
            assert(rest[k] == inlets[k]);
        }
        law_inlets_lengths(v, rest);
        law_inlets_keep_flags(v, rest);
        let last = inlets.last();
        assert(v.addresses(last.x as int, last.y as int, last.z as int));
    }
}

/// The record listed at position `p` of the raw matrix names the cell stored
/// at `p`, whose coordinates are read back from `p`, and carries that cell's
/// current density, the value the density getter returns for it.
pub proof fn law_record_matches_cell(v: GridView, r: CellRecord, p: int)
    requires
        v.wf(),
        v.records(r, p),
    ensures
        0 <= p < v.size(),
        r.x == cell_x(p, v.nx as int),
        r.y == cell_y(p, v.nx as int, v.ny as int),
        r.z == cell_z(p, v.nx as int, v.ny as int),
        r.density == v.density[cell_index(r.x as int, r.y as int, r.z as int, v.nx as int, v.ny as int)],
{
    lemma_index_in_range(r.x as int, r.y as int, r.z as int, v.nx as int, v.ny as int, v.nz as int);
    lemma_coords_of_index(r.x as int, r.y as int, r.z as int, v.nx as int, v.ny as int, v.nz as int);
}

} // verus!
