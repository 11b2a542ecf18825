//! The fluid grid: the cells' solid/open flags and their stored values.
//!
//! Each cell value (a velocity component or a density) is a 32-bit float held
//! by its IEEE-754 bit pattern: everything this module does to a value is to
//! store it, copy it or reset it to `+0.0`, whose bit pattern is `0`.
use vstd::prelude::*;

verus! {

use crate::grid_index::{
    cell_index,
    cell_count,
    in_grid,
    flat_index,
    lemma_index_in_range,
    lemma_index_parts_bounded,
    lemma_distinct_cells,
    border_source,
    precedes,
};

/// One of the four values held by every cell.
#[derive(Clone, Copy)]
pub enum Field {
    VelocityX,
    VelocityY,
    VelocityZ,
    Density,
}

/// A cell at which a velocity is imposed at the start of every step.
#[derive(Clone, Copy)]
pub struct Inlet {
    pub x: usize,
    pub y: usize,
    pub z: usize,
    pub vx: u32,
    pub vy: u32,
    pub vz: u32,
}

/// A cell's coordinates together with its density.
#[derive(Clone, Copy)]
pub struct CellRecord {
    pub x: usize,
    pub y: usize,
    pub z: usize,
    pub density: u32,
}

/// A cell's coordinates together with its storage position.
#[derive(Clone, Copy)]
pub struct GridCell {
    pub x: usize,
    pub y: usize,
    pub z: usize,
    pub index: usize,
}

/// An interior cell together with its six face neighbours: their storage
/// positions and whether each neighbour is open.
#[derive(Clone, Copy)]
pub struct Stencil {
    pub x: usize,
    pub y: usize,
    pub z: usize,
    pub center: usize,
    pub x_minus: usize,
    pub x_plus: usize,
    pub y_minus: usize,
    pub y_plus: usize,
    pub z_minus: usize,
    pub z_plus: usize,
    pub open_x_minus: bool,
    pub open_x_plus: bool,
    pub open_y_minus: bool,
    pub open_y_plus: bool,
    pub open_z_minus: bool,
    pub open_z_plus: bool,
}

/// The eight previous values that trilinear interpolation weighs, sampled at
/// the corners of a cube of cells; `c101` is the corner one step up in x and in z.
#[derive(Clone, Copy)]
pub struct Corners {
    pub c000: u32,
    pub c100: u32,
    pub c010: u32,
    pub c110: u32,
    pub c001: u32,
    pub c101: u32,
    pub c011: u32,
    pub c111: u32,
}

/// The number of `true` flags among six.
pub open spec fn count_open(a: bool, b: bool, c: bool, d: bool, e: bool, f: bool) -> int {
    (if a { 1int } else { 0int }) + (if b { 1int } else { 0int }) + (if c { 1int } else { 0int })
        + (if d { 1int } else { 0int }) + (if e { 1int } else { 0int }) + (if f { 1int } else { 0int })
}

/// The coordinate one step up from `c` along an axis of `n` cells, held at the last cell.
pub open spec fn step_up(c: int, n: int) -> int {
    if c + 1 < n {
        c + 1
    } else {
        n - 1
    }
}

impl Stencil {
    /// The number of open neighbours.
    pub open spec fn open_neighbours(self) -> int {
        count_open(
            self.open_x_minus,
            self.open_x_plus,
            self.open_y_minus,
            self.open_y_plus,
            self.open_z_minus,
            self.open_z_plus,
        )
    }

    /// Counts the open neighbours.
    pub fn open_count(&self) -> (n: u32)
        ensures
            n == self.open_neighbours(),
    {
        let mut n: u32 = 0;
        if self.open_x_minus {
            n = n + 1;
        }
        if self.open_x_plus {
            n = n + 1;
        }
        if self.open_y_minus {
            n = n + 1;
        }
        if self.open_y_plus {
            n = n + 1;
        }
        if self.open_z_minus {
            n = n + 1;
        }
        if self.open_z_plus {
            n = n + 1;
        }
        n
    }
}

/// The mathematical content of a grid.
#[verifier::ext_equal]
pub struct GridView {
    pub nx: nat,
    pub ny: nat,
    pub nz: nat,
    pub active: Seq<bool>,
    pub vel_x: Seq<u32>,
    pub vel_y: Seq<u32>,
    pub vel_z: Seq<u32>,
    pub density: Seq<u32>,
    pub prev_vel_x: Seq<u32>,
    pub prev_vel_y: Seq<u32>,
    pub prev_vel_z: Seq<u32>,
    pub prev_density: Seq<u32>,
    pub inlets: Seq<Inlet>,
}

impl GridView {
    pub open spec fn size(self) -> int {
        cell_count(self.nx as int, self.ny as int, self.nz as int)
    }

    pub open spec fn index(self, x: int, y: int, z: int) -> int {
        cell_index(x, y, z, self.nx as int, self.ny as int)
    }

    pub open spec fn contains(self, x: int, y: int, z: int) -> bool {
        in_grid(x, y, z, self.nx as int, self.ny as int, self.nz as int)
    }

    /// Whether `(x, y, z)` names a position of the storage. The grid accepts
    /// such coordinates even where one of them runs past its axis: `(nx, 0, 0)`
    /// names the same position as `(0, 1, 0)`.
    pub open spec fn addresses(self, x: int, y: int, z: int) -> bool {
        0 <= self.index(x, y, z) < self.size()
    }

    pub open spec fn field(self, f: Field) -> Seq<u32> {
        match f {
            Field::VelocityX => self.vel_x,
            Field::VelocityY => self.vel_y,
            Field::VelocityZ => self.vel_z,
            Field::Density => self.density,
        }
    }

    pub open spec fn previous(self, f: Field) -> Seq<u32> {
        match f {
            Field::VelocityX => self.prev_vel_x,
            Field::VelocityY => self.prev_vel_y,
            Field::VelocityZ => self.prev_vel_z,
            Field::Density => self.prev_density,
        }
    }

    /// The grid with value `bits` stored in field `f` of the cell at position `i`.
    pub open spec fn with_field(self, f: Field, i: int, bits: u32) -> GridView {
        match f {
            Field::VelocityX => GridView { vel_x: self.vel_x.update(i, bits), ..self },
            Field::VelocityY => GridView { vel_y: self.vel_y.update(i, bits), ..self },
            Field::VelocityZ => GridView { vel_z: self.vel_z.update(i, bits), ..self },
            Field::Density => GridView { density: self.density.update(i, bits), ..self },
        }
    }

    pub open spec fn wf(self) -> bool {
        &&& self.size() <= usize::MAX
        &&& self.active.len() == self.size()
        &&& self.vel_x.len() == self.size()
        &&& self.vel_y.len() == self.size()
        &&& self.vel_z.len() == self.size()
        &&& self.density.len() == self.size()
        &&& self.prev_vel_x.len() == self.size()
        &&& self.prev_vel_y.len() == self.size()
        &&& self.prev_vel_z.len() == self.size()
        &&& self.prev_density.len() == self.size()
        &&& forall|k: int|
            #![trigger self.inlets[k]]
            0 <= k < self.inlets.len() ==> self.addresses(
                self.inlets[k].x as int,
                self.inlets[k].y as int,
                self.inlets[k].z as int,
            )
    }

    /// The effect of setting the velocity of the cell at position `i`: a solid
    /// cell keeps its velocity.
    pub open spec fn with_velocity(self, i: int, vx: u32, vy: u32, vz: u32) -> GridView {
        if self.active[i] {
            GridView {
                vel_x: self.vel_x.update(i, vx),
                vel_y: self.vel_y.update(i, vy),
                vel_z: self.vel_z.update(i, vz),
                ..self
            }
        } else {
            self
        }
    }

    /// The effect of setting the density of the cell at position `i`: a solid
    /// cell keeps its density.
    pub open spec fn with_density(self, i: int, d: u32) -> GridView {
        if self.active[i] {
            GridView { density: self.density.update(i, d), ..self }
        } else {
            self
        }
    }

    /// The effect of marking the cell at position `i` open or solid: a cell
    /// made solid has all its values, current and previous, reset to zero.
    pub open spec fn with_activity(self, i: int, open: bool) -> GridView {
        if open {
            GridView { active: self.active.update(i, true), ..self }
        } else {
            GridView {
                active: self.active.update(i, false),
                vel_x: self.vel_x.update(i, 0),
                vel_y: self.vel_y.update(i, 0),
                vel_z: self.vel_z.update(i, 0),
                density: self.density.update(i, 0),
                prev_vel_x: self.prev_vel_x.update(i, 0),
                prev_vel_y: self.prev_vel_y.update(i, 0),
                prev_vel_z: self.prev_vel_z.update(i, 0),
                prev_density: self.prev_density.update(i, 0),
                ..self
            }
        }
    }

    /// The grid after the velocity of each of `inlets`, in order, has been set.
    pub open spec fn with_inlets_applied(self, inlets: Seq<Inlet>) -> GridView
        decreases inlets.len(),
    {
        if inlets.len() == 0 {
            self
        } else {
            let last = inlets.last();
            self.with_inlets_applied(inlets.drop_last()).with_velocity(
                self.index(last.x as int, last.y as int, last.z as int),
                last.vx,
                last.vy,
                last.vz,
            )
        }
    }

    /// Whether extrapolating the border stays inside the grid: every axis that
    /// a border pass walks along has at least two cells.
    pub open spec fn extrapolation_defined(self) -> bool {
        &&& (self.nz > 0 && self.nx > 0 ==> self.ny >= 2)
        &&& (self.nz > 0 && self.ny > 0 ==> self.nx >= 2)
        &&& (self.ny > 0 && self.nx > 0 ==> self.nz >= 2)
    }

    /// Whether `c` names a cell of the grid together with that cell's position.
    pub open spec fn locates(self, c: GridCell) -> bool {
        &&& self.contains(c.x as int, c.y as int, c.z as int)
        &&& c.index == self.index(c.x as int, c.y as int, c.z as int)
    }

    /// Whether `r` is the record of the cell stored at position `p`.
    pub open spec fn records(self, r: CellRecord, p: int) -> bool {
        &&& self.contains(r.x as int, r.y as int, r.z as int)
        &&& self.index(r.x as int, r.y as int, r.z as int) == p
        &&& r.density == self.density[p]
    }

    /// Whether projection is defined on the grid: every range of interior
    /// coordinates that the pressure solver walks can be formed.
    pub open spec fn projection_defined(self) -> bool {
        &&& self.nz >= 1
        &&& (self.nz >= 3 ==> self.ny >= 1)
        &&& (self.nz >= 3 && self.ny >= 3 ==> self.nx >= 1)
    }

    /// Whether the cell at `(x, y, z)` is open.
    pub open spec fn open_at(self, x: int, y: int, z: int) -> bool {
        self.active[self.index(x, y, z)]
    }

    /// Whether `(x, y, z)` is a cell of the grid with a neighbour on each of its six faces.
    pub open spec fn interior(self, x: int, y: int, z: int) -> bool {
        &&& 1 <= x && x + 1 < self.nx
        &&& 1 <= y && y + 1 < self.ny
        &&& 1 <= z && z + 1 < self.nz
    }

    /// Whether the pressure solver relaxes the cell at `(x, y, z)`: an open
    /// interior cell with at least one open neighbour.
    pub open spec fn relaxes(self, x: int, y: int, z: int) -> bool {
        &&& self.interior(x, y, z)
        &&& self.open_at(x, y, z)
        &&& count_open(
            self.open_at(x - 1, y, z),
            self.open_at(x + 1, y, z),
            self.open_at(x, y - 1, z),
            self.open_at(x, y + 1, z),
            self.open_at(x, y, z - 1),
            self.open_at(x, y, z + 1),
        ) > 0
    }

    /// Whether `s` gives the positions and open flags of the neighbours of its cell.
    pub open spec fn describes(self, s: Stencil) -> bool {
        let (x, y, z) = (s.x as int, s.y as int, s.z as int);
        &&& s.center == self.index(x, y, z)
        &&& s.x_minus == self.index(x - 1, y, z)
        &&& s.x_plus == self.index(x + 1, y, z)
        &&& s.y_minus == self.index(x, y - 1, z)
        &&& s.y_plus == self.index(x, y + 1, z)
        &&& s.z_minus == self.index(x, y, z - 1)
        &&& s.z_plus == self.index(x, y, z + 1)
        &&& s.open_x_minus == self.open_at(x - 1, y, z)
        &&& s.open_x_plus == self.open_at(x + 1, y, z)
        &&& s.open_y_minus == self.open_at(x, y - 1, z)
        &&& s.open_y_plus == self.open_at(x, y + 1, z)
        &&& s.open_z_minus == self.open_at(x, y, z - 1)
        &&& s.open_z_plus == self.open_at(x, y, z + 1)
    }

    /// The previous value of field `f` at `(x, y, z)` as advection samples it:
    /// a solid cell contributes zero, so nothing is drawn through a wall.
    pub open spec fn sample_previous(self, f: Field, x: int, y: int, z: int) -> u32 {
        if self.open_at(x, y, z) {
            self.previous(f)[self.index(x, y, z)]
        } else {
            0
        }
    }

    /// Every solid cell has zero velocity and zero density.
    pub open spec fn walls_empty(self) -> bool {
        forall|i: int|
            0 <= i < self.size() && !#[trigger] self.active[i] ==> {
                &&& self.vel_x[i] == 0
                &&& self.vel_y[i] == 0
                &&& self.vel_z[i] == 0
                &&& self.density[i] == 0
            }
    }

    /// The grid with the velocity and density of every solid cell reset to zero.
    pub open spec fn with_walls_emptied(self) -> GridView {
        GridView {
            vel_x: Seq::new(
                self.vel_x.len(),
                |i: int|
                    if self.active[i] {
                        self.vel_x[i]
                    } else {
                        0
                    },
            ),
            vel_y: Seq::new(
                self.vel_y.len(),
                |i: int|
                    if self.active[i] {
                        self.vel_y[i]
                    } else {
                        0
                    },
            ),
            vel_z: Seq::new(
                self.vel_z.len(),
                |i: int|
                    if self.active[i] {
                        self.vel_z[i]
                    } else {
                        0
                    },
            ),
            density: Seq::new(
                self.density.len(),
                |i: int|
                    if self.active[i] {
                        self.density[i]
                    } else {
                        0
                    },
            ),
            ..self
        }
    }
}

/// A three-dimensional grid of cells, each open (fluid) or solid (wall), each
/// holding a velocity, a density, and the previous velocity and density that
/// advection samples from.
pub struct FluidGrid {
    nx: usize,
    ny: usize,
    nz: usize,
    active: Vec<bool>,
    vecx: Vec<u32>,
    vecy: Vec<u32>,
    vecz: Vec<u32>,
    density: Vec<u32>,
    vecx0: Vec<u32>,
    vecy0: Vec<u32>,
    vecz0: Vec<u32>,
    density0: Vec<u32>,
    inlets: Vec<Inlet>,
}

impl View for FluidGrid {
    type V = GridView;

    closed spec fn view(&self) -> GridView {
        GridView {
            nx: self.nx as nat,
            ny: self.ny as nat,
            nz: self.nz as nat,
            active: self.active@,
            vel_x: self.vecx@,
            vel_y: self.vecy@,
            vel_z: self.vecz@,
            density: self.density@,
            prev_vel_x: self.vecx0@,
            prev_vel_y: self.vecy0@,
            prev_vel_z: self.vecz0@,
            prev_density: self.density0@,
            inlets: self.inlets@,
        }
    }
}

impl FluidGrid {
    /// A grid of `nx * ny * nz` open cells, every value zero, with no inlet.
    pub fn new(nx: usize, ny: usize, nz: usize) -> (grid: FluidGrid)
        requires
            nx * ny <= usize::MAX,
            nx * ny * nz <= usize::MAX,
        ensures
            grid@.wf(),
            grid@.nx == nx,
            grid@.ny == ny,
            grid@.nz == nz,
            grid@.active == Seq::new(grid@.size() as nat, |i: int| true),
            grid@.vel_x == Seq::new(grid@.size() as nat, |i: int| 0u32),
            grid@.vel_y == Seq::new(grid@.size() as nat, |i: int| 0u32),
            grid@.vel_z == Seq::new(grid@.size() as nat, |i: int| 0u32),
            grid@.density == Seq::new(grid@.size() as nat, |i: int| 0u32),
            grid@.prev_vel_x == Seq::new(grid@.size() as nat, |i: int| 0u32),
            grid@.prev_vel_y == Seq::new(grid@.size() as nat, |i: int| 0u32),
            grid@.prev_vel_z == Seq::new(grid@.size() as nat, |i: int| 0u32),
            grid@.prev_density == Seq::new(grid@.size() as nat, |i: int| 0u32),
            grid@.inlets == Seq::<Inlet>::empty(),
    {
        let size = nx * ny * nz;
        let grid = FluidGrid {
            nx,
            ny,
            nz,
            active: filled(true, size),
            vecx: filled(0u32, size),
            vecy: filled(0u32, size),
            vecz: filled(0u32, size),
            density: filled(0u32, size),
            vecx0: filled(0u32, size),
            vecy0: filled(0u32, size),
            vecz0: filled(0u32, size),
            density0: filled(0u32, size),
            inlets: Vec::new(),
        };
        assert(grid@.size() == size);
        grid
    }

    pub fn nx(&self) -> (n: usize)
        ensures
            n == self@.nx,
    {
        self.nx
    }

    pub fn ny(&self) -> (n: usize)
        ensures
            n == self@.ny,
    {
        self.ny
    }

    pub fn nz(&self) -> (n: usize)
        ensures
            n == self@.nz,
    {
        self.nz
    }

    /// The storage position of cell `(x, y, z)`: `x + y * nx + z * nx * ny`.
    pub fn idx(&self, x: usize, y: usize, z: usize) -> (i: usize)
        requires
            z * self@.nx <= usize::MAX,
            self@.index(x as int, y as int, z as int) <= usize::MAX,
        ensures
            i == self@.index(x as int, y as int, z as int),
    {
        flat_index(x, y, z, self.nx, self.ny)
    }

    /// The storage position of a cell that the grid addresses.
    fn cell(&self, x: usize, y: usize, z: usize) -> (i: usize)
        requires
            self@.wf(),
            self@.addresses(x as int, y as int, z as int),
        ensures
            i == self@.index(x as int, y as int, z as int),
            i < self@.size(),
    {
        proof {
            lemma_index_parts_bounded(
                x as int,
                y as int,
                z as int,
                self.nx as int,
                self.ny as int,
                self.nz as int,
            );
        }
        self.idx(x, y, z)
    }

    /// The velocity of the cell at `(x, y, z)`, component by component.
    pub fn get_velocity(&self, x: usize, y: usize, z: usize) -> (v: (u32, u32, u32))
        requires
            self@.wf(),
            self@.addresses(x as int, y as int, z as int),
        ensures
            v.0 == self@.vel_x[self@.index(x as int, y as int, z as int)],
            v.1 == self@.vel_y[self@.index(x as int, y as int, z as int)],
            v.2 == self@.vel_z[self@.index(x as int, y as int, z as int)],
    {
        let i = self.cell(x, y, z);
        (self.vecx[i], self.vecy[i], self.vecz[i])
    }

    /// The density of the cell at `(x, y, z)`.
    pub fn get_density(&self, x: usize, y: usize, z: usize) -> (d: u32)
        requires
            self@.wf(),
            self@.addresses(x as int, y as int, z as int),
        ensures
            d == self@.density[self@.index(x as int, y as int, z as int)],
    {
        let i = self.cell(x, y, z);
        self.density[i]
    }

    /// Sets the velocity of the cell at `(x, y, z)`, unless it is solid.
    pub fn set_velocity(&mut self, x: usize, y: usize, z: usize, vx: u32, vy: u32, vz: u32)
        requires
            old(self)@.wf(),
            old(self)@.addresses(x as int, y as int, z as int),
        ensures
            final(self)@ == old(self)@.with_velocity(
                old(self)@.index(x as int, y as int, z as int),
                vx,
                vy,
                vz,
            ),
    {
        let i = self.cell(x, y, z);
        if self.active[i] {
            self.vecx[i] = vx;
            self.vecy[i] = vy;
            self.vecz[i] = vz;
        }
    }

    /// Sets the density of the cell at `(x, y, z)`, unless it is solid.
    pub fn set_density(&mut self, x: usize, y: usize, z: usize, density: u32)
        requires
            old(self)@.wf(),
            old(self)@.addresses(x as int, y as int, z as int),
        ensures
            final(self)@ == old(self)@.with_density(
                old(self)@.index(x as int, y as int, z as int),
                density,
            ),
    {
        let i = self.cell(x, y, z);
        if self.active[i] {
            self.density[i] = density;
        }
    }

    /// Marks the cell at `(x, y, z)` open or solid; a cell made solid loses all
    /// its values, so that no solver ever sees a value leak out of a wall.
    pub fn set_active(&mut self, x: usize, y: usize, z: usize, active: bool)
        requires
            old(self)@.wf(),
            old(self)@.addresses(x as int, y as int, z as int),
        ensures
            final(self)@ == old(self)@.with_activity(
                old(self)@.index(x as int, y as int, z as int),
                active,
            ),
            final(self)@.active == old(self)@.active.update(
                old(self)@.index(x as int, y as int, z as int),
                active,
            ),
            active ==> final(self)@.vel_x == old(self)@.vel_x && final(self)@.vel_y == old(
                self,
            )@.vel_y && final(self)@.vel_z == old(self)@.vel_z && final(self)@.density == old(
                self,
            )@.density,
    {
        let i = self.cell(x, y, z);
        self.active[i] = active;
        if !active {
            self.vecx[i] = 0;
            self.vecy[i] = 0;
            self.vecz[i] = 0;
            self.density[i] = 0;
            self.vecx0[i] = 0;
            self.vecy0[i] = 0;
            self.vecz0[i] = 0;
            self.density0[i] = 0;
        }
    }
}

impl FluidGrid {
    /// The storage position of a cell of the grid.
    fn at(&self, x: usize, y: usize, z: usize) -> (i: usize)
        requires
            self@.wf(),
            self@.contains(x as int, y as int, z as int),
        ensures
            i == self@.index(x as int, y as int, z as int),
            i < self@.size(),
    {
        proof {
            lemma_index_in_range(
                x as int,
                y as int,
                z as int,
                self.nx as int,
                self.ny as int,
                self.nz as int,
            );
        }
        self.cell(x, y, z)
    }

    /// The value of field `f` stored at position `i`.
    pub fn field_value(&self, f: Field, i: usize) -> (bits: u32)
        requires
            self@.wf(),
            i < self@.size(),
        ensures
            bits == self@.field(f)[i as int],
    {
        match f {
            Field::VelocityX => self.vecx[i],
            Field::VelocityY => self.vecy[i],
            Field::VelocityZ => self.vecz[i],
            Field::Density => self.density[i],
        }
    }

    /// Stores `bits` in field `f` at position `i`, whatever the cell.
    pub fn set_field_value(&mut self, f: Field, i: usize, bits: u32)
        requires
            old(self)@.wf(),
            i < old(self)@.size(),
        ensures
            final(self)@ == old(self)@.with_field(f, i as int, bits),
    {
        match f {
            Field::VelocityX => {
                self.vecx[i] = bits;
            },
            Field::VelocityY => {
                self.vecy[i] = bits;
            },
            Field::VelocityZ => {
                self.vecz[i] = bits;
            },
            Field::Density => {
                self.density[i] = bits;
            },
        }
    }

    /// Resets the velocity and density of every solid cell to zero.
    pub fn enforce_walls(&mut self)
        requires
            old(self)@.wf(),
        ensures
            final(self)@ == old(self)@.with_walls_emptied(),
            final(self)@.active == old(self)@.active,
    {
        let ghost start = self@;
        let n = self.active.len();
        for i in 0..n
            invariant
                start.wf(),
                n == start.size(),
                self@ == (GridView {
                    vel_x: self@.vel_x,
                    vel_y: self@.vel_y,
                    vel_z: self@.vel_z,
                    density: self@.density,
                    ..start
                }),
                self@.vel_x.len() == n,
                self@.vel_y.len() == n,
                self@.vel_z.len() == n,
                self@.density.len() == n,
                forall|j: int|
                    0 <= j < n ==> #[trigger] self@.vel_x[j] == if j < i && !start.active[j] {
                        0
                    } else {
                        start.vel_x[j]
                    },
                forall|j: int|
                    0 <= j < n ==> #[trigger] self@.vel_y[j] == if j < i && !start.active[j] {
                        0
                    } else {
                        start.vel_y[j]
                    },
                forall|j: int|
                    0 <= j < n ==> #[trigger] self@.vel_z[j] == if j < i && !start.active[j] {
                        0
                    } else {
                        start.vel_z[j]
                    },
                forall|j: int|
                    0 <= j < n ==> #[trigger] self@.density[j] == if j < i && !start.active[j] {
                        0
                    } else {
                        start.density[j]
                    },
        {
            if !self.active[i] {
                self.vecx[i] = 0;
                self.vecy[i] = 0;
                self.vecz[i] = 0;
                self.density[i] = 0;
            }
        }
        assert(self@.vel_x =~= start.with_walls_emptied().vel_x);
        assert(self@.vel_y =~= start.with_walls_emptied().vel_y);
        assert(self@.vel_z =~= start.with_walls_emptied().vel_z);
        assert(self@.density =~= start.with_walls_emptied().density);
        assert(self@ =~= start.with_walls_emptied());
    }

    /// Copies the current velocity and density of every cell into the
    /// previous values that advection samples from.
    pub fn snapshot_previous(&mut self)
        requires
            old(self)@.wf(),
        ensures
            final(self)@ == (GridView {
                prev_vel_x: old(self)@.vel_x,
                prev_vel_y: old(self)@.vel_y,
                prev_vel_z: old(self)@.vel_z,
                prev_density: old(self)@.density,
                ..old(self)@
            }),
    {
        self.vecx0 = self.vecx.clone();
        self.vecy0 = self.vecy.clone();
        self.vecz0 = self.vecz.clone();
        self.density0 = self.density.clone();
    }

    /// Records an inlet at `(x, y, z)` with velocity `(vx, vy, vz)`.
    pub fn add_inlet(&mut self, x: usize, y: usize, z: usize, vx: u32, vy: u32, vz: u32)
        requires
            old(self)@.wf(),
            old(self)@.addresses(x as int, y as int, z as int),
        ensures
            final(self)@ == (GridView {
                inlets: old(self)@.inlets.push(Inlet { x, y, z, vx, vy, vz }),
                ..old(self)@
            }),
    {
        self.inlets.push(Inlet { x, y, z, vx, vy, vz });
    }

    /// Forgets every inlet.
    pub fn clear_inlets(&mut self)
        requires
            old(self)@.wf(),
        ensures
            final(self)@ == (GridView { inlets: Seq::<Inlet>::empty(), ..old(self)@ }),
    {
        self.inlets = Vec::new();
    }

    /// Sets the velocity of every inlet's cell, in the order the inlets were added.
    pub fn apply_inlets(&mut self)
        requires
            old(self)@.wf(),
        ensures
            final(self)@ == old(self)@.with_inlets_applied(old(self)@.inlets),
    {
        let ghost start = self@;
        let n = self.inlets.len();
        for k in 0..n
            invariant
                self@.wf(),
                n == start.inlets.len(),
                self@.inlets == start.inlets,
                self@.nx == start.nx,
                self@.ny == start.ny,
                self@.nz == start.nz,
                self@ == start.with_inlets_applied(start.inlets.take(k as int)),
        {
            let inlet = self.inlets[k];
            assert(self@.addresses(inlet.x as int, inlet.y as int, inlet.z as int));
            let ghost before = self@;
            self.set_velocity(inlet.x, inlet.y, inlet.z, inlet.vx, inlet.vy, inlet.vz);
            assert forall|j: int| 0 <= j < self@.inlets.len() implies #[trigger] self@.addresses(
                self@.inlets[j].x as int,
                self@.inlets[j].y as int,
                self@.inlets[j].z as int,
            ) by {
                assert(before.addresses(
                    before.inlets[j].x as int,
                    before.inlets[j].y as int,
                    before.inlets[j].z as int,
                ));
            }
            assert(start.inlets.take(k + 1).drop_last() =~= start.inlets.take(k as int));
        }
        assert(start.inlets.take(n as int) =~= start.inlets);
    }
}

impl FluidGrid {
    /// Copies velocities into the border layer of the grid, so that advection
    /// sees no drag at the boundary: the x velocity of the first and last row
    /// along y, the y velocity of the first and last column along x, and the z
    /// velocity of the first and last slice along z each take the value of
    /// their inner neighbour. No open/solid flag and no density changes.
    pub fn extrapolate(&mut self)
        requires
            old(self)@.wf(),
            old(self)@.extrapolation_defined(),
        ensures
            final(self)@ == (GridView {
                vel_x: final(self)@.vel_x,
                vel_y: final(self)@.vel_y,
                vel_z: final(self)@.vel_z,
                ..old(self)@
            }),
            final(self)@.wf(),
            forall|x: int, y: int, z: int|
                old(self)@.contains(x, y, z) ==> #[trigger] final(self)@.vel_x[old(
                    self,
                )@.index(x, y, z)] == old(self)@.vel_x[old(self)@.index(
                    x,
                    border_source(y, old(self)@.ny as int),
                    z,
                )],
            forall|x: int, y: int, z: int|
                old(self)@.contains(x, y, z) ==> #[trigger] final(self)@.vel_y[old(
                    self,
                )@.index(x, y, z)] == old(self)@.vel_y[old(self)@.index(
                    border_source(x, old(self)@.nx as int),
                    y,
                    z,
                )],
            forall|x: int, y: int, z: int|
                old(self)@.contains(x, y, z) ==> #[trigger] final(self)@.vel_z[old(
                    self,
                )@.index(x, y, z)] == old(self)@.vel_z[old(self)@.index(
                    x,
                    y,
                    border_source(z, old(self)@.nz as int),
                )],
            forall|x: int, z: int|
                old(self)@.ny >= 3 && old(self)@.contains(x, 0, z) ==> {
                    &&& #[trigger] final(self)@.vel_x[old(self)@.index(x, old(self)@.ny - 1, z)]
                        == old(self)@.vel_x[old(self)@.index(x, old(self)@.ny - 2, z)]
                    &&& final(self)@.vel_x[old(self)@.index(x, 0, z)] == old(self)@.vel_x[old(
                        self,
                    )@.index(x, 1, z)]
                },
            forall|y: int, z: int|
                old(self)@.nx >= 3 && old(self)@.contains(0, y, z) ==> {
                    &&& #[trigger] final(self)@.vel_y[old(self)@.index(old(self)@.nx - 1, y, z)]
                        == old(self)@.vel_y[old(self)@.index(old(self)@.nx - 2, y, z)]
                    &&& final(self)@.vel_y[old(self)@.index(0, y, z)] == old(self)@.vel_y[old(
                        self,
                    )@.index(1, y, z)]
                },
            forall|x: int, y: int|
                old(self)@.nz >= 3 && old(self)@.contains(x, y, 0) ==> {
                    &&& #[trigger] final(self)@.vel_z[old(self)@.index(x, y, old(self)@.nz - 1)]
                        == old(self)@.vel_z[old(self)@.index(x, y, old(self)@.nz - 2)]
                    &&& final(self)@.vel_z[old(self)@.index(x, y, 0)] == old(self)@.vel_z[old(
                        self,
                    )@.index(x, y, 1)]
                },
    {
        let nx = self.nx;
        let ny = self.ny;
        let nz = self.nz;
        let ghost start = self@;
        // x velocity: first and last row along y.
        for z in 0..nz
            invariant
                start.wf(),
                start.extrapolation_defined(),
                nx == start.nx,
                ny == start.ny,
                nz == start.nz,
                self@ == (GridView { vel_x: self@.vel_x, ..start }),
                self@.vel_x.len() == start.size(),
                forall|a: int, b: int, c: int|
                    start.contains(a, b, c) ==> #[trigger] self@.vel_x[start.index(a, b, c)] == if c
                        < z {
                        start.vel_x[start.index(a, border_source(b, ny as int), c)]
                    } else {
                        start.vel_x[start.index(a, b, c)]
                    },
        {
            for x in 0..nx
                invariant
                    start.wf(),
                    start.extrapolation_defined(),
                    nx == start.nx,
                    ny == start.ny,
                    nz == start.nz,
                    z < nz,
                    self@ == (GridView { vel_x: self@.vel_x, ..start }),
                    self@.vel_x.len() == start.size(),
                    forall|a: int, b: int, c: int|
                        start.contains(a, b, c) ==> #[trigger] self@.vel_x[start.index(a, b, c)]
                            == if c < z || (c == z && a < x) {
                            start.vel_x[start.index(a, border_source(b, ny as int), c)]
                        } else {
                            start.vel_x[start.index(a, b, c)]
                        },
            {
                let bar1 = self.at(x, 0, z);
                let active1 = self.at(x, 1, z);
                let bar2 = self.at(x, ny - 1, z);
                let active2 = self.at(x, ny - 2, z);
                let ghost before = self@.vel_x;
                let v1 = self.vecx[active1];
                self.vecx[bar1] = v1;
                let v2 = self.vecx[active2];
                self.vecx[bar2] = v2;
                proof {
                    let ghost cur = z as int;
                    assert(v1 == start.vel_x[start.index(x as int, 1, cur)]);
                    if ny > 2 {
                        lemma_distinct_cells(
                            x as int,
                            (ny - 2) as int,
                            cur,
                            x as int,
                            0,
                            cur,
                            nx as int,
                            ny as int,
                            nz as int,
                        );
                        assert(v2 == start.vel_x[start.index(x as int, (ny - 2) as int, cur)]);
                    }
                    lemma_distinct_cells(
                        x as int,
                        (ny - 1) as int,
                        cur,
                        x as int,
                        0,
                        cur,
                        nx as int,
                        ny as int,
                        nz as int,
                    );
                    assert forall|a: int, b: int, c: int| start.contains(a, b, c) implies #[trigger] self@.vel_x[start.index(a, b, c)]
                        == if c < z || (c == z && a < x + 1) {
                        start.vel_x[start.index(a, border_source(b, ny as int), c)]
                    } else {
                        start.vel_x[start.index(a, b, c)]
                    } by {
                        lemma_index_in_range(a, b, c, nx as int, ny as int, nz as int);
                        if a == x && c == cur {
                            if b == 0 {
                            } else if b == ny - 1 {
                            } else {
                                lemma_distinct_cells(a, b, c, x as int, 0, cur, nx as int, ny as int, nz as int);
                                lemma_distinct_cells(a, b, c, x as int, (ny - 1) as int, cur, nx as int, ny as int, nz as int);
                            }
                        } else {
                            lemma_distinct_cells(a, b, c, x as int, 0, cur, nx as int, ny as int, nz as int);
                            lemma_distinct_cells(a, b, c, x as int, (ny - 1) as int, cur, nx as int, ny as int, nz as int);
                            assert(self@.vel_x[start.index(a, b, c)] == before[start.index(a, b, c)]);
                        }
                    }
                }
            }
        }
        let ghost mid = self@;
        // y velocity: first and last column along x.
        for z in 0..nz
            invariant
                start.wf(),
                start.extrapolation_defined(),
                nx == start.nx,
                ny == start.ny,
                nz == start.nz,
                mid == (GridView { vel_x: mid.vel_x, ..start }),
                mid.vel_x.len() == start.size(),
                self@ == (GridView { vel_y: self@.vel_y, ..mid }),
                self@.vel_y.len() == start.size(),
                forall|a: int, b: int, c: int|
                    start.contains(a, b, c) ==> #[trigger] self@.vel_y[start.index(a, b, c)] == if c
                        < z {
                        start.vel_y[start.index(border_source(a, nx as int), b, c)]
                    } else {
                        start.vel_y[start.index(a, b, c)]
                    },
        {
            for y in 0..ny
                invariant
                    start.wf(),
                    start.extrapolation_defined(),
                    nx == start.nx,
                    ny == start.ny,
                    nz == start.nz,
                    z < nz,
                    mid == (GridView { vel_x: mid.vel_x, ..start }),
                    mid.vel_x.len() == start.size(),
                    self@ == (GridView { vel_y: self@.vel_y, ..mid }),
                    self@.vel_y.len() == start.size(),
                    forall|a: int, b: int, c: int|
                        start.contains(a, b, c) ==> #[trigger] self@.vel_y[start.index(a, b, c)]
                            == if c < z || (c == z && b < y) {
                            start.vel_y[start.index(border_source(a, nx as int), b, c)]
                        } else {
                            start.vel_y[start.index(a, b, c)]
                        },
            {
                let bar1 = self.at(0, y, z);
                let active1 = self.at(1, y, z);
                let bar2 = self.at(nx - 1, y, z);
                let active2 = self.at(nx - 2, y, z);
                let ghost before = self@.vel_y;
                let v1 = self.vecy[active1];
                self.vecy[bar1] = v1;
                let v2 = self.vecy[active2];
                self.vecy[bar2] = v2;
                proof {
                    let ghost cur = z as int;
                    assert(v1 == start.vel_y[start.index(1, y as int, cur)]);
                    if nx > 2 {
                        lemma_distinct_cells(
                            (nx - 2) as int,
                            y as int,
                            cur,
                            0,
                            y as int,
                            cur,
                            nx as int,
                            ny as int,
                            nz as int,
                        );
                        assert(v2 == start.vel_y[start.index((nx - 2) as int, y as int, cur)]);
                    }
                    lemma_distinct_cells(
                        (nx - 1) as int,
                        y as int,
                        cur,
                        0,
                        y as int,
                        cur,
                        nx as int,
                        ny as int,
                        nz as int,
                    );
                    assert forall|a: int, b: int, c: int| start.contains(a, b, c) implies #[trigger] self@.vel_y[start.index(a, b, c)]
                        == if c < z || (c == z && b < y + 1) {
                        start.vel_y[start.index(border_source(a, nx as int), b, c)]
                    } else {
                        start.vel_y[start.index(a, b, c)]
                    } by {
                        lemma_index_in_range(a, b, c, nx as int, ny as int, nz as int);
                        if b == y && c == cur {
                            if a == 0 {
                            } else if a == nx - 1 {
                            } else {
                                lemma_distinct_cells(a, b, c, 0, y as int, cur, nx as int, ny as int, nz as int);
                                lemma_distinct_cells(a, b, c, (nx - 1) as int, y as int, cur, nx as int, ny as int, nz as int);
                            }
                        } else {
                            lemma_distinct_cells(a, b, c, 0, y as int, cur, nx as int, ny as int, nz as int);
                            lemma_distinct_cells(a, b, c, (nx - 1) as int, y as int, cur, nx as int, ny as int, nz as int);
                            assert(self@.vel_y[start.index(a, b, c)] == before[start.index(a, b, c)]);
                        }
                    }
                }
            }
        }
        let ghost mid2 = self@;
        // z velocity: first and last slice along z.
        for y in 0..ny
            invariant
                start.wf(),
                start.extrapolation_defined(),
                nx == start.nx,
                ny == start.ny,
                nz == start.nz,
                mid2 == (GridView { vel_x: mid2.vel_x, vel_y: mid2.vel_y, ..start }),
                mid2.vel_x.len() == start.size(),
                mid2.vel_y.len() == start.size(),
                self@ == (GridView { vel_z: self@.vel_z, ..mid2 }),
                self@.vel_z.len() == start.size(),
                forall|a: int, b: int, c: int|
                    start.contains(a, b, c) ==> #[trigger] self@.vel_z[start.index(a, b, c)] == if b
                        < y {
                        start.vel_z[start.index(a, b, border_source(c, nz as int))]
                    } else {
                        start.vel_z[start.index(a, b, c)]
                    },
        {
            for x in 0..nx
                invariant
                    start.wf(),
                    start.extrapolation_defined(),
                    nx == start.nx,
                    ny == start.ny,
                    nz == start.nz,
                    y < ny,
                    mid2 == (GridView { vel_x: mid2.vel_x, vel_y: mid2.vel_y, ..start }),
                    mid2.vel_x.len() == start.size(),
                    mid2.vel_y.len() == start.size(),
                    self@ == (GridView { vel_z: self@.vel_z, ..mid2 }),
                    self@.vel_z.len() == start.size(),
                    forall|a: int, b: int, c: int|
                        start.contains(a, b, c) ==> #[trigger] self@.vel_z[start.index(a, b, c)]
                            == if b < y || (b == y && a < x) {
                            start.vel_z[start.index(a, b, border_source(c, nz as int))]
                        } else {
                            start.vel_z[start.index(a, b, c)]
                        },
            {
                let bar1 = self.at(x, y, 0);
                let active1 = self.at(x, y, 1);
                let bar2 = self.at(x, y, nz - 1);
                let active2 = self.at(x, y, nz - 2);
                let ghost before = self@.vel_z;
                let v1 = self.vecz[active1];
                self.vecz[bar1] = v1;
                let v2 = self.vecz[active2];
                self.vecz[bar2] = v2;
                proof {
                    let ghost cur = y as int;
                    assert(v1 == start.vel_z[start.index(x as int, cur, 1)]);
                    if nz > 2 {
                        lemma_distinct_cells(
                            x as int,
                            cur,
                            (nz - 2) as int,
                            x as int,
                            cur,
                            0,
                            nx as int,
                            ny as int,
                            nz as int,
                        );
                        assert(v2 == start.vel_z[start.index(x as int, cur, (nz - 2) as int)]);
                    }
                    lemma_distinct_cells(
                        x as int,
                        cur,
                        (nz - 1) as int,
                        x as int,
                        cur,
                        0,
                        nx as int,
                        ny as int,
                        nz as int,
                    );
                    assert forall|a: int, b: int, c: int| start.contains(a, b, c) implies #[trigger] self@.vel_z[start.index(a, b, c)]
                        == if b < y || (b == y && a < x + 1) {
                        start.vel_z[start.index(a, b, border_source(c, nz as int))]
                    } else {
                        start.vel_z[start.index(a, b, c)]
                    } by {
                        lemma_index_in_range(a, b, c, nx as int, ny as int, nz as int);
                        if a == x && b == cur {
                            if c == 0 {
                            } else if c == nz - 1 {
                            } else {
                                lemma_distinct_cells(a, b, c, x as int, cur, 0, nx as int, ny as int, nz as int);
                                lemma_distinct_cells(a, b, c, x as int, cur, (nz - 1) as int, nx as int, ny as int, nz as int);
                            }
                        } else {
                            lemma_distinct_cells(a, b, c, x as int, cur, 0, nx as int, ny as int, nz as int);
                            lemma_distinct_cells(a, b, c, x as int, cur, (nz - 1) as int, nx as int, ny as int, nz as int);
                            assert(self@.vel_z[start.index(a, b, c)] == before[start.index(a, b, c)]);
                        }
                    }
                }
            }
        }
    }
}

impl FluidGrid {
    /// The record of every cell, coordinates and density, listed z-slowest,
    /// then y, then x-fastest; the record at position `p` is that of the cell
    /// stored at position `p`.
    pub fn raw_3d_matrix(&self) -> (m: Vec<CellRecord>)
        requires
            self@.wf(),
        ensures
            m.len() == self@.size(),
            forall|p: int| 0 <= p < m.len() ==> #[trigger] self@.records(m[p], p),
    {
        let nx = self.nx;
        let ny = self.ny;
        let nz = self.nz;
        let mut buf: Vec<CellRecord> = Vec::new();
        assert(0 * (nx as int) * (ny as int) == 0) by (nonlinear_arith);
        for z in 0..nz
            invariant
                self@.wf(),
                nx == self@.nx,
                ny == self@.ny,
                nz == self@.nz,
                buf.len() == self@.index(0, 0, z as int),
                forall|p: int| 0 <= p < buf.len() ==> #[trigger] self@.records(buf[p], p),
        {
            for y in 0..ny
                invariant
                    self@.wf(),
                    nx == self@.nx,
                    ny == self@.ny,
                    nz == self@.nz,
                    z < nz,
                    buf.len() == self@.index(0, y as int, z as int),
                    forall|p: int| 0 <= p < buf.len() ==> #[trigger] self@.records(buf[p], p),
            {
                for x in 0..nx
                    invariant
                        self@.wf(),
                        nx == self@.nx,
                        ny == self@.ny,
                        nz == self@.nz,
                        z < nz,
                        y < ny,
                        buf.len() == self@.index(x as int, y as int, z as int),
                        forall|p: int| 0 <= p < buf.len() ==> #[trigger] self@.records(buf[p], p),
                {
                    let i = self.at(x, y, z);
                    buf.push(CellRecord { x, y, z, density: self.density[i] });
                    assert(self@.records(buf[i as int], i as int));
                }
                assert(nx + y * nx == (y + 1) * nx) by (nonlinear_arith);
            }
            assert(ny * nx + z * nx * ny == (z + 1) * nx * ny) by (nonlinear_arith);
        }
        assert(nz * nx * ny == nx * ny * nz) by (nonlinear_arith);
        buf
    }

    /// Every open cell, listed z-slowest, then y, then x-fastest.
    pub fn active_cells(&self) -> (cells: Vec<GridCell>)
        requires
            self@.wf(),
        ensures
            forall|k: int|
                0 <= k < cells.len() ==> self@.locates(#[trigger] cells[k]) && self@.active[cells[k].index as int],
            forall|k: int, l: int|
                0 <= k < l < cells.len() ==> precedes(
                    #[trigger] cells[k].x as int,
                    cells[k].y as int,
                    cells[k].z as int,
                    #[trigger] cells[l].x as int,
                    cells[l].y as int,
                    cells[l].z as int,
                ),
            forall|a: int, b: int, c: int|
                self@.contains(a, b, c) && self@.active[#[trigger] self@.index(a, b, c)] ==> exists|k: int|
                    0 <= k < cells.len() && #[trigger] cells[k].x == a && cells[k].y == b && cells[k].z == c,
    {
        let nx = self.nx;
        let ny = self.ny;
        let nz = self.nz;
        let mut out: Vec<GridCell> = Vec::new();
        for z in 0..nz
            invariant
                self@.wf(),
                nx == self@.nx,
                ny == self@.ny,
                nz == self@.nz,
                forall|k: int|
                    0 <= k < out.len() ==> self@.locates(#[trigger] out[k]) && self@.active[out[k].index as int]
                        && precedes(out[k].x as int, out[k].y as int, out[k].z as int, 0, 0, z as int),
                forall|k: int, l: int|
                    0 <= k < l < out.len() ==> precedes(
                        #[trigger] out[k].x as int,
                        out[k].y as int,
                        out[k].z as int,
                        #[trigger] out[l].x as int,
                        out[l].y as int,
                        out[l].z as int,
                    ),
                forall|a: int, b: int, c: int|
                    self@.contains(a, b, c) && self@.active[#[trigger] self@.index(a, b, c)] && precedes(
                        a,
                        b,
                        c,
                        0,
                        0,
                        z as int,
                    ) ==> exists|k: int|
                        0 <= k < out.len() && #[trigger] out[k].x == a && out[k].y == b && out[k].z == c,
        {
            for y in 0..ny
                invariant
                    self@.wf(),
                    nx == self@.nx,
                    ny == self@.ny,
                    nz == self@.nz,
                    z < nz,
                    forall|k: int|
                        0 <= k < out.len() ==> self@.locates(#[trigger] out[k]) && self@.active[out[k].index as int]
                            && precedes(out[k].x as int, out[k].y as int, out[k].z as int, 0, y as int, z as int),
                    forall|k: int, l: int|
                        0 <= k < l < out.len() ==> precedes(
                            #[trigger] out[k].x as int,
                            out[k].y as int,
                            out[k].z as int,
                            #[trigger] out[l].x as int,
                            out[l].y as int,
                            out[l].z as int,
                        ),
                    forall|a: int, b: int, c: int|
                        self@.contains(a, b, c) && self@.active[#[trigger] self@.index(a, b, c)] && precedes(
                            a,
                            b,
                            c,
                            0,
                            y as int,
                            z as int,
                        ) ==> exists|k: int|
                            0 <= k < out.len() && #[trigger] out[k].x == a && out[k].y == b && out[k].z == c,
            {
                for x in 0..nx
                    invariant
                        self@.wf(),
                        nx == self@.nx,
                        ny == self@.ny,
                        nz == self@.nz,
                        z < nz,
                        y < ny,
                        forall|k: int|
                            0 <= k < out.len() ==> self@.locates(#[trigger] out[k]) && self@.active[out[k].index as int]
                                && precedes(out[k].x as int, out[k].y as int, out[k].z as int, x as int, y as int, z as int),
                        forall|k: int, l: int|
                            0 <= k < l < out.len() ==> precedes(
                                #[trigger] out[k].x as int,
                                out[k].y as int,
                                out[k].z as int,
                                #[trigger] out[l].x as int,
                                out[l].y as int,
                                out[l].z as int,
                            ),
                        forall|a: int, b: int, c: int|
                            self@.contains(a, b, c) && self@.active[#[trigger] self@.index(a, b, c)] && precedes(
                                a,
                                b,
                                c,
                                x as int,
                                y as int,
                                z as int,
                            ) ==> exists|k: int|
                                0 <= k < out.len() && #[trigger] out[k].x == a && out[k].y == b && out[k].z == c,
                {
                    let i = self.at(x, y, z);
                    let ghost before = out@;
                    if self.active[i] {
                        out.push(GridCell { x, y, z, index: i });
                    }
                    proof {
                        assert forall|a: int, b: int, c: int|
                            self@.contains(a, b, c) && self@.active[#[trigger] self@.index(a, b, c)] && precedes(
                                a,
                                b,
                                c,
                                x + 1,
                                y as int,
                                z as int,
                            ) implies exists|k: int|
                                0 <= k < out.len() && #[trigger] out[k].x == a && out[k].y == b && out[k].z == c by {
                            if precedes(a, b, c, x as int, y as int, z as int) {
                                let k = choose|k: int|
                                    0 <= k < before.len() && #[trigger] before[k].x == a && before[k].y == b && before[k].z == c;
                                assert(out[k] == before[k]);
                            } else {
                                assert(out[before.len() as int].x == a);
                            }
                        }
                    }
                }
            }
        }
        out
    }
}

impl FluidGrid {
    /// The stencil of every cell that the pressure solver relaxes, listed
    /// z-slowest, then y, then x-fastest. Open/solid flags do not change while
    /// the solver runs, so the same list serves every relaxation sweep.
    pub fn project_stencils(&self) -> (stencils: Vec<Stencil>)
        requires
            self@.wf(),
            self@.projection_defined(),
        ensures
            forall|k: int|
                0 <= k < stencils.len() ==> self@.describes(#[trigger] stencils[k]) && self@.relaxes(
                    stencils[k].x as int,
                    stencils[k].y as int,
                    stencils[k].z as int,
                ),
            forall|k: int|
                0 <= k < stencils.len() ==> {
                    &&& #[trigger] stencils[k].open_x_minus == self@.active[stencils[k].x_minus as int]
                    &&& stencils[k].open_x_plus == self@.active[stencils[k].x_plus as int]
                    &&& stencils[k].open_y_minus == self@.active[stencils[k].y_minus as int]
                    &&& stencils[k].open_y_plus == self@.active[stencils[k].y_plus as int]
                    &&& stencils[k].open_z_minus == self@.active[stencils[k].z_minus as int]
                    &&& stencils[k].open_z_plus == self@.active[stencils[k].z_plus as int]
                    &&& stencils[k].z_minus == self@.index(
                        stencils[k].x as int,
                        stencils[k].y as int,
                        stencils[k].z - 1,
                    )
                    &&& stencils[k].z_plus == self@.index(
                        stencils[k].x as int,
                        stencils[k].y as int,
                        stencils[k].z + 1,
                    )
                },
            forall|k: int, l: int|
                0 <= k < l < stencils.len() ==> precedes(
                    #[trigger] stencils[k].x as int,
                    stencils[k].y as int,
                    stencils[k].z as int,
                    #[trigger] stencils[l].x as int,
                    stencils[l].y as int,
                    stencils[l].z as int,
                ),
            forall|a: int, b: int, c: int|
                #[trigger] self@.relaxes(a, b, c) ==> exists|k: int|
                    0 <= k < stencils.len() && #[trigger] stencils[k].x == a && stencils[k].y == b
                        && stencils[k].z == c,
    {
        let nx = self.nx;
        let ny = self.ny;
        let nz = self.nz;
        let mut out: Vec<Stencil> = Vec::new();
        let mut z: usize = 1;
        while z < nz - 1
            invariant
                self@.wf(),
                self@.projection_defined(),
                nx == self@.nx,
                ny == self@.ny,
                nz == self@.nz,
                1 <= z <= nz,
                forall|k: int|
                    0 <= k < out.len() ==> self@.describes(#[trigger] out[k]) && self@.relaxes(
                        out[k].x as int,
                        out[k].y as int,
                        out[k].z as int,
                    ) && precedes(out[k].x as int, out[k].y as int, out[k].z as int, 1, 1, z as int),
                forall|k: int, l: int|
                    0 <= k < l < out.len() ==> precedes(
                        #[trigger] out[k].x as int,
                        out[k].y as int,
                        out[k].z as int,
                        #[trigger] out[l].x as int,
                        out[l].y as int,
                        out[l].z as int,
                    ),
                forall|a: int, b: int, c: int|
                    #[trigger] self@.relaxes(a, b, c) && precedes(a, b, c, 1, 1, z as int) ==> exists|k: int|
                        0 <= k < out.len() && #[trigger] out[k].x == a && out[k].y == b && out[k].z == c,
            decreases nz - z,
        {
            let mut y: usize = 1;
            while y < ny - 1
                invariant
                    self@.wf(),
                    self@.projection_defined(),
                    nx == self@.nx,
                    ny == self@.ny,
                    nz == self@.nz,
                    1 <= z,
                    z + 1 < nz,
                    1 <= y <= ny,
                    forall|k: int|
                        0 <= k < out.len() ==> self@.describes(#[trigger] out[k]) && self@.relaxes(
                            out[k].x as int,
                            out[k].y as int,
                            out[k].z as int,
                        ) && precedes(out[k].x as int, out[k].y as int, out[k].z as int, 1, y as int, z as int),
                    forall|k: int, l: int|
                        0 <= k < l < out.len() ==> precedes(
                            #[trigger] out[k].x as int,
                            out[k].y as int,
                            out[k].z as int,
                            #[trigger] out[l].x as int,
                            out[l].y as int,
                            out[l].z as int,
                        ),
                    forall|a: int, b: int, c: int|
                        #[trigger] self@.relaxes(a, b, c) && precedes(a, b, c, 1, y as int, z as int) ==> exists|k: int|
                            0 <= k < out.len() && #[trigger] out[k].x == a && out[k].y == b && out[k].z == c,
                decreases ny - y,
            {
                let mut x: usize = 1;
                while x < nx - 1
                    invariant
                        self@.wf(),
                        nx == self@.nx,
                        ny == self@.ny,
                        nz == self@.nz,
                        1 <= z,
                        z + 1 < nz,
                        1 <= y,
                        y + 1 < ny,
                        1 <= x <= nx,
                        forall|k: int|
                            0 <= k < out.len() ==> self@.describes(#[trigger] out[k]) && self@.relaxes(
                                out[k].x as int,
                                out[k].y as int,
                                out[k].z as int,
                            ) && precedes(
                                out[k].x as int,
                                out[k].y as int,
                                out[k].z as int,
                                x as int,
                                y as int,
                                z as int,
                            ),
                        forall|k: int, l: int|
                            0 <= k < l < out.len() ==> precedes(
                                #[trigger] out[k].x as int,
                                out[k].y as int,
                                out[k].z as int,
                                #[trigger] out[l].x as int,
                                out[l].y as int,
                                out[l].z as int,
                            ),
                        forall|a: int, b: int, c: int|
                            #[trigger] self@.relaxes(a, b, c) && precedes(
                                a,
                                b,
                                c,
                                x as int,
                                y as int,
                                z as int,
                            ) ==> exists|k: int|
                                0 <= k < out.len() && #[trigger] out[k].x == a && out[k].y == b && out[k].z == c,
                    decreases nx - x,
                {
                    let ghost before = out@;
                    let i = self.at(x, y, z);
                    if self.active[i] {
                        let s = Stencil {
                            x,
                            y,
                            z,
                            center: i,
                            x_minus: self.at(x - 1, y, z),
                            x_plus: self.at(x + 1, y, z),
                            y_minus: self.at(x, y - 1, z),
                            y_plus: self.at(x, y + 1, z),
                            z_minus: self.at(x, y, z - 1),
                            z_plus: self.at(x, y, z + 1),
                            open_x_minus: self.active[self.at(x - 1, y, z)],
                            open_x_plus: self.active[self.at(x + 1, y, z)],
                            open_y_minus: self.active[self.at(x, y - 1, z)],
                            open_y_plus: self.active[self.at(x, y + 1, z)],
                            open_z_minus: self.active[self.at(x, y, z - 1)],
                            open_z_plus: self.active[self.at(x, y, z + 1)],
                        };
                        if s.open_count() > 0 {
                            out.push(s);
                        }
                    }
                    proof {
                        assert forall|a: int, b: int, c: int|
                            #[trigger] self@.relaxes(a, b, c) && precedes(
                                a,
                                b,
                                c,
                                x + 1,
                                y as int,
                                z as int,
                            ) implies exists|k: int|
                                0 <= k < out.len() && #[trigger] out[k].x == a && out[k].y == b
                                    && out[k].z == c by {
                            if precedes(a, b, c, x as int, y as int, z as int) {
                                let k = choose|k: int|
                                    0 <= k < before.len() && #[trigger] before[k].x == a && before[k].y == b
                                        && before[k].z == c;
                                assert(out[k] == before[k]);
                            } else {
                                assert(out[before.len() as int].x == a);
                            }
                        }
                    }
                    x = x + 1;
                }
                y = y + 1;
            }
            z = z + 1;
        }
        out
    }

    /// The previous values of field `f` at the eight corners of the cube whose
    /// lowest corner is `(x0, y0, z0)`; each upper coordinate is held at the
    /// last cell of its axis, and a solid corner contributes zero.
    pub fn corner_samples(&self, f: Field, x0: usize, y0: usize, z0: usize) -> (c: Corners)
        requires
            self@.wf(),
            self@.contains(x0 as int, y0 as int, z0 as int),
        ensures
            ({
                let v = self@;
                let (x1, y1, z1) = (
                    step_up(x0 as int, v.nx as int),
                    step_up(y0 as int, v.ny as int),
                    step_up(z0 as int, v.nz as int),
                );
                &&& c.c000 == v.sample_previous(f, x0 as int, y0 as int, z0 as int)
                &&& c.c100 == v.sample_previous(f, x1, y0 as int, z0 as int)
                &&& c.c010 == v.sample_previous(f, x0 as int, y1, z0 as int)
                &&& c.c110 == v.sample_previous(f, x1, y1, z0 as int)
                &&& c.c001 == v.sample_previous(f, x0 as int, y0 as int, z1)
                &&& c.c101 == v.sample_previous(f, x1, y0 as int, z1)
                &&& c.c011 == v.sample_previous(f, x0 as int, y1, z1)
                &&& c.c111 == v.sample_previous(f, x1, y1, z1)
            }),
    {
        let x1 = if x0 + 1 < self.nx {
            x0 + 1
        } else {
            self.nx - 1
        };
        let y1 = if y0 + 1 < self.ny {
            y0 + 1
        } else {
            self.ny - 1
        };
        let z1 = if z0 + 1 < self.nz {
            z0 + 1
        } else {
            self.nz - 1
        };
        Corners {
            c000: self.sample_previous(f, x0, y0, z0),
            c100: self.sample_previous(f, x1, y0, z0),
            c010: self.sample_previous(f, x0, y1, z0),
            c110: self.sample_previous(f, x1, y1, z0),
            c001: self.sample_previous(f, x0, y0, z1),
            c101: self.sample_previous(f, x1, y0, z1),
            c011: self.sample_previous(f, x0, y1, z1),
            c111: self.sample_previous(f, x1, y1, z1),
        }
    }

    /// The previous value of field `f` at `(x, y, z)`, or zero where the cell is solid.
    pub fn sample_previous(&self, f: Field, x: usize, y: usize, z: usize) -> (bits: u32)
        requires
            self@.wf(),
            self@.contains(x as int, y as int, z as int),
        ensures
            bits == self@.sample_previous(f, x as int, y as int, z as int),
            !self@.active[self@.index(x as int, y as int, z as int)] ==> bits == 0,
            self@.active[self@.index(x as int, y as int, z as int)] ==> bits == self@.previous(
                f,
            )[self@.index(x as int, y as int, z as int)],
    {
        let i = self.at(x, y, z);
        if self.active[i] {
            match f {
                Field::VelocityX => self.vecx0[i],
                Field::VelocityY => self.vecy0[i],
                Field::VelocityZ => self.vecz0[i],
                Field::Density => self.density0[i],
            }
        } else {
            0
        }
    }
}

impl FluidGrid {
    /// Whether the grid's shape lets the pressure solver run.
    pub fn projection_defined(&self) -> (b: bool)
        ensures
            b == self@.projection_defined(),
    {
        self.nz >= 1 && (self.nz < 3 || self.ny >= 1) && (self.nz < 3 || self.ny < 3 || self.nx >= 1)
    }

    /// Whether the grid's shape lets the border be extrapolated.
    pub fn extrapolation_defined(&self) -> (b: bool)
        ensures
            b == self@.extrapolation_defined(),
    {
        (self.nz == 0 || self.nx == 0 || self.ny >= 2) && (self.nz == 0 || self.ny == 0 || self.nx
            >= 2) && (self.ny == 0 || self.nx == 0 || self.nz >= 2)
    }

    /// The storage position of `(x, y, z)`, or `None` where the position is
    /// past the end of the storage or too large to compute.
    pub fn checked_index(&self, x: usize, y: usize, z: usize) -> (r: Option<usize>)
        requires
            self@.wf(),
        ensures
            match r {
                Some(i) => self@.addresses(x as int, y as int, z as int) && i == self@.index(
                    x as int,
                    y as int,
                    z as int,
                ),
                None => !self@.addresses(x as int, y as int, z as int),
            },
    {
        let ghost v = self@;
        let ghost (xi, yi, zi, nxi, nyi, nzi) = (
            x as int,
            y as int,
            z as int,
            self.nx as int,
            self.ny as int,
            self.nz as int,
        );
        assert(zi * nxi * nyi >= 0 && yi * nxi >= 0 && zi * nxi >= 0) by (nonlinear_arith)
            requires
                xi >= 0,
                yi >= 0,
                zi >= 0,
                nxi >= 0,
                nyi >= 0,
        ;
        assert(nyi == 0 ==> nxi * nyi * nzi == 0) by (nonlinear_arith);
        assert(nyi >= 1 ==> zi * nxi <= zi * nxi * nyi) by (nonlinear_arith)
            requires
                zi * nxi >= 0,
        ;
        let size = self.active.len();
        let row = match y.checked_mul(self.nx) {
            Some(r) => r,
            None => {
                return None;
            },
        };
        let slab = match z.checked_mul(self.nx) {
            Some(r) => r,
            None => {
                return None;
            },
        };
        let slab = match slab.checked_mul(self.ny) {
            Some(r) => r,
            None => {
                return None;
            },
        };
        let partial = match x.checked_add(row) {
            Some(r) => r,
            None => {
                return None;
            },
        };
        let i = match partial.checked_add(slab) {
            Some(r) => r,
            None => {
                return None;
            },
        };
        if i < size {
            Some(i)
        } else {
            None
        }
    }

    /// The number of cells.
    pub fn size(&self) -> (n: usize)
        requires
            self@.wf(),
        ensures
            n == self@.size(),
    {
        self.active.len()
    }
}

/// A vector of `n` copies of `value`.
fn filled<T: Copy>(value: T, n: usize) -> (v: Vec<T>)
    ensures
        v@ == Seq::new(n as nat, |i: int| value),
{
    let mut v: Vec<T> = Vec::new();
    for k in 0..n
        invariant
            v@ == Seq::new(k as nat, |i: int| value),
    {
        v.push(value);
    }
    v
}

} // verus!
