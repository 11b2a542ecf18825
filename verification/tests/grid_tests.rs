use fluid_physics::fluid_grid::{Field, FluidGrid, GridCell, Stencil};
use fluid_physics::grid_index::flat_index;

fn bits(v: f32) -> u32 {
    v.to_bits()
}

#[test]
fn new_grid_is_open_and_zero() {
    let g = FluidGrid::new(4, 3, 2);
    assert_eq!(g.nx(), 4);
    assert_eq!(g.ny(), 3);
    assert_eq!(g.nz(), 2);
    assert_eq!(g.size(), 24);
    for z in 0..2 {
        for y in 0..3 {
            for x in 0..4 {
                assert_eq!(g.get_velocity(x, y, z), (0, 0, 0));
                assert_eq!(g.get_density(x, y, z), 0);
            }
        }
    }
    assert_eq!(g.active_cells().len(), 24);
}

#[test]
fn idx_is_x_fastest() {
    let g = FluidGrid::new(4, 5, 6);
    assert_eq!(g.idx(0, 0, 0), 0);
    assert_eq!(g.idx(1, 0, 0), 1);
    assert_eq!(g.idx(0, 1, 0), 4);
    assert_eq!(g.idx(0, 0, 1), 20);
    assert_eq!(g.idx(1, 2, 3), 69);
    assert_eq!(g.idx(3, 4, 5), 119);
    assert_eq!(flat_index(1, 2, 3, 4, 5), 69);
}

#[test]
fn checked_index_accepts_storage_positions_only() {
    let g = FluidGrid::new(3, 3, 3);
    assert_eq!(g.checked_index(2, 2, 2), Some(26));
    // A coordinate past its axis still names a position of the storage.
    assert_eq!(g.checked_index(3, 0, 0), Some(3));
    assert_eq!(g.checked_index(0, 0, 3), None);
    assert_eq!(g.checked_index(usize::MAX, 1, 0), None);
    assert_eq!(g.checked_index(0, 0, usize::MAX), None);
}

#[test]
fn open_cell_reads_back_what_was_written() {
    let mut g = FluidGrid::new(3, 3, 3);
    g.set_velocity(1, 2, 0, bits(1.5), bits(-2.0), bits(0.25));
    assert_eq!(g.get_velocity(1, 2, 0), (bits(1.5), bits(-2.0), bits(0.25)));
    g.set_density(1, 2, 0, bits(0.75));
    assert_eq!(g.get_density(1, 2, 0), bits(0.75));
    assert_eq!(g.get_velocity(0, 2, 0), (0, 0, 0));
    assert_eq!(g.get_density(2, 2, 0), 0);
}

#[test]
fn solid_cell_refuses_writes() {
    let mut g = FluidGrid::new(3, 3, 3);
    g.set_active(1, 1, 1, false);
    g.set_velocity(1, 1, 1, bits(3.0), bits(4.0), bits(5.0));
    g.set_density(1, 1, 1, bits(0.5));
    assert_eq!(g.get_velocity(1, 1, 1), (0, 0, 0));
    assert_eq!(g.get_density(1, 1, 1), 0);
}

#[test]
fn making_a_cell_solid_empties_it() {
    let mut g = FluidGrid::new(3, 3, 3);
    g.set_velocity(2, 1, 0, bits(3.0), bits(4.0), bits(5.0));
    g.set_density(2, 1, 0, bits(0.5));
    g.snapshot_previous();
    g.set_active(2, 1, 0, false);
    assert_eq!(g.get_velocity(2, 1, 0), (0, 0, 0));
    assert_eq!(g.get_density(2, 1, 0), 0);
    assert_eq!(g.sample_previous(Field::Density, 2, 1, 0), 0);
    // Reopening keeps the values at zero.
    g.set_active(2, 1, 0, true);
    assert_eq!(g.get_velocity(2, 1, 0), (0, 0, 0));
    g.set_density(2, 1, 0, bits(0.5));
    assert_eq!(g.get_density(2, 1, 0), bits(0.5));
}

#[test]
fn enforce_walls_zeroes_solid_cells_only() {
    let mut g = FluidGrid::new(3, 2, 2);
    g.set_velocity(0, 0, 0, bits(1.0), bits(1.0), bits(1.0));
    g.set_active(1, 0, 0, false);
    let wall = g.idx(1, 0, 0);
    g.set_field_value(Field::VelocityX, wall, bits(7.0));
    g.set_field_value(Field::Density, wall, bits(0.5));
    assert_eq!(g.field_value(Field::VelocityX, wall), bits(7.0));
    g.enforce_walls();
    assert_eq!(g.field_value(Field::VelocityX, wall), 0);
    assert_eq!(g.field_value(Field::Density, wall), 0);
    assert_eq!(g.get_velocity(0, 0, 0), (bits(1.0), bits(1.0), bits(1.0)));
    // A second pass changes nothing.
    g.enforce_walls();
    assert_eq!(g.get_velocity(0, 0, 0), (bits(1.0), bits(1.0), bits(1.0)));
    assert_eq!(g.field_value(Field::VelocityX, wall), 0);
}

#[test]
fn extrapolate_copies_inner_neighbours_into_the_border() {
    let (nx, ny, nz) = (4usize, 4usize, 4usize);
    let mut g = FluidGrid::new(nx, ny, nz);
    for z in 0..nz {
        for y in 0..ny {
            for x in 0..nx {
                let i = g.idx(x, y, z) as u32;
                g.set_velocity(x, y, z, i, 100 + i, 200 + i);
            }
        }
    }
    g.set_active(3, 3, 3, false);
    g.extrapolate();
    let at = |x: usize, y: usize, z: usize| (x + 4 * y + 16 * z) as u32;
    // x velocity along y.
    assert_eq!(g.get_velocity(2, 0, 1).0, at(2, 1, 1));
    assert_eq!(g.get_velocity(2, 3, 1).0, at(2, 2, 1));
    assert_eq!(g.get_velocity(2, 1, 1).0, at(2, 1, 1));
    // y velocity along x.
    assert_eq!(g.get_velocity(0, 2, 1).1, 100 + at(1, 2, 1));
    assert_eq!(g.get_velocity(3, 2, 1).1, 100 + at(2, 2, 1));
    assert_eq!(g.get_velocity(2, 2, 1).1, 100 + at(2, 2, 1));
    // z velocity along z.
    assert_eq!(g.get_velocity(1, 2, 0).2, 200 + at(1, 2, 1));
    assert_eq!(g.get_velocity(1, 2, 3).2, 200 + at(1, 2, 2));
    // A solid border cell receives a copy too; flags stay as they were.
    assert_eq!(g.field_value(Field::VelocityX, g.idx(3, 3, 3)), at(3, 2, 3));
    assert!(g.active_cells().iter().all(|c| !(c.x == 3 && c.y == 3 && c.z == 3)));
    assert_eq!(g.active_cells().len(), 63);
}

#[test]
fn extrapolate_on_two_cell_axis_keeps_the_far_value() {
    let mut g = FluidGrid::new(2, 2, 2);
    for z in 0..2 {
        for y in 0..2 {
            for x in 0..2 {
                let i = g.idx(x, y, z) as u32;
                g.set_velocity(x, y, z, 10 + i, 20 + i, 30 + i);
            }
        }
    }
    g.extrapolate();
    // Along y: row 0 takes row 1, row 1 keeps its own.
    assert_eq!(g.get_velocity(1, 0, 1).0, 10 + 7);
    assert_eq!(g.get_velocity(1, 1, 1).0, 10 + 7);
    // Along x.
    assert_eq!(g.get_velocity(0, 1, 0).1, 20 + 3);
    assert_eq!(g.get_velocity(1, 1, 0).1, 20 + 3);
    // Along z.
    assert_eq!(g.get_velocity(0, 0, 0).2, 30 + 4);
    assert_eq!(g.get_velocity(0, 0, 1).2, 30 + 4);
}

#[test]
fn extrapolation_and_projection_need_room() {
    assert!(FluidGrid::new(2, 2, 2).extrapolation_defined());
    assert!(!FluidGrid::new(3, 1, 3).extrapolation_defined());
    assert!(!FluidGrid::new(0, 3, 3).extrapolation_defined());
    assert!(FluidGrid::new(0, 0, 3).extrapolation_defined());
    assert!(FluidGrid::new(3, 3, 3).projection_defined());
    assert!(FluidGrid::new(0, 0, 1).projection_defined());
    assert!(!FluidGrid::new(3, 3, 0).projection_defined());
    assert!(!FluidGrid::new(3, 0, 3).projection_defined());
    assert!(FluidGrid::new(3, 0, 2).projection_defined());
    assert!(!FluidGrid::new(0, 3, 3).projection_defined());
}

#[test]
fn raw_3d_matrix_lists_cells_in_storage_order() {
    let mut g = FluidGrid::new(3, 2, 2);
    g.set_density(2, 1, 1, bits(0.5));
    let m = g.raw_3d_matrix();
    assert_eq!(m.len(), 12);
    assert_eq!((m[0].x, m[0].y, m[0].z), (0, 0, 0));
    assert_eq!((m[1].x, m[1].y, m[1].z), (1, 0, 0));
    assert_eq!((m[3].x, m[3].y, m[3].z), (0, 1, 0));
    assert_eq!((m[6].x, m[6].y, m[6].z), (0, 0, 1));
    assert_eq!((m[11].x, m[11].y, m[11].z), (2, 1, 1));
    assert_eq!(m[11].density, bits(0.5));
    assert_eq!(m[10].density, 0);
}

#[test]
fn active_cells_skip_walls_in_order() {
    let mut g = FluidGrid::new(2, 2, 1);
    g.set_active(1, 0, 0, false);
    let cells: Vec<GridCell> = g.active_cells();
    let listed: Vec<(usize, usize, usize, usize)> = cells.iter().map(|c| (c.x, c.y, c.z, c.index)).collect();
    assert_eq!(listed, vec![(0, 0, 0, 0), (0, 1, 0, 2), (1, 1, 0, 3)]);
}

#[test]
fn project_stencils_cover_open_interior_cells() {
    let mut g = FluidGrid::new(4, 3, 3);
    let s: Vec<Stencil> = g.project_stencils();
    assert_eq!(s.len(), 2);
    assert_eq!((s[0].x, s[0].y, s[0].z, s[0].center), (1, 1, 1, 17));
    assert_eq!((s[1].x, s[1].y, s[1].z, s[1].center), (2, 1, 1, 18));
    assert_eq!(s[0].x_minus, 16);
    assert_eq!(s[0].x_plus, 18);
    assert_eq!(s[0].y_minus, 13);
    assert_eq!(s[0].y_plus, 21);
    assert_eq!(s[0].z_minus, 5);
    assert_eq!(s[0].z_plus, 29);
    assert_eq!(s[0].open_count(), 6);

    g.set_active(0, 1, 1, false);
    g.set_active(1, 0, 1, false);
    let s = g.project_stencils();
    assert!(!s[0].open_x_minus && !s[0].open_y_minus && s[0].open_x_plus);
    assert_eq!(s[0].open_count(), 4);

    // A solid cell is not relaxed, nor is a cell walled in on every face.
    g.set_active(2, 1, 1, false);
    g.set_active(1, 2, 1, false);
    g.set_active(1, 1, 0, false);
    g.set_active(1, 1, 2, false);
    assert_eq!(g.project_stencils().len(), 0);
}

#[test]
fn project_stencils_on_thin_grids_are_empty() {
    assert_eq!(FluidGrid::new(2, 2, 2).project_stencils().len(), 0);
    assert_eq!(FluidGrid::new(3, 3, 1).project_stencils().len(), 0);
}

#[test]
fn corner_samples_clamp_and_skip_walls() {
    let mut g = FluidGrid::new(3, 3, 3);
    for z in 0..3 {
        for y in 0..3 {
            for x in 0..3 {
                let i = g.idx(x, y, z) as u32;
                g.set_density(x, y, z, 1000 + i);
            }
        }
    }
    g.set_active(1, 0, 0, false);
    g.snapshot_previous();
    let c = g.corner_samples(Field::Density, 0, 0, 0);
    assert_eq!(c.c000, 1000);
    assert_eq!(c.c100, 0);
    assert_eq!(c.c010, 1003);
    assert_eq!(c.c111, 1000 + 13);
    // At the last cell the upper corner is the cell itself.
    let c = g.corner_samples(Field::Density, 2, 2, 2);
    assert_eq!(c.c000, 1026);
    assert_eq!(c.c111, 1026);
    // Samples come from the snapshot, not from later writes.
    g.set_density(0, 0, 0, 5);
    assert_eq!(g.corner_samples(Field::Density, 0, 0, 0).c000, 1000);
    assert_eq!(g.sample_previous(Field::Density, 0, 0, 0), 1000);
}

#[test]
fn inlets_are_applied_in_order_and_cleared() {
    let mut g = FluidGrid::new(3, 3, 3);
    g.add_inlet(1, 1, 1, 1, 2, 3);
    g.add_inlet(1, 1, 1, 4, 5, 6);
    g.add_inlet(0, 0, 0, 7, 8, 9);
    g.set_active(0, 0, 0, false);
    g.apply_inlets();
    assert_eq!(g.get_velocity(1, 1, 1), (4, 5, 6));
    assert_eq!(g.get_velocity(0, 0, 0), (0, 0, 0));
    g.set_velocity(1, 1, 1, 0, 0, 0);
    g.clear_inlets();
    g.apply_inlets();
    assert_eq!(g.get_velocity(1, 1, 1), (0, 0, 0));
}
