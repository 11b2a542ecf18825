# fluid_physics

A three-dimensional grid fluid simulation for the browser.

- `src/` is the verified core: the grid's shape and flat indexing
  (`grid_index`), the grid of open/solid cells and their stored values
  (`fluid_grid`), and properties that span several grid operations (`laws`).
  Cell values are 32-bit floats held by their bit patterns; the core stores,
  copies and zeroes them, decides which cells every solver pass visits, and
  which neighbours and corners it reads.
- `app/` holds the floating-point solver passes (gravity, pressure
  projection, advection, clamping) and the WebAssembly interface `FluidSim`.
- `tests/` exercises the core on concrete grids.
