# rusted_voxels

The block storage, world layout, meshing and ray-hit logic of a small voxel engine, each
function with a proved contract.

- `src/chunk.rs`: a 16 x 256 x 16 chunk of block ids; reads and writes by local coordinates.
- `src/mesh.rs`: the chunk mesh, the faces of solid blocks that border air, in half-block units.
- `src/world.rs`: a 3 x 3 grid of chunks addressed by global block coordinates.
- `src/raycast.rs`: the voxel step and voxel test of a ray walk, and the edit a click makes on a hit.
- `src/arith.rs`: Rust's signed division and remainder, which round toward zero.

`app/` is the OpenGL/GLFW program around the library: window, camera, shaders, GPU upload,
and the floating-point ray walk.
