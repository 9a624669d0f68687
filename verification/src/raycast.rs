//! The voxel test at each step of a ray walk: is the current voxel solid, and if so, what was hit.
//!
//! The walk itself steps through voxels by comparing floating-point crossing distances; each
//! voxel it reaches is handed here as integer coordinates, with the axis of the step that
//! reached it.

use vstd::prelude::*;
use crate::chunk::AIR;
use crate::world::World;

verus! {

/// A solid voxel reached by a ray.
pub struct VoxelHit {
    /// Global coordinates of the voxel.
    pub hit_position: (i32, i32, i32),
    /// Outward normal of the face through which the ray entered the voxel; zero when the ray
    /// started inside it.
    pub hit_normal: (i32, i32, i32),
    /// Block id of the voxel.
    pub hit_block: u32,
}

/// The outward normal of the face through which a ray entered a voxel: against the step
/// direction along the axis of the last step (0 for x, 1 for y, 2 for z), zero for any other
/// axis value (no step taken yet).
pub open spec fn entry_normal(last_step_axis: int, step_x: int, step_y: int, step_z: int) -> (int, int, int) {
    if last_step_axis == 0 {
        (-step_x, 0, 0)
    } else if last_step_axis == 1 {
        (0, -step_y, 0)
    } else if last_step_axis == 2 {
        (0, 0, -step_z)
    } else {
        (0, 0, 0)
    }
}

/// Looks at the voxel `(x, y, z)` that a ray reached by a step along `last_step_axis` with the
/// step directions `step_x`, `step_y`, `step_z`: a hit when it holds a solid block, else `None`.
/// The world is left as it was.
pub fn probe_voxel(
    world: &mut World,
    x: i32,
    y: i32,
    z: i32,
    last_step_axis: i32,
    step_x: i32,
    step_y: i32,
    step_z: i32,
) -> (r: Option<VoxelHit>)
    requires
        step_x != i32::MIN,
        step_y != i32::MIN,
        step_z != i32::MIN,
    ensures
        r is Some <==> old(world).block_at(x as int, y as int, z as int) != AIR,
        r matches Some(h) ==> {
            &&& h.hit_position == (x, y, z)
            &&& h.hit_block == old(world).block_at(x as int, y as int, z as int)
            &&& (h.hit_normal.0 as int, h.hit_normal.1 as int, h.hit_normal.2 as int) == entry_normal(
                last_step_axis as int,
                step_x as int,
                step_y as int,
                step_z as int,
            )
        },
        final(world).slots() == old(world).slots(),
        final(world).scroll_state() == old(world).scroll_state(),
{
    let block: u32 = world.get_block(x, y, z);

    if block > 0 {
        // determine hit normal
        let mut hit_normal: (i32, i32, i32) = (0, 0, 0);
        if last_step_axis == 0 {
            hit_normal.0 = -step_x;
        } else if last_step_axis == 1 {
            hit_normal.1 = -step_y;
        } else if last_step_axis == 2 {
            hit_normal.2 = -step_z;
        }
        return Some(VoxelHit { hit_position: (x, y, z), hit_normal, hit_block: block });
    }
    None
}

/// The axis along which a ray walk steps next, given how its crossing distances compare:
/// x (0) when x's next crossing comes strictly before both others, else y (1) when y's comes
/// strictly before z's, else z (2).
pub open spec fn step_axis(x_first: bool, y_before_z: bool) -> int {
    if x_first {
        0
    } else if y_before_z {
        1
    } else {
        2
    }
}

/// One step of a ray walk from the voxel `(x, y, z)`: moves along the axis chosen by the
/// crossing comparisons `x_first` and `y_before_z` (see `step_axis`) by that axis's step
/// direction. Returns the new voxel and the axis stepped along. The voxel left behind is the
/// new voxel moved by its entry normal.
pub fn step_voxel(
    x: i32,
    y: i32,
    z: i32,
    step_x: i32,
    step_y: i32,
    step_z: i32,
    x_first: bool,
    y_before_z: bool,
) -> (r: (i32, i32, i32, i32))
    requires
        step_axis(x_first, y_before_z) == 0 ==> i32::MIN <= x + step_x <= i32::MAX,
        step_axis(x_first, y_before_z) == 1 ==> i32::MIN <= y + step_y <= i32::MAX,
        step_axis(x_first, y_before_z) == 2 ==> i32::MIN <= z + step_z <= i32::MAX,
    ensures
        r.3 == step_axis(x_first, y_before_z),
        r.3 == 0 ==> r.0 == x + step_x && r.1 == y && r.2 == z,
        r.3 == 1 ==> r.0 == x && r.1 == y + step_y && r.2 == z,
        r.3 == 2 ==> r.0 == x && r.1 == y && r.2 == z + step_z,
        ({
            let n = entry_normal(r.3 as int, step_x as int, step_y as int, step_z as int);
            x == r.0 + n.0 && y == r.1 + n.1 && z == r.2 + n.2
        }),
{
    if x_first {
        (x + step_x, y, z, 0)
    } else if y_before_z {
        (x, y + step_y, z, 1)
    } else {
        (x, y, z + step_z, 2)
    }
}

/// Block id that a placing click puts into the world.
pub const PLACED_BLOCK: u32 = 2;

/// What a click does to the voxel that a ray hit.
pub enum BlockEdit {
    /// Clear the hit voxel to air.
    Remove,
    /// Put `PLACED_BLOCK` into the voxel in front of the face the ray entered through.
    Place,
}

/// The global coordinates and block id that a click writes for a hit: air at the hit voxel
/// when removing; `PLACED_BLOCK` at the hit voxel moved by the entry normal when placing.
pub fn edit_target(hit: &VoxelHit, edit: BlockEdit) -> (r: (i32, i32, i32, u32))
    requires
        edit is Place ==> {
            &&& i32::MIN <= hit.hit_position.0 + hit.hit_normal.0 <= i32::MAX
            &&& i32::MIN <= hit.hit_position.1 + hit.hit_normal.1 <= i32::MAX
            &&& i32::MIN <= hit.hit_position.2 + hit.hit_normal.2 <= i32::MAX
        },
    ensures
        edit is Remove ==> r == (hit.hit_position.0, hit.hit_position.1, hit.hit_position.2, AIR),
        edit is Place ==> r == (
            (hit.hit_position.0 + hit.hit_normal.0) as i32,
            (hit.hit_position.1 + hit.hit_normal.1) as i32,
            (hit.hit_position.2 + hit.hit_normal.2) as i32,
            PLACED_BLOCK,
        ),
{
    match edit {
        BlockEdit::Remove => (hit.hit_position.0, hit.hit_position.1, hit.hit_position.2, 0),
        BlockEdit::Place => (
            hit.hit_position.0 + hit.hit_normal.0,
            hit.hit_position.1 + hit.hit_normal.1,
            hit.hit_position.2 + hit.hit_normal.2,
            PLACED_BLOCK,
        ),
    }
}

} // verus!
