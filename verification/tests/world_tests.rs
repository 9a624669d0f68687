use rusted_voxels::raycast::{edit_target, probe_voxel, step_voxel, BlockEdit, VoxelHit, PLACED_BLOCK};
use rusted_voxels::world::{World, RENDER_DISTANCE};

#[test]
fn chunk_index_is_row_major() {
    assert_eq!(RENDER_DISTANCE, 3);
    assert_eq!(World::chunk_index(0, 0), 0);
    assert_eq!(World::chunk_index(0, 2), 2);
    assert_eq!(World::chunk_index(1, 2), 5);
    assert_eq!(World::chunk_index(2, 2), 8);
    // z % 3 keeps the sign of z; the i32 result is cast to usize as written
    assert_eq!(World::chunk_index(1, 4), 4);
    assert_eq!(World::chunk_index(0, -1), (-1i32) as usize);
}

#[test]
fn new_world_holds_fresh_chunks() {
    let mut w = World::new();
    for x in 0..3 {
        for z in 0..3 {
            let c = w.get_chunk(x, z).unwrap();
            assert_eq!(c.x(), x);
            assert_eq!(c.z(), z);
            assert_eq!(c.vertex_count(), 0);
        }
    }
    assert!(w.get_chunk(3, 0).is_none());
    assert!(w.get_chunk(0, 3).is_none());
    assert!(w.get_chunk(-1, 0).is_none());
    assert!(w.get_chunk(0, -1).is_none());
}

#[test]
fn new_world_blocks() {
    let mut w = World::new();
    assert_eq!(w.get_block(0, 0, 0), 1);
    assert_eq!(w.get_block(47, 255, 47), 1);
    assert_eq!(w.get_block(20, 100, 33), 1);
    assert_eq!(w.get_block(48, 0, 0), 0);
    assert_eq!(w.get_block(0, 0, 48), 0);
    assert_eq!(w.get_block(0, 256, 0), 0);
    assert_eq!(w.get_block(0, -1, 0), 0);
    // rounding toward zero puts x = -1 in chunk 0 at local x = -1: outside that chunk
    assert_eq!(w.get_block(-1, 0, 0), 0);
    assert_eq!(w.get_block(-16, 0, 0), 0);
}

#[test]
fn world_set_then_get() {
    let mut w = World::new();
    assert_eq!(w.set_block(20, 10, 30, 5), Some((1, 1)));
    assert_eq!(w.get_block(20, 10, 30), 5);
    assert_eq!(w.get_block(21, 10, 30), 1);
    assert_eq!(w.get_block(20, 11, 30), 1);
    assert_eq!(w.get_chunk(1, 1).unwrap().get_block(4, 10, 14), 5);
    assert_eq!(w.set_block(47, 0, 0, 0), Some((2, 0)));
    assert_eq!(w.get_block(47, 0, 0), 0);
}

#[test]
fn world_set_outside_loaded_chunks() {
    let mut w = World::new();
    assert_eq!(w.set_block(100, 0, 0, 5), None);
    assert_eq!(w.get_block(100, 0, 0), 0);
    // x = -3 lies in chunk 0, at local x = -3, outside the chunk: the chunk is reported, nothing changes
    assert_eq!(w.set_block(-3, 0, 0, 5), Some((0, 0)));
    assert_eq!(w.get_block(-3, 0, 0), 0);
    assert_eq!(w.get_block(0, 0, 0), 1);
    assert_eq!(w.get_block(13, 0, 0), 1);
    // y outside the chunk: reported, nothing written
    assert_eq!(w.set_block(5, 300, 5, 5), Some((0, 0)));
    assert_eq!(w.get_block(5, 300, 5), 0);
    assert_eq!(w.get_block(5, 300 % 256, 5), 1);
}

#[test]
fn get_chunk_changes_land_in_world() {
    let mut w = World::new();
    {
        let c = w.get_chunk(2, 1).unwrap();
        c.set_block(1, 2, 3, 9);
        c.record_upload(7, 8, 30);
    }
    assert_eq!(w.get_block(2 * 16 + 1, 2, 16 + 3), 9);
    let c = w.get_chunk(2, 1).unwrap();
    assert_eq!(c.vao(), 7);
    assert_eq!(c.vertex_count(), 10);
}

#[test]
fn probe_finds_solid_voxels() {
    let mut w = World::new();
    let hit = probe_voxel(&mut w, 1, 2, 3, 0, 1, -1, 1).unwrap();
    assert_eq!(hit.hit_position, (1, 2, 3));
    assert_eq!(hit.hit_normal, (-1, 0, 0));
    assert_eq!(hit.hit_block, 1);
    let hit = probe_voxel(&mut w, 1, 2, 3, 1, 1, -1, 1).unwrap();
    assert_eq!(hit.hit_normal, (0, 1, 0));
    let hit = probe_voxel(&mut w, 1, 2, 3, 2, 1, -1, -1).unwrap();
    assert_eq!(hit.hit_normal, (0, 0, 1));
    let hit = probe_voxel(&mut w, 1, 2, 3, -1, 1, -1, -1).unwrap();
    assert_eq!(hit.hit_normal, (0, 0, 0));
}

#[test]
fn probe_passes_through_air() {
    let mut w = World::new();
    assert!(probe_voxel(&mut w, 1, 300, 3, 1, 1, 1, 1).is_none());
    w.set_block(4, 4, 4, 0);
    assert!(probe_voxel(&mut w, 4, 4, 4, 0, 1, 1, 1).is_none());
    w.set_block(4, 4, 4, 2);
    assert_eq!(probe_voxel(&mut w, 4, 4, 4, 0, 1, 1, 1).unwrap().hit_block, 2);
}

#[test]
fn edit_target_removes_or_places() {
    let hit = VoxelHit { hit_position: (4, 5, 6), hit_normal: (0, 1, 0), hit_block: 1 };
    assert_eq!(edit_target(&hit, BlockEdit::Remove), (4, 5, 6, 0));
    assert_eq!(edit_target(&hit, BlockEdit::Place), (4, 6, 6, PLACED_BLOCK));
    assert_eq!(PLACED_BLOCK, 2);
    let hit = VoxelHit { hit_position: (-1, 0, 9), hit_normal: (1, 0, 0), hit_block: 3 };
    assert_eq!(edit_target(&hit, BlockEdit::Place), (0, 0, 9, 2));
}

#[test]
fn click_edit_round_trip() {
    let mut w = World::new();
    // a ray that stepped along -y into the top of the world reached (3, 255, 3)
    let hit = probe_voxel(&mut w, 3, 255, 3, 1, 1, -1, 1).unwrap();
    assert_eq!(hit.hit_normal, (0, 1, 0));
    let (x, y, z, b) = edit_target(&hit, BlockEdit::Remove);
    w.set_block(x, y, z, b);
    assert_eq!(w.get_block(3, 255, 3), 0);
    let hit = probe_voxel(&mut w, 3, 254, 3, 1, 1, -1, 1).unwrap();
    let (x, y, z, b) = edit_target(&hit, BlockEdit::Place);
    assert_eq!((x, y, z), (3, 255, 3));
    w.set_block(x, y, z, b);
    assert_eq!(w.get_block(3, 255, 3), 2);
}

#[test]
fn step_voxel_moves_along_one_axis() {
    assert_eq!(step_voxel(5, 6, 7, 1, -1, 1, true, true), (6, 6, 7, 0));
    assert_eq!(step_voxel(5, 6, 7, 1, -1, 1, false, true), (5, 5, 7, 1));
    assert_eq!(step_voxel(5, 6, 7, 1, -1, -1, false, false), (5, 6, 6, 2));
    // x first wins whatever y and z compare to
    assert_eq!(step_voxel(-1, 0, 0, -1, 1, 1, true, false), (-2, 0, 0, 0));
}

#[test]
fn placing_lands_in_the_voxel_the_ray_came_from() {
    let mut w = World::new();
    // clear a column so a ray from (3, 20, 3) stepping down along y meets solid at y = 9
    for y in 10..21 {
        w.set_block(3, y, 3, 0);
    }
    let (mut x, mut y, mut z, mut axis) = (3, 20, 3, -1);
    let hit = loop {
        if let Some(hit) = probe_voxel(&mut w, x, y, z, axis, 1, -1, 1) {
            break hit;
        }
        let next = step_voxel(x, y, z, 1, -1, 1, false, true);
        x = next.0;
        y = next.1;
        z = next.2;
        axis = next.3;
    };
    assert_eq!(hit.hit_position, (3, 9, 3));
    assert_eq!(hit.hit_normal, (0, 1, 0));
    assert_eq!(edit_target(&hit, BlockEdit::Place), (3, 10, 3, PLACED_BLOCK));
    assert_eq!(w.get_block(3, 10, 3), 0);
}
