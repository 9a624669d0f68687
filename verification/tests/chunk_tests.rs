use rusted_voxels::chunk::{index, Chunk, CHUNK_AREA, CHUNK_HEIGHT, CHUNK_VOLUME, CHUNK_WIDTH};

#[test]
fn chunk_dimensions() {
    assert_eq!(CHUNK_WIDTH, 16);
    assert_eq!(CHUNK_HEIGHT, 256);
    assert_eq!(CHUNK_AREA, 256);
    assert_eq!(CHUNK_VOLUME, 65536);
}

#[test]
fn index_orders_x_then_z_then_y() {
    assert_eq!(index(0, 0, 0), 0);
    assert_eq!(index(1, 0, 0), 1);
    assert_eq!(index(0, 0, 1), 16);
    assert_eq!(index(0, 1, 0), 256);
    assert_eq!(index(3, 4, 5), 3 + 5 * 16 + 4 * 256);
    assert_eq!(index(15, 255, 15), 65535);
}

#[test]
fn index_wraps_y_by_remainder_toward_zero() {
    // y % 256 keeps the sign of y; the i32 result is cast to usize as written
    assert_eq!(index(0, 256, 0), 0);
    assert_eq!(index(2, 257, 0), 2 + 256);
    assert_eq!(index(0, -1, 0), (-256i32) as usize);
}

#[test]
fn new_chunk_is_solid() {
    let c = Chunk::new(2, -1);
    assert_eq!(c.x(), 2);
    assert_eq!(c.z(), -1);
    assert_eq!(c.get_block(0, 0, 0), 1);
    assert_eq!(c.get_block(15, 255, 15), 1);
    assert_eq!(c.get_block(7, 100, 3), 1);
    assert_eq!(c.vao(), 0);
    assert_eq!(c.vbo(), 0);
    assert_eq!(c.vertex_count(), 0);
}

#[test]
fn get_block_outside_chunk_is_air() {
    let c = Chunk::new(0, 0);
    assert_eq!(c.get_block(-1, 0, 0), 0);
    assert_eq!(c.get_block(16, 0, 0), 0);
    assert_eq!(c.get_block(0, -1, 0), 0);
    assert_eq!(c.get_block(0, 256, 0), 0);
    assert_eq!(c.get_block(0, 0, -1), 0);
    assert_eq!(c.get_block(0, 0, 16), 0);
    assert_eq!(c.get_block(i32::MIN, i32::MAX, i32::MIN), 0);
}

#[test]
fn set_then_get_returns_written_block() {
    let mut c = Chunk::new(0, 0);
    c.set_block(3, 4, 5, 7);
    assert_eq!(c.get_block(3, 4, 5), 7);
    // neighbours keep their blocks
    assert_eq!(c.get_block(2, 4, 5), 1);
    assert_eq!(c.get_block(4, 4, 5), 1);
    assert_eq!(c.get_block(3, 3, 5), 1);
    assert_eq!(c.get_block(3, 5, 5), 1);
    assert_eq!(c.get_block(3, 4, 4), 1);
    assert_eq!(c.get_block(3, 4, 6), 1);
    c.set_block(3, 4, 5, 0);
    assert_eq!(c.get_block(3, 4, 5), 0);
    c.set_block(15, 255, 15, 9);
    assert_eq!(c.get_block(15, 255, 15), 9);
}

#[test]
fn set_outside_chunk_changes_nothing() {
    let mut c = Chunk::new(0, 0);
    c.set_block(16, 0, 0, 5);
    c.set_block(-1, 0, 0, 5);
    c.set_block(0, 256, 0, 5);
    c.set_block(0, -1, 0, 5);
    c.set_block(0, 0, 16, 5);
    c.set_block(0, 0, -1, 5);
    // the cells that a wrapped index would reach keep their blocks
    assert_eq!(c.get_block(0, 0, 0), 1);
    assert_eq!(c.get_block(0, 1, 0), 1);
    assert_eq!(c.get_block(15, 255, 15), 1);
    assert_eq!(c.get_block(0, 0, 1), 1);
    assert_eq!(c.get_block(16, 0, 0), 0);
}

#[test]
fn record_upload_counts_vertices() {
    let mut c = Chunk::new(1, 1);
    c.record_upload(3, 4, 108);
    assert_eq!(c.vao(), 3);
    assert_eq!(c.vbo(), 4);
    assert_eq!(c.vertex_count(), 36);
    c.record_upload(5, 6, 10);
    assert_eq!(c.vertex_count(), 3);
    assert_eq!(c.get_block(0, 0, 0), 1);
    assert_eq!(c.x(), 1);
}
