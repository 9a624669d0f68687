use rusted_voxels::chunk::Chunk;

fn empty_chunk() -> Chunk {
    let mut c = Chunk::new(0, 0);
    for x in 0..16 {
        for y in 0..256 {
            for z in 0..16 {
                c.set_block(x, y, z, 0);
            }
        }
    }
    c
}

#[test]
fn empty_chunk_has_empty_mesh() {
    let c = empty_chunk();
    assert!(c.build_mesh().is_empty());
}

#[test]
fn lone_block_shows_all_six_faces() {
    let mut c = empty_chunk();
    c.set_block(1, 2, 3, 4);
    let mesh = c.build_mesh();
    assert_eq!(mesh.len(), 6 * 18);
    // right face (+x), first triangle, in half blocks: centre (2, 4, 6)
    assert_eq!(&mesh[0..9], &[3, 5, 7, 3, 5, 5, 3, 3, 5]);
    // left face (-x) starts with (-1, 1, 1) from the centre
    assert_eq!(&mesh[18..21], &[1, 5, 7]);
    // back face (-z) ends with (-1, -1, -1) from the centre
    assert_eq!(&mesh[105..108], &[1, 3, 5]);
}

#[test]
fn hidden_faces_are_culled() {
    let mut c = empty_chunk();
    c.set_block(1, 2, 3, 4);
    c.set_block(2, 2, 3, 4);
    let mesh = c.build_mesh();
    // two blocks side by side along x share one hidden face each
    assert_eq!(mesh.len(), 10 * 18);
    // the first block (lower x) comes first; its first exposed face is the left face
    assert_eq!(&mesh[0..3], &[1, 5, 7]);
}

#[test]
fn solid_chunk_shows_only_its_boundary() {
    let c = Chunk::new(0, 0);
    let mesh = c.build_mesh();
    let faces = 2 * 16 * 256 + 2 * 16 * 16 + 2 * 16 * 256;
    assert_eq!(mesh.len(), faces * 18);
    // block (0, 0, 0) borders the outside on its left, bottom and back faces; left comes first
    assert_eq!(&mesh[0..18], &[-1, 1, 1, -1, 1, -1, -1, -1, -1, -1, -1, -1, -1, -1, 1, -1, 1, 1]);
    // then its bottom face
    assert_eq!(&mesh[18..21], &[-1, -1, -1]);
}

#[test]
fn mesh_is_whole_faces() {
    let mut c = Chunk::new(0, 0);
    c.set_block(5, 5, 5, 0);
    c.set_block(0, 0, 0, 0);
    let mesh = c.build_mesh();
    assert_eq!(mesh.len() % 18, 0);
}

#[test]
fn mesh_length_counts_shown_faces() {
    let mut c = empty_chunk();
    // an L of three blocks: 3 * 6 faces, 2 shared pairs hidden
    c.set_block(0, 0, 0, 1);
    c.set_block(1, 0, 0, 1);
    c.set_block(1, 1, 0, 1);
    assert_eq!(c.build_mesh().len(), 18 * (18 - 4));
}

#[test]
fn face_mask_marks_air_neighbours() {
    let c = Chunk::new(0, 0);
    // inside a solid chunk nothing borders air
    assert_eq!(c.get_face_mask(5, 5, 5), 0);
    // the corner cell borders the outside on its left, bottom and back faces
    assert_eq!(c.get_face_mask(0, 0, 0), 2 | 8 | 32);
    // the opposite corner on its right, top and front faces
    assert_eq!(c.get_face_mask(15, 255, 15), 1 | 4 | 16);
    let mut c = empty_chunk();
    c.set_block(3, 3, 3, 1);
    c.set_block(3, 4, 3, 1);
    // air all round except above
    assert_eq!(c.get_face_mask(3, 3, 3), 1 | 2 | 8 | 16 | 32);
    // a cell far outside the chunk sees only air
    assert_eq!(c.get_face_mask(1000, -1000, 1000), 63);
}
