//! Meshing: the faces of solid blocks that border air, as triangle vertex coordinates.
//!
//! Coordinates are in half-block units: a block at `(x, y, z)` spans `2x - 1 ..= 2x + 1` along x,
//! and so on, so every vertex lies on an integer.

use vstd::prelude::*;
use crate::chunk::{Chunk, AIR, CHUNK_WIDTH, CHUNK_HEIGHT};

verus! {

/// Vertex offsets from a block's centre, in half blocks: six faces (right, left, top, bottom,
/// front, back), each two triangles of three vertices, each vertex x, y, z.
pub open spec fn face_vertex_offsets() -> Seq<int> {
    seq![
        // right
        1, 1, 1,  1, 1, -1,  1, -1, -1,  1, -1, -1,  1, -1, 1,  1, 1, 1,
        // left
        -1, 1, 1,  -1, 1, -1,  -1, -1, -1,  -1, -1, -1,  -1, -1, 1,  -1, 1, 1,
        // top
        -1, 1, -1,  1, 1, -1,  1, 1, 1,  1, 1, 1,  -1, 1, 1,  -1, 1, -1,
        // bottom
        -1, -1, -1,  1, -1, -1,  1, -1, 1,  1, -1, 1,  -1, -1, 1,  -1, -1, -1,
        // front
        -1, -1, 1,  1, -1, 1,  1, 1, 1,  1, 1, 1,  -1, 1, 1,  -1, -1, 1,
        // back
        -1, -1, -1,  1, -1, -1,  1, 1, -1,  1, 1, -1,  -1, 1, -1,  -1, -1, -1
    ]
}

/// The vertex offset at position `k` of the table.
fn vertex_offset(k: u32) -> (v: i64)
    requires
        k < 108,
    ensures
        v == face_vertex_offsets()[k as int],
{
    let table: [i64; 108] = [
        1, 1, 1,  1, 1, -1,  1, -1, -1,  1, -1, -1,  1, -1, 1,  1, 1, 1,
        -1, 1, 1,  -1, 1, -1,  -1, -1, -1,  -1, -1, -1,  -1, -1, 1,  -1, 1, 1,
        -1, 1, -1,  1, 1, -1,  1, 1, 1,  1, 1, 1,  -1, 1, 1,  -1, 1, -1,
        -1, -1, -1,  1, -1, -1,  1, -1, 1,  1, -1, 1,  -1, -1, 1,  -1, -1, -1,
        -1, -1, 1,  1, -1, 1,  1, 1, 1,  1, 1, 1,  -1, 1, 1,  -1, -1, 1,
        -1, -1, -1,  1, -1, -1,  1, 1, -1,  1, 1, -1,  -1, 1, -1,  -1, -1, -1
    ];
    assert(table@.map_values(|v: i64| v as int) =~= face_vertex_offsets());
    table[k as usize]
}

/// The 18 coordinates (six vertices of x, y, z) of face `face` of the block at `(x, y, z)`.
pub open spec fn face_quad(face: int, x: int, y: int, z: int) -> Seq<i64> {
    Seq::new(
        18,
        |j: int|
            (face_vertex_offsets()[18 * face + j] + 2 * (if j % 3 == 0 {
                x
            } else if j % 3 == 1 {
                y
            } else {
                z
            })) as i64,
    )
}

impl Chunk {
    /// Appends the 18 coordinates of face `face` of the block at `(x, y, z)`.
    fn add_face(mesh: &mut Vec<i64>, face: u32, x: i32, y: i32, z: i32)
        requires
            face < 6,
        ensures
            final(mesh)@ == old(mesh)@ + face_quad(face as int, x as int, y as int, z as int),
    {
        let start = 6 * face;  // 6 vertices (two triangles) * face index
        let end = start + 6;
        let ghost quad = face_quad(face as int, x as int, y as int, z as int);
        for i in start..end
            invariant
                start == 6 * face,
                end == start + 6,
                face < 6,
                quad == face_quad(face as int, x as int, y as int, z as int),
                mesh@ == old(mesh)@ + quad.take(3 * (i - start)),
        {
            let k = i * 3;
            mesh.push(vertex_offset(k) + 2 * (x as i64));
            mesh.push(vertex_offset(k + 1) + 2 * (y as i64));
            mesh.push(vertex_offset(k + 2) + 2 * (z as i64));
            assert(quad.take(3 * (i + 1 - start)) =~= quad.take(3 * (i - start)).push(quad[3 * (i - start)]).push(quad[3 * (i - start) + 1]).push(quad[3 * (i - start) + 2]));
        }
        assert(quad.take(18) =~= quad);
    }
}

/// The cell across face `face` of the cell `(x, y, z)`: right (+x), left (-x), top (+y),
/// bottom (-y), front (+z), back (-z).
pub open spec fn neighbor(x: int, y: int, z: int, face: int) -> (int, int, int) {
    if face == 0 {
        (x + 1, y, z)
    } else if face == 1 {
        (x - 1, y, z)
    } else if face == 2 {
        (x, y + 1, z)
    } else if face == 3 {
        (x, y - 1, z)
    } else if face == 4 {
        (x, y, z + 1)
    } else {
        (x, y, z - 1)
    }
}

/// Face `face` of the cell `(x, y, z)` borders air (cells outside the chunk count as air).
pub open spec fn face_exposed(c: Chunk, x: int, y: int, z: int, face: int) -> bool {
    let n = neighbor(x, y, z, face);
    c.block_at(n.0, n.1, n.2) == AIR
}

/// The face mask of a cell: bit `f` is set exactly when face `f` borders air.
pub open spec fn face_mask_of(c: Chunk, x: int, y: int, z: int) -> int {
    (if face_exposed(c, x, y, z, 0) { 1int } else { 0 })
        + (if face_exposed(c, x, y, z, 1) { 2int } else { 0 })
        + (if face_exposed(c, x, y, z, 2) { 4int } else { 0 })
        + (if face_exposed(c, x, y, z, 3) { 8int } else { 0 })
        + (if face_exposed(c, x, y, z, 4) { 16int } else { 0 })
        + (if face_exposed(c, x, y, z, 5) { 32int } else { 0 })
}

/// Number of faces of the cell `(x, y, z)` that the mesh shows: none for air, else the number
/// of its six faces that border air.
pub open spec fn shown_faces(c: Chunk, x: int, y: int, z: int) -> nat {
    if c.block_at(x, y, z) == AIR {
        0
    } else {
        (if face_exposed(c, x, y, z, 0) { 1nat } else { 0 })
            + (if face_exposed(c, x, y, z, 1) { 1nat } else { 0 })
            + (if face_exposed(c, x, y, z, 2) { 1nat } else { 0 })
            + (if face_exposed(c, x, y, z, 3) { 1nat } else { 0 })
            + (if face_exposed(c, x, y, z, 4) { 1nat } else { 0 })
            + (if face_exposed(c, x, y, z, 5) { 1nat } else { 0 })
    }
}

/// Sum of `shown_faces` over the cells `(x, y, 0 .. z)`.
pub open spec fn row_face_count(c: Chunk, x: int, y: int, z: nat) -> nat
    decreases z,
{
    if z == 0 {
        0
    } else {
        row_face_count(c, x, y, (z - 1) as nat) + shown_faces(c, x, y, z - 1)
    }
}

/// Sum of `shown_faces` over the cells `(x, 0 .. y, _)`.
pub open spec fn column_face_count(c: Chunk, x: int, y: nat) -> nat
    decreases y,
{
    if y == 0 {
        0
    } else {
        column_face_count(c, x, (y - 1) as nat) + row_face_count(c, x, y - 1, CHUNK_WIDTH as nat)
    }
}

/// Sum of `shown_faces` over the cells `(0 .. x, _, _)`.
pub open spec fn slab_face_count(c: Chunk, x: nat) -> nat
    decreases x,
{
    if x == 0 {
        0
    } else {
        slab_face_count(c, (x - 1) as nat) + column_face_count(c, x - 1, CHUNK_HEIGHT as nat)
    }
}

/// Number of faces that a chunk's mesh shows: over every cell of the chunk, the faces of a
/// solid block that border air (cells outside the chunk count as air).
pub open spec fn chunk_face_count(c: Chunk) -> nat {
    slab_face_count(c, CHUNK_WIDTH as nat)
}

proof fn lemma_block_mesh_len(c: Chunk, x: int, y: int, z: int)
    ensures
        block_mesh(c, x, y, z).len() == 18 * shown_faces(c, x, y, z),
{
    reveal_with_fuel(block_faces, 7);
}

/// 1 when the cell `(x, y, z)` holds air (cells outside the chunk do), else 0.
pub open spec fn air_count(c: Chunk, x: int, y: int, z: int) -> nat {
    if c.block_at(x, y, z) == AIR {
        1
    } else {
        0
    }
}

/// The mesh of a cell holds one face (18 coordinates) for each of its six neighbours
/// `(x +- 1, y, z)`, `(x, y +- 1, z)`, `(x, y, z +- 1)` that holds air, when the cell is solid,
/// and nothing when it is air: whatever the ids of the solid blocks, a solid block enclosed by
/// solid blocks shows no face.
pub proof fn lemma_block_mesh_air_neighbours(c: Chunk, x: int, y: int, z: int)
    ensures
        block_mesh(c, x, y, z).len() == (if c.block_at(x, y, z) == AIR {
            0
        } else {
            18 * (air_count(c, x + 1, y, z) + air_count(c, x - 1, y, z) + air_count(c, x, y + 1, z)
                + air_count(c, x, y - 1, z) + air_count(c, x, y, z + 1) + air_count(c, x, y, z - 1))
        }),
{
    lemma_block_mesh_len(c, x, y, z);
}

proof fn lemma_row_mesh_len(c: Chunk, x: int, y: int, z: nat)
    ensures
        row_mesh(c, x, y, z).len() == 18 * row_face_count(c, x, y, z),
    decreases z,
{
    if z > 0 {
        lemma_row_mesh_len(c, x, y, (z - 1) as nat);
        lemma_block_mesh_len(c, x, y, z - 1);
    }
}

proof fn lemma_column_mesh_len(c: Chunk, x: int, y: nat)
    ensures
        column_mesh(c, x, y).len() == 18 * column_face_count(c, x, y),
    decreases y,
{
    if y > 0 {
        lemma_column_mesh_len(c, x, (y - 1) as nat);
        lemma_row_mesh_len(c, x, y - 1, CHUNK_WIDTH as nat);
    }
}

proof fn lemma_slab_mesh_len(c: Chunk, x: nat)
    ensures
        slab_mesh(c, x).len() == 18 * slab_face_count(c, x),
    decreases x,
{
    if x > 0 {
        lemma_slab_mesh_len(c, (x - 1) as nat);
        lemma_column_mesh_len(c, x - 1, CHUNK_HEIGHT as nat);
    }
}

/// A chunk's mesh holds 18 coordinates (two triangles) for each face it shows.
pub proof fn lemma_mesh_face_count(c: Chunk)
    ensures
        chunk_mesh(c).len() == 18 * chunk_face_count(c),
{
    lemma_slab_mesh_len(c, CHUNK_WIDTH as nat);
}

/// Setting a bit above every set bit of `m` adds it.
proof fn lemma_or_new_bit(m: u32, k: u32)
    by (bit_vector)
    requires
        m < k,
        k == 1 || k == 2 || k == 4 || k == 8 || k == 16 || k == 32,
    ensures
        m | k == m + k,
{
}

/// Each of the six bits of a mask built from six flags gives its flag.
proof fn lemma_mask_literal_bits(m: u32, b0: bool, b1: bool, b2: bool, b3: bool, b4: bool, b5: bool)
    by (bit_vector)
    requires
        m == (if b0 { 1u32 } else { 0u32 }) + (if b1 { 2u32 } else { 0u32 }) + (if b2 { 4u32 } else { 0u32 })
            + (if b3 { 8u32 } else { 0u32 }) + (if b4 { 16u32 } else { 0u32 }) + (if b5 { 32u32 } else { 0u32 }),
    ensures
        (m & 1u32 != 0) == b0,
        (m & 2u32 != 0) == b1,
        (m & 4u32 != 0) == b2,
        (m & 8u32 != 0) == b3,
        (m & 16u32 != 0) == b4,
        (m & 32u32 != 0) == b5,
{
}

/// Testing bit `f` of a mask built from six flags gives flag `f`.
proof fn lemma_mask_bit(m: u32, b0: bool, b1: bool, b2: bool, b3: bool, b4: bool, b5: bool, f: u32)
    by (bit_vector)
    requires
        m == (if b0 { 1u32 } else { 0u32 }) + (if b1 { 2u32 } else { 0u32 }) + (if b2 { 4u32 } else { 0u32 })
            + (if b3 { 8u32 } else { 0u32 }) + (if b4 { 16u32 } else { 0u32 }) + (if b5 { 32u32 } else { 0u32 }),
        f < 6,
    ensures
        ((m & (1u32 << f)) != 0) == ((f == 0 && b0) || (f == 1 && b1) || (f == 2 && b2) || (f == 3 && b3)
            || (f == 4 && b4) || (f == 5 && b5)),
{
}

/// The mesh of the exposed faces among faces `0 .. f` of the block at `(x, y, z)`, in face order.
pub open spec fn block_faces(c: Chunk, x: int, y: int, z: int, f: nat) -> Seq<i64>
    decreases f,
{
    if f == 0 {
        seq![]
    } else {
        block_faces(c, x, y, z, (f - 1) as nat) + (if face_exposed(c, x, y, z, f - 1) {
            face_quad(f - 1, x, y, z)
        } else {
            seq![]
        })
    }
}

/// The mesh of the cell `(x, y, z)`: nothing for air, else its faces that border air.
pub open spec fn block_mesh(c: Chunk, x: int, y: int, z: int) -> Seq<i64> {
    if c.block_at(x, y, z) == AIR {
        seq![]
    } else {
        block_faces(c, x, y, z, 6)
    }
}

/// The mesh of the cells `(x, y, 0 .. z)`, in order of z.
pub open spec fn row_mesh(c: Chunk, x: int, y: int, z: nat) -> Seq<i64>
    decreases z,
{
    if z == 0 {
        seq![]
    } else {
        row_mesh(c, x, y, (z - 1) as nat) + block_mesh(c, x, y, z - 1)
    }
}

/// The mesh of the cells `(x, 0 .. y, _)`: whole rows, in order of y.
pub open spec fn column_mesh(c: Chunk, x: int, y: nat) -> Seq<i64>
    decreases y,
{
    if y == 0 {
        seq![]
    } else {
        column_mesh(c, x, (y - 1) as nat) + row_mesh(c, x, y - 1, CHUNK_WIDTH as nat)
    }
}

/// The mesh of the cells `(0 .. x, _, _)`: whole columns, in order of x.
pub open spec fn slab_mesh(c: Chunk, x: nat) -> Seq<i64>
    decreases x,
{
    if x == 0 {
        seq![]
    } else {
        slab_mesh(c, (x - 1) as nat) + column_mesh(c, x - 1, CHUNK_HEIGHT as nat)
    }
}

/// The mesh of a whole chunk: for each cell in order of x, then y, then z, the faces of a
/// solid block that border air, each face as two triangles.
pub open spec fn chunk_mesh(c: Chunk) -> Seq<i64> {
    slab_mesh(c, CHUNK_WIDTH as nat)
}

/// Shifting bit `i` of a mask built from six flags down to bit 0 gives flag `i`.
proof fn lemma_mask_shift_bit(m: u32, b0: bool, b1: bool, b2: bool, b3: bool, b4: bool, b5: bool, i: u32)
    by (bit_vector)
    requires
        m == (if b0 { 1u32 } else { 0u32 }) + (if b1 { 2u32 } else { 0u32 }) + (if b2 { 4u32 } else { 0u32 })
            + (if b3 { 8u32 } else { 0u32 }) + (if b4 { 16u32 } else { 0u32 }) + (if b5 { 32u32 } else { 0u32 }),
        i < 6,
    ensures
        m < 64,
        (((m >> i) & 1u32) == 1u32) == ((i == 0 && b0) || (i == 1 && b1) || (i == 2 && b2) || (i == 3 && b3)
            || (i == 4 && b4) || (i == 5 && b5)),
{
}

/// The face mask of a cell has six bits, and bit `i` is set exactly when face `i` borders air.
pub proof fn lemma_face_mask_bits(c: Chunk, x: int, y: int, z: int, i: u32)
    requires
        i < 6,
    ensures
        face_mask_of(c, x, y, z) < 64,
        ((face_mask_of(c, x, y, z) as u32 >> i) & 1u32 == 1u32) <==> face_exposed(c, x, y, z, i as int),
{
    lemma_mask_shift_bit(
        face_mask_of(c, x, y, z) as u32,
        face_exposed(c, x, y, z, 0),
        face_exposed(c, x, y, z, 1),
        face_exposed(c, x, y, z, 2),
        face_exposed(c, x, y, z, 3),
        face_exposed(c, x, y, z, 4),
        face_exposed(c, x, y, z, 5),
        i,
    );
}

impl Chunk {
    /// Bit `f` of the result is set exactly when face `f` of the cell `(x, y, z)` borders air.
    pub fn get_face_mask(&self, x: i32, y: i32, z: i32) -> (mask: u32)
        requires
            i32::MIN < x < i32::MAX,
            i32::MIN < y < i32::MAX,
            i32::MIN < z < i32::MAX,
        ensures
            mask == face_mask_of(*self, x as int, y as int, z as int),
            mask < 64,
            forall|i: u32|
                i < 6 ==> (((mask >> i) & 1u32 == 1u32) <==> face_exposed(*self, x as int, y as int, z as int, i as int)),
            (mask & 1 != 0) <==> self.block_at(x + 1, y as int, z as int) == AIR,
            (mask & 2 != 0) <==> self.block_at(x - 1, y as int, z as int) == AIR,
            (mask & 4 != 0) <==> self.block_at(x as int, y + 1, z as int) == AIR,
            (mask & 8 != 0) <==> self.block_at(x as int, y - 1, z as int) == AIR,
            (mask & 16 != 0) <==> self.block_at(x as int, y as int, z + 1) == AIR,
            (mask & 32 != 0) <==> self.block_at(x as int, y as int, z - 1) == AIR,
    {
        let mut mask: u32 = 0;

        if self.get_block(x + 1, y, z) == 0 {
            proof { lemma_or_new_bit(mask, 1); }
            mask |= 1;
        }
        if self.get_block(x - 1, y, z) == 0 {
            proof { lemma_or_new_bit(mask, 2); }
            mask |= 2;
        }
        if self.get_block(x, y + 1, z) == 0 {
            proof { lemma_or_new_bit(mask, 4); }
            mask |= 4;
        }
        if self.get_block(x, y - 1, z) == 0 {
            proof { lemma_or_new_bit(mask, 8); }
            mask |= 8;
        }
        if self.get_block(x, y, z + 1) == 0 {
            proof { lemma_or_new_bit(mask, 16); }
            mask |= 16;
        }
        if self.get_block(x, y, z - 1) == 0 {
            proof { lemma_or_new_bit(mask, 32); }
            mask |= 32;
        }

        proof {
            assert forall|i: u32| i < 6 implies (((mask >> i) & 1u32 == 1u32) <==> face_exposed(
                *self,
                x as int,
                y as int,
                z as int,
                i as int,
            )) by {
                lemma_face_mask_bits(*self, x as int, y as int, z as int, i);
            }
            lemma_face_mask_bits(*self, x as int, y as int, z as int, 0);
            lemma_mask_literal_bits(
                mask,
                face_exposed(*self, x as int, y as int, z as int, 0),
                face_exposed(*self, x as int, y as int, z as int, 1),
                face_exposed(*self, x as int, y as int, z as int, 2),
                face_exposed(*self, x as int, y as int, z as int, 3),
                face_exposed(*self, x as int, y as int, z as int, 4),
                face_exposed(*self, x as int, y as int, z as int, 5),
            );
        }

        mask
    }

    /// The mesh of the chunk (see `chunk_mesh`), in half-block units relative to the chunk origin.
    pub fn build_mesh(&self) -> (mesh: Vec<i64>)
        ensures
            mesh@ == chunk_mesh(*self),
            mesh@.len() == 18 * chunk_face_count(*self),
    {
        let mut mesh: Vec<i64> = Vec::new();

        for x in 0..CHUNK_WIDTH
            invariant
                mesh@ == slab_mesh(*self, x as nat),
        {
            for y in 0..CHUNK_HEIGHT
                invariant
                    0 <= x < CHUNK_WIDTH,
                    mesh@ == slab_mesh(*self, x as nat) + column_mesh(*self, x as int, y as nat),
            {
                for z in 0..CHUNK_WIDTH
                    invariant
                        0 <= x < CHUNK_WIDTH,
                        0 <= y < CHUNK_HEIGHT,
                        mesh@ == slab_mesh(*self, x as nat) + column_mesh(*self, x as int, y as nat)
                            + row_mesh(*self, x as int, y as int, z as nat),
                {
                    let ghost before = mesh@;
                    let block = self.get_block(x, y, z);

                    // air has no faces
                    if block != 0 {
                        let mask = self.get_face_mask(x, y, z);

                        for face in 0..6u32
                            invariant
                                0 <= x < CHUNK_WIDTH,
                                0 <= y < CHUNK_HEIGHT,
                                0 <= z < CHUNK_WIDTH,
                                mask == face_mask_of(*self, x as int, y as int, z as int),
                                mesh@ == before + block_faces(*self, x as int, y as int, z as int, face as nat),
                        {
                            proof {
                                lemma_mask_bit(
                                    mask,
                                    face_exposed(*self, x as int, y as int, z as int, 0),
                                    face_exposed(*self, x as int, y as int, z as int, 1),
                                    face_exposed(*self, x as int, y as int, z as int, 2),
                                    face_exposed(*self, x as int, y as int, z as int, 3),
                                    face_exposed(*self, x as int, y as int, z as int, 4),
                                    face_exposed(*self, x as int, y as int, z as int, 5),
                                    face,
                                );
                            }
                            if mask & (1 << face) != 0 {
                                Chunk::add_face(&mut mesh, face, x, y, z);
                            }
                            assert(mesh@ =~= before + block_faces(*self, x as int, y as int, z as int, (face + 1) as nat));
                        }
                    }
                    assert(mesh@ =~= before + block_mesh(*self, x as int, y as int, z as int));
                }
            }
        }
        proof {
            lemma_mesh_face_count(*self);
        }
        mesh
    }
}

} // verus!
