//! A column of voxels: 16 x 256 x 16 block ids in a flat buffer.

use vstd::prelude::*;
use crate::arith::trunc_rem;

verus! {

/// Width of a chunk along x and z, in blocks.
pub const CHUNK_WIDTH: i32 = 16;
/// Height of a chunk along y, in blocks.
pub const CHUNK_HEIGHT: i32 = 256;
/// Number of blocks in one horizontal layer of a chunk.
pub const CHUNK_AREA: i32 = CHUNK_WIDTH * CHUNK_WIDTH;
/// Number of blocks in a chunk.
pub const CHUNK_VOLUME: i32 = CHUNK_AREA * CHUNK_HEIGHT;

/// Block id of an empty cell.
pub const AIR: u32 = 0;

/// Whether local coordinates name a cell of a chunk.
pub open spec fn in_bounds(x: int, y: int, z: int) -> bool {
    &&& 0 <= x < CHUNK_WIDTH
    &&& 0 <= y < CHUNK_HEIGHT
    &&& 0 <= z < CHUNK_WIDTH
}

/// Position of the cell `(x, y, z)` in the flat block buffer: x fastest, then z, then y.
pub open spec fn index_of(x: int, y: int, z: int) -> int {
    x + z * CHUNK_WIDTH + y * CHUNK_AREA
}

/// The flat-buffer position of in-bounds coordinates lies in the buffer, and distinct
/// cells have distinct positions.
pub proof fn lemma_index_of_bijective(x1: int, y1: int, z1: int, x2: int, y2: int, z2: int)
    requires
        in_bounds(x1, y1, z1),
        in_bounds(x2, y2, z2),
    ensures
        0 <= index_of(x1, y1, z1) < CHUNK_VOLUME,
        index_of(x1, y1, z1) == index_of(x2, y2, z2) ==> (x1 == x2 && y1 == y2 && z1 == z2),
{
}

/// Every position of the flat buffer is the position of exactly one in-bounds cell.
pub proof fn lemma_index_of_onto(i: int)
    requires
        0 <= i < CHUNK_VOLUME,
    ensures
        in_bounds(i % 16, i / 256, (i / 16) % 16),
        index_of(i % 16, i / 256, (i / 16) % 16) == i,
{
}

/// Flat-buffer position of `(x, y, z)`, computed in `i32` as written
/// `x + z * CHUNK_WIDTH + (y % CHUNK_HEIGHT) * CHUNK_AREA` and then cast to `usize`.
pub fn index(x: i32, y: i32, z: i32) -> (r: usize)
    requires
        i32::MIN <= z * CHUNK_WIDTH <= i32::MAX,
        i32::MIN <= x + z * CHUNK_WIDTH <= i32::MAX,
        i32::MIN <= x + z * CHUNK_WIDTH + trunc_rem(y as int, CHUNK_HEIGHT as int) * CHUNK_AREA <= i32::MAX,
    ensures
        r == #[verifier::truncate] ((x + z * CHUNK_WIDTH + trunc_rem(y as int, CHUNK_HEIGHT as int) * CHUNK_AREA) as usize),
        in_bounds(x as int, y as int, z as int) ==> r == index_of(x as int, y as int, z as int),
{
    let layer = y % CHUNK_HEIGHT;
    let offset = x + z * CHUNK_WIDTH + layer * CHUNK_AREA;
    #[verifier::truncate]
    (offset as usize)
}

/// The block that a flat buffer holds at local coordinates `(x, y, z)`; air outside the chunk.
pub open spec fn cell(blocks: Seq<u32>, x: int, y: int, z: int) -> u32 {
    if in_bounds(x, y, z) {
        blocks[index_of(x, y, z)]
    } else {
        AIR
    }
}

/// The flat buffer after writing `block` at `(x, y, z)`: a write outside the chunk changes nothing.
pub open spec fn written(blocks: Seq<u32>, x: int, y: int, z: int, block: u32) -> Seq<u32> {
    if in_bounds(x, y, z) {
        blocks.update(index_of(x, y, z), block)
    } else {
        blocks
    }
}

/// Reading a cell after a write gives back the written block where the write landed in the
/// chunk, and the earlier block everywhere else.
pub proof fn lemma_read_after_write(
    blocks: Seq<u32>,
    x: int,
    y: int,
    z: int,
    block: u32,
    px: int,
    py: int,
    pz: int,
)
    requires
        blocks.len() == CHUNK_VOLUME,
    ensures
        cell(written(blocks, x, y, z, block), px, py, pz) == (if in_bounds(x, y, z) && px == x
            && py == y && pz == z {
            block
        } else {
            cell(blocks, px, py, pz)
        }),
{
    if in_bounds(x, y, z) && in_bounds(px, py, pz) {
        lemma_index_of_bijective(x, y, z, px, py, pz);
        lemma_index_of_bijective(px, py, pz, x, y, z);
    }
}

/// A 16 x 256 x 16 column of blocks at chunk coordinates `(x, z)`, together with the
/// handles of the GPU buffers that hold its mesh.
pub struct Chunk {
    x: i32,
    z: i32,
    block_data: Vec<u32>,
    vao: u32,
    vbo: u32,
    vertex_count: u32,
}

impl Chunk {
    /// The block buffer always holds one id per cell.
    #[verifier::type_invariant]
    spec fn buffer_holds_every_cell(self) -> bool {
        self.block_data@.len() == CHUNK_VOLUME
    }

    /// The block ids, one per cell, in flat-buffer order (see `index_of`).
    pub closed spec fn blocks(self) -> Seq<u32> {
        Seq::new(CHUNK_VOLUME as nat, |i: int| self.block_data@[i])
    }

    /// The block buffer of every chunk holds one id per cell.
    pub proof fn lemma_blocks_len(self)
        ensures
            self.blocks().len() == CHUNK_VOLUME,
    {
    }

    /// Chunk coordinate along x.
    pub closed spec fn chunk_x(self) -> int {
        self.x as int
    }

    /// Chunk coordinate along z.
    pub closed spec fn chunk_z(self) -> int {
        self.z as int
    }

    /// Handles of the vertex array and vertex buffer, and the vertex count, of the uploaded mesh.
    pub closed spec fn gpu_state(self) -> (u32, u32, u32) {
        (self.vao, self.vbo, self.vertex_count)
    }

    /// The block at local coordinates `(x, y, z)`; air outside the chunk.
    pub open spec fn block_at(self, x: int, y: int, z: int) -> u32 {
        cell(self.blocks(), x, y, z)
    }

    /// The chunk is at chunk coordinates `(x, z)`, every cell holds block id 1, and no mesh
    /// has been uploaded.
    pub open spec fn is_fresh(self, x: int, z: int) -> bool {
        &&& self.chunk_x() == x
        &&& self.chunk_z() == z
        &&& self.blocks() == Seq::new(CHUNK_VOLUME as nat, |i: int| 1u32)
        &&& self.gpu_state() == (0u32, 0u32, 0u32)
    }

    /// `self` is `before` with `block` written at local coordinates `(x, y, z)`.
    pub open spec fn is_write_of(self, before: Chunk, x: int, y: int, z: int, block: u32) -> bool {
        &&& self.blocks() == written(before.blocks(), x, y, z, block)
        &&& self.chunk_x() == before.chunk_x()
        &&& self.chunk_z() == before.chunk_z()
        &&& self.gpu_state() == before.gpu_state()
    }

    /// After `set_block(x, y, z, block)`, `get_block` gives back `block` at `(x, y, z)` when
    /// that cell lies in the chunk, and the earlier block at every other coordinate.
    pub proof fn lemma_set_then_get(
        before: Chunk,
        after: Chunk,
        x: int,
        y: int,
        z: int,
        block: u32,
        px: int,
        py: int,
        pz: int,
    )
        requires
            after.is_write_of(before, x, y, z, block),
        ensures
            after.block_at(px, py, pz) == (if in_bounds(x, y, z) && px == x && py == y && pz == z {
                block
            } else {
                before.block_at(px, py, pz)
            }),
    {
        before.lemma_blocks_len();
        lemma_read_after_write(before.blocks(), x, y, z, block, px, py, pz);
    }

    /// A chunk at chunk coordinates `(x, z)` whose every cell holds block id 1, with no mesh uploaded.
    pub fn new(x: i32, z: i32) -> (c: Self)
        ensures
            c.is_fresh(x as int, z as int),
    {
        let block_data = vec![1u32; CHUNK_VOLUME as usize];
        let c = Self { x, z, block_data, vao: 0, vbo: 0, vertex_count: 0 };
        assert(c.blocks() =~= Seq::new(CHUNK_VOLUME as nat, |i: int| 1u32));
        c
    }

    /// Writes `block` at local coordinates `(x, y, z)`; does nothing outside the chunk.
    pub fn set_block(&mut self, x: i32, y: i32, z: i32, block: u32)
        ensures
            final(self).is_write_of(*old(self), x as int, y as int, z as int, block),
    {
        proof {
            use_type_invariant(&*self);
        }
        // outside the chunk: nothing to write
        if x < 0 || x >= CHUNK_WIDTH || z < 0 || z >= CHUNK_WIDTH || y < 0 || y >= CHUNK_HEIGHT {
            return;
        }
        let i = index(x, y, z);
        self.block_data[i] = block;
        assert(self.blocks() =~= written(old(self).blocks(), x as int, y as int, z as int, block));
    }

    /// The block at local coordinates `(x, y, z)`; air (0) outside the chunk.
    pub fn get_block(&self, x: i32, y: i32, z: i32) -> (b: u32)
        ensures
            b == self.block_at(x as int, y as int, z as int),
    {
        proof {
            use_type_invariant(self);
        }
        // outside the chunk: air
        if x < 0 || x >= CHUNK_WIDTH || z < 0 || z >= CHUNK_WIDTH || y < 0 || y >= CHUNK_HEIGHT {
            return 0;
        }
        self.block_data[index(x, y, z)]
    }

    /// Chunk coordinate along x.
    pub fn x(&self) -> (r: i32)
        ensures
            r == self.chunk_x(),
    {
        self.x
    }

    /// Chunk coordinate along z.
    pub fn z(&self) -> (r: i32)
        ensures
            r == self.chunk_z(),
    {
        self.z
    }

    /// Handle of the vertex array of the uploaded mesh (0 when none).
    pub fn vao(&self) -> (r: u32)
        ensures
            r == self.gpu_state().0,
    {
        self.vao
    }

    /// Handle of the vertex buffer of the uploaded mesh (0 when none).
    pub fn vbo(&self) -> (r: u32)
        ensures
            r == self.gpu_state().1,
    {
        self.vbo
    }

    /// Number of vertices of the uploaded mesh.
    pub fn vertex_count(&self) -> (r: u32)
        ensures
            r == self.gpu_state().2,
    {
        self.vertex_count
    }

    /// Records a freshly uploaded mesh of `mesh_len` coordinates: its vertex array and buffer
    /// handles, and its vertex count (three coordinates per vertex, truncated to `u32`).
    pub fn record_upload(&mut self, vao: u32, vbo: u32, mesh_len: usize)
        ensures
            final(self).gpu_state() == (vao, vbo, #[verifier::truncate] ((mesh_len / 3) as u32)),
            final(self).blocks() == old(self).blocks(),
            final(self).chunk_x() == old(self).chunk_x(),
            final(self).chunk_z() == old(self).chunk_z(),
    {
        proof {
            use_type_invariant(&*self);
        }
        self.vertex_count = #[verifier::truncate] ((mesh_len / 3) as u32);
        self.vao = vao;
        self.vbo = vbo;
    }
}

} // verus!
