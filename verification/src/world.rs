//! The world: a 3 x 3 grid of chunks around the origin, addressed by global block coordinates.

use vstd::prelude::*;
use crate::arith::{trunc_div, trunc_rem};
use crate::chunk::{Chunk, AIR, CHUNK_WIDTH, CHUNK_HEIGHT, in_bounds, lemma_read_after_write};

verus! {

/// Number of chunks along each horizontal axis of the world.
pub const RENDER_DISTANCE: u32 = 3;

/// Number of chunk slots of the world.
pub open spec fn slot_count() -> int {
    RENDER_DISTANCE * RENDER_DISTANCE
}

/// Whether chunk coordinates name a slot of the world.
pub open spec fn chunk_in_range(cx: int, cz: int) -> bool {
    0 <= cx < RENDER_DISTANCE && 0 <= cz < RENDER_DISTANCE
}

/// Slot of the chunk at in-range chunk coordinates `(cx, cz)`.
pub open spec fn slot_of(cx: int, cz: int) -> int {
    cx * RENDER_DISTANCE + cz
}

/// Distinct in-range chunk coordinates occupy distinct slots, all within the slot table.
pub proof fn lemma_slot_of_bijective(cx1: int, cz1: int, cx2: int, cz2: int)
    requires
        chunk_in_range(cx1, cz1),
        chunk_in_range(cx2, cz2),
    ensures
        0 <= slot_of(cx1, cz1) < slot_count(),
        slot_of(cx1, cz1) == slot_of(cx2, cz2) ==> cx1 == cx2 && cz1 == cz2,
{
}

/// The chunks of the world, each in the slot given by `chunk_index`.
pub struct World {
    chunks: Vec<Option<Chunk>>,
    circvec_start_x: u32,
    circvec_start_z: u32,
    chunks_x_offset: i32,
    chunks_z_offset: i32,
}

impl World {
    /// The slot table always has one slot per chunk position.
    #[verifier::type_invariant]
    spec fn one_slot_per_chunk(self) -> bool {
        self.chunks@.len() == slot_count()
    }

    /// The slot table: slot `slot_of(cx, cz)` holds the chunk at `(cx, cz)`, if loaded.
    pub closed spec fn slots(self) -> Seq<Option<Chunk>> {
        Seq::new(slot_count() as nat, |i: int| self.chunks@[i])
    }

    /// Every world has one slot per chunk position.
    pub proof fn lemma_slots_len(self)
        ensures
            self.slots().len() == slot_count(),
    {
    }

    /// Scrolling state of the chunk ring buffer; no operation changes it.
    pub closed spec fn scroll_state(self) -> (u32, u32, i32, i32) {
        (self.circvec_start_x, self.circvec_start_z, self.chunks_x_offset, self.chunks_z_offset)
    }

    /// The chunk at chunk coordinates `(cx, cz)`; `None` outside the world or where no chunk is loaded.
    pub open spec fn chunk_at(self, cx: int, cz: int) -> Option<Chunk> {
        if chunk_in_range(cx, cz) {
            self.slots()[slot_of(cx, cz)]
        } else {
            None
        }
    }

    /// The block at global coordinates `(gx, gy, gz)`. The chunk is found by dividing x and z
    /// by 16 and the local cell by taking the remainder, both rounded toward zero as Rust does;
    /// air where no chunk holds the cell.
    pub open spec fn block_at(self, gx: int, gy: int, gz: int) -> u32 {
        match self.chunk_at(trunc_div(gx, 16), trunc_div(gz, 16)) {
            Some(c) => c.block_at(trunc_rem(gx, 16), gy, trunc_rem(gz, 16)),
            None => AIR,
        }
    }

    /// Slot index of chunk coordinates `(x, z)`, computed in `i32` as written
    /// `x * RENDER_DISTANCE + z % RENDER_DISTANCE` and then cast to `usize`.
    pub fn chunk_index(x: i32, z: i32) -> (r: usize)
        requires
            i32::MIN <= x * RENDER_DISTANCE <= i32::MAX,
            i32::MIN <= x * RENDER_DISTANCE + trunc_rem(z as int, RENDER_DISTANCE as int) <= i32::MAX,
        ensures
            r == #[verifier::truncate] ((x * RENDER_DISTANCE + trunc_rem(z as int, RENDER_DISTANCE as int)) as usize),
            chunk_in_range(x as int, z as int) ==> r == slot_of(x as int, z as int),
    {
        let col = z % RENDER_DISTANCE as i32;
        let slot = x * RENDER_DISTANCE as i32 + col;
        #[verifier::truncate]
        (slot as usize)
    }

    /// A world whose every chunk position holds a fresh chunk (see `Chunk::is_fresh`).
    /// Meshing and uploading the chunks is left to the renderer.
    pub fn new() -> (w: Self)
        ensures
            forall|cx: int, cz: int|
                chunk_in_range(cx, cz) ==> (#[trigger] w.chunk_at(cx, cz) matches Some(c) && c.is_fresh(cx, cz)),
            w.scroll_state() == (0u32, 0u32, 0i32, 0i32),
    {
        let mut chunks: Vec<Option<Chunk>> = Vec::new();
        for i in 0..RENDER_DISTANCE * RENDER_DISTANCE
            invariant
                chunks@.len() == i,
        {
            chunks.push(None);
        }

        for x in 0..RENDER_DISTANCE
            invariant
                chunks@.len() == slot_count(),
                forall|cx: int, cz: int|
                    chunk_in_range(cx, cz) && cx < x ==> (#[trigger] chunks@[slot_of(cx, cz)] matches Some(c)
                        && c.is_fresh(cx, cz)),
        {
            for z in 0..RENDER_DISTANCE
                invariant
                    0 <= x < RENDER_DISTANCE,
                    chunks@.len() == slot_count(),
                    forall|cx: int, cz: int|
                        chunk_in_range(cx, cz) && (cx < x || (cx == x && cz < z)) ==> (
                        #[trigger] chunks@[slot_of(cx, cz)] matches Some(c) && c.is_fresh(cx, cz)),
            {
                chunks[World::chunk_index(x as i32, z as i32)] = Some(Chunk::new(x as i32, z as i32));
            }
        }

        Self { chunks, circvec_start_x: 0, circvec_start_z: 0, chunks_x_offset: 0, chunks_z_offset: 0 }
    }

    /// The chunk at chunk coordinates `(x, z)`, for reading or changing in place; `None` outside
    /// the world or where no chunk is loaded. Whatever is done through the reference lands in
    /// that chunk's slot, and nothing else of the world changes.
    pub fn get_chunk(&mut self, x: i32, z: i32) -> (r: Option<&mut Chunk>)
        ensures
            r is Some <==> old(self).chunk_at(x as int, z as int) is Some,
            r is None ==> final(self).slots() == old(self).slots(),
            r is Some ==> *r.unwrap() == old(self).chunk_at(x as int, z as int).unwrap()
                && final(self).slots() == old(self).slots().update(
                slot_of(x as int, z as int),
                Some(*final(r.unwrap())),
            ),
            final(self).scroll_state() == old(self).scroll_state(),
    {
        proof {
            use_type_invariant(&*self);
        }
        if x < 0 || x >= RENDER_DISTANCE as i32 || z < 0 || z >= RENDER_DISTANCE as i32 {
            return None;
        }
        self.chunks[World::chunk_index(x, z)].as_mut()
    }

    /// The block at global coordinates `(gx, gy, gz)` (see `block_at`); the world is left as it was.
    pub fn get_block(&mut self, gx: i32, gy: i32, gz: i32) -> (b: u32)
        ensures
            b == old(self).block_at(gx as int, gy as int, gz as int),
            final(self).slots() == old(self).slots(),
            final(self).scroll_state() == old(self).scroll_state(),
    {
        proof {
            use_type_invariant(&*self);
        }
        let cx = gx / 16;
        let cz = gz / 16;
        let lx = gx % 16;
        let lz = gz % 16;

        let chunk = self.get_chunk(cx, cz);

        let b = if let Some(chunk) = chunk {
            chunk.get_block(lx, gy, lz)
        } else {
            0
        };
        assert(self.slots() =~= old(self).slots());
        b
    }

    /// Writes `block` at global coordinates `(gx, gy, gz)` into the chunk that holds them (a
    /// write at local coordinates outside that chunk changes nothing). Returns the chunk
    /// coordinates of that chunk, whose mesh is now stale, or `None` where no chunk is loaded.
    pub fn set_block(&mut self, gx: i32, gy: i32, gz: i32, block: u32) -> (touched: Option<(i32, i32)>)
        ensures
            final(self).is_block_write_of(*old(self), gx as int, gy as int, gz as int, block),
            touched == (if old(self).chunk_at(trunc_div(gx as int, 16), trunc_div(gz as int, 16)) is Some {
                Some((trunc_div(gx as int, 16) as i32, trunc_div(gz as int, 16) as i32))
            } else {
                None
            }),
    {
        proof {
            use_type_invariant(&*self);
        }
        let cx = gx / 16;
        let cz = gz / 16;
        let lx = gx % 16;
        let lz = gz % 16;

        let chunk = self.get_chunk(cx, cz);

        if let Some(chunk) = chunk {
            chunk.set_block(lx, gy, lz, block);
            // the chunk's mesh is rebuilt and uploaded by the caller
            Some((cx, cz))
        } else {
            None
        }
    }

    /// `self` is `before` after writing `block` at global coordinates `(gx, gy, gz)`: the chunk
    /// holding them, if loaded, has the block written at the local coordinates, and every other
    /// slot and the scrolling state are unchanged.
    pub open spec fn is_block_write_of(self, before: World, gx: int, gy: int, gz: int, block: u32) -> bool {
        let cx = trunc_div(gx, 16);
        let cz = trunc_div(gz, 16);
        &&& self.scroll_state() == before.scroll_state()
        &&& match before.chunk_at(cx, cz) {
            None => self.slots() == before.slots(),
            Some(c) => {
                &&& self.chunk_at(cx, cz) matches Some(c2) && c2.is_write_of(c, trunc_rem(gx, 16), gy, trunc_rem(gz, 16), block)
                &&& forall|i: int| 0 <= i < slot_count() && i != slot_of(cx, cz)
                    ==> #[trigger] self.slots()[i] == before.slots()[i]
            },
        }
    }
}

/// Whether global coordinates lie in the 48 x 256 x 48 blocks covered by the world's chunks.
pub open spec fn in_world(gx: int, gy: int, gz: int) -> bool {
    &&& 0 <= gx < RENDER_DISTANCE * CHUNK_WIDTH
    &&& 0 <= gy < CHUNK_HEIGHT
    &&& 0 <= gz < RENDER_DISTANCE * CHUNK_WIDTH
}

/// Splitting a coordinate into chunk and local parts, rounding toward zero, loses nothing:
/// two coordinates with the same parts are equal.
pub proof fn lemma_split_injective(a: int, b: int)
    requires
        trunc_div(a, 16) == trunc_div(b, 16),
        trunc_rem(a, 16) == trunc_rem(b, 16),
    ensures
        a == b,
{
}

/// Reading the world after a write gives back the written block at the written coordinates
/// when a loaded chunk holds them, and the earlier block everywhere else.
pub proof fn lemma_world_read_after_write(
    before: World,
    after: World,
    gx: int,
    gy: int,
    gz: int,
    block: u32,
    hx: int,
    hy: int,
    hz: int,
)
    requires
        after.is_block_write_of(before, gx, gy, gz, block),
    ensures
        after.block_at(hx, hy, hz) == (if hx == gx && hy == gy && hz == gz
            && before.chunk_at(trunc_div(gx, 16), trunc_div(gz, 16)) is Some
            && in_bounds(trunc_rem(gx, 16), gy, trunc_rem(gz, 16)) {
            block
        } else {
            before.block_at(hx, hy, hz)
        }),
{
    let cx = trunc_div(gx, 16);
    let cz = trunc_div(gz, 16);
    let hcx = trunc_div(hx, 16);
    let hcz = trunc_div(hz, 16);
    match before.chunk_at(cx, cz) {
        None => {},
        Some(c) => {
            if hcx == cx && hcz == cz {
                c.lemma_blocks_len();
                lemma_read_after_write(
                    c.blocks(),
                    trunc_rem(gx, 16),
                    gy,
                    trunc_rem(gz, 16),
                    block,
                    trunc_rem(hx, 16),
                    hy,
                    trunc_rem(hz, 16),
                );
                if trunc_rem(hx, 16) == trunc_rem(gx, 16) && trunc_rem(hz, 16) == trunc_rem(gz, 16) {
                    lemma_split_injective(hx, gx);
                    lemma_split_injective(hz, gz);
                }
            } else if chunk_in_range(hcx, hcz) {
                lemma_slot_of_bijective(hcx, hcz, cx, cz);
                assert(after.slots()[slot_of(hcx, hcz)] == before.slots()[slot_of(hcx, hcz)]);
            }
        },
    }
}

/// In a new world every cell of the world holds block id 1, and every other cell is air.
pub proof fn lemma_new_world_blocks(w: World, gx: int, gy: int, gz: int)
    requires
        forall|cx: int, cz: int|
            chunk_in_range(cx, cz) ==> (#[trigger] w.chunk_at(cx, cz) matches Some(c) && c.is_fresh(cx, cz)),
    ensures
        w.block_at(gx, gy, gz) == (if in_world(gx, gy, gz) { 1u32 } else { AIR }),
{
    let cx = trunc_div(gx, 16);
    let cz = trunc_div(gz, 16);
    if chunk_in_range(cx, cz) {
        assert(w.chunk_at(cx, cz) matches Some(c) && c.is_fresh(cx, cz));
    }
}

} // verus!
