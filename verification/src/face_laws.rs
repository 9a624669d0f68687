//! Laws of the mesh: where the vertices of each face lie, how its two triangles cover it,
//! which faces a cell's mesh holds, and that a chunk's mesh runs over every cell in order.

use vstd::prelude::*;
use crate::chunk::{Chunk, AIR};
use crate::mesh::{
    block_faces, block_mesh, chunk_mesh, column_mesh, face_exposed, face_quad, face_vertex_offsets, neighbor,
    row_mesh, slab_mesh,
};

verus! {

/// Component `a` (0 for x, 1 for y, 2 for z) of a point.
pub open spec fn component(p: (int, int, int), a: int) -> int {
    if a == 0 {
        p.0
    } else if a == 1 {
        p.1
    } else {
        p.2
    }
}

/// Component `a` of the outward direction of face `f`: the step from a cell to the cell
/// across that face.
pub open spec fn face_direction(f: int, a: int) -> int {
    component(neighbor(0, 0, 0, f), a) 
}

/// Offset of vertex `k` of face `f` from the block centre, in half blocks.
spec fn offset_of(f: int, k: int) -> (int, int, int) {
    (face_vertex_offsets()[18 * f + 3 * k], face_vertex_offsets()[18 * f + 3 * k + 1],
        face_vertex_offsets()[18 * f + 3 * k + 2])
}

spec fn offset_component_ok(f: int, p: (int, int, int), a: int) -> bool {
    if face_direction(f, a) != 0 {
        component(p, a) == face_direction(f, a)
    } else {
        component(p, a) == 1 || component(p, a) == -1
    }
}

spec fn table_on_face(f: int, k: int) -> bool {
    offset_component_ok(f, offset_of(f, k), 0) && offset_component_ok(f, offset_of(f, k), 1)
        && offset_component_ok(f, offset_of(f, k), 2)
}

proof fn lemma_table_on_face(f: int, k: int)
    requires
        0 <= f < 6,
        0 <= k < 6,
    ensures
        table_on_face(f, k),
{
    assert(face_vertex_offsets().len() == 108);
}

/// Within each triangle of a face in the table, the three vertices differ.
proof fn lemma_table_triangles_proper(f: int, t: int, i: int, j: int)
    requires
        0 <= f < 6,
        0 <= t < 2,
        0 <= i < j < 3,
    ensures
        offset_of(f, 3 * t + i) != offset_of(f, 3 * t + j),
{
    assert(face_vertex_offsets().len() == 108);
}

/// Every corner of a face is among its six vertices in the table.
proof fn lemma_table_covers_corners(f: int, p: (int, int, int))
    requires
        0 <= f < 6,
        offset_component_ok(f, p, 0),
        offset_component_ok(f, p, 1),
        offset_component_ok(f, p, 2),
    ensures
        offset_of(f, 0) == p || offset_of(f, 1) == p || offset_of(f, 2) == p || offset_of(f, 3) == p
            || offset_of(f, 4) == p || offset_of(f, 5) == p,
{
    assert(face_vertex_offsets().len() == 108);
}

/// Two distinct corners that both triangles of a face use lie diagonally opposite.
proof fn lemma_table_shared_diagonal(f: int, i: int, j: int, i2: int, j2: int, a: int)
    requires
        0 <= f < 6,
        0 <= i < 3,
        0 <= j < 3,
        3 <= i2 < 6,
        3 <= j2 < 6,
        0 <= a < 3,
        offset_of(f, i) == offset_of(f, i2),
        offset_of(f, j) == offset_of(f, j2),
        offset_of(f, i) != offset_of(f, j),
        face_direction(f, a) == 0,
    ensures
        component(offset_of(f, i), a) != component(offset_of(f, j), a),
{
    assert(face_vertex_offsets().len() == 108);
}

/// Vertex `k` (0 to 5: two triangles of three) of face `f` of the block at `(x, y, z)`, as
/// the mesh holds it, in half blocks.
pub open spec fn face_vertex(f: int, x: int, y: int, z: int, k: int) -> (int, int, int) {
    let q = face_quad(f, x, y, z);
    (q[3 * k] as int, q[3 * k + 1] as int, q[3 * k + 2] as int)
}

/// Whether `p` (in half blocks) is a corner of face `f` of the block at `(x, y, z)`: on the
/// face's plane, half a block out from the centre along the face's direction, and half a
/// block either way from the centre along the two other axes.
pub open spec fn is_face_corner(f: int, x: int, y: int, z: int, p: (int, int, int)) -> bool {
    &&& corner_component(f, 0, x, p.0)
    &&& corner_component(f, 1, y, p.1)
    &&& corner_component(f, 2, z, p.2)
}

/// Component `a` of a corner of face `f` of a block whose centre has component `c` (in blocks):
/// `v` is half a block out along the face's direction, or half a block either side of the centre
/// along an axis the face spans.
pub open spec fn corner_component(f: int, a: int, c: int, v: int) -> bool {
    if face_direction(f, a) != 0 {
        v == 2 * c + face_direction(f, a)
    } else {
        v == 2 * c - 1 || v == 2 * c + 1
    }
}

/// Two corners of face `f` lie diagonally opposite: they differ along both axes the face spans.
pub open spec fn opposite_corners(f: int, p: (int, int, int), q: (int, int, int)) -> bool {
    &&& face_direction(f, 0) == 0 ==> p.0 != q.0
    &&& face_direction(f, 1) == 0 ==> p.1 != q.1
    &&& face_direction(f, 2) == 0 ==> p.2 != q.2
}

/// Whether a coordinate is one that a block of the mesh can have.
pub open spec fn block_coordinate(c: int) -> bool {
    i32::MIN <= c <= i32::MAX
}

proof fn lemma_face_vertex_offset(f: int, x: int, y: int, z: int, k: int)
    requires
        0 <= f < 6,
        0 <= k < 6,
        block_coordinate(x),
        block_coordinate(y),
        block_coordinate(z),
    ensures
        face_vertex(f, x, y, z, k) == (2 * x + offset_of(f, k).0, 2 * y + offset_of(f, k).1, 2 * z
            + offset_of(f, k).2),
        -1 <= offset_of(f, k).0 <= 1,
        -1 <= offset_of(f, k).1 <= 1,
        -1 <= offset_of(f, k).2 <= 1,
{
    lemma_table_on_face(f, k);
    assert((3 * k) % 3 == 0 && (3 * k + 1) % 3 == 1 && (3 * k + 2) % 3 == 2);
}

/// Every vertex of every face of a block lies at a corner of that face: the top face's
/// vertices have y = 2y + 1, the right face's x = 2x + 1, and so on, with the other two
/// coordinates half a block either side of the centre.
pub proof fn lemma_face_vertices_at_corners(f: int, x: int, y: int, z: int, k: int)
    requires
        0 <= f < 6,
        0 <= k < 6,
        block_coordinate(x),
        block_coordinate(y),
        block_coordinate(z),
    ensures
        is_face_corner(f, x, y, z, face_vertex(f, x, y, z, k)),
{
    lemma_face_vertex_offset(f, x, y, z, k);
    lemma_table_on_face(f, k);
}

/// The two triangles of each face (vertices 0 to 2 and 3 to 5) tile its square: each triangle
/// has three distinct corners,
/// together they use all four corners, and the two corners they share lie diagonally opposite.
pub proof fn lemma_face_triangles_tile(f: int, x: int, y: int, z: int)
    requires
        0 <= f < 6,
        block_coordinate(x),
        block_coordinate(y),
        block_coordinate(z),
    ensures
        forall|i: int, j: int|
            0 <= i < j < 6 && i / 3 == j / 3 ==> #[trigger] face_vertex(f, x, y, z, i)
                != #[trigger] face_vertex(f, x, y, z, j),
        forall|p: (int, int, int)|
            is_face_corner(f, x, y, z, p) ==> exists|k: int|
                0 <= k < 6 && #[trigger] face_vertex(f, x, y, z, k) == p,
        forall|i: int, j: int, i2: int, j2: int|
            0 <= i < 3 && 0 <= j < 3 && 3 <= i2 < 6 && 3 <= j2 < 6
                && #[trigger] face_vertex(f, x, y, z, i) == #[trigger] face_vertex(f, x, y, z, i2)
                && #[trigger] face_vertex(f, x, y, z, j) == #[trigger] face_vertex(f, x, y, z, j2)
                && face_vertex(f, x, y, z, i) != face_vertex(f, x, y, z, j)
                ==> opposite_corners(f, face_vertex(f, x, y, z, i), face_vertex(f, x, y, z, j)),
{
    assert forall|i: int, j: int|
        0 <= i < j < 6 && i / 3 == j / 3 implies #[trigger] face_vertex(f, x, y, z, i)
            != #[trigger] face_vertex(f, x, y, z, j) by {
        lemma_face_vertex_offset(f, x, y, z, i);
        lemma_face_vertex_offset(f, x, y, z, j);
        lemma_table_triangles_proper(f, i / 3, i % 3, j % 3);
    }
    assert forall|p: (int, int, int)| is_face_corner(f, x, y, z, p) implies exists|k: int|
        0 <= k < 6 && #[trigger] face_vertex(f, x, y, z, k) == p by {
        let r = (p.0 - 2 * x, p.1 - 2 * y, p.2 - 2 * z);
        lemma_table_covers_corners(f, r);
        let k: int = if offset_of(f, 0) == r {
            0
        } else if offset_of(f, 1) == r {
            1
        } else if offset_of(f, 2) == r {
            2
        } else if offset_of(f, 3) == r {
            3
        } else if offset_of(f, 4) == r {
            4
        } else {
            5
        };
        lemma_face_vertex_offset(f, x, y, z, k);
        assert(face_vertex(f, x, y, z, k) == p);
    }
    assert forall|i: int, j: int, i2: int, j2: int|
        0 <= i < 3 && 0 <= j < 3 && 3 <= i2 < 6 && 3 <= j2 < 6
            && #[trigger] face_vertex(f, x, y, z, i) == #[trigger] face_vertex(f, x, y, z, i2)
            && #[trigger] face_vertex(f, x, y, z, j) == #[trigger] face_vertex(f, x, y, z, j2)
            && face_vertex(f, x, y, z, i) != face_vertex(f, x, y, z, j)
        implies opposite_corners(f, face_vertex(f, x, y, z, i), face_vertex(f, x, y, z, j)) by {
        lemma_face_vertex_offset(f, x, y, z, i);
        lemma_face_vertex_offset(f, x, y, z, j);
        lemma_face_vertex_offset(f, x, y, z, i2);
        lemma_face_vertex_offset(f, x, y, z, j2);
        if face_direction(f, 0) == 0 {
            lemma_table_shared_diagonal(f, i, j, i2, j2, 0);
        }
        if face_direction(f, 1) == 0 {
            lemma_table_shared_diagonal(f, i, j, i2, j2, 1);
        }
        if face_direction(f, 2) == 0 {
            lemma_table_shared_diagonal(f, i, j, i2, j2, 2);
        }
    }
}

/// The `k`-th face (18 coordinates) of a mesh.
pub open spec fn mesh_face(mesh: Seq<i64>, k: int) -> Seq<i64> {
    mesh.subrange(18 * k, 18 * k + 18)
}

/// The `k`-th face of `mesh` is `quad`.
pub open spec fn face_at(mesh: Seq<i64>, k: int, quad: Seq<i64>) -> bool {
    mesh_face(mesh, k) == quad
}

/// The cell one step from `(x, y, z)` in face `f`'s direction holds air.
pub open spec fn air_beyond(c: Chunk, x: int, y: int, z: int, f: int) -> bool {
    c.block_at(x + face_direction(f, 0), y + face_direction(f, 1), z + face_direction(f, 2)) == AIR
}

/// `quad` is one of the faces `0 .. n` of the block at `(x, y, z)` whose outward direction
/// leads to air.
pub open spec fn is_air_face(c: Chunk, x: int, y: int, z: int, quad: Seq<i64>, n: int) -> bool {
    exists|f: int| 0 <= f < n && air_beyond(c, x, y, z, f) && #[trigger] face_quad(f, x, y, z) == quad
}

/// Every face of `mesh` is a face of the block at `(x, y, z)`, among faces `0 .. n`, whose
/// outward direction leads to air.
pub open spec fn faces_lead_to_air(c: Chunk, x: int, y: int, z: int, mesh: Seq<i64>, n: int) -> bool {
    forall|k: int| 0 <= k < mesh.len() / 18 ==> is_air_face(c, x, y, z, #[trigger] mesh_face(mesh, k), n)
}

/// Every face among `0 .. n` of the block at `(x, y, z)` whose outward direction leads to air
/// is a face of `mesh`.
pub open spec fn air_faces_present(c: Chunk, x: int, y: int, z: int, mesh: Seq<i64>, n: int) -> bool {
    forall|f: int|
        0 <= f < n && #[trigger] air_beyond(c, x, y, z, f) ==> exists|k: int|
            0 <= k < mesh.len() / 18 && #[trigger] face_at(mesh, k, face_quad(f, x, y, z))
}

proof fn lemma_face_of_prefix(a: Seq<i64>, q: Seq<i64>, k: int)
    requires
        a.len() % 18 == 0,
        0 <= k < a.len() / 18,
    ensures
        mesh_face(a + q, k) == mesh_face(a, k),
{
    assert(mesh_face(a + q, k) =~= mesh_face(a, k));
}

proof fn lemma_face_appended(a: Seq<i64>, q: Seq<i64>)
    requires
        a.len() % 18 == 0,
        q.len() == 18,
    ensures
        mesh_face(a + q, (a.len() / 18) as int) == q,
        (a + q).len() / 18 == a.len() / 18 + 1,
{
    assert(mesh_face(a + q, (a.len() / 18) as int) =~= q);
}

proof fn lemma_block_faces_shape(c: Chunk, x: int, y: int, z: int, n: nat)
    requires
        n <= 6,
    ensures
        block_faces(c, x, y, z, n).len() % 18 == 0,
        faces_lead_to_air(c, x, y, z, block_faces(c, x, y, z, n), n as int),
        air_faces_present(c, x, y, z, block_faces(c, x, y, z, n), n as int),
    decreases n,
{
    if n > 0 {
        let m = (n - 1) as nat;
        let g = n - 1;
        lemma_block_faces_shape(c, x, y, z, m);
        let a = block_faces(c, x, y, z, m);
        let s = block_faces(c, x, y, z, n);
        assert(face_exposed(c, x, y, z, g) == air_beyond(c, x, y, z, g));
        if !face_exposed(c, x, y, z, g) {
            assert(s =~= a);
            assert forall|k: int| 0 <= k < s.len() / 18 implies is_air_face(c, x, y, z, #[trigger] mesh_face(s, k), n as int) by {
                assert(mesh_face(a, k) == mesh_face(s, k));
                let f0 = choose|f: int|
                    0 <= f < m as int && air_beyond(c, x, y, z, f) && #[trigger] face_quad(f, x, y, z) == mesh_face(a, k);
                assert(face_quad(f0, x, y, z) == mesh_face(s, k));
            }
            assert forall|f: int| 0 <= f < n as int && #[trigger] air_beyond(c, x, y, z, f) implies exists|k: int|
                0 <= k < s.len() / 18 && #[trigger] face_at(s, k, face_quad(f, x, y, z)) by {
                assert(f < m);
            }
        } else {
            let q = face_quad(g, x, y, z);
            assert(s == a + q);
            lemma_face_appended(a, q);
            assert forall|k: int| 0 <= k < s.len() / 18 implies is_air_face(c, x, y, z, #[trigger] mesh_face(s, k), n as int) by {
                if k < a.len() / 18 {
                    lemma_face_of_prefix(a, q, k);
                    assert(is_air_face(c, x, y, z, mesh_face(a, k), m as int));
                    let f0 = choose|f: int|
                        0 <= f < m as int && air_beyond(c, x, y, z, f) && #[trigger] face_quad(f, x, y, z) == mesh_face(a, k);
                    assert(face_quad(f0, x, y, z) == mesh_face(s, k));
                } else {
                    assert(face_quad(g, x, y, z) == mesh_face(s, k));
                }
            }
            assert forall|f: int| 0 <= f < n as int && #[trigger] air_beyond(c, x, y, z, f) implies exists|k: int|
                0 <= k < s.len() / 18 && #[trigger] face_at(s, k, face_quad(f, x, y, z)) by {
                if f < m {
                    let k0 = choose|k: int|
                        0 <= k < a.len() / 18 && #[trigger] face_at(a, k, face_quad(f, x, y, z));
                    lemma_face_of_prefix(a, q, k0);
                    assert(face_at(s, k0, face_quad(f, x, y, z)));
                } else {
                    assert(face_at(s, (a.len() / 18) as int, face_quad(f, x, y, z)));
                }
            }
        }
    }
}

/// The mesh of a cell is a run of whole faces of its block. Each face in it is a face of
/// that block whose outward direction leads to an air cell, and every face whose outward
/// direction leads to air is in it, when the cell is solid; for an air cell it is empty.
pub proof fn lemma_block_mesh_faces(c: Chunk, x: int, y: int, z: int)
    ensures
        block_mesh(c, x, y, z).len() % 18 == 0,
        c.block_at(x, y, z) == AIR ==> block_mesh(c, x, y, z).len() == 0,
        faces_lead_to_air(c, x, y, z, block_mesh(c, x, y, z), 6),
        c.block_at(x, y, z) != AIR ==> air_faces_present(c, x, y, z, block_mesh(c, x, y, z), 6),
{
    lemma_block_faces_shape(c, x, y, z, 6);
}

/// The mesh of the first `n` cells of a chunk taken in order of x, then y, then z (the
/// `i`-th cell being `(i / 4096, (i / 16) % 256, i % 16)`), one after the other.
pub open spec fn cells_mesh(c: Chunk, n: nat) -> Seq<i64> {
    Seq::new(n, |i: int| block_mesh(c, i / 4096, (i / 16) % 256, i % 16)).flatten()
}

proof fn lemma_cells_mesh_step(c: Chunk, x: int, y: int, z: int)
    requires
        0 <= x < 16,
        0 <= y < 256,
        0 <= z < 16,
    ensures
        cells_mesh(c, (4096 * x + 16 * y + z + 1) as nat) == cells_mesh(c, (4096 * x + 16 * y + z) as nat)
            + block_mesh(c, x, y, z),
{
    let n = 4096 * x + 16 * y + z;
    let f = |i: int| block_mesh(c, i / 4096, (i / 16) % 256, i % 16);
    assert(n / 4096 == x && (n / 16) % 256 == y && n % 16 == z) by (nonlinear_arith)
        requires
            n == 4096 * x + 16 * y + z,
            0 <= x < 16,
            0 <= y < 256,
            0 <= z < 16,
    ;
    assert(Seq::new((n + 1) as nat, f) =~= Seq::new(n as nat, f).push(f(n)));
    Seq::new(n as nat, f).lemma_flatten_push(f(n));
}

proof fn lemma_row_is_cells(c: Chunk, x: int, y: int, z: nat, before: Seq<i64>)
    requires
        0 <= x < 16,
        0 <= y < 256,
        z <= 16,
        before == cells_mesh(c, (4096 * x + 16 * y) as nat),
    ensures
        before + row_mesh(c, x, y, z) == cells_mesh(c, (4096 * x + 16 * y + z) as nat),
    decreases z,
{
    if z == 0 {
        assert(before + row_mesh(c, x, y, 0) =~= before);
    } else {
        lemma_row_is_cells(c, x, y, (z - 1) as nat, before);
        lemma_cells_mesh_step(c, x, y, z - 1);
        assert(before + row_mesh(c, x, y, z) =~= (before + row_mesh(c, x, y, (z - 1) as nat)) + block_mesh(
            c,
            x,
            y,
            z - 1,
        ));
    }
}

proof fn lemma_column_is_cells(c: Chunk, x: int, y: nat, before: Seq<i64>)
    requires
        0 <= x < 16,
        y <= 256,
        before == cells_mesh(c, (4096 * x) as nat),
    ensures
        before + column_mesh(c, x, y) == cells_mesh(c, (4096 * x + 16 * y) as nat),
    decreases y,
{
    if y == 0 {
        assert(before + column_mesh(c, x, 0) =~= before);
    } else {
        lemma_column_is_cells(c, x, (y - 1) as nat, before);
        lemma_row_is_cells(c, x, y - 1, 16, before + column_mesh(c, x, (y - 1) as nat));
        assert(before + column_mesh(c, x, y) =~= (before + column_mesh(c, x, (y - 1) as nat)) + row_mesh(
            c,
            x,
            y - 1,
            16,
        ));
    }
}

proof fn lemma_slab_is_cells(c: Chunk, x: nat)
    requires
        x <= 16,
    ensures
        slab_mesh(c, x) == cells_mesh(c, (4096 * x) as nat),
    decreases x,
{
    if x == 0 {
        assert(cells_mesh(c, 0) =~= Seq::<i64>::empty());
        assert(slab_mesh(c, 0) =~= Seq::<i64>::empty());
    } else {
        lemma_slab_is_cells(c, (x - 1) as nat);
        lemma_column_is_cells(c, x - 1, 256, slab_mesh(c, (x - 1) as nat));
    }
}

/// A chunk's mesh is the meshes of all its cells, one after the other, the `i`-th cell being
/// `(i / 4096, (i / 16) % 256, i % 16)`: every cell of the chunk contributes, once, in order
/// of x, then y, then z.
pub proof fn lemma_chunk_mesh_is_all_cells(c: Chunk)
    ensures
        chunk_mesh(c) == cells_mesh(c, 65536),
{
    lemma_slab_is_cells(c, 16);
}

} // verus!
