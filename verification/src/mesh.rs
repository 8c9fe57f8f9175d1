//! Index-level topology of extruded glyph meshes: triangles, edge
//! adjacency, back faces and connecting quads.

use vstd::prelude::*;

verus! {

/// An edge of a triangle, from vertex `i0` to vertex `i1`.
/// `adjacent` is set when another triangle shares this edge.
#[derive(Debug, Clone, Copy)]
pub struct Edge {
    pub i0: u16,
    pub i1: u16,
    pub adjacent: bool,
}

/// A triangle described by its three edges.
#[derive(Debug, Clone, Copy)]
pub struct Triangle {
    pub edges: [Edge; 3],
}

/// Two edges join the same pair of vertices, in either direction.
pub open spec fn same_segment(a: Edge, b: Edge) -> bool {
    (a.i0 == b.i0 && a.i1 == b.i1) || (a.i0 == b.i1 && a.i1 == b.i0)
}

/// Some edge of `tri` joins the same vertices as `e`.
pub open spec fn segment_in_triangle(e: Edge, tri: Triangle) -> bool {
    same_segment(tri.edges[0], e) || same_segment(tri.edges[1], e) || same_segment(tri.edges[2], e)
}

/// Edge `e` (of triangle number `i`) is shared with another triangle of `tris`.
pub open spec fn shared_with_other(e: Edge, tris: Seq<Triangle>, i: int) -> bool {
    exists|j: int| 0 <= j < tris.len() && j != i && #[trigger] segment_in_triangle(e, tris[j])
}

/// The triangle `t` with the same edges as `base`, and adjacency flags as the
/// flags of `base` joined with sharing an edge with some other triangle.
pub open spec fn marked_against(t: Triangle, base: Triangle, tris: Seq<Triangle>, i: int) -> bool {
    forall|k: int| 0 <= k < 3 ==> {
        &&& (#[trigger] t.edges[k]).i0 == base.edges[k].i0
        &&& t.edges[k].i1 == base.edges[k].i1
        &&& t.edges[k].adjacent == (base.edges[k].adjacent || shared_with_other(base.edges[k], tris, i))
    }
}

/// Same vertex indices, edge by edge.
pub open spec fn same_shape(a: Triangle, b: Triangle) -> bool {
    forall|k: int| 0 <= k < 3 ==> (#[trigger] a.edges[k]).i0 == b.edges[k].i0 && a.edges[k].i1 == b.edges[k].i1
}

/// The triangle made of indices `a`, `b`, `c` with no edge marked.
pub open spec fn fresh_triangle(a: u16, b: u16, c: u16) -> Triangle {
    Triangle {
        edges: [
            Edge { i0: a, i1: b, adjacent: false },
            Edge { i0: b, i1: c, adjacent: false },
            Edge { i0: c, i1: a, adjacent: false },
        ],
    }
}

/// The triangles listed by an index buffer, three indices each, unmarked.
pub open spec fn triangles_of(indices: Seq<u16>) -> Seq<Triangle> {
    Seq::new(indices.len() / 3, |t: int| fresh_triangle(indices[3 * t], indices[3 * t + 1], indices[3 * t + 2]))
}

/// Every triangle of `out` is the one of `tris` with its shared edges marked.
pub open spec fn adjacency_marked(out: Seq<Triangle>, tris: Seq<Triangle>) -> bool {
    &&& out.len() == tris.len()
    &&& forall|i: int| 0 <= i < tris.len() ==> marked_against(#[trigger] out[i], tris[i], tris, i)
}

impl Edge {
    /// Whether `tri` holds an edge between the same two vertices.
    pub fn is_adjacent(&self, tri: &Triangle) -> (r: bool)
        ensures
            r == segment_in_triangle(*self, *tri),
    {
        let mut e: usize = 0;
        while e < 3
            invariant
                e <= 3,
                forall|k: int| 0 <= k < e ==> !same_segment(#[trigger] tri.edges[k], *self),
            decreases 3 - e,
        {
            let other = tri.edges[e];
            if (other.i0 == self.i0 && other.i1 == self.i1) || (other.i0 == self.i1 && other.i1 == self.i0) {
                return true;
            }
            e = e + 1;
        }
        false
    }
}

impl Triangle {
    /// Marks each edge of `self` that `other_tri` shares.
    pub fn test_and_set_adjacent(&mut self, other_tri: &Triangle)
        ensures
            same_shape(*final(self), *old(self)),
            forall|k: int| 0 <= k < 3 ==> (#[trigger] final(self).edges[k]).adjacent
                == (old(self).edges[k].adjacent || segment_in_triangle(old(self).edges[k], *other_tri)),
    {
        let e0 = self.edges[0];
        let e1 = self.edges[1];
        let e2 = self.edges[2];
        let a0 = e0.adjacent || e0.is_adjacent(other_tri);
        let a1 = e1.adjacent || e1.is_adjacent(other_tri);
        let a2 = e2.adjacent || e2.is_adjacent(other_tri);
        self.edges = [
            Edge { i0: e0.i0, i1: e0.i1, adjacent: a0 },
            Edge { i0: e1.i0, i1: e1.i1, adjacent: a1 },
            Edge { i0: e2.i0, i1: e2.i1, adjacent: a2 },
        ];
        assert(self.edges[0] == Edge { i0: e0.i0, i1: e0.i1, adjacent: a0 });
        assert(self.edges[1] == Edge { i0: e1.i0, i1: e1.i1, adjacent: a1 });
        assert(self.edges[2] == Edge { i0: e2.i0, i1: e2.i1, adjacent: a2 });
    }
}


/// Triangles of the same shape hold the same segments.
proof fn lemma_same_shape_segments(a: Triangle, b: Triangle, e: Edge)
    requires
        same_shape(a, b),
    ensures
        segment_in_triangle(e, a) == segment_in_triangle(e, b),
{
    assert(a.edges[0].i0 == b.edges[0].i0 && a.edges[0].i1 == b.edges[0].i1);
    assert(a.edges[1].i0 == b.edges[1].i0 && a.edges[1].i1 == b.edges[1].i1);
    assert(a.edges[2].i0 == b.edges[2].i0 && a.edges[2].i1 == b.edges[2].i1);
}

/// Marks, in every triangle, each edge that some other triangle shares.
/// Flags already set stay set.
pub fn run_triangle_adjacency_tests(triangles: &mut Vec<Triangle>)
    ensures
        adjacency_marked(final(triangles)@, old(triangles)@),
{
    let ghost orig = triangles@;
    let triangles_cnt = triangles.len();
    let mut iter0: usize = 0;
    while iter0 < triangles_cnt
        invariant
            triangles_cnt == orig.len(),
            triangles@.len() == orig.len(),
            iter0 <= triangles_cnt,
            forall|i: int| 0 <= i < iter0 ==> marked_against(#[trigger] triangles@[i], orig[i], orig, i),
            forall|i: int| iter0 <= i < triangles_cnt ==> #[trigger] triangles@[i] == orig[i],
        decreases triangles_cnt - iter0,
    {
        let mut iter1: usize = 0;
        while iter1 < triangles_cnt
            invariant
                triangles_cnt == orig.len(),
                triangles@.len() == orig.len(),
                iter0 < triangles_cnt,
                iter1 <= triangles_cnt,
                forall|i: int| 0 <= i < iter0 ==> marked_against(#[trigger] triangles@[i], orig[i], orig, i),
                forall|i: int| iter0 < i < triangles_cnt ==> #[trigger] triangles@[i] == orig[i],
                same_shape(triangles@[iter0 as int], orig[iter0 as int]),
                forall|k: int| 0 <= k < 3 ==> (#[trigger] triangles@[iter0 as int].edges[k]).adjacent == (
                    orig[iter0 as int].edges[k].adjacent
                    || exists|j: int| 0 <= j < iter1 && j != iter0 && #[trigger] segment_in_triangle(orig[iter0 as int].edges[k], orig[j])),
            decreases triangles_cnt - iter1,
        {
            if iter0 != iter1 {
                let tri1 = triangles[iter1];
                let mut tri0 = triangles[iter0];
                proof {
                    if iter1 < iter0 {
                        assert(marked_against(triangles@[iter1 as int], orig[iter1 as int], orig, iter1 as int));
                        assert forall|k: int| 0 <= k < 3 implies (#[trigger] tri1.edges[k]).i0 == orig[iter1 as int].edges[k].i0
                            && tri1.edges[k].i1 == orig[iter1 as int].edges[k].i1 by {}
                    }
                    assert(same_shape(tri1, orig[iter1 as int]));
                    assert forall|k: int| 0 <= k < 3 implies segment_in_triangle(#[trigger] tri0.edges[k], tri1)
                        == segment_in_triangle(orig[iter0 as int].edges[k], orig[iter1 as int]) by {
                        lemma_same_shape_segments(tri1, orig[iter1 as int], tri0.edges[k]);
                    }
                }
                tri0.test_and_set_adjacent(&tri1);
                triangles.set(iter0, tri0);
            }
            proof {
                assert forall|k: int| 0 <= k < 3 implies (#[trigger] triangles@[iter0 as int].edges[k]).adjacent == (
                    orig[iter0 as int].edges[k].adjacent
                    || exists|j: int| 0 <= j < iter1 + 1 && j != iter0 && #[trigger] segment_in_triangle(orig[iter0 as int].edges[k], orig[j])) by {
                    if iter0 != iter1 && segment_in_triangle(orig[iter0 as int].edges[k], orig[iter1 as int]) {
                        assert(0 <= iter1 < iter1 + 1);
                    }
                }
            }
            iter1 = iter1 + 1;
        }
        proof {
            assert forall|k: int| 0 <= k < 3 implies (#[trigger] triangles@[iter0 as int].edges[k]).adjacent
                == (orig[iter0 as int].edges[k].adjacent || shared_with_other(orig[iter0 as int].edges[k], orig, iter0 as int)) by {}
            assert(marked_against(triangles@[iter0 as int], orig[iter0 as int], orig, iter0 as int));
        }
        iter0 = iter0 + 1;
    }
}


/// Splits an index buffer into triangles (three indices each, trailing
/// indices ignored) and marks every edge shared by two triangles.
pub fn collect_triangles_from_vertices(indices: &Vec<u16>) -> (triangles: Vec<Triangle>)
    ensures
        adjacency_marked(triangles@, triangles_of(indices@)),
{
    let triangles_cnt = indices.len() / 3;
    let ghost fresh = triangles_of(indices@);
    let mut triangles: Vec<Triangle> = Vec::with_capacity(triangles_cnt);
    let mut iter: usize = 0;
    while iter < triangles_cnt
        invariant
            triangles_cnt == indices.len() / 3,
            fresh == triangles_of(indices@),
            iter <= triangles_cnt,
            triangles@ == fresh.take(iter as int),
        decreases triangles_cnt - iter,
    {
        let i0 = indices[iter * 3];
        let i1 = indices[iter * 3 + 1];
        let i2 = indices[iter * 3 + 2];
        let edge0 = Edge { i0: i0, i1: i1, adjacent: false };
        let edge1 = Edge { i0: i1, i1: i2, adjacent: false };
        let edge2 = Edge { i0: i2, i1: i0, adjacent: false };
        triangles.push(Triangle { edges: [edge0, edge1, edge2] });
        assert(triangles@ =~= fresh.take(iter + 1));
        iter = iter + 1;
    }
    assert(triangles@ =~= fresh);
    run_triangle_adjacency_tests(&mut triangles);
    triangles
}

/// Adds `offset` to every index.
pub fn offset_indices(indices: &mut Vec<u16>, offset: u16)
    requires
        forall|i: int| 0 <= i < old(indices)@.len() ==> old(indices)@[i] + offset <= u16::MAX,
    ensures
        final(indices)@.len() == old(indices)@.len(),
        forall|i: int| 0 <= i < old(indices)@.len() ==> #[trigger] final(indices)@[i] == old(indices)@[i] + offset,
{
    if offset == 0 {
        return;
    }
    let n = indices.len();
    let mut i: usize = 0;
    while i < n
        invariant
            n == old(indices)@.len(),
            indices@.len() == n,
            i <= n,
            forall|j: int| 0 <= j < n ==> old(indices)@[j] + offset <= u16::MAX,
            forall|j: int| 0 <= j < i ==> #[trigger] indices@[j] == old(indices)@[j] + offset,
            forall|j: int| i <= j < n ==> #[trigger] indices@[j] == old(indices)@[j],
        decreases n - i,
    {
        let v = indices[i];
        indices.set(i, v + offset);
        i = i + 1;
    }
}

/// The back-face index of front index `x` for a face of `vertices_cnt` vertices.
pub open spec fn back_index(x: u16, vertices_cnt: int) -> int {
    x + vertices_cnt
}

/// Index buffer after appending the back face: for every front triangle
/// `(a, b, c)`, the triangle `(a, c, b)` over the copied vertices, which sit
/// `vertices_cnt` positions further.
pub open spec fn with_back_face(indices: Seq<u16>, vertices_cnt: int) -> Seq<int> {
    indices.map_values(|x: u16| x as int) + Seq::new(
        (indices.len() / 3) * 3,
        |j: int| {
            let t = j / 3;
            let k = j % 3;
            if k == 0 {
                back_index(indices[3 * t], vertices_cnt)
            } else if k == 1 {
                back_index(indices[3 * t + 2], vertices_cnt)
            } else {
                back_index(indices[3 * t + 1], vertices_cnt)
            }
        },
    )
}

/// Appends the back face of a glyph to its index buffer: each front triangle
/// with inverted winding, over the vertices copied behind the front ones.
/// (Moving the copied vertices back by the depth and flipping the normals are
/// done on the float data by the caller.)
pub fn generate_glyph_back_face_indices(indices: &mut Vec<u16>, vertices_cnt: usize)
    requires
        vertices_cnt <= u16::MAX,
        forall|i: int| 0 <= i < old(indices)@.len() ==> old(indices)@[i] + vertices_cnt <= u16::MAX,
    ensures
        final(indices)@.map_values(|x: u16| x as int) == with_back_face(old(indices)@, vertices_cnt as int),
{
    let ghost front = indices@;
    let indices_cnt = indices.len();
    let triangles_cnt = indices_cnt / 3;
    let offset = vertices_cnt as u16;
    let ghost expected = Seq::new(
        (front.len() / 3) * 3,
        |j: int| {
            let t = j / 3;
            let k = j % 3;
            if k == 0 {
                back_index(front[3 * t], vertices_cnt as int)
            } else if k == 1 {
                back_index(front[3 * t + 2], vertices_cnt as int)
            } else {
                back_index(front[3 * t + 1], vertices_cnt as int)
            }
        },
    );
    let mut back_indices: Vec<u16> = Vec::with_capacity(indices_cnt);
    let mut i: usize = 0;
    while i < triangles_cnt
        invariant
            front == indices@,
            indices_cnt == front.len(),
            triangles_cnt == indices_cnt / 3,
            offset == vertices_cnt,
            i <= triangles_cnt,
            forall|j: int| 0 <= j < front.len() ==> front[j] + vertices_cnt <= u16::MAX,
            back_indices@.len() == 3 * i,
            forall|j: int| 0 <= j < 3 * i ==> #[trigger] back_indices@[j] as int == expected[j],
            expected.len() == 3 * triangles_cnt,
            forall|j: int| 0 <= j < 3 * triangles_cnt ==> #[trigger] expected[j] == {
                let t = j / 3;
                let k = j % 3;
                if k == 0 {
                    back_index(front[3 * t], vertices_cnt as int)
                } else if k == 1 {
                    back_index(front[3 * t + 2], vertices_cnt as int)
                } else {
                    back_index(front[3 * t + 1], vertices_cnt as int)
                }
            },
        decreases triangles_cnt - i,
    {
        let a = indices[i * 3];
        let b = indices[i * 3 + 2];
        let c = indices[i * 3 + 1];
        back_indices.push(a + offset);
        back_indices.push(b + offset);
        back_indices.push(c + offset);
        proof {
            assert forall|j: int| 3 * i <= j < 3 * (i + 1) implies #[trigger] back_indices@[j] as int == expected[j] by {
                assert((j / 3) == i) by (nonlinear_arith)
                    requires 3 * i <= j < 3 * (i + 1);
                assert(j % 3 == j - 3 * i) by (nonlinear_arith)
                    requires 3 * i <= j < 3 * (i + 1);
            }
        }
        i = i + 1;
    }
    indices.append(&mut back_indices);
    proof {
        assert(indices@.map_values(|x: u16| x as int) =~= with_back_face(front, vertices_cnt as int));
    }
}


/// The first `k` edges of `t` (k <= 3) that no other triangle shares, in order.
pub open spec fn boundary_upto(t: Triangle, k: int) -> Seq<Edge>
    decreases k,
{
    if k <= 0 {
        Seq::empty()
    } else if t.edges[k - 1].adjacent {
        boundary_upto(t, k - 1)
    } else {
        boundary_upto(t, k - 1).push(t.edges[k - 1])
    }
}

/// The edges of all triangles that no other triangle shares, triangle by
/// triangle and edge by edge.
pub open spec fn boundary_edges(tris: Seq<Triangle>) -> Seq<Edge>
    decreases tris.len(),
{
    if tris.len() == 0 {
        Seq::empty()
    } else {
        boundary_edges(tris.drop_last()) + boundary_upto(tris.last(), 3)
    }
}

/// The vertices copied for the quad along edge `e`: two triangles
/// `(i1, i0, i0')` and `(i0', i1', i1)`, where `x'` is `x + backface_offset`.
pub open spec fn quad_sources(e: Edge, backface_offset: int) -> Seq<int> {
    seq![e.i1 as int, e.i0 as int, e.i0 + backface_offset, e.i0 + backface_offset, e.i1 + backface_offset, e.i1 as int]
}

/// The copied vertices of the quads along all `edges`, six per edge.
pub open spec fn all_quad_sources(edges: Seq<Edge>, backface_offset: int) -> Seq<int> {
    Seq::new(6 * edges.len(), |j: int| quad_sources(edges[j / 6], backface_offset)[j % 6])
}

/// The indices `start`, `start + 1`, ... of `n` new vertices.
pub open spec fn fresh_indices(start: int, n: nat) -> Seq<int> {
    Seq::new(n, |j: int| start + j)
}

/// Integer view of an index buffer.
pub open spec fn as_ints(s: Seq<u16>) -> Seq<int> {
    s.map_values(|x: u16| x as int)
}

proof fn lemma_all_quad_sources_push(edges: Seq<Edge>, e: Edge, off: int)
    ensures
        all_quad_sources(edges.push(e), off) =~= all_quad_sources(edges, off) + quad_sources(e, off),
{
    let n = edges.len();
    let a = all_quad_sources(edges.push(e), off);
    let b = all_quad_sources(edges, off) + quad_sources(e, off);
    assert forall|j: int| 0 <= j < 6 * n + 6 implies a[j] == b[j] by {
        if j < 6 * n {
            assert(j / 6 < n) by (nonlinear_arith) requires 0 <= j < 6 * n;
            assert(j / 6 >= 0) by (nonlinear_arith) requires 0 <= j;
        } else {
            assert(j / 6 == n) by (nonlinear_arith) requires 6 * n <= j < 6 * n + 6;
            assert(j % 6 == j - 6 * n) by (nonlinear_arith) requires 6 * n <= j < 6 * n + 6;
        }
    }
}

/// Builds the side walls of an extruded glyph: for every triangle edge that no
/// other triangle shares, a quad of two triangles joining the front edge to
/// its copy on the back face (`vertices_len / 2` positions further).
/// Appends the indices of the new vertices to `indices`, and returns, for each
/// new vertex in order, the index of the vertex it copies. (Copying positions
/// and computing the wall normals are done on the float data by the caller.)
pub fn generate_connecting_quads(triangles: &Vec<Triangle>, vertices_len: usize, indices: &mut Vec<u16>) -> (sources: Vec<u16>)
    requires
        vertices_len / 2 <= u16::MAX,
        vertices_len + 6 * boundary_edges(triangles@).len() <= u16::MAX + 1,
        forall|j: int| 0 <= j < boundary_edges(triangles@).len() ==>
            (#[trigger] boundary_edges(triangles@)[j]).i0 + vertices_len / 2 <= u16::MAX
            && boundary_edges(triangles@)[j].i1 + vertices_len / 2 <= u16::MAX,
    ensures
        as_ints(sources@) == all_quad_sources(boundary_edges(triangles@), vertices_len as int / 2),
        as_ints(final(indices)@) == as_ints(old(indices)@) + fresh_indices(vertices_len as int, 6 * boundary_edges(triangles@).len()),
{
    let ghost tris = triangles@;
    let ghost all = boundary_edges(tris);
    let ghost old_indices = indices@;
    let backface_offset = (vertices_len / 2) as u16;
    let mut sources: Vec<u16> = Vec::new();
    let mut vertex_count: usize = vertices_len;
    let ghost mut done: Seq<Edge> = Seq::empty();
    let n = triangles.len();
    let mut t: usize = 0;
    while t < n
        invariant
            n == tris.len(),
            tris == triangles@,
            all == boundary_edges(tris),
            backface_offset == vertices_len / 2,
            t <= n,
            done == boundary_edges(tris.take(t as int)),
            done.len() <= all.len(),
            all.subrange(0, done.len() as int) == done,
            vertex_count == vertices_len + 6 * done.len(),
            vertices_len + 6 * all.len() <= u16::MAX + 1,
            forall|j: int| 0 <= j < all.len() ==> (#[trigger] all[j]).i0 + vertices_len / 2 <= u16::MAX
                && all[j].i1 + vertices_len / 2 <= u16::MAX,
            as_ints(sources@) == all_quad_sources(done, vertices_len as int / 2),
            as_ints(indices@) == as_ints(old_indices) + fresh_indices(vertices_len as int, 6 * done.len()),
        decreases n - t,
    {
        let tri = triangles[t];
        proof {
            lemma_boundary_prefix(tris, t as int);
        }
        let mut k: usize = 0;
        while k < 3
            invariant
                n == tris.len(),
                tris == triangles@,
                all == boundary_edges(tris),
                t < n,
                tri == tris[t as int],
                backface_offset == vertices_len / 2,
                k <= 3,
                done == boundary_edges(tris.take(t as int)) + boundary_upto(tri, k as int),
                boundary_edges(tris.take(t as int + 1)) == boundary_edges(tris.take(t as int)) + boundary_upto(tri, 3),
                all.subrange(0, boundary_edges(tris.take(t as int + 1)).len() as int) == boundary_edges(tris.take(t as int + 1)),
                boundary_edges(tris.take(t as int + 1)).len() <= all.len(),
                vertex_count == vertices_len + 6 * done.len(),
                vertices_len + 6 * all.len() <= u16::MAX + 1,
                forall|j: int| 0 <= j < all.len() ==> (#[trigger] all[j]).i0 + vertices_len / 2 <= u16::MAX
                    && all[j].i1 + vertices_len / 2 <= u16::MAX,
                as_ints(sources@) == all_quad_sources(done, vertices_len as int / 2),
                as_ints(indices@) == as_ints(old_indices) + fresh_indices(vertices_len as int, 6 * done.len()),
            decreases 3 - k,
        {
            let edge = tri.edges[k];
            proof {
                lemma_boundary_upto_len(tri, k as int);
                lemma_boundary_upto_len(tri, 3);
            }
            if !edge.adjacent {
                let ghost pos = done.len() as int;
                proof {
                    lemma_boundary_upto_prefix(tri, k as int + 1, 3);
                    let whole = boundary_edges(tris.take(t as int + 1));
                    assert(boundary_upto(tri, k as int + 1) == boundary_upto(tri, k as int).push(edge));
                    assert(whole.subrange(0, pos + 1) =~= done.push(edge));
                    assert(all[pos] == whole[pos]);
                    assert(whole.subrange(0, pos + 1)[pos] == whole[pos]);
                    assert(whole[pos] == edge);
                }
                let ghost before = indices@;
                let i0 = edge.i1;
                let i1 = edge.i0;
                let i2 = edge.i0 + backface_offset;
                let last_geom_id = vertex_count as u16;
                sources.push(i0);
                sources.push(i1);
                sources.push(i2);
                indices.push(last_geom_id);
                indices.push(last_geom_id + 1);
                indices.push(last_geom_id + 2);
                vertex_count = vertex_count + 3;
                let i3 = edge.i0 + backface_offset;
                let i4 = edge.i1 + backface_offset;
                let i5 = edge.i1;
                let last_geom_id = vertex_count as u16;
                sources.push(i3);
                sources.push(i4);
                sources.push(i5);
                indices.push(last_geom_id);
                indices.push(last_geom_id + 1);
                indices.push(last_geom_id + 2);
                vertex_count = vertex_count + 3;
                proof {
                    lemma_all_quad_sources_push(done, edge, vertices_len as int / 2);
                    let prev = done;
                    done = done.push(edge);
                    assert(as_ints(sources@) =~= all_quad_sources(done, vertices_len as int / 2));
                    let vc = vertices_len + 6 * prev.len();
                    assert(indices@ =~= before.push(vc as u16).push((vc + 1) as u16).push((vc + 2) as u16)
                        .push((vc + 3) as u16).push((vc + 4) as u16).push((vc + 5) as u16));
                    assert forall|j: int| 0 <= j < indices@.len() implies as_ints(indices@)[j]
                        == (as_ints(old_indices) + fresh_indices(vertices_len as int, 6 * done.len()))[j] by {
                        assert(prev.len() + 1 <= all.len());
                        assert(as_ints(before).len() == before.len());
                        if j < before.len() {
                            assert(as_ints(before)[j] == before[j] as int);
                            assert(as_ints(before)[j] == (as_ints(old_indices) + fresh_indices(vertices_len as int, 6 * prev.len()))[j]);
                            if j < old_indices.len() {
                            } else {
                                assert(fresh_indices(vertices_len as int, 6 * prev.len())[j - old_indices.len()]
                                    == fresh_indices(vertices_len as int, 6 * done.len())[j - old_indices.len()]);
                            }
                        } else {
                            assert(fresh_indices(vertices_len as int, 6 * done.len())[j - old_indices.len()]
                                == vertices_len + (j - old_indices.len()));
                        }
                    }
                    assert(as_ints(before).len() == as_ints(old_indices).len() + 6 * prev.len());
                    assert(as_ints(indices@).len() == as_ints(old_indices).len() + 6 * done.len());
                    assert(as_ints(indices@) =~= as_ints(old_indices) + fresh_indices(vertices_len as int, 6 * done.len()));
                }
            } else {
                proof {
                    assert(boundary_upto(tri, k as int + 1) == boundary_upto(tri, k as int));
                }
            }
            k = k + 1;
        }
        t = t + 1;
    }
    proof {
        assert(tris.take(n as int) =~= tris);
    }
    sources
}

proof fn lemma_boundary_upto_len(t: Triangle, k: int)
    ensures
        boundary_upto(t, k).len() <= if k < 0 { 0 } else { k },
    decreases k,
{
    if k > 0 {
        lemma_boundary_upto_len(t, k - 1);
    }
}

proof fn lemma_boundary_upto_prefix(t: Triangle, k: int, m: int)
    requires
        0 <= k <= m,
    ensures
        boundary_upto(t, m).subrange(0, boundary_upto(t, k).len() as int) == boundary_upto(t, k),
        boundary_upto(t, k).len() <= boundary_upto(t, m).len(),
    decreases m - k,
{
    if k < m {
        lemma_boundary_upto_prefix(t, k, m - 1);
        let a = boundary_upto(t, m - 1);
        let b = boundary_upto(t, m);
        assert(b.subrange(0, a.len() as int) =~= a);
        assert(b.subrange(0, boundary_upto(t, k).len() as int) =~= a.subrange(0, boundary_upto(t, k).len() as int));
    } else {
        assert(boundary_upto(t, m).subrange(0, boundary_upto(t, k).len() as int) =~= boundary_upto(t, k));
    }
}

proof fn lemma_boundary_prefix(tris: Seq<Triangle>, t: int)
    requires
        0 <= t < tris.len(),
    ensures
        boundary_edges(tris.take(t + 1)) == boundary_edges(tris.take(t)) + boundary_upto(tris[t], 3),
        boundary_edges(tris).subrange(0, boundary_edges(tris.take(t + 1)).len() as int) == boundary_edges(tris.take(t + 1)),
        boundary_edges(tris.take(t + 1)).len() <= boundary_edges(tris).len(),
    decreases tris.len() - t,
{
    assert(tris.take(t + 1).drop_last() =~= tris.take(t));
    if t + 1 < tris.len() {
        lemma_boundary_prefix(tris, t + 1);
        let a = boundary_edges(tris.take(t + 1));
        let b = boundary_edges(tris.take(t + 2));
        let c = boundary_edges(tris);
        assert(b.subrange(0, a.len() as int) =~= a);
        assert(c.subrange(0, a.len() as int) =~= b.subrange(0, a.len() as int));
    } else {
        assert(tris.take(t + 1) =~= tris);
        assert(boundary_edges(tris).subrange(0, boundary_edges(tris).len() as int) =~= boundary_edges(tris));
    }
}


/// Appends the two triangles `(0, 2, 1)` and `(0, 3, 2)` of the unit quad
/// used for glyphs without an outline and for emoji images.
pub fn generate_quad_indices(indices: &mut Vec<u16>)
    ensures
        final(indices)@ == old(indices)@ + seq![0u16, 2, 1, 0, 3, 2],
{
    indices.push(0);
    indices.push(2);
    indices.push(1);
    indices.push(0);
    indices.push(3);
    indices.push(2);
    assert(indices@ =~= old(indices)@ + seq![0u16, 2, 1, 0, 3, 2]);
}

/// Adjacency marking is symmetric: when an edge of one triangle joins the same
/// two vertices as an edge of another triangle, both edges end up marked.
pub proof fn lemma_shared_edge_marked_on_both(out: Seq<Triangle>, tris: Seq<Triangle>, i: int, j: int, k: int, m: int)
    requires
        adjacency_marked(out, tris),
        0 <= i < tris.len(),
        0 <= j < tris.len(),
        i != j,
        0 <= k < 3,
        0 <= m < 3,
        same_segment(tris[i].edges[k], tris[j].edges[m]),
    ensures
        out[i].edges[k].adjacent,
        out[j].edges[m].adjacent,
{
    assert(marked_against(out[i], tris[i], tris, i));
    assert(marked_against(out[j], tris[j], tris, j));
    assert(segment_in_triangle(tris[i].edges[k], tris[j]));
    assert(segment_in_triangle(tris[j].edges[m], tris[i]));
    assert(out[i].edges[k].adjacent == (tris[i].edges[k].adjacent || shared_with_other(tris[i].edges[k], tris, i)));
    assert(out[j].edges[m].adjacent == (tris[j].edges[m].adjacent || shared_with_other(tris[j].edges[m], tris, j)));
}

/// Marking adjacency a second time changes nothing.
pub proof fn lemma_adjacency_marking_idempotent(tris: Seq<Triangle>, once: Seq<Triangle>, twice: Seq<Triangle>)
    requires
        adjacency_marked(once, tris),
        adjacency_marked(twice, once),
    ensures
        twice =~= once,
{
    assert forall|i: int| 0 <= i < once.len() implies #[trigger] twice[i] == once[i] by {
        assert(marked_against(once[i], tris[i], tris, i));
        assert(marked_against(twice[i], once[i], once, i));
        assert forall|k: int| 0 <= k < 3 implies #[trigger] twice[i].edges[k] == once[i].edges[k] by {
            if shared_with_other(once[i].edges[k], once, i) {
                let j = choose|j: int| 0 <= j < once.len() && j != i && #[trigger] segment_in_triangle(once[i].edges[k], once[j]);
                assert(marked_against(once[j], tris[j], tris, j));
                assert(same_shape(once[j], tris[j]));
                lemma_same_shape_segments(once[j], tris[j], once[i].edges[k]);
                assert(segment_in_triangle(tris[i].edges[k], tris[j]));
            }
        }
        assert(twice[i].edges =~= once[i].edges);
    }
}

} // verus!
