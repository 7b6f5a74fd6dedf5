use vstd::prelude::*;
use vstd::arithmetic::div_mod::lemma_fundamental_div_mod_converse;

verus! {

/// An edge connecting two vertices by index.
#[derive(Clone, Copy, Debug)]
pub struct Edge {
    pub a: usize,
    pub b: usize,
}

/// A face defined by three vertex indices.
#[derive(Clone, Copy, Debug)]
pub struct TriFace {
    pub v0: usize,
    pub v1: usize,
    pub v2: usize,
}

/// The corners `a` (this row) and `b` (the next row) of quad `k` of a
/// grid with `cols` quads per row and `cols + 1` vertices per row, rows of
/// vertices stored one after the other.
pub open spec fn quad_corners(cols: int, k: int) -> (int, int) {
    let a = (k / cols) * (cols + 1) + k % cols;
    (a, a + cols + 1)
}

/// Edge `n` of a grid: four per quad. A sphere lists a quad's edges as
/// top, right, left, bottom; a torus as top, left, right, bottom.
pub open spec fn grid_edge(cols: int, n: int, torus: bool) -> (int, int) {
    let (a, b) = quad_corners(cols, n / 4);
    let r = n % 4;
    if r == 0 {
        (a, a + 1)
    } else if r == 3 {
        (b, b + 1)
    } else if (r == 1) != torus {
        (a + 1, b + 1)
    } else {
        (a, b)
    }
}

/// Face `n` of a grid: two triangles per quad, `(a, a+1, b)` and
/// `(a+1, b+1, b)`.
pub open spec fn grid_face(cols: int, n: int) -> (int, int, int) {
    let (a, b) = quad_corners(cols, n / 2);
    if n % 2 == 0 {
        (a, a + 1, b)
    } else {
        (a + 1, b + 1, b)
    }
}

/// Edge `n` of a cylinder of `slices` sides: three per side (bottom rim,
/// top rim, upright), vertices 0 and 1 the centres, then the bottom ring,
/// then the top ring.
pub open spec fn cylinder_edge(slices: int, n: int) -> (int, int) {
    let i = n / 3;
    let next = (i + 1) % slices;
    let r = n % 3;
    if r == 0 {
        (2 + i, 2 + next)
    } else if r == 1 {
        (2 + slices + i, 2 + slices + next)
    } else {
        (2 + i, 2 + slices + i)
    }
}

/// Face `n` of a cylinder: four per side (bottom cap, top cap, two for the
/// side).
pub open spec fn cylinder_face(slices: int, n: int) -> (int, int, int) {
    let i = n / 4;
    let next = (i + 1) % slices;
    let (bi, bn, ti, tn) = (2 + i, 2 + next, 2 + slices + i, 2 + slices + next);
    let r = n % 4;
    if r == 0 {
        (0, bi, bn)
    } else if r == 1 {
        (1, tn, ti)
    } else if r == 2 {
        (bi, ti, tn)
    } else {
        (bi, tn, bn)
    }
}

/// Whether `edges` are edges `0..` of the grid and `faces` its faces.
pub open spec fn is_grid(edges: Seq<Edge>, faces: Seq<TriFace>, cols: int, rows: int, torus: bool) -> bool {
    &&& edges.len() == 4 * cols * rows
    &&& faces.len() == 2 * cols * rows
    &&& forall|n: int| 0 <= n < edges.len() ==> (#[trigger] edges[n].a as int, edges[n].b as int) == grid_edge(cols, n, torus)
    &&& forall|n: int|
        0 <= n < faces.len() ==> (#[trigger] faces[n].v0 as int, faces[n].v1 as int, faces[n].v2 as int) == grid_face(cols, n)
}

/// `n / d` and `n % d` for `n = q * d + r` with `0 <= r < d`.
proof fn lemma_split(n: int, d: int, q: int, r: int)
    requires
        0 < d,
        0 <= r < d,
        n == q * d + r,
    ensures
        n / d == q,
        n % d == r,
{
    lemma_fundamental_div_mod_converse(n, d, q, r);
}

/// The corners of quad `j * cols + i` are vertices `j * (cols + 1) + i` and
/// the one below it.
proof fn lemma_quad(cols: int, j: int, i: int)
    requires
        0 <= i < cols,
        0 <= j,
    ensures
        quad_corners(cols, j * cols + i) == (j * (cols + 1) + i, j * (cols + 1) + i + cols + 1),
{
    assert(j * cols + i == j * cols + i);
    lemma_split(j * cols + i, cols, j, i);
}

/// Edges and faces of a grid of `rows` rows of `cols` quads, its vertices
/// `cols + 1` to a row.
fn quad_grid(cols: usize, rows: usize, torus: bool) -> (r: (Vec<Edge>, Vec<TriFace>))
    requires
        (rows + 1) * (cols + 1) <= usize::MAX,
        4 * cols * rows <= usize::MAX,
    ensures
        is_grid(r.0@, r.1@, cols as int, rows as int, torus),
{
    let mut edges: Vec<Edge> = Vec::new();
    let mut faces: Vec<TriFace> = Vec::new();
    let mut j: usize = 0;
    while j < rows
        invariant
            j <= rows,
            (rows + 1) * (cols + 1) <= usize::MAX,
            4 * cols * rows <= usize::MAX,
            edges@.len() == 4 * (j * cols),
            faces@.len() == 2 * (j * cols),
            forall|n: int| 0 <= n < edges@.len() ==> (#[trigger] edges@[n].a as int, edges@[n].b as int) == grid_edge(cols as int, n, torus),
            forall|n: int|
                0 <= n < faces@.len() ==> (#[trigger] faces@[n].v0 as int, faces@[n].v1 as int, faces@[n].v2 as int) == grid_face(cols as int, n),
        decreases rows - j,
    {
        let mut i: usize = 0;
        while i < cols
            invariant
                j < rows,
                i <= cols,
                (rows + 1) * (cols + 1) <= usize::MAX,
                4 * cols * rows <= usize::MAX,
                edges@.len() == 4 * (j * cols + i),
                faces@.len() == 2 * (j * cols + i),
                forall|n: int| 0 <= n < edges@.len() ==> (#[trigger] edges@[n].a as int, edges@[n].b as int) == grid_edge(cols as int, n, torus),
                forall|n: int|
                    0 <= n < faces@.len() ==> (#[trigger] faces@[n].v0 as int, faces@[n].v1 as int, faces@[n].v2 as int) == grid_face(cols as int, n),
            decreases cols - i,
        {
            assert((j + 1) * (cols + 1) <= (rows + 1) * (cols + 1)) by (nonlinear_arith)
                requires j < rows, 0 <= cols;
            assert(j * (cols + 1) + i + cols + 2 <= (j + 1) * (cols + 1) + cols + 1) by (nonlinear_arith)
                requires i < cols;
            assert((j + 2) * (cols + 1) <= (rows + 1) * (cols + 1)) by (nonlinear_arith)
                requires j < rows, 0 <= cols;
            assert((j + 2) * (cols + 1) == j * (cols + 1) + 2 * (cols + 1)) by (nonlinear_arith);
            assert(0 <= j * (cols + 1)) by (nonlinear_arith);
            assert(j * cols + i < rows * cols) by (nonlinear_arith)
                requires j < rows, i < cols;
            let a = j * (cols + 1) + i;
            let b = a + cols + 1;
            let ghost k = j * cols + i;
            proof {
                lemma_quad(cols as int, j as int, i as int);
            }
            let ghost e0 = edges@.len() as int;
            if torus {
                edges.push(Edge { a, b: a + 1 });
                edges.push(Edge { a, b });
                edges.push(Edge { a: a + 1, b: b + 1 });
                edges.push(Edge { a: b, b: b + 1 });
            } else {
                edges.push(Edge { a, b: a + 1 });
                edges.push(Edge { a: a + 1, b: b + 1 });
                edges.push(Edge { a, b });
                edges.push(Edge { a: b, b: b + 1 });
            }
            faces.push(TriFace { v0: a, v1: a + 1, v2: b });
            faces.push(TriFace { v0: a + 1, v1: b + 1, v2: b });
            proof {
                assert forall|n: int| 0 <= n < edges@.len() implies (#[trigger] edges@[n].a as int, edges@[n].b as int)
                    == grid_edge(cols as int, n, torus) by {
                    if n >= e0 {
                        lemma_split(n, 4, k, n - 4 * k);
                    }
                }
                assert forall|n: int| 0 <= n < faces@.len() implies (#[trigger] faces@[n].v0 as int, faces@[n].v1 as int, faces@[n].v2 as int)
                    == grid_face(cols as int, n) by {
                    if n >= 2 * k {
                        lemma_split(n, 2, k, n - 2 * k);
                    }
                }
            }
            i = i + 1;
        }
        assert((j + 1) * cols == j * cols + cols) by (nonlinear_arith);
        j = j + 1;
    }
    assert(4 * (rows * cols) == 4 * cols * rows && 2 * (rows * cols) == 2 * cols * rows) by (nonlinear_arith);
    (edges, faces)
}

/// The edges and faces of a sphere of `stacks` rings of `slices` quads
/// (its `(stacks + 1) * (slices + 1)` vertices stored ring by ring).
pub fn sphere_topology(slices: usize, stacks: usize) -> (r: (Vec<Edge>, Vec<TriFace>))
    requires
        (stacks + 1) * (slices + 1) <= usize::MAX,
        4 * slices * stacks <= usize::MAX,
    ensures
        is_grid(r.0@, r.1@, slices as int, stacks as int, false),
{
    quad_grid(slices, stacks, false)
}

/// The edges and faces of a torus of `major_seg` rings of `minor_seg` quads
/// (its `(major_seg + 1) * (minor_seg + 1)` vertices stored ring by ring).
pub fn torus_topology(major_seg: usize, minor_seg: usize) -> (r: (Vec<Edge>, Vec<TriFace>))
    requires
        (major_seg + 1) * (minor_seg + 1) <= usize::MAX,
        4 * minor_seg * major_seg <= usize::MAX,
    ensures
        is_grid(r.0@, r.1@, minor_seg as int, major_seg as int, true),
{
    quad_grid(minor_seg, major_seg, true)
}

/// The edges and faces of a cylinder of `slices` sides (vertices: the two
/// cap centres, the bottom ring, the top ring).
pub fn cylinder_topology(slices: usize) -> (r: (Vec<Edge>, Vec<TriFace>))
    requires
        4 * slices + 2 <= usize::MAX,
    ensures
        r.0@.len() == 3 * slices,
        r.1@.len() == 4 * slices,
        forall|n: int| 0 <= n < r.0@.len() ==> (#[trigger] r.0@[n].a as int, r.0@[n].b as int) == cylinder_edge(slices as int, n),
        forall|n: int|
            0 <= n < r.1@.len() ==> (#[trigger] r.1@[n].v0 as int, r.1@[n].v1 as int, r.1@[n].v2 as int) == cylinder_face(slices as int, n),
{
    let mut edges: Vec<Edge> = Vec::new();
    let mut faces: Vec<TriFace> = Vec::new();
    let ring_bot: usize = 2;
    let ring_top: usize = 2 + slices;
    let mut i: usize = 0;
    while i < slices
        invariant
            i <= slices,
            4 * slices + 2 <= usize::MAX,
            ring_bot == 2,
            ring_top == 2 + slices,
            edges@.len() == 3 * i,
            faces@.len() == 4 * i,
            forall|n: int| 0 <= n < edges@.len() ==> (#[trigger] edges@[n].a as int, edges@[n].b as int) == cylinder_edge(slices as int, n),
            forall|n: int|
                0 <= n < faces@.len() ==> (#[trigger] faces@[n].v0 as int, faces@[n].v1 as int, faces@[n].v2 as int) == cylinder_face(slices as int, n),
        decreases slices - i,
    {
        let next = (i + 1) % slices;
        let ghost e0 = edges@.len() as int;
        let ghost f0 = faces@.len() as int;
        edges.push(Edge { a: ring_bot + i, b: ring_bot + next });
        edges.push(Edge { a: ring_top + i, b: ring_top + next });
        edges.push(Edge { a: ring_bot + i, b: ring_top + i });
        faces.push(TriFace { v0: 0, v1: ring_bot + i, v2: ring_bot + next });
        faces.push(TriFace { v0: 1, v1: ring_top + next, v2: ring_top + i });
        faces.push(TriFace { v0: ring_bot + i, v1: ring_top + i, v2: ring_top + next });
        faces.push(TriFace { v0: ring_bot + i, v1: ring_top + next, v2: ring_bot + next });
        proof {
            assert forall|n: int| 0 <= n < edges@.len() implies (#[trigger] edges@[n].a as int, edges@[n].b as int)
                == cylinder_edge(slices as int, n) by {
                if n >= e0 {
                    lemma_split(n, 3, i as int, n - 3 * i);
                }
            }
            assert forall|n: int| 0 <= n < faces@.len() implies (#[trigger] faces@[n].v0 as int, faces@[n].v1 as int, faces@[n].v2 as int)
                == cylinder_face(slices as int, n) by {
                if n >= f0 {
                    lemma_split(n, 4, i as int, n - 4 * i);
                }
            }
        }
        i = i + 1;
    }
    (edges, faces)
}

/// Every edge and face of a grid mesh joins vertices the mesh has.
pub proof fn law_grid_indices_in_range(cols: int, rows: int, torus: bool, n: int, m: int)
    requires
        0 < cols,
        0 < rows,
        0 <= n < 4 * cols * rows,
        0 <= m < 2 * cols * rows,
    ensures
        0 <= grid_edge(cols, n, torus).0 < (rows + 1) * (cols + 1),
        0 <= grid_edge(cols, n, torus).1 < (rows + 1) * (cols + 1),
        0 <= grid_face(cols, m).0 < (rows + 1) * (cols + 1),
        0 <= grid_face(cols, m).1 < (rows + 1) * (cols + 1),
        0 <= grid_face(cols, m).2 < (rows + 1) * (cols + 1),
{
    assert forall|k: int| 0 <= k < cols * rows implies 0 <= #[trigger] quad_corners(cols, k).0 && quad_corners(
        cols,
        k,
    ).1 + 1 < (rows + 1) * (cols + 1) by {
        let j = k / cols;
        let i = k % cols;
        vstd::arithmetic::div_mod::lemma_fundamental_div_mod(k, cols);
        assert(k == j * cols + i) by (nonlinear_arith)
            requires k == cols * j + i;
        assert(0 <= j < rows) by (nonlinear_arith)
            requires k == j * cols + i, 0 <= i < cols, 0 <= k < cols * rows, 0 < cols;
        assert(j * (cols + 1) + i + cols + 2 < (rows + 1) * (cols + 1)) by (nonlinear_arith)
            requires 0 <= j < rows, 0 <= i < cols;
        assert(0 <= j * (cols + 1)) by (nonlinear_arith)
            requires 0 <= j, 0 < cols;
    }
    assert(4 * cols * rows == 4 * (cols * rows) && 2 * cols * rows == 2 * (cols * rows)) by (nonlinear_arith);
    assert(0 <= n / 4 < cols * rows);
    assert(0 <= m / 2 < cols * rows);
    assert(0 <= quad_corners(cols, n / 4).0);
    assert(0 <= quad_corners(cols, m / 2).0);
}

} // verus!
