//! Index buffers of the solids the backend draws.
//!
//! A solid is drawn twice: once filled, as a triangle list over its
//! vertices, and once as a wireframe, as a line list. Vertex positions and
//! colours are floating point and are built next to the renderer; this
//! module owns how many vertices each solid has and which vertices every
//! triangle and every edge joins.

use vstd::prelude::*;
use crate::shape::Shape;
use vstd::arithmetic::div_mod::lemma_mod_multiples_basic;

verus! {

/// The connectivity of a solid: how many vertices it has, the triangle
/// list (three indices per triangle) and the edge list (two per edge).
pub struct ShapeTopology {
    pub vertex_count: usize,
    pub indices: Vec<u16>,
    pub edge_indices: Vec<u16>,
}

impl ShapeTopology {
    /// Every index names an existing vertex, the triangle list holds whole
    /// triangles and the edge list whole edges.
    pub open spec fn well_formed(&self) -> bool {
        &&& self.indices@.len() % 3 == 0
        &&& self.edge_indices@.len() % 2 == 0
        &&& forall|k: int| 0 <= k < self.indices@.len() ==> #[trigger] self.indices@[k] < self.vertex_count
        &&& forall|k: int| 0 <= k < self.edge_indices@.len() ==> #[trigger] self.edge_indices@[k] < self.vertex_count
    }
}

/// Index of the vertex in row `r` and column `c` of a grid whose rows hold
/// `cols + 1` vertices each.
pub open spec fn grid_vertex(cols: int, r: int, c: int) -> int {
    r * (cols + 1) + c
}

/// Position of the `k`-th entry that cell (`r`, `c`) of a `cols`-wide grid
/// contributes to a list that gives `width` entries to every cell.
pub open spec fn cell_slot(cols: int, width: int, r: int, c: int, k: int) -> int {
    width * (r * cols + c) + k
}

/// The `k`-th of the six indices of cell (`r`, `c`): the quad between
/// vertex (`r`, `c`) and vertex (`r + 1`, `c + 1`) as two triangles.
pub open spec fn grid_triangle_index(cols: int, r: int, c: int, k: int) -> int {
    let current = grid_vertex(cols, r, c);
    let next = current + cols + 1;
    if k == 0 {
        current
    } else if k == 1 {
        next
    } else if k == 2 || k == 3 {
        current + 1
    } else if k == 4 {
        next
    } else {
        next + 1
    }
}

/// A list holds, for every cell of a `rows` by `cols` grid, `width`
/// entries given by `f`, cell after cell, row after row.
pub open spec fn is_cell_list(
    s: Seq<u16>,
    rows: int,
    cols: int,
    width: int,
    f: spec_fn(int, int, int) -> int,
) -> bool {
    &&& s.len() == width * rows * cols
    &&& forall|r: int, c: int, k: int|
        0 <= r < rows && 0 <= c < cols && 0 <= k < width ==> #[trigger] s[cell_slot(cols, width, r, c, k)] as int == f(r, c, k)
}

/// Cells before (`r`, `c`) in row order come first in a cell list.
proof fn lemma_earlier_cell(cols: int, a: int, b: int, r: int, c: int)
    requires
        0 <= b < cols,
        0 <= a,
        (a < r) || (a == r && b < c),
        0 <= c <= cols,
    ensures
        a * cols + b < r * cols + c,
        a * cols + b + 1 <= r * cols + c,
{
    if a < r {
        assert(a * cols + cols <= r * cols) by (nonlinear_arith)
            requires a < r, 0 <= cols;
    }
}

/// The grid of `rows + 1` by `cols + 1` vertices fits in 16-bit indices.
pub open spec fn grid_fits(rows: int, cols: int) -> bool {
    (rows + 1) * (cols + 1) <= 0x1_0000
}

proof fn lemma_grid_sides(rows: int, cols: int)
    requires
        0 <= rows,
        0 <= cols,
        grid_fits(rows, cols),
    ensures
        rows + 1 <= 0x1_0000,
        cols + 1 <= 0x1_0000,
{
    assert(rows + 1 <= (rows + 1) * (cols + 1)) by (nonlinear_arith) requires 0 <= rows, 0 <= cols;
    assert(cols + 1 <= (rows + 1) * (cols + 1)) by (nonlinear_arith) requires 0 <= rows, 0 <= cols;
}

proof fn lemma_grid_bounds(rows: int, cols: int, r: int, c: int)
    requires
        0 <= r < rows,
        0 <= c < cols,
        grid_fits(rows, cols),
    ensures
        grid_vertex(cols, r, c) + cols + 2 <= (rows + 1) * (cols + 1) - 1,
        r * cols + c < rows * cols,
        0 <= r * (cols + 1),
{
    assert((r + 1) * (cols + 1) <= rows * (cols + 1)) by (nonlinear_arith)
        requires r + 1 <= rows, 0 <= cols;
    assert((rows + 1) * (cols + 1) == rows * (cols + 1) + cols + 1) by (nonlinear_arith);
    assert(r * (cols + 1) + cols + 1 == (r + 1) * (cols + 1)) by (nonlinear_arith);
    assert(r * cols + c < rows * cols) by (nonlinear_arith)
        requires r < rows, c < cols, 0 <= r, 0 <= c;
    assert(0 <= r * (cols + 1)) by (nonlinear_arith)
        requires 0 <= r, 0 <= cols;
}

/// Triangle list of a grid of `rows` by `cols` quads: two triangles per
/// quad, quads in row order.
pub fn grid_triangles(rows: u32, cols: u32) -> (v: Vec<u16>)
    requires
        grid_fits(rows as int, cols as int),
    ensures
        is_cell_list(v@, rows as int, cols as int, 6, |r: int, c: int, k: int| grid_triangle_index(cols as int, r, c, k)),
{
    let mut v: Vec<u16> = Vec::new();
    let mut r: u32 = 0;
    while r < rows
        invariant
            r <= rows,
            grid_fits(rows as int, cols as int),
            v@.len() == 6 * (r * cols),
            forall|a: int, b: int, k: int|
                0 <= a < r && 0 <= b < cols && 0 <= k < 6 ==> #[trigger] v@[cell_slot(cols as int, 6, a, b, k)] as int == grid_triangle_index(cols as int, a, b, k),
        decreases rows - r,
    {
        let mut c: u32 = 0;
        while c < cols
            invariant
                r < rows,
                c <= cols,
                grid_fits(rows as int, cols as int),
                v@.len() == 6 * (r * cols + c),
                forall|a: int, b: int, k: int|
                    0 <= b < cols && 0 <= k < 6 && ((0 <= a < r) || (a == r && 0 <= b < c)) ==> #[trigger] v@[cell_slot(cols as int, 6, a, b, k)] as int == grid_triangle_index(cols as int, a, b, k),
            decreases cols - c,
        {
            proof {
                lemma_grid_bounds(rows as int, cols as int, r as int, c as int);
            }
            let current = r * (cols + 1) + c;
            let next = current + cols + 1;
            let ghost before = v@;
            let a0 = current as u16;
            let a1 = next as u16;
            let a2 = current as u16 + 1;
            let a5 = next as u16 + 1;
            assert(a0 as int == current as int && a1 as int == next as int);
            v.push(a0);
            v.push(a1);
            v.push(a2);
            v.push(a2);
            v.push(a1);
            v.push(a5);
            assert(v@ =~= before + seq![a0, a1, a2, a2, a1, a5]);
            proof {
                let cur = grid_vertex(cols as int, r as int, c as int);
                assert(current == cur);
                assert(v@.len() == before.len() + 6);
                assert(v@[before.len() as int + 0] as int == grid_triangle_index(cols as int, r as int, c as int, 0));
                assert(v@[before.len() as int + 1] as int == grid_triangle_index(cols as int, r as int, c as int, 1));
                assert(v@[before.len() as int + 2] as int == grid_triangle_index(cols as int, r as int, c as int, 2));
                assert(v@[before.len() as int + 3] as int == grid_triangle_index(cols as int, r as int, c as int, 3));
                assert(v@[before.len() as int + 4] as int == grid_triangle_index(cols as int, r as int, c as int, 4));
                assert(v@[before.len() as int + 5] as int == grid_triangle_index(cols as int, r as int, c as int, 5));
                assert forall|a: int, b: int, k: int|
                    0 <= b < cols && 0 <= k < 6 && ((0 <= a < r) || (a == r && 0 <= b < c + 1)) implies #[trigger] v@[cell_slot(cols as int, 6, a, b, k)] as int == grid_triangle_index(cols as int, a, b, k) by {
                    if a == r && b == c {
                        assert(cell_slot(cols as int, 6, a, b, k) == before.len() + k);
                    } else {
                        lemma_earlier_cell(cols as int, a, b, r as int, c as int);
                        assert(cell_slot(cols as int, 6, a, b, k) < before.len()) by (nonlinear_arith)
                            requires a * cols + b + 1 <= r * cols + c, 0 <= k < 6, before.len() == 6 * (r * cols + c),
                                cell_slot(cols as int, 6, a, b, k) == 6 * (a * cols + b) + k;
                        assert(v@[cell_slot(cols as int, 6, a, b, k)] == before[cell_slot(cols as int, 6, a, b, k)]);
                    }
                }
            }
            c = c + 1;
        }
        proof {
            assert(6 * (r * cols + cols) == 6 * ((r + 1) * cols)) by (nonlinear_arith);
        }
        r = r + 1;
    }
    proof {
        assert(6 * (rows * cols) == 6 * rows * cols) by (nonlinear_arith);
    }
    v
}

/// The `k`-th of the four indices cell (`r`, `c`) adds to a grid
/// wireframe: the edge to the vertex one row on, then the edge to the vertex
/// one column on. With `wrap` the row after the last is the first.
pub open spec fn grid_edge_index(rows: int, cols: int, wrap: bool, r: int, c: int, k: int) -> int {
    let current = grid_vertex(cols, r, c);
    let next_row = if wrap { grid_vertex(cols, (r + 1) % rows, c) } else { current + cols + 1 };
    if k == 0 || k == 2 {
        current
    } else if k == 1 {
        next_row
    } else {
        current + 1
    }
}

/// What quad (`r`, `c`) of a grid of `rows` by `cols` quads adds to the
/// lists. Its corner `cur = r (cols + 1) + c` is the vertex in row `r`,
/// column `c`, and `next = cur + cols + 1` is the vertex below it in row
/// `r + 1`.
/// - the triangles `(cur, next, cur + 1)` and `(cur + 1, next, next + 1)`;
/// - the edges `cur`–`next` (with `wrap`, row `(r + 1) % rows` in place of
///   row `r + 1`) and `cur`–`cur + 1`.
pub open spec fn grid_cell_drawn(tris: Seq<u16>, edges: Seq<u16>, rows: int, cols: int, wrap: bool, r: int, c: int) -> bool {
    let cur = r * (cols + 1) + c;
    let next = cur + cols + 1;
    let below = if wrap { ((r + 1) % rows) * (cols + 1) + c } else { next };
    let t = 6 * (r * cols + c);
    let e = 4 * (r * cols + c);
    &&& tris[t] == cur && tris[t + 1] == next && tris[t + 2] == cur + 1
    &&& tris[t + 3] == cur + 1 && tris[t + 4] == next && tris[t + 5] == next + 1
    &&& edges[e] == cur && edges[e + 1] == below && edges[e + 2] == cur && edges[e + 3] == cur + 1
}

/// The two cell lists of a grid hold, for every quad, its two triangles
/// and its two edges as [`grid_cell_drawn`] gives them.
proof fn lemma_grid_cells_drawn(tris: Seq<u16>, edges: Seq<u16>, rows: int, cols: int, wrap: bool)
    requires
        is_cell_list(tris, rows, cols, 6, |r: int, c: int, k: int| grid_triangle_index(cols, r, c, k)),
        is_cell_list(edges, rows, cols, 4, |r: int, c: int, k: int| grid_edge_index(rows, cols, wrap, r, c, k)),
    ensures
        forall|r: int, c: int| 0 <= r < rows && 0 <= c < cols ==> #[trigger] grid_cell_drawn(tris, edges, rows, cols, wrap, r, c),
{
    assert forall|r: int, c: int| 0 <= r < rows && 0 <= c < cols implies #[trigger] grid_cell_drawn(tris, edges, rows, cols, wrap, r, c) by {
        assert(tris[cell_slot(cols, 6, r, c, 0)] as int == grid_triangle_index(cols, r, c, 0));
        assert(tris[cell_slot(cols, 6, r, c, 1)] as int == grid_triangle_index(cols, r, c, 1));
        assert(tris[cell_slot(cols, 6, r, c, 2)] as int == grid_triangle_index(cols, r, c, 2));
        assert(tris[cell_slot(cols, 6, r, c, 3)] as int == grid_triangle_index(cols, r, c, 3));
        assert(tris[cell_slot(cols, 6, r, c, 4)] as int == grid_triangle_index(cols, r, c, 4));
        assert(tris[cell_slot(cols, 6, r, c, 5)] as int == grid_triangle_index(cols, r, c, 5));
        assert(edges[cell_slot(cols, 4, r, c, 0)] as int == grid_edge_index(rows, cols, wrap, r, c, 0));
        assert(edges[cell_slot(cols, 4, r, c, 1)] as int == grid_edge_index(rows, cols, wrap, r, c, 1));
        assert(edges[cell_slot(cols, 4, r, c, 2)] as int == grid_edge_index(rows, cols, wrap, r, c, 2));
        assert(edges[cell_slot(cols, 4, r, c, 3)] as int == grid_edge_index(rows, cols, wrap, r, c, 3));
    }
}

/// Edge list of a grid of `rows` by `cols` quads: for every quad the edge
/// along the rows and the edge along the columns from its first corner.
pub fn grid_edges(rows: u32, cols: u32, wrap: bool) -> (v: Vec<u16>)
    requires
        grid_fits(rows as int, cols as int),
    ensures
        is_cell_list(v@, rows as int, cols as int, 4, |r: int, c: int, k: int| grid_edge_index(rows as int, cols as int, wrap, r, c, k)),
{
    let mut v: Vec<u16> = Vec::new();
    let mut r: u32 = 0;
    while r < rows
        invariant
            r <= rows,
            grid_fits(rows as int, cols as int),
            v@.len() == 4 * (r * cols),
            forall|a: int, b: int, k: int|
                0 <= a < r && 0 <= b < cols && 0 <= k < 4 ==> #[trigger] v@[cell_slot(cols as int, 4, a, b, k)] as int == grid_edge_index(rows as int, cols as int, wrap, a, b, k),
        decreases rows - r,
    {
        let mut c: u32 = 0;
        while c < cols
            invariant
                r < rows,
                c <= cols,
                grid_fits(rows as int, cols as int),
                v@.len() == 4 * (r * cols + c),
                forall|a: int, b: int, k: int|
                    0 <= b < cols && 0 <= k < 4 && ((0 <= a < r) || (a == r && 0 <= b < c)) ==> #[trigger] v@[cell_slot(cols as int, 4, a, b, k)] as int == grid_edge_index(rows as int, cols as int, wrap, a, b, k),
            decreases cols - c,
        {
            proof {
                lemma_grid_bounds(rows as int, cols as int, r as int, c as int);
                lemma_grid_bounds(rows as int, cols as int, (r as int + 1) % (rows as int), c as int);
            }
            let current = r * (cols + 1) + c;
            let next_row = if wrap { ((r + 1) % rows) * (cols + 1) + c } else { current + cols + 1 };
            let next_col = current + 1;
            let ghost before = v@;
            let a0 = current as u16;
            let a1 = next_row as u16;
            let a3 = next_col as u16;
            v.push(a0);
            v.push(a1);
            v.push(a0);
            v.push(a3);
            assert(v@ =~= before + seq![a0, a1, a0, a3]);
            proof {
                assert forall|a: int, b: int, k: int|
                    0 <= b < cols && 0 <= k < 4 && ((0 <= a < r) || (a == r && 0 <= b < c + 1)) implies #[trigger] v@[cell_slot(cols as int, 4, a, b, k)] as int == grid_edge_index(rows as int, cols as int, wrap, a, b, k) by {
                    if a == r && b == c {
                        assert(cell_slot(cols as int, 4, a, b, k) == before.len() + k);
                    } else {
                        lemma_earlier_cell(cols as int, a, b, r as int, c as int);
                        assert(cell_slot(cols as int, 4, a, b, k) < before.len()) by (nonlinear_arith)
                            requires a * cols + b + 1 <= r * cols + c, 0 <= k < 4, before.len() == 4 * (r * cols + c),
                                cell_slot(cols as int, 4, a, b, k) == 4 * (a * cols + b) + k;
                        assert(v@[cell_slot(cols as int, 4, a, b, k)] == before[cell_slot(cols as int, 4, a, b, k)]);
                    }
                }
            }
            c = c + 1;
        }
        proof {
            assert(4 * (r * cols + cols) == 4 * ((r + 1) * cols)) by (nonlinear_arith);
        }
        r = r + 1;
    }
    proof {
        assert(4 * (rows * cols) == 4 * rows * cols) by (nonlinear_arith);
    }
    v
}

/// Every position of a cell list belongs to one entry of one cell.
proof fn lemma_slot_cell(rows: int, cols: int, width: int, p: int) -> (rck: (int, int, int))
    requires
        0 < width,
        0 < cols,
        0 <= p < width * rows * cols,
    ensures
        0 <= rck.0 < rows,
        0 <= rck.1 < cols,
        0 <= rck.2 < width,
        p == cell_slot(cols, width, rck.0, rck.1, rck.2),
{
    let q = p / width;
    let k = p % width;
    assert(p == width * q + k && 0 <= k < width && 0 <= q) by (nonlinear_arith)
        requires 0 < width, 0 <= p, q == p / width, k == p % width;
    assert(q < rows * cols) by (nonlinear_arith)
        requires p == width * q + k, 0 <= k, p < width * rows * cols, 0 < width;
    let r = q / cols;
    let c = q % cols;
    assert(q == cols * r + c && 0 <= c < cols && 0 <= r) by (nonlinear_arith)
        requires 0 < cols, 0 <= q, r == q / cols, c == q % cols;
    assert(r < rows) by (nonlinear_arith)
        requires q == cols * r + c, 0 <= c, q < rows * cols, 0 < cols;
    assert(p == width * (r * cols + c) + k) by (nonlinear_arith)
        requires p == width * q + k, q == cols * r + c;
    (r, c, k)
}

/// If every entry a cell list can hold lies below `bound`, every entry of
/// the list does.
proof fn lemma_cell_list_bounded(
    s: Seq<u16>,
    rows: int,
    cols: int,
    width: int,
    f: spec_fn(int, int, int) -> int,
    bound: int,
)
    requires
        0 < width,
        0 <= rows,
        0 <= cols,
        is_cell_list(s, rows, cols, width, f),
        forall|r: int, c: int, k: int| 0 <= r < rows && 0 <= c < cols && 0 <= k < width ==> #[trigger] f(r, c, k) < bound,
    ensures
        forall|p: int| 0 <= p < s.len() ==> #[trigger] s[p] < bound,
{
    assert forall|p: int| 0 <= p < s.len() implies #[trigger] s[p] < bound by {
        if cols == 0 {
            assert(width * rows * cols == 0) by (nonlinear_arith) requires cols == 0;
        }
        let (r, c, k) = lemma_slot_cell(rows, cols, width, p);
        assert(s[cell_slot(cols, width, r, c, k)] as int == f(r, c, k));
    }
}

proof fn lemma_grid_lists_bounded(rows: int, cols: int, wrap: bool, tris: Seq<u16>, edges: Seq<u16>)
    requires
        0 <= rows,
        0 <= cols,
        grid_fits(rows, cols),
        is_cell_list(tris, rows, cols, 6, |r: int, c: int, k: int| grid_triangle_index(cols, r, c, k)),
        is_cell_list(edges, rows, cols, 4, |r: int, c: int, k: int| grid_edge_index(rows, cols, wrap, r, c, k)),
    ensures
        forall|p: int| 0 <= p < tris.len() ==> #[trigger] tris[p] < (rows + 1) * (cols + 1),
        forall|p: int| 0 <= p < edges.len() ==> #[trigger] edges[p] < (rows + 1) * (cols + 1),
        tris.len() % 3 == 0,
        edges.len() % 2 == 0,
{
    let bound = (rows + 1) * (cols + 1);
    assert forall|r: int, c: int, k: int| 0 <= r < rows && 0 <= c < cols && 0 <= k < 6 implies
        #[trigger] grid_triangle_index(cols, r, c, k) < bound by {
        lemma_grid_bounds(rows, cols, r, c);
    }
    assert forall|r: int, c: int, k: int| 0 <= r < rows && 0 <= c < cols && 0 <= k < 4 implies
        #[trigger] grid_edge_index(rows, cols, wrap, r, c, k) < bound by {
        lemma_grid_bounds(rows, cols, r, c);
        lemma_grid_bounds(rows, cols, (r + 1) % rows, c);
    }
    lemma_cell_list_bounded(tris, rows, cols, 6, |r: int, c: int, k: int| grid_triangle_index(cols, r, c, k), bound);
    lemma_cell_list_bounded(edges, rows, cols, 4, |r: int, c: int, k: int| grid_edge_index(rows, cols, wrap, r, c, k), bound);
    assert(tris.len() == (2 * rows * cols) * 3) by (nonlinear_arith) requires tris.len() == 6 * rows * cols;
    assert(edges.len() == (2 * rows * cols) * 2) by (nonlinear_arith) requires edges.len() == 4 * rows * cols;
    lemma_mod_multiples_basic(2 * rows * cols, 3);
    lemma_mod_multiples_basic(2 * rows * cols, 2);
}

/// A torus of `major_segments` segments around its main circle and
/// `minor_segments` around its tube. Its vertices form a grid of
/// `major_segments + 1` rings of `minor_segments + 1` vertices, the last
/// ring and column repeating the first; the wireframe wraps from the last
/// ring back to the first.
pub fn create_torus(major_segments: u32, minor_segments: u32) -> (t: ShapeTopology)
    requires
        grid_fits(major_segments as int, minor_segments as int),
    ensures
        t.vertex_count == (major_segments + 1) * (minor_segments + 1),
        is_cell_list(t.indices@, major_segments as int, minor_segments as int, 6,
            |r: int, c: int, k: int| grid_triangle_index(minor_segments as int, r, c, k)),
        is_cell_list(t.edge_indices@, major_segments as int, minor_segments as int, 4,
            |r: int, c: int, k: int| grid_edge_index(major_segments as int, minor_segments as int, true, r, c, k)),
        t.well_formed(),
        forall|r: int, c: int| 0 <= r < major_segments && 0 <= c < minor_segments
            ==> #[trigger] grid_cell_drawn(t.indices@, t.edge_indices@, major_segments as int, minor_segments as int, true, r, c),
{
    let indices = grid_triangles(major_segments, minor_segments);
    let edge_indices = grid_edges(major_segments, minor_segments, true);
    proof {
        lemma_grid_lists_bounded(major_segments as int, minor_segments as int, true, indices@, edge_indices@);
        lemma_grid_cells_drawn(indices@, edge_indices@, major_segments as int, minor_segments as int, true);
        lemma_grid_sides(major_segments as int, minor_segments as int);
    }
    let vertex_count = ((major_segments as usize) + 1) * ((minor_segments as usize) + 1);
    ShapeTopology { vertex_count, indices, edge_indices }
}

/// A sphere of `rings` bands from pole to pole and `segments` slices around
/// its axis. Its vertices form a grid of `rings + 1` rings of
/// `segments + 1` vertices; the wireframe joins each vertex to the one on
/// the next ring and the next one on its own ring.
pub fn create_sphere(segments: u32, rings: u32) -> (t: ShapeTopology)
    requires
        grid_fits(rings as int, segments as int),
    ensures
        t.vertex_count == (rings + 1) * (segments + 1),
        is_cell_list(t.indices@, rings as int, segments as int, 6,
            |r: int, c: int, k: int| grid_triangle_index(segments as int, r, c, k)),
        is_cell_list(t.edge_indices@, rings as int, segments as int, 4,
            |r: int, c: int, k: int| grid_edge_index(rings as int, segments as int, false, r, c, k)),
        t.well_formed(),
        forall|r: int, c: int| 0 <= r < rings && 0 <= c < segments
            ==> #[trigger] grid_cell_drawn(t.indices@, t.edge_indices@, rings as int, segments as int, false, r, c),
{
    let indices = grid_triangles(rings, segments);
    let edge_indices = grid_edges(rings, segments, false);
    proof {
        lemma_grid_lists_bounded(rings as int, segments as int, false, indices@, edge_indices@);
        lemma_grid_cells_drawn(indices@, edge_indices@, rings as int, segments as int, false);
        lemma_grid_sides(rings as int, segments as int);
    }
    let vertex_count = ((rings as usize) + 1) * ((segments as usize) + 1);
    ShapeTopology { vertex_count, indices, edge_indices }
}

/// Triangle list of the cube: two triangles per face, faces in the order
/// front, back, top, bottom, right, left, each face with its own four
/// vertices.
pub open spec fn cube_indices() -> Seq<u16> {
    seq![
        0, 1, 2, 2, 3, 0,
        4, 6, 5, 6, 4, 7,
        8, 9, 10, 10, 11, 8,
        12, 14, 13, 14, 12, 15,
        16, 17, 18, 18, 19, 16,
        20, 22, 21, 22, 20, 23,
    ]
}

/// The cube's twelve edges: the front square, the back square and the four
/// edges joining them.
pub open spec fn cube_edge_indices() -> Seq<u16> {
    seq![0, 1, 1, 2, 2, 3, 3, 0, 4, 5, 5, 6, 6, 7, 7, 4, 0, 4, 1, 5, 2, 6, 3, 7]
}

/// The unit cube: 24 vertices (four per face, so every face has its own
/// colour), 12 triangles and 12 edges.
pub fn create_cube() -> (t: ShapeTopology)
    ensures
        t.vertex_count == 24,
        t.indices@ == cube_indices(),
        t.edge_indices@ == cube_edge_indices(),
        t.well_formed(),
        cube_faces_drawn(t.indices@),
        cube_edges_drawn(t.edge_indices@),
{
    let indices: Vec<u16> = vec![
        0, 1, 2, 2, 3, 0,
        4, 6, 5, 6, 4, 7,
        8, 9, 10, 10, 11, 8,
        12, 14, 13, 14, 12, 15,
        16, 17, 18, 18, 19, 16,
        20, 22, 21, 22, 20, 23,
    ];
    let edge_indices: Vec<u16> = vec![0, 1, 1, 2, 2, 3, 3, 0, 4, 5, 5, 6, 6, 7, 7, 4, 0, 4, 1, 5, 2, 6, 3, 7];
    assert(indices@ =~= cube_indices());
    assert(edge_indices@ =~= cube_edge_indices());
    proof {
        lemma_cube_faces();
        lemma_cube_edges();
    }
    ShapeTopology { vertex_count: 24, indices, edge_indices }
}

/// The corner of the unit cube that wireframe vertex `v` (0 to 7) sits
/// at, one coordinate 0 or 1 per axis: vertices 0 to 3 go round the front
/// square (z = 1) from the lower left corner, vertices 4 to 7 round the back
/// square (z = 0) in the same way.
pub open spec fn cube_corner(v: int) -> (int, int, int) {
    let c = v % 4;
    (if c == 1 || c == 2 { 1 } else { 0 }, if c == 2 || c == 3 { 1 } else { 0 }, if v < 4 { 1 } else { 0 })
}

/// Two corners of the cube joined by an edge of the cube: they differ in
/// exactly one coordinate.
pub open spec fn cube_adjacent(a: int, b: int) -> bool {
    let (p, q) = (cube_corner(a), cube_corner(b));
    (if p.0 != q.0 { 1int } else { 0 }) + (if p.1 != q.1 { 1int } else { 0 }) + (if p.2 != q.2 { 1int } else { 0 }) == 1
}

/// A wireframe of the whole cube: twelve pairs of corners 0 to 7, each
/// pair an edge of the cube, no edge twice. The cube has twelve edges, so
/// every one of them is drawn.
pub open spec fn cube_edges_drawn(s: Seq<u16>) -> bool {
    &&& s.len() == 24
    &&& forall|k: int| 0 <= k < 12 ==> #[trigger] s[2 * k] < 8 && s[2 * k + 1] < 8 && cube_adjacent(s[2 * k] as int, s[2 * k + 1] as int)
    &&& forall|j: int, k: int| 0 <= j < k < 12 ==> !(#[trigger] s[2 * j] == #[trigger] s[2 * k] && s[2 * j + 1] == s[2 * k + 1])
        && !(s[2 * j] == s[2 * k + 1] && s[2 * j + 1] == s[2 * k])
}

/// A triangle list of the cube's six faces, each face owning the four
/// vertices `4 f` to `4 f + 3`: face `f` is two triangles over its own
/// vertices, each with three different corners, together using all four.
pub open spec fn cube_faces_drawn(s: Seq<u16>) -> bool {
    &&& s.len() == 36
    &&& forall|f: int, k: int| 0 <= f < 6 && 0 <= k < 6 ==> 4 * f <= #[trigger] s[6 * f + k] < 4 * f + 4
    &&& forall|f: int| 0 <= f < 6 ==> #[trigger] s[6 * f] != s[6 * f + 1] && s[6 * f] != s[6 * f + 2] && s[6 * f + 1] != s[6 * f + 2]
        && s[6 * f + 3] != s[6 * f + 4] && s[6 * f + 3] != s[6 * f + 5] && s[6 * f + 4] != s[6 * f + 5]
    &&& forall|f: int, c: int| 0 <= f < 6 && 0 <= c < 4 ==> #[trigger] uses_vertex(s, 6 * f, 6, 4 * f + c)
}

/// Whether one of the `n` entries of `s` from `at` on is vertex `v`.
pub open spec fn uses_vertex(s: Seq<u16>, at: int, n: int, v: int) -> bool {
    exists|k: int| 0 <= k < n && #[trigger] s[at + k] == v
}

/// The cube's wireframe draws every edge of the cube once and nothing
/// else.
pub proof fn lemma_cube_edges()
    ensures
        cube_edges_drawn(cube_edge_indices()),
{
    let s = cube_edge_indices();
    assert forall|k: int| 0 <= k < 12 implies #[trigger] s[2 * k] < 8 && s[2 * k + 1] < 8 && cube_adjacent(s[2 * k] as int, s[2 * k + 1] as int) by {
        assert(k == 0 || k == 1 || k == 2 || k == 3 || k == 4 || k == 5 || k == 6 || k == 7 || k == 8 || k == 9 || k == 10 || k == 11);
    }
    assert forall|j: int, k: int| 0 <= j < k < 12 implies !(#[trigger] s[2 * j] == #[trigger] s[2 * k] && s[2 * j + 1] == s[2 * k + 1])
        && !(s[2 * j] == s[2 * k + 1] && s[2 * j + 1] == s[2 * k]) by {
        assert(k == 0 || k == 1 || k == 2 || k == 3 || k == 4 || k == 5 || k == 6 || k == 7 || k == 8 || k == 9 || k == 10 || k == 11);
        assert(j == 0 || j == 1 || j == 2 || j == 3 || j == 4 || j == 5 || j == 6 || j == 7 || j == 8 || j == 9 || j == 10);
    }
}

/// Every face of the cube is drawn as two triangles that cover it.
pub proof fn lemma_cube_faces()
    ensures
        cube_faces_drawn(cube_indices()),
{
    let s = cube_indices();
    assert forall|f: int, k: int| 0 <= f < 6 && 0 <= k < 6 implies 4 * f <= #[trigger] s[6 * f + k] < 4 * f + 4 by {
        assert(f == 0 || f == 1 || f == 2 || f == 3 || f == 4 || f == 5);
        assert(k == 0 || k == 1 || k == 2 || k == 3 || k == 4 || k == 5);
    }
    assert forall|f: int| 0 <= f < 6 implies #[trigger] s[6 * f] != s[6 * f + 1] && s[6 * f] != s[6 * f + 2] && s[6 * f + 1] != s[6 * f + 2]
        && s[6 * f + 3] != s[6 * f + 4] && s[6 * f + 3] != s[6 * f + 5] && s[6 * f + 4] != s[6 * f + 5] by {
        assert(f == 0 || f == 1 || f == 2 || f == 3 || f == 4 || f == 5);
    }
    assert forall|f: int, c: int| 0 <= f < 6 && 0 <= c < 4 implies #[trigger] uses_vertex(s, 6 * f, 6, 4 * f + c) by {
        assert(f == 0 || f == 1 || f == 2 || f == 3 || f == 4 || f == 5);
        assert(c == 0 || c == 1 || c == 2 || c == 3);
        if s[6 * f] == 4 * f + c {
        } else if s[6 * f + 1] == 4 * f + c {
            assert(s[6 * f + 1] == 4 * f + c);
        } else if s[6 * f + 2] == 4 * f + c {
            assert(s[6 * f + 2] == 4 * f + c);
        } else if s[6 * f + 3] == 4 * f + c {
            assert(s[6 * f + 3] == 4 * f + c);
        } else if s[6 * f + 4] == 4 * f + c {
            assert(s[6 * f + 4] == 4 * f + c);
        } else {
            assert(s[6 * f + 5] == 4 * f + c);
        }
    }
}

/// Triangle list of the pyramid: the base as two triangles over its own four
/// vertices, then the four sides, each from two base corners to the apex.
pub open spec fn pyramid_indices() -> Seq<u16> {
    seq![0, 2, 1, 2, 0, 3, 5, 6, 4, 6, 7, 4, 7, 8, 4, 8, 5, 4]
}

/// The pyramid's eight edges: the base square and the four edges up to the
/// apex.
pub open spec fn pyramid_edge_indices() -> Seq<u16> {
    seq![0, 1, 1, 2, 2, 3, 3, 0, 0, 4, 1, 4, 2, 4, 3, 4]
}

/// The square pyramid: 9 vertices (four base corners, the apex, and the
/// four base corners again with the colours of the sides), 6 triangles and
/// 8 edges.
pub fn create_pyramid() -> (t: ShapeTopology)
    ensures
        t.vertex_count == 9,
        t.indices@ == pyramid_indices(),
        t.edge_indices@ == pyramid_edge_indices(),
        t.well_formed(),
        pyramid_faces_drawn(t.indices@),
        pyramid_edges_drawn(t.edge_indices@),
{
    let indices: Vec<u16> = vec![0, 2, 1, 2, 0, 3, 5, 6, 4, 6, 7, 4, 7, 8, 4, 8, 5, 4];
    let edge_indices: Vec<u16> = vec![0, 1, 1, 2, 2, 3, 3, 0, 0, 4, 1, 4, 2, 4, 3, 4];
    assert(indices@ =~= pyramid_indices());
    assert(edge_indices@ =~= pyramid_edge_indices());
    proof {
        lemma_pyramid_faces();
    }
    ShapeTopology { vertex_count: 9, indices, edge_indices }
}

/// A triangle list of the pyramid: the base as two triangles over the
/// base corners 0 to 3, each with three different corners and together
/// using all four; then side `t` (0 to 3) from the side-coloured corner
/// `5 + t` to the next one round the base, `5 + (t + 1) % 4`, up to the
/// apex 4.
pub open spec fn pyramid_faces_drawn(s: Seq<u16>) -> bool {
    &&& s.len() == 18
    &&& forall|k: int| 0 <= k < 6 ==> #[trigger] s[k] < 4
    &&& s[0] != s[1] && s[0] != s[2] && s[1] != s[2] && s[3] != s[4] && s[3] != s[5] && s[4] != s[5]
    &&& forall|c: int| 0 <= c < 4 ==> #[trigger] uses_vertex(s, 0, 6, c)
    &&& forall|t: int| 0 <= t < 4 ==> #[trigger] s[6 + 3 * t] == 5 + t && s[7 + 3 * t] == 5 + (t + 1) % 4 && s[8 + 3 * t] == 4
}

/// The pyramid's wireframe: the base square, corner `k` to corner
/// `(k + 1) % 4`, then every base corner `k` up to the apex 4.
pub open spec fn pyramid_edges_drawn(s: Seq<u16>) -> bool {
    &&& s.len() == 16
    &&& forall|k: int| 0 <= k < 4 ==> #[trigger] s[2 * k] == k && s[2 * k + 1] == (k + 1) % 4
    &&& forall|k: int| 0 <= k < 4 ==> #[trigger] s[8 + 2 * k] == k && s[9 + 2 * k] == 4
}

/// The pyramid is drawn as its base and its four sides, each side between
/// two neighbouring base corners and the apex, and its wireframe as the
/// base square and the four edges up to the apex.
pub proof fn lemma_pyramid_faces()
    ensures
        pyramid_faces_drawn(pyramid_indices()),
        pyramid_edges_drawn(pyramid_edge_indices()),
{
    let s = pyramid_indices();
    let e = pyramid_edge_indices();
    assert forall|k: int| 0 <= k < 6 implies #[trigger] s[k] < 4 by {
        assert(k == 0 || k == 1 || k == 2 || k == 3 || k == 4 || k == 5);
    }
    assert forall|c: int| 0 <= c < 4 implies #[trigger] uses_vertex(s, 0, 6, c) by {
        if c == 0 {
            assert(s[0int + 0] == c);
        } else if c == 1 {
            assert(s[0int + 2] == c);
        } else if c == 2 {
            assert(s[0int + 1] == c);
        } else {
            assert(s[0int + 5] == c);
        }
    }
    assert forall|t: int| 0 <= t < 4 implies #[trigger] s[6 + 3 * t] == 5 + t && s[7 + 3 * t] == 5 + (t + 1) % 4 && s[8 + 3 * t] == 4 by {
        assert(t == 0 || t == 1 || t == 2 || t == 3);
    }
    assert forall|k: int| 0 <= k < 4 implies #[trigger] e[2 * k] == k && e[2 * k + 1] == (k + 1) % 4 by {
        assert(k == 0 || k == 1 || k == 2 || k == 3);
    }
    assert forall|k: int| 0 <= k < 4 implies #[trigger] e[8 + 2 * k] == k && e[9 + 2 * k] == 4 by {
        assert(k == 0 || k == 1 || k == 2 || k == 3);
    }
}

/// Index of the centre of the top cap of a cylinder with `segments`
/// segments, as the 16-bit index it is stored as: it comes right after the
/// `2 * (segments + 1)` rim vertices.
pub open spec fn cylinder_top_center(segments: int) -> int {
    (2 * segments + 2) % 0x1_0000
}

/// Index of the centre of the bottom cap, right after the top centre.
pub open spec fn cylinder_bottom_center(segments: int) -> int {
    (2 * segments + 3) % 0x1_0000
}

/// The `k`-th of the six indices side segment `i` adds: rim vertex `2 i` is
/// on the top circle, `2 i + 1` below it on the bottom circle.
pub open spec fn cylinder_side_index(i: int, k: int) -> int {
    let idx = 2 * i;
    if k == 0 {
        idx
    } else if k == 1 || k == 3 {
        idx + 1
    } else if k == 2 || k == 5 {
        idx + 2
    } else {
        idx + 3
    }
}

/// The `k`-th of the six indices segment `i` adds to the caps: a top-cap
/// triangle from the top centre, then a bottom-cap triangle from the bottom
/// centre.
pub open spec fn cylinder_cap_index(segments: int, i: int, k: int) -> int {
    if k == 0 {
        cylinder_top_center(segments)
    } else if k == 1 {
        2 * i
    } else if k == 2 {
        2 * (i + 1)
    } else if k == 3 {
        cylinder_bottom_center(segments)
    } else if k == 4 {
        2 * (i + 1) + 1
    } else {
        2 * i + 1
    }
}

/// The `k`-th of the ten indices segment `i` adds to the wireframe: the top
/// rim edge, the bottom rim edge (both wrapping to the first segment after
/// the last), the vertical edge, and the spokes from both centres.
pub open spec fn cylinder_edge_index(segments: int, i: int, k: int) -> int {
    let top = 2 * i;
    let bottom = 2 * i + 1;
    let next_top = ((i + 1) % segments) * 2;
    let next_bottom = ((i + 1) % segments) * 2 + 1;
    if k == 0 || k == 4 || k == 7 {
        top
    } else if k == 1 {
        next_top
    } else if k == 2 || k == 5 || k == 9 {
        bottom
    } else if k == 3 {
        next_bottom
    } else if k == 6 {
        cylinder_top_center(segments)
    } else {
        cylinder_bottom_center(segments)
    }
}

/// The cylinder with `segments` segments: `segments + 1` pairs of rim
/// vertices (top, then bottom; the last pair repeats the first) followed by
/// the two cap centres. Its triangle list holds the sides, then the caps.
/// The cap centres are stored as 16-bit indices: at 32767 segments they no
/// longer fit and wrap, and the topology is not well formed.
pub fn create_cylinder(segments: u32) -> (t: ShapeTopology)
    requires
        segments <= 32767,
    ensures
        t.vertex_count == 2 * segments + 4,
        t.indices@.len() == 12 * segments,
        forall|i: int, k: int| 0 <= i < segments && 0 <= k < 6 ==> #[trigger] t.indices@[6 * i + k] as int == cylinder_side_index(i, k),
        forall|i: int, k: int| 0 <= i < segments && 0 <= k < 6 ==> #[trigger] t.indices@[6 * segments + 6 * i + k] as int == cylinder_cap_index(segments as int, i, k),
        t.edge_indices@.len() == 10 * segments,
        forall|i: int, k: int| 0 <= i < segments && 0 <= k < 10 ==> #[trigger] t.edge_indices@[10 * i + k] as int == cylinder_edge_index(segments as int, i, k),
        segments <= 32766 ==> t.well_formed(),
        forall|i: int| 0 <= i < segments ==> #[trigger] cylinder_segment_drawn(t.indices@, t.edge_indices@, segments as int, i),
{
    let top_center = (2 * segments + 2) as u16;
    let bottom_center = (2 * segments + 3) as u16;
    assert(top_center as int == cylinder_top_center(segments as int)) by (bit_vector)
        requires top_center == (2 * segments + 2) as u16, segments <= 32767;
    assert(bottom_center as int == cylinder_bottom_center(segments as int)) by (bit_vector)
        requires bottom_center == (2 * segments + 3) as u16, segments <= 32767;

    let mut indices: Vec<u16> = Vec::new();
    let mut i: u32 = 0;
    while i < segments
        invariant
            i <= segments <= 32767,
            indices@.len() == 6 * i,
            forall|a: int, k: int| 0 <= a < i && 0 <= k < 6 ==> #[trigger] indices@[6 * a + k] as int == cylinder_side_index(a, k),
        decreases segments - i,
    {
        let idx = i * 2;
        let ghost before = indices@;
        let b = idx as u16;
        indices.push(b);
        indices.push(b + 1);
        indices.push(b + 2);
        indices.push(b + 1);
        indices.push(b + 3);
        indices.push(b + 2);
        assert(indices@ =~= before + seq![b, (b + 1) as u16, (b + 2) as u16, (b + 1) as u16, (b + 3) as u16, (b + 2) as u16]);
        assert forall|a: int, k: int| 0 <= a < i + 1 && 0 <= k < 6 implies #[trigger] indices@[6 * a + k] as int == cylinder_side_index(a, k) by {
            if a < i {
                assert(indices@[6 * a + k] == before[6 * a + k]);
            }
        }
        i = i + 1;
    }
    let mut i: u32 = 0;
    while i < segments
        invariant
            i <= segments <= 32767,
            top_center as int == cylinder_top_center(segments as int),
            bottom_center as int == cylinder_bottom_center(segments as int),
            indices@.len() == 6 * segments + 6 * i,
            forall|a: int, k: int| 0 <= a < segments && 0 <= k < 6 ==> #[trigger] indices@[6 * a + k] as int == cylinder_side_index(a, k),
            forall|a: int, k: int| 0 <= a < i && 0 <= k < 6 ==> #[trigger] indices@[6 * segments + 6 * a + k] as int == cylinder_cap_index(segments as int, a, k),
        decreases segments - i,
    {
        let ghost before = indices@;
        let t0 = (i * 2) as u16;
        let t1 = ((i + 1) * 2) as u16;
        let b0 = ((i + 1) * 2 + 1) as u16;
        let b1 = (i * 2 + 1) as u16;
        indices.push(top_center);
        indices.push(t0);
        indices.push(t1);
        indices.push(bottom_center);
        indices.push(b0);
        indices.push(b1);
        assert(indices@ =~= before + seq![top_center, t0, t1, bottom_center, b0, b1]);
        assert forall|a: int, k: int| 0 <= a < segments && 0 <= k < 6 implies #[trigger] indices@[6 * a + k] as int == cylinder_side_index(a, k) by {
            assert(indices@[6 * a + k] == before[6 * a + k]);
        }
        assert forall|a: int, k: int| 0 <= a < i + 1 && 0 <= k < 6 implies #[trigger] indices@[6 * segments + 6 * a + k] as int == cylinder_cap_index(segments as int, a, k) by {
            if a < i {
                assert(indices@[6 * segments + 6 * a + k] == before[6 * segments + 6 * a + k]);
            }
        }
        i = i + 1;
    }

    let mut edge_indices: Vec<u16> = Vec::new();
    let mut i: u32 = 0;
    while i < segments
        invariant
            i <= segments <= 32767,
            top_center as int == cylinder_top_center(segments as int),
            bottom_center as int == cylinder_bottom_center(segments as int),
            edge_indices@.len() == 10 * i,
            forall|a: int, k: int| 0 <= a < i && 0 <= k < 10 ==> #[trigger] edge_indices@[10 * a + k] as int == cylinder_edge_index(segments as int, a, k),
        decreases segments - i,
    {
        let ghost before = edge_indices@;
        let top = (i * 2) as u16;
        let bottom = (i * 2 + 1) as u16;
        let next_top = (((i + 1) % segments) * 2) as u16;
        let next_bottom = (((i + 1) % segments) * 2 + 1) as u16;
        edge_indices.push(top);
        edge_indices.push(next_top);
        edge_indices.push(bottom);
        edge_indices.push(next_bottom);
        edge_indices.push(top);
        edge_indices.push(bottom);
        edge_indices.push(top_center);
        edge_indices.push(top);
        edge_indices.push(bottom_center);
        edge_indices.push(bottom);
        assert(edge_indices@ =~= before + seq![top, next_top, bottom, next_bottom, top, bottom, top_center, top, bottom_center, bottom]);
        assert forall|a: int, k: int| 0 <= a < i + 1 && 0 <= k < 10 implies #[trigger] edge_indices@[10 * a + k] as int == cylinder_edge_index(segments as int, a, k) by {
            if a < i {
                assert(edge_indices@[10 * a + k] == before[10 * a + k]);
            }
        }
        i = i + 1;
    }
    let vertex_count = (segments as usize) * 2 + 4;
    let t = ShapeTopology { vertex_count, indices, edge_indices };
    proof {
        if segments <= 32766 {
            lemma_cylinder_well_formed(segments as int, t);
        }
        let n = segments as int;
        assert forall|i: int| 0 <= i < n implies #[trigger] cylinder_segment_drawn(t.indices@, t.edge_indices@, n, i) by {
            lemma_cylinder_layout(n, i);
            assert(t.indices@[6 * i + 0] as int == cylinder_side_index(i, 0));
            assert(t.indices@[6 * i + 1] as int == cylinder_side_index(i, 1));
            assert(t.indices@[6 * i + 2] as int == cylinder_side_index(i, 2));
            assert(t.indices@[6 * i + 3] as int == cylinder_side_index(i, 3));
            assert(t.indices@[6 * i + 4] as int == cylinder_side_index(i, 4));
            assert(t.indices@[6 * i + 5] as int == cylinder_side_index(i, 5));
            assert(t.indices@[6 * n + 6 * i + 0] as int == cylinder_cap_index(n, i, 0));
            assert(t.indices@[6 * n + 6 * i + 1] as int == cylinder_cap_index(n, i, 1));
            assert(t.indices@[6 * n + 6 * i + 2] as int == cylinder_cap_index(n, i, 2));
            assert(t.indices@[6 * n + 6 * i + 3] as int == cylinder_cap_index(n, i, 3));
            assert(t.indices@[6 * n + 6 * i + 4] as int == cylinder_cap_index(n, i, 4));
            assert(t.indices@[6 * n + 6 * i + 5] as int == cylinder_cap_index(n, i, 5));
            assert(t.edge_indices@[10 * i + 0] as int == cylinder_edge_index(n, i, 0));
            assert(t.edge_indices@[10 * i + 1] as int == cylinder_edge_index(n, i, 1));
            assert(t.edge_indices@[10 * i + 2] as int == cylinder_edge_index(n, i, 2));
            assert(t.edge_indices@[10 * i + 3] as int == cylinder_edge_index(n, i, 3));
            assert(t.edge_indices@[10 * i + 4] as int == cylinder_edge_index(n, i, 4));
            assert(t.edge_indices@[10 * i + 5] as int == cylinder_edge_index(n, i, 5));
            assert(t.edge_indices@[10 * i + 6] as int == cylinder_edge_index(n, i, 6));
            assert(t.edge_indices@[10 * i + 7] as int == cylinder_edge_index(n, i, 7));
            assert(t.edge_indices@[10 * i + 8] as int == cylinder_edge_index(n, i, 8));
            assert(t.edge_indices@[10 * i + 9] as int == cylinder_edge_index(n, i, 9));
        }
    }
    t
}

/// What segment `i` of a cylinder with `segments` segments adds to the
/// lists. Rim pair `i` is the top vertex `2 i` and the bottom vertex
/// `2 i + 1`; the cap centres follow the `segments + 1` rim pairs, stored as
/// 16-bit indices.
/// - the side quad between rim pair `i` and rim pair `i + 1`, as the
///   triangles `(2i, 2i+1, 2i+2)` and `(2i+1, 2i+3, 2i+2)`;
/// - the cap triangles `(top centre, 2i, 2i+2)` and
///   `(bottom centre, 2i+3, 2i+1)`;
/// - the edges top rim `2i`–`2j`, bottom rim `2i+1`–`2j+1` with `j` the next
///   segment round (the last one wrapping to the first), the vertical edge
///   `2i`–`2i+1`, and the spokes from the top centre to `2i` and from the
///   bottom centre to `2i+1`.
pub open spec fn cylinder_segment_drawn(tris: Seq<u16>, edges: Seq<u16>, segments: int, i: int) -> bool {
    let top_centre = (2 * segments + 2) % 0x1_0000;
    let bottom_centre = (2 * segments + 3) % 0x1_0000;
    let j = (i + 1) % segments;
    let c = 6 * segments + 6 * i;
    let e = 10 * i;
    &&& tris[6 * i] == 2 * i && tris[6 * i + 1] == 2 * i + 1 && tris[6 * i + 2] == 2 * i + 2
    &&& tris[6 * i + 3] == 2 * i + 1 && tris[6 * i + 4] == 2 * i + 3 && tris[6 * i + 5] == 2 * i + 2
    &&& tris[c] == top_centre && tris[c + 1] == 2 * i && tris[c + 2] == 2 * i + 2
    &&& tris[c + 3] == bottom_centre && tris[c + 4] == 2 * i + 3 && tris[c + 5] == 2 * i + 1
    &&& edges[e] == 2 * i && edges[e + 1] == 2 * j
    &&& edges[e + 2] == 2 * i + 1 && edges[e + 3] == 2 * j + 1
    &&& edges[e + 4] == 2 * i && edges[e + 5] == 2 * i + 1
    &&& edges[e + 6] == top_centre && edges[e + 7] == 2 * i
    &&& edges[e + 8] == bottom_centre && edges[e + 9] == 2 * i + 1
}

/// The indices of cylinder segment `i`, position by position: its side
/// quad joins rim pair `i` to rim pair `i + 1`, its cap triangles fan out
/// from the cap centres, and its rim edges go to the next segment round,
/// the last wrapping to the first.
pub proof fn lemma_cylinder_layout(segments: int, i: int)
    requires
        0 <= i < segments,
    ensures
        cylinder_side_index(i, 0) == 2 * i,
        cylinder_side_index(i, 1) == 2 * i + 1,
        cylinder_side_index(i, 2) == 2 * i + 2,
        cylinder_side_index(i, 3) == 2 * i + 1,
        cylinder_side_index(i, 4) == 2 * i + 3,
        cylinder_side_index(i, 5) == 2 * i + 2,
        cylinder_cap_index(segments, i, 0) == (2 * segments + 2) % 0x1_0000,
        cylinder_cap_index(segments, i, 1) == 2 * i,
        cylinder_cap_index(segments, i, 2) == 2 * i + 2,
        cylinder_cap_index(segments, i, 3) == (2 * segments + 3) % 0x1_0000,
        cylinder_cap_index(segments, i, 4) == 2 * i + 3,
        cylinder_cap_index(segments, i, 5) == 2 * i + 1,
        cylinder_edge_index(segments, i, 0) == 2 * i,
        cylinder_edge_index(segments, i, 1) == 2 * ((i + 1) % segments),
        cylinder_edge_index(segments, i, 2) == 2 * i + 1,
        cylinder_edge_index(segments, i, 3) == 2 * ((i + 1) % segments) + 1,
        cylinder_edge_index(segments, i, 4) == 2 * i,
        cylinder_edge_index(segments, i, 5) == 2 * i + 1,
        cylinder_edge_index(segments, i, 6) == (2 * segments + 2) % 0x1_0000,
        cylinder_edge_index(segments, i, 7) == 2 * i,
        cylinder_edge_index(segments, i, 8) == (2 * segments + 3) % 0x1_0000,
        cylinder_edge_index(segments, i, 9) == 2 * i + 1,
{
}

proof fn lemma_cylinder_well_formed(segments: int, t: ShapeTopology)
    requires
        0 <= segments <= 32766,
        t.vertex_count == 2 * segments + 4,
        t.indices@.len() == 12 * segments,
        forall|i: int, k: int| 0 <= i < segments && 0 <= k < 6 ==> #[trigger] t.indices@[6 * i + k] as int == cylinder_side_index(i, k),
        forall|i: int, k: int| 0 <= i < segments && 0 <= k < 6 ==> #[trigger] t.indices@[6 * segments + 6 * i + k] as int == cylinder_cap_index(segments, i, k),
        t.edge_indices@.len() == 10 * segments,
        forall|i: int, k: int| 0 <= i < segments && 0 <= k < 10 ==> #[trigger] t.edge_indices@[10 * i + k] as int == cylinder_edge_index(segments, i, k),
    ensures
        t.well_formed(),
{
    assert forall|p: int| 0 <= p < t.indices@.len() implies #[trigger] t.indices@[p] < t.vertex_count by {
        if p < 6 * segments {
            let i = p / 6;
            let k = p % 6;
            assert(t.indices@[6 * i + k] as int == cylinder_side_index(i, k));
        } else {
            let q = p - 6 * segments;
            let i = q / 6;
            let k = q % 6;
            assert(t.indices@[6 * segments + 6 * i + k] as int == cylinder_cap_index(segments, i, k));
        }
    }
    assert forall|p: int| 0 <= p < t.edge_indices@.len() implies #[trigger] t.edge_indices@[p] < t.vertex_count by {
        let i = p / 10;
        let k = p % 10;
        assert(t.edge_indices@[10 * i + k] as int == cylinder_edge_index(segments, i, k));
    }
    assert(t.indices@.len() == (4 * segments) * 3);
    assert(t.edge_indices@.len() == (5 * segments) * 2);
    lemma_mod_multiples_basic(4 * segments, 3);
    lemma_mod_multiples_basic(5 * segments, 2);
}

/// Segments of the torus the backend draws around its main circle and
/// around its tube.
pub const TORUS_MAJOR_SEGMENTS: u32 = 16;
pub const TORUS_MINOR_SEGMENTS: u32 = 8;
/// Segments of the cylinder the backend draws.
pub const CYLINDER_SEGMENTS: u32 = 16;

/// How many vertices the solid drawn for `shape` has.
pub open spec fn spec_shape_vertex_count(shape: Shape) -> int {
    match shape {
        Shape::Cube => 24,
        Shape::Pyramid => 9,
        Shape::Torus => (TORUS_MAJOR_SEGMENTS + 1) * (TORUS_MINOR_SEGMENTS + 1),
        Shape::Cylinder => 2 * CYLINDER_SEGMENTS + 4,
    }
}

/// The connectivity of the solid drawn for `shape`: the cube, the
/// pyramid, a torus of 16 by 8 segments, or a cylinder of 16 segments.
pub fn shape_topology(shape: Shape) -> (t: ShapeTopology)
    ensures
        t.vertex_count == spec_shape_vertex_count(shape),
        t.well_formed(),
        shape == Shape::Cube ==> t.indices@ == cube_indices() && t.edge_indices@ == cube_edge_indices(),
        shape == Shape::Pyramid ==> t.indices@ == pyramid_indices() && t.edge_indices@ == pyramid_edge_indices(),
        shape == Shape::Torus ==> is_cell_list(t.indices@, 16, 8, 6,
            |r: int, c: int, k: int| grid_triangle_index(8, r, c, k)),
        shape == Shape::Torus ==> is_cell_list(t.edge_indices@, 16, 8, 4,
            |r: int, c: int, k: int| grid_edge_index(16, 8, true, r, c, k)),
        shape == Shape::Cylinder ==> t.indices@.len() == 12 * 16 && t.edge_indices@.len() == 10 * 16,
        shape == Shape::Cylinder ==> forall|i: int, k: int| 0 <= i < 16 && 0 <= k < 6
            ==> #[trigger] t.indices@[6 * i + k] as int == cylinder_side_index(i, k),
        shape == Shape::Cylinder ==> forall|i: int, k: int| 0 <= i < 16 && 0 <= k < 6
            ==> #[trigger] t.indices@[6 * 16 + 6 * i + k] as int == cylinder_cap_index(16, i, k),
        shape == Shape::Cylinder ==> forall|i: int, k: int| 0 <= i < 16 && 0 <= k < 10
            ==> #[trigger] t.edge_indices@[10 * i + k] as int == cylinder_edge_index(16, i, k),
        shape == Shape::Torus ==> forall|r: int, c: int| 0 <= r < 16 && 0 <= c < 8
            ==> #[trigger] grid_cell_drawn(t.indices@, t.edge_indices@, 16, 8, true, r, c),
        shape == Shape::Cylinder ==> forall|i: int| 0 <= i < 16
            ==> #[trigger] cylinder_segment_drawn(t.indices@, t.edge_indices@, 16, i),
        shape == Shape::Cube ==> cube_faces_drawn(t.indices@) && cube_edges_drawn(t.edge_indices@),
        shape == Shape::Pyramid ==> pyramid_faces_drawn(t.indices@) && pyramid_edges_drawn(t.edge_indices@),
{
    match shape {
        Shape::Cube => create_cube(),
        Shape::Pyramid => create_pyramid(),
        Shape::Torus => create_torus(TORUS_MAJOR_SEGMENTS, TORUS_MINOR_SEGMENTS),
        Shape::Cylinder => create_cylinder(CYLINDER_SEGMENTS),
    }
}

} // verus!
