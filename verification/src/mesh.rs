//! Mesh representation and recursive connectivity.
//!
//! A `Connectivity` describes one mesh element: its ordered global vertex
//! indices and its decomposition into lower-dimensional boundary faces, each
//! face being a connectivity itself. The recursion bottoms out at the
//! terminal connectivity `()` with no vertices and no faces. A `Mesh` owns a
//! dense vertex list and a dense element list; `create_2d_square_mesh`
//! builds a uniform structured grid of quadrilaterals.

use vstd::prelude::*;

use crate::basis::Vector;
use crate::rational::Rational;
use crate::rational::Ratio;

verus! {

/// One mesh element: ordered vertex indices and a recursive decomposition
/// into boundary faces. The vertex order is topologically significant (it
/// encodes winding), so it is part of the contract.
pub trait Connectivity: Sized {
    /// The connectivity type of this element's boundary faces. (A bound
    /// `FaceConnectivity: Connectivity` would be the natural reading, but
    /// the terminal variant's face type is itself, which the verifier
    /// rejects as a cyclic bound; each concrete face type implements
    /// `Connectivity` on its own.)
    type FaceConnectivity;

    /// The element's global vertex indices, in order.
    spec fn vertex_indices(self) -> Seq<int>;

    /// How many boundary faces the element has.
    spec fn face_count(self) -> int;

    /// The `i`-th boundary face, for `0 <= i < face_count()`.
    spec fn face_of(self, i: int) -> Self::FaceConnectivity;

    /// The number of boundary faces.
    fn num_faces(&self) -> (n: usize)
        ensures
            n as int == self.face_count(),
    ;

    /// The global vertex indices, in order.
    fn vertices(&self) -> (v: Vec<usize>)
        ensures
            v@.map_values(|u: usize| u as int) == self.vertex_indices(),
    ;

    /// The `index`-th boundary face, or nothing when `index` is out of
    /// range: an absent face is a normal outcome, not a failure.
    fn get_face_connectivity(&self, index: usize) -> (f: Option<Self::FaceConnectivity>)
        ensures
            f is Some <==> (index as int) < self.face_count(),
            (f matches Some(c) ==> c == self.face_of(index as int)),
    ;
}

impl Connectivity for () {
    type FaceConnectivity = ();

    open spec fn vertex_indices(self) -> Seq<int> {
        Seq::empty()
    }

    open spec fn face_count(self) -> int {
        0
    }

    open spec fn face_of(self, i: int) -> () {
        ()
    }

    fn num_faces(&self) -> (n: usize) {
        0
    }

    fn vertices(&self) -> (v: Vec<usize>) {
        let v: Vec<usize> = Vec::new();
        proof {
            assert(v@.map_values(|u: usize| u as int) =~= Seq::<int>::empty());
        }
        v
    }

    fn get_face_connectivity(&self, _index: usize) -> (f: Option<()>) {
        None
    }
}

/// A line segment: exactly two vertex indices, no boundary faces.
#[derive(Clone, Copy, Debug)]
pub struct LineConnectivity {
    first: usize,
    second: usize,
}

/// The line segment joining vertex `first` to vertex `second`.
pub closed spec fn line_of(first: usize, second: usize) -> LineConnectivity {
    LineConnectivity { first: first, second: second }
}

impl LineConnectivity {
    /// Builds a line from its two endpoint indices.
    pub fn new(first: usize, second: usize) -> (c: Self)
        ensures
            c == line_of(first, second),
            c.vertex_indices() == seq![first as int, second as int],
    {
        LineConnectivity { first, second }
    }
}

impl Connectivity for LineConnectivity {
    type FaceConnectivity = ();

    closed spec fn vertex_indices(self) -> Seq<int> {
        seq![self.first as int, self.second as int]
    }

    closed spec fn face_count(self) -> int {
        0
    }

    closed spec fn face_of(self, i: int) -> () {
        ()
    }

    fn num_faces(&self) -> (n: usize) {
        0
    }

    fn vertices(&self) -> (v: Vec<usize>) {
        let mut v: Vec<usize> = Vec::new();
        v.push(self.first);
        v.push(self.second);
        proof {
            assert(v@.map_values(|u: usize| u as int) =~= self.vertex_indices());
        }
        v
    }

    fn get_face_connectivity(&self, _index: usize) -> (f: Option<()>) {
        None
    }
}

/// A quadrilateral: four vertex indices in fixed cyclic order, four line
/// faces. Face `i` joins corner `i` to corner `(i + 1) % 4`, which encodes
/// the quad's boundary winding.
#[derive(Clone, Copy, Debug)]
pub struct Quad2dConnectivity {
    corners: [usize; 4],
}

impl Quad2dConnectivity {
    /// Builds a quadrilateral from its four corner indices in cyclic order.
    pub fn new(corners: [usize; 4]) -> (c: Self)
        ensures
            c.vertex_indices() == seq![
                corners@[0] as int,
                corners@[1] as int,
                corners@[2] as int,
                corners@[3] as int,
            ],
    {
        Quad2dConnectivity { corners }
    }
}

impl Connectivity for Quad2dConnectivity {
    type FaceConnectivity = LineConnectivity;

    closed spec fn vertex_indices(self) -> Seq<int> {
        seq![
            self.corners@[0] as int,
            self.corners@[1] as int,
            self.corners@[2] as int,
            self.corners@[3] as int,
        ]
    }

    closed spec fn face_count(self) -> int {
        4
    }

    closed spec fn face_of(self, i: int) -> LineConnectivity {
        line_of(self.corners@[i], self.corners@[(i + 1) % 4])
    }

    fn num_faces(&self) -> (n: usize) {
        4
    }

    fn vertices(&self) -> (v: Vec<usize>) {
        let mut v: Vec<usize> = Vec::new();
        v.push(self.corners[0]);
        v.push(self.corners[1]);
        v.push(self.corners[2]);
        v.push(self.corners[3]);
        proof {
            assert(v@.map_values(|u: usize| u as int) =~= self.vertex_indices());
        }
        v
    }

    fn get_face_connectivity(&self, index: usize) -> (f: Option<LineConnectivity>) {
        match index {
            0 | 1 | 2 | 3 => {
                let line = LineConnectivity::new(self.corners[index], self.corners[(index + 1) % 4]);
                Some(line)
            }
            _ => None,
        }
    }
}

/// The terminal connectivity has no vertices and no faces; it ends the
/// face recursion.
pub proof fn lemma_terminal_connectivity(t: ())
    ensures
        t.face_count() == 0,
        t.vertex_indices() == Seq::<int>::empty(),
        forall|i: int| #[trigger] t.face_of(i) == (),
{
}

/// A quadrilateral with pairwise-distinct corners has four pairwise-distinct
/// line faces, each joining two of the quad's own vertices.
pub proof fn lemma_quad_faces(q: Quad2dConnectivity)
    requires
        forall|i: int, j: int|
            0 <= i < 4 && 0 <= j < 4 && i != j
                ==> q.vertex_indices()[i] != q.vertex_indices()[j],
    ensures
        q.face_count() == 4,
        q.vertex_indices().len() == 4,
        forall|i: int|
            0 <= i < 4 ==> (#[trigger] q.face_of(i)).vertex_indices().len() == 2
                && q.vertex_indices().contains(q.face_of(i).vertex_indices()[0])
                && q.vertex_indices().contains(q.face_of(i).vertex_indices()[1]),
        forall|i: int, j: int|
            0 <= i < 4 && 0 <= j < 4 && i != j
                ==> q.face_of(i) != q.face_of(j),
{
    assert forall|i: int| 0 <= i < 4 implies (#[trigger] q.face_of(i)).vertex_indices().len() == 2
        && q.vertex_indices().contains(q.face_of(i).vertex_indices()[0])
        && q.vertex_indices().contains(q.face_of(i).vertex_indices()[1]) by {
        assert(0 <= (i + 1) % 4 < 4);
        assert(q.face_of(i).vertex_indices()[0] == q.vertex_indices()[i]);
        assert(q.face_of(i).vertex_indices()[1] == q.vertex_indices()[(i + 1) % 4]);
    }
    assert forall|i: int, j: int|
        0 <= i < 4 && 0 <= j < 4 && i != j implies q.face_of(i)
        != q.face_of(j) by {
        assert(q.face_of(i).vertex_indices()[0] == q.vertex_indices()[i]);
        assert(q.face_of(j).vertex_indices()[0] == q.vertex_indices()[j]);
    }
}

/// The global index of the vertex at grid position `(i, j)` of a square
/// mesh with `n` cells per axis: row-major over `i` then `j`.
pub open spec fn grid_index(i: int, j: int, n: int) -> int {
    i * (n + 1) + j
}

/// The position of the quadrilateral for cell `(i, j)` in the element list
/// of a square mesh with `n` cells per axis.
pub open spec fn quad_index(i: int, j: int, n: int) -> int {
    i * n + j
}

/// The quadrilateral emitted for cell `(i, j)` of a square mesh joins the
/// four surrounding grid vertices in this fixed order (which interleaves
/// the axes rather than tracing the quad boundary).
pub open spec fn square_mesh_quad(i: int, j: int, n: int) -> Seq<int> {
    seq![
        grid_index(i, j, n),
        grid_index(i, j, n) + 1,
        grid_index(i + 1, j, n),
        grid_index(i + 1, j, n) + 1,
    ]
}

/// In any generated square mesh the four corner indices of every
/// quadrilateral are pairwise distinct.
pub proof fn lemma_square_mesh_quad_vertices_distinct(n: int, i: int, j: int)
    requires
        1 <= n,
        0 <= i < n,
        0 <= j < n,
    ensures
        forall|p: int, q: int|
            0 <= p < 4 && 0 <= q < 4 && p != q
                ==> square_mesh_quad(i, j, n)[p] != square_mesh_quad(i, j, n)[q],
{
    assert((i + 1) * (n + 1) == i * (n + 1) + n + 1) by (nonlinear_arith);
}

/// Every quadrilateral of a generated square mesh has four pairwise-distinct
/// line faces, each joining two of the quad's own vertices; only face
/// indices `0` to `3` exist.
pub proof fn lemma_square_mesh_quad_faces(q: Quad2dConnectivity, n: int, i: int, j: int)
    requires
        1 <= n,
        0 <= i < n,
        0 <= j < n,
        q.vertex_indices() == square_mesh_quad(i, j, n),
    ensures
        q.face_count() == 4,
        forall|p: int|
            0 <= p < 4 ==> (#[trigger] q.face_of(p)).vertex_indices().len() == 2
                && q.vertex_indices().contains(q.face_of(p).vertex_indices()[0])
                && q.vertex_indices().contains(q.face_of(p).vertex_indices()[1]),
        forall|p: int, r: int|
            0 <= p < 4 && 0 <= r < 4 && p != r ==> q.face_of(p) != q.face_of(r),
{
    lemma_square_mesh_quad_vertices_distinct(n, i, j);
    lemma_quad_faces(q);
}

/// How many quadrilaterals a square-mesh build has emitted once `i` full
/// vertex rows are done: `n` per row for the first `n` rows, none after.
pub open spec fn quads_after_rows(i: int, n: int) -> int {
    if i <= n {
        i * n
    } else {
        n * n
    }
}

/// How many quadrilaterals a square-mesh build has emitted within row `i`
/// once `j` columns of that row are done.
pub open spec fn quads_in_row(i: int, j: int, n: int) -> int {
    if i < n && j <= n {
        j
    } else if i < n {
        n
    } else {
        0
    }
}

/// A mesh: a dense list of vertex coordinates in `D`-dimensional space and
/// a dense list of element connectivity records, with scalar metadata.
/// Vertices and connectivity are created once and read thereafter.
pub struct Mesh<C: Connectivity, const D: usize> {
    dimension: usize,
    n: usize,
    h: Rational,
    vertices: Vec<Vector<Rational, D>>,
    connectivity: Vec<C>,
}

impl<C: Connectivity, const D: usize> Mesh<C, D> {
    /// The vertex coordinates, in order.
    pub closed spec fn vertex_seq(self) -> Seq<Vector<Rational, D>> {
        self.vertices@
    }

    /// The element connectivity records, in order.
    pub closed spec fn connectivity_seq(self) -> Seq<C> {
        self.connectivity@
    }

    /// The nominal grid dimension recorded at construction.
    pub closed spec fn dim(self) -> int {
        self.dimension as int
    }

    /// The per-axis cell count recorded at construction.
    pub closed spec fn cells(self) -> int {
        self.n as int
    }

    /// The uniform grid spacing recorded at construction.
    pub closed spec fn spacing(self) -> Ratio {
        self.h@
    }

    /// Every vertex index referenced by any connectivity record lies within
    /// the vertex list.
    pub open spec fn wf(self) -> bool {
        forall|k: int, l: int|
            0 <= k < self.connectivity_seq().len()
            && 0 <= l < self.connectivity_seq()[k].vertex_indices().len()
                ==> 0 <= #[trigger] self.connectivity_seq()[k].vertex_indices()[l]
                    < self.vertex_seq().len()
    }

    /// Assembles a mesh from its parts. Every vertex index referenced by
    /// `connectivity` must lie within `vertices`, which makes the mesh
    /// well-formed from construction on.
    pub fn new(
        dimension: usize,
        n: usize,
        h: Rational,
        vertices: Vec<Vector<Rational, D>>,
        connectivity: Vec<C>,
    ) -> (m: Self)
        requires
            forall|k: int, l: int|
                0 <= k < connectivity@.len() && 0 <= l < connectivity@[k].vertex_indices().len()
                    ==> 0 <= #[trigger] connectivity@[k].vertex_indices()[l] < vertices@.len(),
        ensures
            m.dim() == dimension as int,
            m.cells() == n as int,
            m.spacing() == h@,
            m.vertex_seq() == vertices@,
            m.connectivity_seq() == connectivity@,
            m.wf(),
    {
        Mesh { dimension, n, h, vertices, connectivity }
    }

    /// The vertex coordinate list.
    pub fn vertices(&self) -> (v: &Vec<Vector<Rational, D>>)
        ensures
            v@ == self.vertex_seq(),
    {
        &self.vertices
    }

    /// The element connectivity list.
    pub fn connectivity(&self) -> (c: &Vec<C>)
        ensures
            c@ == self.connectivity_seq(),
    {
        &self.connectivity
    }
}

/// Builds a uniform `(n+1) x (n+1)` grid of vertices with spacing `h`, the
/// vertex at grid position `(i, j)` placed at `(i*h, j*h)` and enumerated
/// row-major with global index `i*(n+1) + j`, and one quadrilateral per
/// cell `(i, j)` with `i, j < n`, joining the four surrounding vertices in
/// the fixed order of `square_mesh_quad`.
pub fn create_2d_square_mesh(dimension: usize, n: usize, h: Rational) -> (m: Mesh<
    Quad2dConnectivity,
    2,
>)
    requires
        n <= 1000,
        h@.wf(),
        -1000000 <= h@.num <= 1000000,
        h@.den <= 1000000,
    ensures
        m.dim() == dimension as int,
        m.cells() == n as int,
        m.spacing() == h@,
        m.vertex_seq().len() == (n as int + 1) * (n as int + 1),
        forall|i: int, j: int|
            0 <= i <= n as int && 0 <= j <= n as int ==> {
                let v = m.vertex_seq()[#[trigger] grid_index(i, j, n as int)];
                v.vals()[0]@ == (Ratio { num: i * h@.num, den: h@.den })
                    && v.vals()[1]@ == (Ratio { num: j * h@.num, den: h@.den })
            },
        m.connectivity_seq().len() == (n as int) * (n as int),
        forall|i: int, j: int|
            0 <= i < n as int && 0 <= j < n as int
                ==> m.connectivity_seq()[#[trigger] quad_index(i, j, n as int)].vertex_indices()
                    == square_mesh_quad(i, j, n as int),
        m.wf(),
{
    let ghost gn: int = n as int;
    let mut vertices: Vec<Vector<Rational, 2>> = Vec::new();
    let mut connectivity: Vec<Quad2dConnectivity> = Vec::new();
    let mut i: usize = 0;
    while i < n + 1
        invariant
            n <= 1000,
            h@.wf(),
            -1000000 <= h@.num <= 1000000,
            h@.den <= 1000000,
            gn == n as int,
            i <= n + 1,
            vertices@.len() == (i as int) * (gn + 1),
            connectivity@.len() == quads_after_rows(i as int, gn),
            forall|i2: int, j2: int|
                0 <= i2 < i as int && 0 <= j2 <= gn ==> {
                    let v = vertices@[#[trigger] grid_index(i2, j2, gn)];
                    v.vals()[0]@ == (Ratio { num: i2 * h@.num, den: h@.den })
                        && v.vals()[1]@ == (Ratio { num: j2 * h@.num, den: h@.den })
                },
            forall|i2: int, j2: int|
                0 <= i2 < i as int && i2 < gn && 0 <= j2 < gn
                    ==> connectivity@[#[trigger] quad_index(i2, j2, gn)].vertex_indices()
                        == square_mesh_quad(i2, j2, gn),
            forall|k: int, l: int|
                0 <= k < connectivity@.len() && 0 <= l < connectivity@[k].vertex_indices().len()
                    ==> 0 <= #[trigger] connectivity@[k].vertex_indices()[l] < (gn + 1) * (gn + 1),
        decreases n + 1 - i,
    {
        proof {
            assert(0 <= (i as int) * h@.num <= 1000000000 || 0 >= (i as int) * h@.num
                >= -1000000000) by (nonlinear_arith)
                requires
                    0 <= (i as int) <= 1000,
                    -1000000 <= h@.num <= 1000000,
            ;
        }
        let xc = Rational::new(i as i128, 1).mul(&h);
        let mut j: usize = 0;
        while j < n + 1
            invariant
                n <= 1000,
                h@.wf(),
                -1000000 <= h@.num <= 1000000,
                h@.den <= 1000000,
                gn == n as int,
                i as int <= gn,
                j <= n + 1,
                xc@ == (Ratio { num: (i as int) * h@.num, den: h@.den }),
                vertices@.len() == (i as int) * (gn + 1) + j as int,
                connectivity@.len() == (i as int) * gn + quads_in_row(i as int, j as int, gn),
                forall|i2: int, j2: int|
                    (0 <= i2 < i as int && 0 <= j2 <= gn) || (i2 == i as int && 0 <= j2 < j as int)
                        ==> {
                        let v = vertices@[#[trigger] grid_index(i2, j2, gn)];
                        v.vals()[0]@ == (Ratio { num: i2 * h@.num, den: h@.den })
                            && v.vals()[1]@ == (Ratio { num: j2 * h@.num, den: h@.den })
                    },
                forall|i2: int, j2: int|
                    ((0 <= i2 < i as int && 0 <= j2 < gn) || (i2 == i as int && 0 <= j2
                        < j as int)) && i2 < gn && 0 <= j2 < gn
                        ==> connectivity@[#[trigger] quad_index(i2, j2, gn)].vertex_indices()
                            == square_mesh_quad(i2, j2, gn),
                forall|k: int, l: int|
                    0 <= k < connectivity@.len() && 0 <= l
                        < connectivity@[k].vertex_indices().len()
                        ==> 0 <= #[trigger] connectivity@[k].vertex_indices()[l] < (gn + 1) * (gn
                            + 1),
            decreases n + 1 - j,
        {
            proof {
                assert(0 <= (j as int) * h@.num <= 1000000000 || 0 >= (j as int) * h@.num
                    >= -1000000000) by (nonlinear_arith)
                    requires
                        0 <= (j as int) <= 1000,
                        -1000000 <= h@.num <= 1000000,
                ;
                assert((i as int) * (gn + 1) + j as int <= 1001 * 1001) by (nonlinear_arith)
                    requires
                        0 <= (i as int) <= gn,
                        0 <= (j as int) <= gn + 1,
                        gn <= 1000,
                ;
            }
            let yc = Rational::new(j as i128, 1).mul(&h);
            let ghost old_vertices: Seq<Vector<Rational, 2>> = vertices@;
            vertices.push(Vector::new([xc, yc]));
            proof {
                assert(grid_index(i as int, j as int, gn) == old_vertices.len());
                assert forall|i2: int, j2: int|
                    (0 <= i2 < i as int && 0 <= j2 <= gn) || (i2 == i as int && 0 <= j2 <= j as int)
                        implies {
                    let v = vertices@[#[trigger] grid_index(i2, j2, gn)];
                    v.vals()[0]@ == (Ratio { num: i2 * h@.num, den: h@.den })
                        && v.vals()[1]@ == (Ratio { num: j2 * h@.num, den: h@.den })
                } by {
                    if i2 == i as int && j2 == j as int {
                        assert(vertices@[grid_index(i2, j2, gn)] == vertices@.last());
                    } else {
                        assert(0 <= grid_index(i2, j2, gn) < old_vertices.len())
                            by (nonlinear_arith)
                            requires
                                (0 <= i2 < i as int && 0 <= j2 <= gn) || (i2 == i as int && 0 <= j2
                                    < j as int),
                                0 <= (i as int) <= gn,
                                0 <= (j as int) <= gn,
                                old_vertices.len() == (i as int) * (gn + 1) + j as int,
                                grid_index(i2, j2, gn) == i2 * (gn + 1) + j2,
                        ;
                        assert(vertices@[grid_index(i2, j2, gn)] == old_vertices[grid_index(
                            i2,
                            j2,
                            gn,
                        )]);
                    }
                }
            }
            if j < n && i < n {
                proof {
                    assert(0 <= (i as int) * (gn + 1) + j as int
                        && (i as int + 1) * (gn + 1) + j as int + 1 < (gn + 1) * (gn + 1)
                        && (i as int) * (gn + 1) <= (i as int + 1) * (gn + 1)
                        && (gn + 1) * (gn + 1) <= 1002001) by (nonlinear_arith)
                        requires
                            0 <= (i as int) < gn,
                            0 <= (j as int) < gn,
                            gn <= 1000,
                    ;
                    assert(grid_index(i as int, j as int, gn) == (i as int) * (gn + 1) + j as int);
                    assert(grid_index(i as int + 1, j as int, gn) == (i as int + 1) * (gn + 1)
                        + j as int);
                }
                let v00 = i * (n + 1) + j;
                let v10 = (i + 1) * (n + 1) + j;
                let ghost old_connectivity: Seq<Quad2dConnectivity> = connectivity@;
                let quad = Quad2dConnectivity::new([v00, v00 + 1, v10, v10 + 1]);
                proof {
                    assert(quad.vertex_indices() =~= square_mesh_quad(i as int, j as int, gn));
                }
                connectivity.push(quad);
                proof {
                    assert(quad_index(i as int, j as int, gn) == old_connectivity.len());
                    assert forall|i2: int, j2: int|
                        ((0 <= i2 < i as int && 0 <= j2 < gn) || (i2 == i as int && 0 <= j2 <= j
                            as int)) && i2 < gn && 0 <= j2 < gn
                            implies connectivity@[#[trigger] quad_index(
                            i2,
                            j2,
                            gn,
                        )].vertex_indices() == square_mesh_quad(i2, j2, gn) by {
                        if i2 == i as int && j2 == j as int {
                            assert(connectivity@[quad_index(i2, j2, gn)] == connectivity@.last());
                        } else {
                            assert(0 <= quad_index(i2, j2, gn) < old_connectivity.len())
                                by (nonlinear_arith)
                                requires
                                    ((0 <= i2 < i as int && 0 <= j2 < gn) || (i2 == i as int && 0
                                        <= j2 < j as int)),
                                    0 <= (i as int) < gn,
                                    0 <= (j as int) < gn,
                                    old_connectivity.len() == (i as int) * gn + j as int,
                                    quad_index(i2, j2, gn) == i2 * gn + j2,
                            ;
                            assert(connectivity@[quad_index(i2, j2, gn)]
                                == old_connectivity[quad_index(i2, j2, gn)]);
                        }
                    }
                    assert forall|k: int, l: int|
                        0 <= k < connectivity@.len() && 0 <= l
                            < connectivity@[k].vertex_indices().len()
                            implies 0 <= #[trigger] connectivity@[k].vertex_indices()[l] < (gn + 1)
                        * (gn + 1) by {
                        if k == old_connectivity.len() {
                            assert(connectivity@[k] == quad);
                        } else {
                            assert(connectivity@[k] == old_connectivity[k]);
                        }
                    }
                }
            }
            j += 1;
        }
        proof {
            assert((i as int + 1) * (gn + 1) == (i as int) * (gn + 1) + (gn + 1))
                by (nonlinear_arith);
            if (i as int) < gn {
                assert((i as int) * gn + gn == (i as int + 1) * gn) by (nonlinear_arith);
            }
        }
        i += 1;
    }
    proof {
        assert(vertices@.len() == (gn + 1) * (gn + 1));
    }
    Mesh::new(dimension, n, h, vertices, connectivity)
}

} // verus!
