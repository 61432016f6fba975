//! The prototype meshes every solid instance is drawn from: cuboid, sphere,
//! cone, disc, cylinder and the faceted shapes (frustum, wedge, frond,
//! boulder, crenels).
//!
//! A vertex is a position and a normal, both carried as an opaque point `P`;
//! what is settled here is the topology: which vertices each mesh holds in
//! what order, and which triangles join them: a face's triangles follow the
//! order in which its corners are given, and every index names a vertex of
//! its own mesh. Which way a face turns is set by the order of the corners
//! handed in.
use vstd::prelude::*;

verus! {

/// Vertices one prototype has room for.
pub const MESH_VERTEX_CAPACITY: usize = 3072;
/// Indices one prototype has room for.
pub const MESH_INDEX_CAPACITY: usize = 4096;
/// Prototype shapes in the library.
pub const SHAPE_COUNT: usize = 10;

/// Sphere meridians and parallels.
pub const SPHERE_SEGMENTS: usize = 14;
pub const SPHERE_RINGS: usize = 9;
/// Cone sides.
pub const CONE_SEGMENTS: usize = 14;
/// Disc and cylinder sides.
pub const DISC_SEGMENTS: usize = 16;
pub const CYLINDER_SEGMENTS: usize = 16;

/// One mesh: interleaved position/normal vertices and a triangle list.
pub struct Mesh<P> {
    pub vertices: Vec<(P, P)>,
    pub indices: Vec<u16>,
}

/// A flat face: three or four corners sharing one normal.
pub struct Facet<P> {
    pub corners: Vec<P>,
    pub normal: P,
}

/// Every index of `indices` names one of the first `vertex_count` vertices.
pub open spec fn indices_below(indices: Seq<u16>, vertex_count: int) -> bool {
    forall|k: int| 0 <= k < indices.len() ==> indices[k] < vertex_count
}

/// The triangles a flat face adds when its first corner lands at vertex
/// `first` and the index list already holds `filled` entries: one triangle,
/// and a second for a quad, each only if it still fits.
pub open spec fn facet_triangles(first: int, corners: int, filled: int) -> Seq<u16> {
    let a = if filled + 3 <= MESH_INDEX_CAPACITY {
        seq![first as u16, (first + 1) as u16, (first + 2) as u16]
    } else {
        Seq::empty()
    };
    let b = if corners == 4 && filled + 6 <= MESH_INDEX_CAPACITY {
        seq![first as u16, (first + 2) as u16, (first + 3) as u16]
    } else {
        Seq::empty()
    };
    a + b
}

impl<P: Copy> Mesh<P> {
    /// Within both capacities.
    pub open spec fn wf(&self) -> bool {
        &&& self.vertices@.len() <= MESH_VERTEX_CAPACITY
        &&& self.indices@.len() <= MESH_INDEX_CAPACITY
    }

    /// Every index names a vertex of this mesh.
    pub open spec fn indices_valid(&self) -> bool {
        indices_below(self.indices@, self.vertices@.len() as int)
    }

    /// An empty mesh.
    pub fn new() -> (m: Mesh<P>)
        ensures
            m.wf(),
            m.vertices@.len() == 0,
            m.indices@.len() == 0,
    {
        Mesh { vertices: Vec::new(), indices: Vec::new() }
    }

    /// Vertices pushed so far.
    pub fn vertex_count(&self) -> (n: usize)
        ensures
            n == self.vertices@.len(),
    {
        self.vertices.len()
    }

    /// Floats the renderer uploads: six per vertex.
    pub fn vertex_floats(&self) -> (n: usize)
        requires
            self.wf(),
        ensures
            n == 6 * self.vertices@.len(),
    {
        self.vertices.len() * 6
    }

    /// Indices pushed so far.
    pub fn index_count(&self) -> (n: usize)
        ensures
            n == self.indices@.len(),
    {
        self.indices.len()
    }

    /// Appends a vertex if there is room; a full mesh drops it.
    pub fn add_vertex(&mut self, position: P, normal: P)
        requires
            old(self).wf(),
        ensures
            final(self).wf(),
            final(self).indices@ == old(self).indices@,
            final(self).vertices@ == (if old(self).vertices@.len() < MESH_VERTEX_CAPACITY {
                old(self).vertices@.push((position, normal))
            } else {
                old(self).vertices@
            }),
    {
        if self.vertices.len() >= MESH_VERTEX_CAPACITY {
            return;
        }
        self.vertices.push((position, normal));
    }

    /// Appends triangle `(a, b, c)` if there is room; indices are stored as
    /// 16 bits.
    fn add_triangle(&mut self, a: usize, b: usize, c: usize)
        requires
            old(self).wf(),
        ensures
            final(self).wf(),
            final(self).vertices@ == old(self).vertices@,
            final(self).indices@ == (if old(self).indices@.len() + 3 <= MESH_INDEX_CAPACITY {
                old(self).indices@ + seq![a as u16, b as u16, c as u16]
            } else {
                old(self).indices@
            }),
    {
        if self.indices.len() + 3 > MESH_INDEX_CAPACITY {
            return;
        }
        self.indices.push(a as u16);
        self.indices.push(b as u16);
        self.indices.push(c as u16);
        assert(self.indices@ =~= old(self).indices@ + seq![a as u16, b as u16, c as u16]);
    }

    /// Appends a flat face: its corners, each with the face's normal, then
    /// one triangle (two for a quad) fanning from the first corner. Corners
    /// that no longer fit are dropped, as are triangles that no longer fit.
    pub fn add_facet(&mut self, corners: &Vec<P>, normal: P)
        requires
            old(self).wf(),
            corners@.len() == 3 || corners@.len() == 4,
        ensures
            final(self).wf(),
            ({
                let first = old(self).vertices@.len() as int;
                let kept = if first + corners@.len() <= MESH_VERTEX_CAPACITY {
                    corners@.len() as int
                } else {
                    MESH_VERTEX_CAPACITY - first
                };
                &&& final(self).vertices@ == old(self).vertices@ + Seq::new(
                    kept as nat,
                    |k: int| (corners@[k], normal),
                )
                &&& final(self).indices@ == old(self).indices@ + facet_triangles(
                    first,
                    corners@.len() as int,
                    old(self).indices@.len() as int,
                )
            }),
    {
        let first = self.vertices.len();
        let n = corners.len();
        let mut k: usize = 0;
        while k < n
            invariant
                self.wf(),
                n == corners@.len(),
                n == 3 || n == 4,
                k <= n,
                first == old(self).vertices@.len(),
                self.indices@ == old(self).indices@,
                self.vertices@ == old(self).vertices@ + Seq::new(
                    (if first + k <= MESH_VERTEX_CAPACITY {
                        k as int
                    } else {
                        MESH_VERTEX_CAPACITY - first
                    }) as nat,
                    |m: int| (corners@[m], normal),
                ),
            decreases n - k,
        {
            self.add_vertex(corners[k], normal);
            k = k + 1;
            assert(self.vertices@ =~= old(self).vertices@ + Seq::new(
                (if first + k <= MESH_VERTEX_CAPACITY {
                    k as int
                } else {
                    MESH_VERTEX_CAPACITY - first
                }) as nat,
                |m: int| (corners@[m], normal),
            ));
        }
        let filled = self.indices.len();
        self.add_triangle(first, first + 1, first + 2);
        if n == 4 {
            self.add_triangle(first, first + 2, first + 3);
        }
        assert(self.indices@ =~= old(self).indices@ + facet_triangles(
            first as int,
            n as int,
            filled as int,
        ));
    }
}

/// A face that fits whole keeps every index pointing at a real vertex.
pub proof fn lemma_facet_keeps_indices_valid(
    indices: Seq<u16>,
    vertex_count: int,
    corners: int,
)
    requires
        indices_below(indices, vertex_count),
        corners == 3 || corners == 4,
        0 <= vertex_count,
        vertex_count + corners <= MESH_VERTEX_CAPACITY,
        indices.len() <= MESH_INDEX_CAPACITY,
    ensures
        indices_below(
            indices + facet_triangles(vertex_count, corners, indices.len() as int),
            vertex_count + corners,
        ),
{
    let t = facet_triangles(vertex_count, corners, indices.len() as int);
    let all = indices + t;
    assert forall|k: int| 0 <= k < all.len() implies all[k] < vertex_count + corners by {
        if k >= indices.len() {
            assert(t[k - indices.len()] < vertex_count + corners);
        }
    }
}

// ---- sphere ------------------------------------------------------------------

/// The two triangles of sphere quad `q` (ring `q / 14`, segment `q % 14`):
/// upper-left, upper-right, lower-left, then upper-right, lower-right,
/// lower-left.
pub open spec fn sphere_quad(q: int) -> Seq<u16> {
    let upper = (q / 14) * 15 + q % 14;
    let lower = upper + 15;
    seq![
        upper as u16,
        (upper + 1) as u16,
        lower as u16,
        (upper + 1) as u16,
        (lower + 1) as u16,
        lower as u16,
    ]
}

/// Index list of the first `q` sphere quads.
pub open spec fn sphere_indices(q: nat) -> Seq<u16>
    decreases q,
{
    if q == 0 {
        Seq::empty()
    } else {
        sphere_indices((q - 1) as nat) + sphere_quad(q - 1)
    }
}

/// Every sphere index names one of its 150 vertices.
pub proof fn lemma_sphere_indices_valid(q: nat)
    requires
        q <= 126,
    ensures
        sphere_indices(q).len() == 6 * q,
        indices_below(sphere_indices(q), 150),
    decreases q,
{
    if q > 0 {
        lemma_sphere_indices_valid((q - 1) as nat);
        let qq = q - 1;
        assert((qq / 14) * 15 + qq % 14 + 16 < 150) by (nonlinear_arith)
            requires
                0 <= qq < 126,
        ;
        let s = sphere_indices(q);
        let prev = sphere_indices((q - 1) as nat);
        assert forall|k: int| 0 <= k < s.len() implies s[k] < 150 by {
            if k >= prev.len() {
                assert(sphere_quad(qq)[k - prev.len()] < 150);
            }
        }
    }
}

/// The sphere's index list is its quads in order.
proof fn lemma_sphere_indices_entry(n: nat, q: int, j: int)
    requires
        0 <= q < n,
        0 <= j < 6,
    ensures
        sphere_indices(n).len() == 6 * n,
        sphere_indices(n)[6 * q + j] == sphere_quad(q)[j],
    decreases n,
{
    if n > 0 {
        if q < n - 1 {
            lemma_sphere_indices_entry((n - 1) as nat, q, j);
        } else {
            if n > 1 {
                lemma_sphere_indices_entry((n - 1) as nat, 0, 0);
            }
        }
    }
}

/// The sphere's quad between rings `r` and `r + 1` and segments `c` and
/// `c + 1` is the `14r + c`-th, and joins exactly those four surface points:
/// point `(ring, segment)` being vertex `15 * ring + segment`.
pub proof fn lemma_sphere_quad_corners(r: int, c: int)
    requires
        0 <= r < SPHERE_RINGS,
        0 <= c < SPHERE_SEGMENTS,
    ensures
        ({
            let q = 14 * r + c;
            let ul = 15 * r + c;
            let ll = 15 * (r + 1) + c;
            &&& sphere_indices(126)[6 * q] == ul
            &&& sphere_indices(126)[6 * q + 1] == ul + 1
            &&& sphere_indices(126)[6 * q + 2] == ll
            &&& sphere_indices(126)[6 * q + 3] == ul + 1
            &&& sphere_indices(126)[6 * q + 4] == ll + 1
            &&& sphere_indices(126)[6 * q + 5] == ll
        }),
{
    let q = 14 * r + c;
    assert(0 <= q < 126);
    vstd::arithmetic::div_mod::lemma_fundamental_div_mod_converse(q, 14, r, c);
    lemma_sphere_indices_entry(126, q, 0);
    lemma_sphere_indices_entry(126, q, 1);
    lemma_sphere_indices_entry(126, q, 2);
    lemma_sphere_indices_entry(126, q, 3);
    lemma_sphere_indices_entry(126, q, 4);
    lemma_sphere_indices_entry(126, q, 5);
}

/// The sphere from its `(9 + 1) * (14 + 1)` surface points, ring by ring; on
/// a unit sphere each point is also its own normal.
pub fn build_sphere<P: Copy>(points: &Vec<P>) -> (m: Mesh<P>)
    requires
        points@.len() == (SPHERE_RINGS + 1) * (SPHERE_SEGMENTS + 1),
    ensures
        m.wf(),
        m.vertices@ == Seq::new(150, |k: int| (points@[k], points@[k])),
        m.indices@ == sphere_indices(126),
        m.indices_valid(),
{
    assert(points@.len() == 150) by (nonlinear_arith)
        requires
            points@.len() == (SPHERE_RINGS + 1) * (SPHERE_SEGMENTS + 1),
    ;
    let mut m: Mesh<P> = Mesh::new();
    let mut k: usize = 0;
    while k < 150
        invariant
            m.wf(),
            points@.len() == 150,
            k <= 150,
            m.indices@.len() == 0,
            m.vertices@ == Seq::new(k as nat, |j: int| (points@[j], points@[j])),
        decreases 150 - k,
    {
        m.add_vertex(points[k], points[k]);
        k = k + 1;
        assert(m.vertices@ =~= Seq::new(k as nat, |j: int| (points@[j], points@[j])));
    }
    let mut ring: usize = 0;
    while ring < SPHERE_RINGS
        invariant
            m.wf(),
            ring <= SPHERE_RINGS,
            m.vertices@ == Seq::new(150, |j: int| (points@[j], points@[j])),
            m.indices@ == sphere_indices((ring * 14) as nat),
        decreases SPHERE_RINGS - ring,
    {
        let mut segment: usize = 0;
        while segment < SPHERE_SEGMENTS
            invariant
                m.wf(),
                ring < SPHERE_RINGS,
                segment <= SPHERE_SEGMENTS,
                m.vertices@ == Seq::new(150, |j: int| (points@[j], points@[j])),
                m.indices@ == sphere_indices((ring * 14 + segment) as nat),
            decreases SPHERE_SEGMENTS - segment,
        {
            let q = ring * 14 + segment;
            proof {
                lemma_sphere_indices_valid(q as nat);
                assert(q / 14 == ring && q % 14 == segment) by (nonlinear_arith)
                    requires
                        q == ring * 14 + segment,
                        segment < 14,
                ;
            }
            let upper = ring * (SPHERE_SEGMENTS + 1) + segment;
            let lower = upper + SPHERE_SEGMENTS + 1;
            m.add_triangle(upper, upper + 1, lower);
            m.add_triangle(upper + 1, lower + 1, lower);
            assert(m.indices@ =~= sphere_indices((q + 1) as nat));
            segment = segment + 1;
        }
        ring = ring + 1;
    }
    proof {
        lemma_sphere_indices_valid(126);
    }
    m
}

// ---- cone --------------------------------------------------------------------

/// The six vertices of cone segment `s`: a side triangle (rim start, rim end,
/// apex) under the segment's tilted normal, then a base triangle (centre, rim
/// end, rim start) facing down.
pub open spec fn cone_segment_vertices<P>(
    rim: Seq<P>,
    normals: Seq<P>,
    apex: P,
    base: P,
    down: P,
    s: int,
) -> Seq<(P, P)> {
    seq![
        (rim[s], normals[s]),
        (rim[s + 1], normals[s]),
        (apex, normals[s]),
        (base, down),
        (rim[s + 1], down),
        (rim[s], down),
    ]
}

/// Vertices of the first `s` cone segments.
pub open spec fn cone_vertices<P>(
    rim: Seq<P>,
    normals: Seq<P>,
    apex: P,
    base: P,
    down: P,
    s: nat,
) -> Seq<(P, P)>
    decreases s,
{
    if s == 0 {
        Seq::empty()
    } else {
        cone_vertices(rim, normals, apex, base, down, (s - 1) as nat) + cone_segment_vertices(
            rim,
            normals,
            apex,
            base,
            down,
            s - 1,
        )
    }
}

/// Indices of the first `s` cone segments: side then base, each wound
/// outward.
pub open spec fn cone_indices(s: nat) -> Seq<u16>
    decreases s,
{
    if s == 0 {
        Seq::empty()
    } else {
        let f = 6 * (s - 1);
        cone_indices((s - 1) as nat) + seq![
            f as u16,
            (f + 2) as u16,
            (f + 1) as u16,
            (f + 3) as u16,
            (f + 5) as u16,
            (f + 4) as u16,
        ]
    }
}

/// Every cone index names one of the vertices laid down so far.
pub proof fn lemma_cone_indices_valid(s: nat)
    requires
        s <= 14,
    ensures
        cone_indices(s).len() == 6 * s,
        indices_below(cone_indices(s), 6 * s as int),
    decreases s,
{
    if s > 0 {
        lemma_cone_indices_valid((s - 1) as nat);
        let c = cone_indices(s);
        let prev = cone_indices((s - 1) as nat);
        assert forall|k: int| 0 <= k < c.len() implies c[k] < 6 * s by {
            if k >= prev.len() {
            }
        }
    }
}

/// Segment `q` of the cone is its side triangle (rim `q`, apex, rim `q + 1`)
/// under the segment's normal, then its base triangle (centre, rim `q`,
/// rim `q + 1`) facing down, each over the six vertices laid down for it.
pub proof fn lemma_cone_segment<P>(
    rim: Seq<P>,
    normals: Seq<P>,
    apex: P,
    base: P,
    down: P,
    n: nat,
    q: int,
)
    requires
        0 <= q < n,
        n <= 14,
    ensures
        cone_vertices(rim, normals, apex, base, down, n).len() == 6 * n,
        cone_indices(n)[6 * q] == 6 * q,
        cone_indices(n)[6 * q + 1] == 6 * q + 2,
        cone_indices(n)[6 * q + 2] == 6 * q + 1,
        cone_indices(n)[6 * q + 3] == 6 * q + 3,
        cone_indices(n)[6 * q + 4] == 6 * q + 5,
        cone_indices(n)[6 * q + 5] == 6 * q + 4,
        cone_vertices(rim, normals, apex, base, down, n)[6 * q] == (rim[q], normals[q]),
        cone_vertices(rim, normals, apex, base, down, n)[6 * q + 1] == (rim[q + 1], normals[q]),
        cone_vertices(rim, normals, apex, base, down, n)[6 * q + 2] == (apex, normals[q]),
        cone_vertices(rim, normals, apex, base, down, n)[6 * q + 3] == (base, down),
        cone_vertices(rim, normals, apex, base, down, n)[6 * q + 4] == (rim[q + 1], down),
        cone_vertices(rim, normals, apex, base, down, n)[6 * q + 5] == (rim[q], down),
    decreases n,
{
    lemma_cone_indices_valid((n - 1) as nat);
    if n > 1 {
        lemma_cone_segment(rim, normals, apex, base, down, (n - 1) as nat, 0);
    } else {
        assert(cone_vertices(rim, normals, apex, base, down, 0).len() == 0);
    }
    if q < n - 1 {
        lemma_cone_segment(rim, normals, apex, base, down, (n - 1) as nat, q);
    }
}

/// The cone from its 14 + 1 rim points (the last repeating the first
/// angle), the 14 side normals, the apex, the base centre and the downward
/// normal.
pub fn build_cone<P: Copy>(rim: &Vec<P>, normals: &Vec<P>, apex: P, base: P, down: P) -> (m: Mesh<P>)
    requires
        rim@.len() == CONE_SEGMENTS + 1,
        normals@.len() == CONE_SEGMENTS,
    ensures
        m.wf(),
        m.vertices@ == cone_vertices(rim@, normals@, apex, base, down, 14),
        m.indices@ == cone_indices(14),
        m.indices_valid(),
        forall|q: int|
            #![trigger m.indices@[6 * q]]
            0 <= q < CONE_SEGMENTS ==> {
                &&& m.vertices@[m.indices@[6 * q] as int] == (rim@[q], normals@[q])
                &&& m.vertices@[m.indices@[6 * q + 1] as int] == (apex, normals@[q])
                &&& m.vertices@[m.indices@[6 * q + 2] as int] == (rim@[q + 1], normals@[q])
                &&& m.vertices@[m.indices@[6 * q + 3] as int] == (base, down)
                &&& m.vertices@[m.indices@[6 * q + 4] as int] == (rim@[q], down)
                &&& m.vertices@[m.indices@[6 * q + 5] as int] == (rim@[q + 1], down)
            },
{
    let mut m: Mesh<P> = Mesh::new();
    let mut segment: usize = 0;
    while segment < CONE_SEGMENTS
        invariant
            m.wf(),
            rim@.len() == 15,
            normals@.len() == 14,
            segment <= 14,
            m.vertices@ == cone_vertices(rim@, normals@, apex, base, down, segment as nat),
            m.vertices@.len() == 6 * segment,
            m.indices@ == cone_indices(segment as nat),
        decreases 14 - segment,
    {
        proof {
            lemma_cone_indices_valid(segment as nat);
        }
        let normal = normals[segment];
        let first = m.vertex_count();
        m.add_vertex(rim[segment], normal);
        m.add_vertex(rim[segment + 1], normal);
        m.add_vertex(apex, normal);
        m.add_triangle(first, first + 2, first + 1);
        let cap = m.vertex_count();
        m.add_vertex(base, down);
        m.add_vertex(rim[segment + 1], down);
        m.add_vertex(rim[segment], down);
        m.add_triangle(cap, cap + 2, cap + 1);
        assert(m.vertices@ =~= cone_vertices(
            rim@,
            normals@,
            apex,
            base,
            down,
            (segment + 1) as nat,
        ));
        assert(m.indices@ =~= cone_indices((segment + 1) as nat));
        segment = segment + 1;
    }
    proof {
        lemma_cone_indices_valid(14);
        assert forall|q: int|
            #![trigger m.indices@[6 * q]]
            0 <= q < CONE_SEGMENTS implies {
                &&& m.vertices@[m.indices@[6 * q] as int] == (rim@[q], normals@[q])
                &&& m.vertices@[m.indices@[6 * q + 1] as int] == (apex, normals@[q])
                &&& m.vertices@[m.indices@[6 * q + 2] as int] == (rim@[q + 1], normals@[q])
                &&& m.vertices@[m.indices@[6 * q + 3] as int] == (base, down)
                &&& m.vertices@[m.indices@[6 * q + 4] as int] == (rim@[q], down)
                &&& m.vertices@[m.indices@[6 * q + 5] as int] == (rim@[q + 1], down)
            } by {
            lemma_cone_segment(rim@, normals@, apex, base, down, 14, q);
        }
    }
    m
}

// ---- disc and cylinder ------------------------------------------------------

/// Indices of the first `s` triangles of a fan about vertex `centre` whose
/// rim starts at `centre + 1`. An upward fan runs (centre, next, this); a
/// downward one (centre, this, next), so both face out.
pub open spec fn fan_indices(centre: int, s: nat, downward: bool) -> Seq<u16>
    decreases s,
{
    if s == 0 {
        Seq::empty()
    } else {
        let t = s - 1;
        fan_indices(centre, (s - 1) as nat, downward) + if downward {
            seq![centre as u16, (centre + 1 + t) as u16, (centre + 2 + t) as u16]
        } else {
            seq![centre as u16, (centre + 2 + t) as u16, (centre + 1 + t) as u16]
        }
    }
}

/// Triangle `t` of a fan about `centre` joins the centre with rim points
/// `t` and `t + 1` (vertices `centre + 1 + t` and `centre + 2 + t`): an
/// upward fan lists the later rim point first, a downward one the earlier.
pub proof fn lemma_fan_triangle(centre: int, n: nat, downward: bool, t: int)
    requires
        0 <= t < n,
        0 <= centre,
        centre + n + 2 <= 0x1_0000,
    ensures
        fan_indices(centre, n, downward)[3 * t] == centre,
        fan_indices(centre, n, downward)[3 * t + 1] == (if downward {
            centre + 1 + t
        } else {
            centre + 2 + t
        }),
        fan_indices(centre, n, downward)[3 * t + 2] == (if downward {
            centre + 2 + t
        } else {
            centre + 1 + t
        }),
    decreases n,
{
    lemma_fan_indices_valid(centre, (n - 1) as nat, downward);
    if t < n - 1 {
        lemma_fan_triangle(centre, (n - 1) as nat, downward, t);
    }
}

/// A fan of `s` triangles only reaches vertices up to `centre + s + 1`.
pub proof fn lemma_fan_indices_valid(centre: int, s: nat, downward: bool)
    requires
        0 <= centre,
        centre + s + 2 <= 0x1_0000,
    ensures
        fan_indices(centre, s, downward).len() == 3 * s,
        indices_below(fan_indices(centre, s, downward), centre + s + 2),
        forall|k: int|
            0 <= k < fan_indices(centre, s, downward).len() ==> fan_indices(
                centre,
                s,
                downward,
            )[k] >= centre,
    decreases s,
{
    if s > 0 {
        lemma_fan_indices_valid(centre, (s - 1) as nat, downward);
    }
}

/// The disc: a centre and 16 + 1 rim points, all facing up.
pub fn build_disc<P: Copy>(centre: P, rim: &Vec<P>, up: P) -> (m: Mesh<P>)
    requires
        rim@.len() == DISC_SEGMENTS + 1,
    ensures
        m.wf(),
        m.vertices@ == seq![(centre, up)] + Seq::new(17, |k: int| (rim@[k], up)),
        m.indices@ == fan_indices(0, 16, false),
        m.indices_valid(),
        forall|t: int|
            #![trigger m.indices@[3 * t]]
            0 <= t < DISC_SEGMENTS ==> {
                &&& m.vertices@[m.indices@[3 * t] as int] == (centre, up)
                &&& m.vertices@[m.indices@[3 * t + 1] as int] == (rim@[t + 1], up)
                &&& m.vertices@[m.indices@[3 * t + 2] as int] == (rim@[t], up)
            },
{
    let mut m: Mesh<P> = Mesh::new();
    let first = m.vertex_count();
    m.add_vertex(centre, up);
    let mut k: usize = 0;
    while k <= DISC_SEGMENTS
        invariant
            m.wf(),
            first == 0,
            rim@.len() == 17,
            k <= 17,
            m.indices@.len() == 0,
            m.vertices@ == seq![(centre, up)] + Seq::new(k as nat, |j: int| (rim@[j], up)),
        decreases 17 - k,
    {
        m.add_vertex(rim[k], up);
        k = k + 1;
        assert(m.vertices@ =~= seq![(centre, up)] + Seq::new(k as nat, |j: int| (rim@[j], up)));
    }
    let mut segment: usize = 0;
    while segment < DISC_SEGMENTS
        invariant
            m.wf(),
            first == 0,
            segment <= 16,
            m.vertices@ == seq![(centre, up)] + Seq::new(17, |j: int| (rim@[j], up)),
            m.indices@ == fan_indices(0, segment as nat, false),
        decreases 16 - segment,
    {
        proof {
            lemma_fan_indices_valid(0, segment as nat, false);
        }
        m.add_triangle(first, first + 2 + segment, first + 1 + segment);
        assert(m.indices@ =~= fan_indices(0, (segment + 1) as nat, false));
        segment = segment + 1;
    }
    proof {
        lemma_fan_indices_valid(0, 16, false);
        assert forall|t: int|
            #![trigger m.indices@[3 * t]]
            0 <= t < DISC_SEGMENTS implies {
                &&& m.vertices@[m.indices@[3 * t] as int] == (centre, up)
                &&& m.vertices@[m.indices@[3 * t + 1] as int] == (rim@[t + 1], up)
                &&& m.vertices@[m.indices@[3 * t + 2] as int] == (rim@[t], up)
            } by {
            lemma_fan_triangle(0, 16, false, t);
        }
    }
    m
}

/// Indices of the first `s` side quads of the cylinder: vertex `2s` is the
/// bottom and `2s + 1` the top of meridian `s`.
pub open spec fn drum_indices(s: nat) -> Seq<u16>
    decreases s,
{
    if s == 0 {
        Seq::empty()
    } else {
        let low = 2 * (s - 1);
        drum_indices((s - 1) as nat) + seq![
            low as u16,
            (low + 1) as u16,
            (low + 2) as u16,
            (low + 1) as u16,
            (low + 3) as u16,
            (low + 2) as u16,
        ]
    }
}

/// The drum's quads only reach the meridians laid down for them.
pub proof fn lemma_drum_indices_valid(s: nat)
    requires
        s <= 16,
    ensures
        drum_indices(s).len() == 6 * s,
        indices_below(drum_indices(s), 2 * s as int + 2),
    decreases s,
{
    if s > 0 {
        lemma_drum_indices_valid((s - 1) as nat);
    }
}

/// Side quad `q` of the drum joins meridians `q` and `q + 1` and nothing
/// else: its two triangles are (bottom `q`, top `q`, bottom `q + 1`) and
/// (top `q`, top `q + 1`, bottom `q + 1`), vertex `2q` being the bottom and
/// `2q + 1` the top of meridian `q`.
pub proof fn lemma_drum_quad(n: nat, q: int)
    requires
        0 <= q < n,
        n <= 16,
    ensures
        drum_indices(n)[6 * q] == 2 * q,
        drum_indices(n)[6 * q + 1] == 2 * q + 1,
        drum_indices(n)[6 * q + 2] == 2 * q + 2,
        drum_indices(n)[6 * q + 3] == 2 * q + 1,
        drum_indices(n)[6 * q + 4] == 2 * q + 3,
        drum_indices(n)[6 * q + 5] == 2 * q + 2,
    decreases n,
{
    lemma_drum_indices_valid((n - 1) as nat);
    if q < n - 1 {
        lemma_drum_quad((n - 1) as nat, q);
    }
}

/// The side vertices of the cylinder: bottom then top of each of the 16 + 1
/// meridians, under the meridian's radial normal.
pub open spec fn drum_vertices<P>(low: Seq<P>, high: Seq<P>, radial: Seq<P>, n: nat) -> Seq<(P, P)> {
    Seq::new(
        2 * n,
        |k: int|
            if k % 2 == 0 {
                (low[k / 2], radial[k / 2])
            } else {
                (high[k / 2], radial[k / 2])
            },
    )
}

/// All cylinder indices: the drum, the top fan about vertex 34 and the
/// bottom fan about vertex 52.
pub open spec fn cylinder_indices() -> Seq<u16> {
    drum_indices(16) + fan_indices(34, 16, false) + fan_indices(52, 16, true)
}

/// The cylinder's first 96 indices are its 16 side quads in order, quad `s`
/// covering the side between meridians `s` and `s + 1`.
pub proof fn lemma_cylinder_side_quads(s: int)
    requires
        0 <= s < CYLINDER_SEGMENTS,
    ensures
        cylinder_indices()[6 * s] == 2 * s,
        cylinder_indices()[6 * s + 1] == 2 * s + 1,
        cylinder_indices()[6 * s + 2] == 2 * s + 2,
        cylinder_indices()[6 * s + 3] == 2 * s + 1,
        cylinder_indices()[6 * s + 4] == 2 * s + 3,
        cylinder_indices()[6 * s + 5] == 2 * s + 2,
{
    lemma_drum_indices_valid(16);
    lemma_drum_quad(16, s);
}

/// The cylinder along Y: smooth radial normals on the drum, flat normals on
/// the two caps. `low` and `high` are the 16 + 1 rim points at the bottom and
/// the top, `radial` their outward normals.
pub fn build_cylinder<P: Copy>(
    low: &Vec<P>,
    high: &Vec<P>,
    radial: &Vec<P>,
    top: P,
    bottom: P,
    up: P,
    down: P,
) -> (m: Mesh<P>)
    requires
        low@.len() == CYLINDER_SEGMENTS + 1,
        high@.len() == CYLINDER_SEGMENTS + 1,
        radial@.len() == CYLINDER_SEGMENTS + 1,
    ensures
        m.wf(),
        m.vertices@ == drum_vertices(low@, high@, radial@, 17) + seq![(top, up)] + Seq::new(
            17,
            |k: int| (high@[k], up),
        ) + seq![(bottom, down)] + Seq::new(17, |k: int| (low@[k], down)),
        m.indices@ == cylinder_indices(),
        m.indices_valid(),
        forall|s: int|
            #![trigger m.indices@[6 * s]]
            0 <= s < CYLINDER_SEGMENTS ==> {
                &&& m.vertices@[m.indices@[6 * s] as int] == (low@[s], radial@[s])
                &&& m.vertices@[m.indices@[6 * s + 1] as int] == (high@[s], radial@[s])
                &&& m.vertices@[m.indices@[6 * s + 2] as int] == (low@[s + 1], radial@[s + 1])
                &&& m.vertices@[m.indices@[6 * s + 3] as int] == (high@[s], radial@[s])
                &&& m.vertices@[m.indices@[6 * s + 4] as int] == (high@[s + 1], radial@[s + 1])
                &&& m.vertices@[m.indices@[6 * s + 5] as int] == (low@[s + 1], radial@[s + 1])
            },
        forall|t: int|
            #![trigger m.indices@[96 + 3 * t]]
            0 <= t < CYLINDER_SEGMENTS ==> {
                &&& m.vertices@[m.indices@[96 + 3 * t] as int] == (top, up)
                &&& m.vertices@[m.indices@[96 + 3 * t + 1] as int] == (high@[t + 1], up)
                &&& m.vertices@[m.indices@[96 + 3 * t + 2] as int] == (high@[t], up)
                &&& m.vertices@[m.indices@[144 + 3 * t] as int] == (bottom, down)
                &&& m.vertices@[m.indices@[144 + 3 * t + 1] as int] == (low@[t], down)
                &&& m.vertices@[m.indices@[144 + 3 * t + 2] as int] == (low@[t + 1], down)
            },
{
    let mut m: Mesh<P> = Mesh::new();
    let mut s: usize = 0;
    while s <= CYLINDER_SEGMENTS
        invariant
            m.wf(),
            low@.len() == 17,
            high@.len() == 17,
            radial@.len() == 17,
            s <= 17,
            m.indices@.len() == 0,
            m.vertices@ == drum_vertices(low@, high@, radial@, s as nat),
        decreases 17 - s,
    {
        m.add_vertex(low[s], radial[s]);
        m.add_vertex(high[s], radial[s]);
        s = s + 1;
        assert(m.vertices@ =~= drum_vertices(low@, high@, radial@, s as nat));
    }
    let mut segment: usize = 0;
    while segment < CYLINDER_SEGMENTS
        invariant
            m.wf(),
            segment <= 16,
            m.vertices@ == drum_vertices(low@, high@, radial@, 17),
            m.indices@ == drum_indices(segment as nat),
        decreases 16 - segment,
    {
        proof {
            lemma_drum_indices_valid(segment as nat);
        }
        let l = segment * 2;
        m.add_triangle(l, l + 1, l + 2);
        m.add_triangle(l + 1, l + 3, l + 2);
        assert(m.indices@ =~= drum_indices((segment + 1) as nat));
        segment = segment + 1;
    }
    proof {
        lemma_drum_indices_valid(16);
    }
    // the top cap, then the bottom
    let ghost drum = drum_vertices(low@, high@, radial@, 17);
    assert(drum.len() == 34);
    let top_centre = m.vertex_count();
    m.add_vertex(top, up);
    let mut k: usize = 0;
    while k <= CYLINDER_SEGMENTS
        invariant
            m.wf(),
            top_centre == 34,
            high@.len() == 17,
            drum.len() == 34,
            m.vertices@.len() == 35 + k,
            k <= 17,
            m.indices@ == drum_indices(16),
            m.vertices@ == drum + seq![(top, up)] + Seq::new(k as nat, |j: int| (high@[j], up)),
        decreases 17 - k,
    {
        m.add_vertex(high[k], up);
        k = k + 1;
        assert(m.vertices@ =~= drum + seq![(top, up)] + Seq::new(
            k as nat,
            |j: int| (high@[j], up),
        ));
    }
    let mut segment: usize = 0;
    while segment < CYLINDER_SEGMENTS
        invariant
            m.wf(),
            top_centre == 34,
            segment <= 16,
            m.vertices@ == drum + seq![(top, up)] + Seq::new(17, |j: int| (high@[j], up)),
            drum == drum_vertices(low@, high@, radial@, 17),
            m.indices@ == drum_indices(16) + fan_indices(34, segment as nat, false),
        decreases 16 - segment,
    {
        proof {
            lemma_fan_indices_valid(34, segment as nat, false);
            lemma_drum_indices_valid(16);
        }
        m.add_triangle(top_centre, top_centre + 2 + segment, top_centre + 1 + segment);
        assert(m.indices@ =~= drum_indices(16) + fan_indices(34, (segment + 1) as nat, false));
        segment = segment + 1;
    }
    let ghost upper = drum + seq![(top, up)] + Seq::new(17, |j: int| (high@[j], up));
    assert(upper.len() == 52);
    let bottom_centre = m.vertex_count();
    m.add_vertex(bottom, down);
    let mut k: usize = 0;
    while k <= CYLINDER_SEGMENTS
        invariant
            m.wf(),
            bottom_centre == 52,
            low@.len() == 17,
            upper.len() == 52,
            m.vertices@.len() == 53 + k,
            k <= 17,
            m.indices@ == drum_indices(16) + fan_indices(34, 16, false),
            m.vertices@ == upper + seq![(bottom, down)] + Seq::new(
                k as nat,
                |j: int| (low@[j], down),
            ),
        decreases 17 - k,
    {
        m.add_vertex(low[k], down);
        k = k + 1;
        assert(m.vertices@ =~= upper + seq![(bottom, down)] + Seq::new(
            k as nat,
            |j: int| (low@[j], down),
        ));
    }
    let mut segment: usize = 0;
    while segment < CYLINDER_SEGMENTS
        invariant
            m.wf(),
            bottom_centre == 52,
            segment <= 16,
            m.vertices@.len() == 70,
            m.vertices@ == upper + seq![(bottom, down)] + Seq::new(17, |j: int| (low@[j], down)),
            m.indices@ == drum_indices(16) + fan_indices(34, 16, false) + fan_indices(
                52,
                segment as nat,
                true,
            ),
        decreases 16 - segment,
    {
        proof {
            lemma_fan_indices_valid(52, segment as nat, true);
            lemma_fan_indices_valid(34, 16, false);
            lemma_drum_indices_valid(16);
        }
        m.add_triangle(bottom_centre, bottom_centre + 1 + segment, bottom_centre + 2 + segment);
        assert(m.indices@ =~= drum_indices(16) + fan_indices(34, 16, false) + fan_indices(
            52,
            (segment + 1) as nat,
            true,
        ));
        segment = segment + 1;
    }
    proof {
        lemma_drum_indices_valid(16);
        lemma_fan_indices_valid(34, 16, false);
        lemma_fan_indices_valid(52, 16, true);
        let a = drum_indices(16);
        let b = fan_indices(34, 16, false);
        let c = fan_indices(52, 16, true);
        let all = a + b + c;
        assert forall|k: int| 0 <= k < all.len() implies all[k] < 70 by {
            if k < a.len() {
            } else if k < a.len() + b.len() {
                assert(all[k] == b[k - a.len()]);
            } else {
                assert(all[k] == c[k - a.len() - b.len()]);
            }
        }
        let ghost drum_v = drum_vertices(low@, high@, radial@, 17);
        assert forall|s: int|
            #![trigger m.indices@[6 * s]]
            0 <= s < CYLINDER_SEGMENTS implies {
                &&& m.vertices@[m.indices@[6 * s] as int] == (low@[s], radial@[s])
                &&& m.vertices@[m.indices@[6 * s + 1] as int] == (high@[s], radial@[s])
                &&& m.vertices@[m.indices@[6 * s + 2] as int] == (low@[s + 1], radial@[s + 1])
                &&& m.vertices@[m.indices@[6 * s + 3] as int] == (high@[s], radial@[s])
                &&& m.vertices@[m.indices@[6 * s + 4] as int] == (high@[s + 1], radial@[s + 1])
                &&& m.vertices@[m.indices@[6 * s + 5] as int] == (low@[s + 1], radial@[s + 1])
            } by {
            lemma_cylinder_side_quads(s);
            assert(m.indices@ == cylinder_indices());
            assert(m.vertices@[2 * s] == drum_v[2 * s]);
            assert(m.vertices@[2 * s + 1] == drum_v[2 * s + 1]);
            assert(m.vertices@[2 * s + 2] == drum_v[2 * s + 2]);
            assert(m.vertices@[2 * s + 3] == drum_v[2 * s + 3]);
            assert((2 * s) % 2 == 0 && (2 * s) / 2 == s);
            assert((2 * s + 1) % 2 == 1 && (2 * s + 1) / 2 == s);
            assert((2 * s + 2) % 2 == 0 && (2 * s + 2) / 2 == s + 1);
            assert((2 * s + 3) % 2 == 1 && (2 * s + 3) / 2 == s + 1);
        }
        assert forall|t: int|
            #![trigger m.indices@[96 + 3 * t]]
            0 <= t < CYLINDER_SEGMENTS implies {
                &&& m.vertices@[m.indices@[96 + 3 * t] as int] == (top, up)
                &&& m.vertices@[m.indices@[96 + 3 * t + 1] as int] == (high@[t + 1], up)
                &&& m.vertices@[m.indices@[96 + 3 * t + 2] as int] == (high@[t], up)
                &&& m.vertices@[m.indices@[144 + 3 * t] as int] == (bottom, down)
                &&& m.vertices@[m.indices@[144 + 3 * t + 1] as int] == (low@[t], down)
                &&& m.vertices@[m.indices@[144 + 3 * t + 2] as int] == (low@[t + 1], down)
            } by {
            lemma_fan_triangle(34, 16, false, t);
            lemma_fan_triangle(52, 16, true, t);
            assert(m.indices@[96 + 3 * t] == b[3 * t]);
            assert(m.indices@[96 + 3 * t + 1] == b[3 * t + 1]);
            assert(m.indices@[96 + 3 * t + 2] == b[3 * t + 2]);
            assert(m.indices@[144 + 3 * t] == c[3 * t]);
            assert(m.indices@[144 + 3 * t + 1] == c[3 * t + 1]);
            assert(m.indices@[144 + 3 * t + 2] == c[3 * t + 2]);
        }
    }
    m
}

// ---- faceted shapes ------------------------------------------------------------

/// Corners in the first `n` faces.
pub open spec fn corner_total<P>(facets: Seq<Facet<P>>, n: nat) -> int
    decreases n,
{
    if n == 0 {
        0
    } else {
        corner_total(facets, (n - 1) as nat) + facets[n - 1].corners@.len()
    }
}

/// Indices of the first `n` faces: three for a triangle, six for a quad.
pub open spec fn index_total<P>(facets: Seq<Facet<P>>, n: nat) -> int
    decreases n,
{
    if n == 0 {
        0
    } else {
        index_total(facets, (n - 1) as nat) + if facets[n - 1].corners@.len() == 4 {
            6int
        } else {
            3int
        }
    }
}

/// Every face is a triangle or a quad, and all of them fit one prototype.
pub open spec fn facets_fit<P>(facets: Seq<Facet<P>>) -> bool {
    &&& forall|i: int|
        0 <= i < facets.len() ==> (#[trigger] facets[i].corners@.len() == 3
            || facets[i].corners@.len() == 4)
    &&& corner_total(facets, facets.len()) <= MESH_VERTEX_CAPACITY
    &&& index_total(facets, facets.len()) <= MESH_INDEX_CAPACITY
}

/// Triangles of one face whose first corner is vertex `first`.
pub open spec fn face_triangles(first: int, corners: int) -> Seq<u16> {
    seq![first as u16, (first + 1) as u16, (first + 2) as u16] + if corners == 4 {
        seq![first as u16, (first + 2) as u16, (first + 3) as u16]
    } else {
        Seq::empty()
    }
}

/// Vertices of the first `n` faces, each corner under its face's normal.
pub open spec fn faceted_vertices<P>(facets: Seq<Facet<P>>, n: nat) -> Seq<(P, P)>
    decreases n,
{
    if n == 0 {
        Seq::empty()
    } else {
        let f = facets[n - 1];
        faceted_vertices(facets, (n - 1) as nat) + Seq::new(
            f.corners@.len(),
            |k: int| (f.corners@[k], f.normal),
        )
    }
}

/// Indices of the first `n` faces.
pub open spec fn faceted_indices<P>(facets: Seq<Facet<P>>, n: nat) -> Seq<u16>
    decreases n,
{
    if n == 0 {
        Seq::empty()
    } else {
        faceted_indices(facets, (n - 1) as nat) + face_triangles(
            corner_total(facets, (n - 1) as nat),
            facets[n - 1].corners@.len() as int,
        )
    }
}

/// Running totals only grow, the vertex and index lists are as long as the
/// totals say, and every index names a vertex already laid down.
pub proof fn lemma_faceted_shape<P>(facets: Seq<Facet<P>>, n: nat)
    requires
        n <= facets.len(),
        forall|i: int|
            0 <= i < facets.len() ==> (#[trigger] facets[i].corners@.len() == 3
                || facets[i].corners@.len() == 4),
        corner_total(facets, facets.len()) <= MESH_VERTEX_CAPACITY,
    ensures
        0 <= corner_total(facets, n) <= corner_total(facets, facets.len()),
        0 <= index_total(facets, n) <= index_total(facets, facets.len()),
        faceted_vertices(facets, n).len() == corner_total(facets, n),
        faceted_indices(facets, n).len() == index_total(facets, n),
        indices_below(faceted_indices(facets, n), corner_total(facets, n)),
{
    lemma_totals_monotone(facets, n, facets.len());
    lemma_faceted_prefix(facets, n);
}

proof fn lemma_totals_monotone<P>(facets: Seq<Facet<P>>, n: nat, m: nat)
    requires
        n <= m <= facets.len(),
        forall|i: int|
            0 <= i < facets.len() ==> (#[trigger] facets[i].corners@.len() == 3
                || facets[i].corners@.len() == 4),
    ensures
        0 <= corner_total(facets, n) <= corner_total(facets, m),
        0 <= index_total(facets, n) <= index_total(facets, m),
    decreases m,
{
    if m > n {
        assert(facets[m - 1].corners@.len() == 3 || facets[m - 1].corners@.len() == 4);
        lemma_totals_monotone(facets, n, (m - 1) as nat);
    } else if n > 0 {
        lemma_totals_monotone(facets, (n - 1) as nat, (n - 1) as nat);
        assert(facets[n - 1].corners@.len() == 3 || facets[n - 1].corners@.len() == 4);
    }
}

proof fn lemma_faceted_prefix<P>(facets: Seq<Facet<P>>, n: nat)
    requires
        n <= facets.len(),
        forall|i: int|
            0 <= i < facets.len() ==> (#[trigger] facets[i].corners@.len() == 3
                || facets[i].corners@.len() == 4),
        corner_total(facets, facets.len()) <= MESH_VERTEX_CAPACITY,
    ensures
        faceted_vertices(facets, n).len() == corner_total(facets, n),
        faceted_indices(facets, n).len() == index_total(facets, n),
        indices_below(faceted_indices(facets, n), corner_total(facets, n)),
    decreases n,
{
    if n > 0 {
        lemma_faceted_prefix(facets, (n - 1) as nat);
        lemma_totals_monotone(facets, n, facets.len());
        lemma_totals_monotone(facets, (n - 1) as nat, n);
        let c = facets[n - 1].corners@.len() as int;
        assert(c == 3 || c == 4);
        let first = corner_total(facets, (n - 1) as nat);
        let prev = faceted_indices(facets, (n - 1) as nat);
        let t = face_triangles(first, c);
        let all = faceted_indices(facets, n);
        assert(all == prev + t);
        assert forall|k: int| 0 <= k < all.len() implies all[k] < first + c by {
            if k >= prev.len() {
                assert(all[k] == t[k - prev.len()]);
            }
        }
    }
}

/// A prototype made of flat faces: each face's corners in order under its
/// own normal, fanned from its first corner.
pub fn build_faceted<P: Copy>(facets: &Vec<Facet<P>>) -> (m: Mesh<P>)
    requires
        facets_fit(facets@),
    ensures
        m.wf(),
        m.vertices@ == faceted_vertices(facets@, facets@.len()),
        m.indices@ == faceted_indices(facets@, facets@.len()),
        m.indices_valid(),
{
    let mut m: Mesh<P> = Mesh::new();
    let mut i: usize = 0;
    while i < facets.len()
        invariant
            m.wf(),
            facets_fit(facets@),
            i <= facets@.len(),
            m.vertices@ == faceted_vertices(facets@, i as nat),
            m.indices@ == faceted_indices(facets@, i as nat),
        decreases facets@.len() - i,
    {
        proof {
            lemma_faceted_shape(facets@, i as nat);
            lemma_faceted_shape(facets@, (i + 1) as nat);
        }
        let face = &facets[i];
        let ghost before_v = m.vertices@;
        let ghost before_i = m.indices@;
        m.add_facet(&face.corners, face.normal);
        proof {
            let c = facets@[i as int].corners@.len() as int;
            assert(c == 3 || c == 4);
            assert(before_v.len() + c <= MESH_VERTEX_CAPACITY);
            assert(before_i.len() + (if c == 4 { 6int } else { 3int }) <= MESH_INDEX_CAPACITY);
            assert(facet_triangles(before_v.len() as int, c, before_i.len() as int) =~= face_triangles(
                before_v.len() as int,
                c,
            ));
            assert(m.vertices@ =~= faceted_vertices(facets@, (i + 1) as nat));
            assert(m.indices@ =~= faceted_indices(facets@, (i + 1) as nat));
        }
        i = i + 1;
    }
    proof {
        lemma_faceted_shape(facets@, facets@.len());
    }
    m
}

// ---- the library ---------------------------------------------------------------

/// Slot of each prototype in the library.
pub const CUBOID: usize = 0;
pub const SPHERE: usize = 1;
pub const CONE: usize = 2;
pub const DISC: usize = 3;
pub const CYLINDER: usize = 4;
pub const FRUSTUM: usize = 5;
pub const WEDGE: usize = 6;
pub const FROND: usize = 7;
pub const BOULDER: usize = 8;
pub const CRENELS: usize = 9;

/// The surface points every prototype is assembled from.
pub struct PrototypeGeometry<P> {
    pub cuboid: Vec<Facet<P>>,
    pub sphere: Vec<P>,
    pub cone_rim: Vec<P>,
    pub cone_normals: Vec<P>,
    pub cone_apex: P,
    pub cone_base: P,
    pub disc_centre: P,
    pub disc_rim: Vec<P>,
    pub cylinder_low: Vec<P>,
    pub cylinder_high: Vec<P>,
    pub cylinder_radial: Vec<P>,
    pub cylinder_top: P,
    pub cylinder_bottom: P,
    pub up: P,
    pub down: P,
    pub frustum: Vec<Facet<P>>,
    pub wedge: Vec<Facet<P>>,
    pub frond: Vec<Facet<P>>,
    pub boulder: Vec<Facet<P>>,
    pub crenels: Vec<Facet<P>>,
}

impl<P> PrototypeGeometry<P> {
    /// Every point list has the length its prototype walks, and every faceted
    /// prototype fits.
    pub open spec fn wf(&self) -> bool {
        &&& self.sphere@.len() == (SPHERE_RINGS + 1) * (SPHERE_SEGMENTS + 1)
        &&& self.cone_rim@.len() == CONE_SEGMENTS + 1
        &&& self.cone_normals@.len() == CONE_SEGMENTS
        &&& self.disc_rim@.len() == DISC_SEGMENTS + 1
        &&& self.cylinder_low@.len() == CYLINDER_SEGMENTS + 1
        &&& self.cylinder_high@.len() == CYLINDER_SEGMENTS + 1
        &&& self.cylinder_radial@.len() == CYLINDER_SEGMENTS + 1
        &&& facets_fit(self.cuboid@)
        &&& facets_fit(self.frustum@)
        &&& facets_fit(self.wedge@)
        &&& facets_fit(self.frond@)
        &&& facets_fit(self.boulder@)
        &&& facets_fit(self.crenels@)
    }
}

/// All ten prototypes.
pub struct MeshLibrary<P> {
    pub meshes: Vec<Mesh<P>>,
}

impl<P: Copy> MeshLibrary<P> {
    /// One mesh per prototype, each within its capacities.
    pub open spec fn wf(&self) -> bool {
        &&& self.meshes@.len() == SHAPE_COUNT
        &&& forall|s: int| 0 <= s < SHAPE_COUNT ==> #[trigger] self.meshes@[s].wf()
    }

    /// Every index of every prototype names a vertex of that prototype.
    pub open spec fn indices_valid(&self) -> bool {
        forall|s: int| 0 <= s < SHAPE_COUNT ==> #[trigger] self.meshes@[s].indices_valid()
    }

    /// A library of ten empty prototypes.
    pub fn new() -> (lib: MeshLibrary<P>)
        ensures
            lib.wf(),
            lib.indices_valid(),
            forall|s: int|
                #![trigger lib.meshes@[s]]
                0 <= s < SHAPE_COUNT ==> lib.meshes@[s].vertices@.len() == 0
                    && lib.meshes@[s].indices@.len() == 0,
    {
        let mut meshes: Vec<Mesh<P>> = Vec::new();
        let mut s: usize = 0;
        while s < SHAPE_COUNT
            invariant
                s <= SHAPE_COUNT,
                meshes@.len() == s,
                forall|k: int|
                    #![trigger meshes@[k]]
                    0 <= k < s ==> meshes@[k].wf() && meshes@[k].vertices@.len() == 0
                        && meshes@[k].indices@.len() == 0,
            decreases SHAPE_COUNT - s,
        {
            meshes.push(Mesh::new());
            s = s + 1;
        }
        assert forall|k: int| 0 <= k < SHAPE_COUNT implies #[trigger] meshes@[k].indices_valid() by {
            assert(meshes@[k].indices@.len() == 0);
        }
        assert forall|k: int| 0 <= k < SHAPE_COUNT implies #[trigger] meshes@[k].wf() by {
            assert(meshes@[k].indices@.len() == 0);
        }
        MeshLibrary { meshes }
    }

    /// Rebuilds every prototype from `g`, in slot order: cuboid, sphere,
    /// cone, disc, cylinder, frustum, wedge, frond, boulder, crenels.
    pub fn build(&mut self, g: &PrototypeGeometry<P>)
        requires
            g.wf(),
        ensures
            final(self).wf(),
            final(self).indices_valid(),
            final(self).meshes@[CUBOID as int].vertices@ == faceted_vertices(g.cuboid@, g.cuboid@.len()),
            final(self).meshes@[CUBOID as int].indices@ == faceted_indices(g.cuboid@, g.cuboid@.len()),
            final(self).meshes@[SPHERE as int].vertices@ == Seq::new(
                150,
                |k: int| (g.sphere@[k], g.sphere@[k]),
            ),
            final(self).meshes@[SPHERE as int].indices@ == sphere_indices(126),
            final(self).meshes@[CONE as int].vertices@ == cone_vertices(
                g.cone_rim@,
                g.cone_normals@,
                g.cone_apex,
                g.cone_base,
                g.down,
                14,
            ),
            final(self).meshes@[CONE as int].indices@ == cone_indices(14),
            final(self).meshes@[DISC as int].vertices@ == seq![(g.disc_centre, g.up)] + Seq::new(
                17,
                |k: int| (g.disc_rim@[k], g.up),
            ),
            final(self).meshes@[DISC as int].indices@ == fan_indices(0, 16, false),
            final(self).meshes@[CYLINDER as int].vertices@ == drum_vertices(
                g.cylinder_low@,
                g.cylinder_high@,
                g.cylinder_radial@,
                17,
            ) + seq![(g.cylinder_top, g.up)] + Seq::new(17, |k: int| (g.cylinder_high@[k], g.up))
                + seq![(g.cylinder_bottom, g.down)] + Seq::new(
                17,
                |k: int| (g.cylinder_low@[k], g.down),
            ),
            final(self).meshes@[CYLINDER as int].indices@ == cylinder_indices(),
            final(self).meshes@[FRUSTUM as int].vertices@ == faceted_vertices(g.frustum@, g.frustum@.len()),
            final(self).meshes@[FRUSTUM as int].indices@ == faceted_indices(g.frustum@, g.frustum@.len()),
            final(self).meshes@[WEDGE as int].vertices@ == faceted_vertices(g.wedge@, g.wedge@.len()),
            final(self).meshes@[WEDGE as int].indices@ == faceted_indices(g.wedge@, g.wedge@.len()),
            final(self).meshes@[FROND as int].vertices@ == faceted_vertices(g.frond@, g.frond@.len()),
            final(self).meshes@[FROND as int].indices@ == faceted_indices(g.frond@, g.frond@.len()),
            final(self).meshes@[BOULDER as int].vertices@ == faceted_vertices(g.boulder@, g.boulder@.len()),
            final(self).meshes@[BOULDER as int].indices@ == faceted_indices(g.boulder@, g.boulder@.len()),
            final(self).meshes@[CRENELS as int].vertices@ == faceted_vertices(g.crenels@, g.crenels@.len()),
            final(self).meshes@[CRENELS as int].indices@ == faceted_indices(g.crenels@, g.crenels@.len()),
    {
        let mut meshes: Vec<Mesh<P>> = Vec::new();
        meshes.push(build_faceted(&g.cuboid));
        meshes.push(build_sphere(&g.sphere));
        meshes.push(build_cone(&g.cone_rim, &g.cone_normals, g.cone_apex, g.cone_base, g.down));
        meshes.push(build_disc(g.disc_centre, &g.disc_rim, g.up));
        meshes.push(
            build_cylinder(
                &g.cylinder_low,
                &g.cylinder_high,
                &g.cylinder_radial,
                g.cylinder_top,
                g.cylinder_bottom,
                g.up,
                g.down,
            ),
        );
        meshes.push(build_faceted(&g.frustum));
        meshes.push(build_faceted(&g.wedge));
        meshes.push(build_faceted(&g.frond));
        meshes.push(build_faceted(&g.boulder));
        meshes.push(build_faceted(&g.crenels));
        self.meshes = meshes;
        assert(forall|s: int| 0 <= s < SHAPE_COUNT ==> #[trigger] self.meshes@[s].wf());
    }

    /// Floats the renderer uploads for prototype `shape`: six per vertex.
    pub fn vertex_floats(&self, shape: usize) -> (n: usize)
        requires
            self.wf(),
            shape < SHAPE_COUNT,
        ensures
            n == 6 * self.meshes@[shape as int].vertices@.len(),
    {
        assert(self.meshes@[shape as int].wf());
        self.meshes[shape].vertex_floats()
    }

    /// Indices of prototype `shape`.
    pub fn index_count(&self, shape: usize) -> (n: usize)
        requires
            self.wf(),
            shape < SHAPE_COUNT,
        ensures
            n == self.meshes@[shape as int].indices@.len(),
    {
        self.meshes[shape].index_count()
    }
}

} // verus!
