use vstd::prelude::*;

verus! {

/// Edge length of a cubic chunk, in voxels.
pub const CHUNK_EDGE: i32 = 16;

/// Number of voxels in one chunk.
pub const CHUNK_VOLUME: usize = 4096;

/// Smallest and one past the largest chunk index whose minimum corner fits in `i32`.
pub const CHUNK_INDEX_MIN: i32 = -134217728;
pub const CHUNK_INDEX_END: i32 = 134217728;

/// A point of the integer lattice; used both for voxel coordinates and for
/// chunk coordinates.
#[derive(Clone, Copy, Debug, PartialEq, Eq, Hash, Structural)]
pub struct Point3i {
    pub x: i32,
    pub y: i32,
    pub z: i32,
}

/// Floor division of one voxel coordinate by the chunk edge.
pub open spec fn chunk_index(a: int) -> int {
    a / (CHUNK_EDGE as int)
}

/// Position of one voxel coordinate inside its chunk, in `[0, CHUNK_EDGE)`.
pub open spec fn chunk_offset(a: int) -> int {
    a % (CHUNK_EDGE as int)
}

/// The chunk that holds voxel `v`.
pub open spec fn chunk_of(v: Point3i) -> Point3i {
    Point3i {
        x: chunk_index(v.x as int) as i32,
        y: chunk_index(v.y as int) as i32,
        z: chunk_index(v.z as int) as i32,
    }
}

/// Whether every component of chunk `c` lies in the range whose minimum
/// corner is representable.
pub open spec fn chunk_in_range(c: Point3i) -> bool {
    &&& CHUNK_INDEX_MIN <= c.x < CHUNK_INDEX_END
    &&& CHUNK_INDEX_MIN <= c.y < CHUNK_INDEX_END
    &&& CHUNK_INDEX_MIN <= c.z < CHUNK_INDEX_END
}

/// The voxel with the smallest coordinates inside chunk `c`.
pub open spec fn min_corner(c: Point3i) -> Point3i {
    Point3i {
        x: (c.x * CHUNK_EDGE) as i32,
        y: (c.y * CHUNK_EDGE) as i32,
        z: (c.z * CHUNK_EDGE) as i32,
    }
}

/// The offset of voxel `v` inside its chunk.
pub open spec fn local_of(v: Point3i) -> (int, int, int) {
    (chunk_offset(v.x as int), chunk_offset(v.y as int), chunk_offset(v.z as int))
}

/// Position of voxel `v` in the dense array of its chunk (x fastest, then y, then z).
pub open spec fn local_index(v: Point3i) -> int {
    let (u, w, t) = local_of(v);
    u + CHUNK_EDGE * w + CHUNK_EDGE * CHUNK_EDGE * t
}

proof fn lemma_component(a: int)
    requires
        i32::MIN <= a <= i32::MAX,
    ensures
        CHUNK_INDEX_MIN <= chunk_index(a) < CHUNK_INDEX_END,
        0 <= chunk_offset(a) < CHUNK_EDGE,
        a == CHUNK_EDGE * chunk_index(a) + chunk_offset(a),
{
    vstd::arithmetic::div_mod::lemma_fundamental_div_mod(a, 16);
    vstd::arithmetic::div_mod::lemma_mod_bound(a, 16);
}

/// Relies on building_blocks' `ChunkIndexer::min_of_chunk_containing_point`:
/// for a chunk shape of `edge` on every axis (a power of two) it masks each
/// component with `!(edge - 1)`, which rounds it down to a multiple of `edge`.
#[verifier::external_body]
fn min_of_chunk_containing_point(edge: i32, v: &Point3i) -> (r: Point3i)
    requires
        edge == CHUNK_EDGE,
    ensures
        r == min_corner(chunk_of(*v)),
{
    let indexer = building_blocks::storage::ChunkIndexer::new(building_blocks::core::PointN([edge; 3]));
    let m = indexer.min_of_chunk_containing_point(building_blocks::core::PointN([v.x, v.y, v.z]));
    Point3i { x: m.0[0], y: m.0[1], z: m.0[2] }
}

/// Chunk index and in-chunk offset of a coordinate, given the minimum
/// coordinate of its chunk.
fn split_component(a: i32, min: i32) -> (r: (i32, i32))
    requires
        min as int == chunk_index(a as int) * CHUNK_EDGE,
    ensures
        r.0 as int == chunk_index(a as int),
        r.1 as int == chunk_offset(a as int),
{
    proof {
        lemma_component(a as int);
    }
    (min / CHUNK_EDGE, a - min)
}

impl Point3i {
    pub fn new(x: i32, y: i32, z: i32) -> (r: Point3i)
        ensures
            r == (Point3i { x, y, z }),
    {
        Point3i { x, y, z }
    }

    /// The chunk that holds this voxel (floor division by the chunk edge).
    pub fn chunk_of(&self) -> (r: Point3i)
        ensures
            r == chunk_of(*self),
            chunk_in_range(r),
    {
        proof {
            lemma_component(self.x as int);
            lemma_component(self.y as int);
            lemma_component(self.z as int);
        }
        let (c, _) = self.local_of();
        c
    }

    /// The minimum corner of this chunk, in voxel coordinates.
    pub fn min_corner(&self) -> (r: Point3i)
        requires
            chunk_in_range(*self),
        ensures
            r == min_corner(*self),
    {
        Point3i { x: self.x * CHUNK_EDGE, y: self.y * CHUNK_EDGE, z: self.z * CHUNK_EDGE }
    }

    /// The chunk that holds this voxel, and the voxel's offset inside it.
    pub fn local_of(&self) -> (r: (Point3i, (i32, i32, i32)))
        ensures
            r.0 == chunk_of(*self),
            (r.1.0 as int, r.1.1 as int, r.1.2 as int) == local_of(*self),
    {
        proof {
            lemma_component(self.x as int);
            lemma_component(self.y as int);
            lemma_component(self.z as int);
        }
        let m = min_of_chunk_containing_point(CHUNK_EDGE, self);
        let (x, u) = split_component(self.x, m.x);
        let (y, w) = split_component(self.y, m.y);
        let (z, t) = split_component(self.z, m.z);
        (Point3i { x, y, z }, (u, w, t))
    }
}

proof fn lemma_digits(u: int, w: int, t: int, u2: int, w2: int, t2: int)
    requires
        0 <= u < 16,
        0 <= w < 16,
        0 <= t < 16,
        0 <= u2 < 16,
        0 <= w2 < 16,
        0 <= t2 < 16,
    ensures
        0 <= u + 16 * w + 256 * t < 4096,
        u + 16 * w + 256 * t == u2 + 16 * w2 + 256 * t2 ==> (u == u2 && w == w2 && t == t2),
{
    assert(0 <= u + 16 * w + 256 * t < 4096) by (nonlinear_arith)
        requires 0 <= u < 16, 0 <= w < 16, 0 <= t < 16;
    if u + 16 * w + 256 * t == u2 + 16 * w2 + 256 * t2 {
        assert(u == u2 && w == w2 && t == t2) by (nonlinear_arith)
            requires
                0 <= u < 16, 0 <= w < 16, 0 <= t < 16,
                0 <= u2 < 16, 0 <= w2 < 16, 0 <= t2 < 16,
                u + 16 * w + 256 * t == u2 + 16 * w2 + 256 * t2;
    }
}

/// Every local offset is inside the chunk, so the array index is in bounds.
pub proof fn lemma_local_index_bounds(v: Point3i)
    ensures
        0 <= local_of(v).0 < CHUNK_EDGE,
        0 <= local_of(v).1 < CHUNK_EDGE,
        0 <= local_of(v).2 < CHUNK_EDGE,
        0 <= local_index(v) < CHUNK_VOLUME,
{
    lemma_component(v.x as int);
    lemma_component(v.y as int);
    lemma_component(v.z as int);
    let (u, w, t) = local_of(v);
    lemma_digits(u, w, t, u, w, t);
}

/// Two voxels of one chunk with the same local offset are the same voxel.
pub proof fn lemma_local_index_injective(v: Point3i, w: Point3i)
    requires
        chunk_of(v) == chunk_of(w),
        local_index(v) == local_index(w),
    ensures
        v == w,
{
    lemma_component(v.x as int);
    lemma_component(v.y as int);
    lemma_component(v.z as int);
    lemma_component(w.x as int);
    lemma_component(w.y as int);
    lemma_component(w.z as int);
    let (a, b, c) = local_of(v);
    let (a2, b2, c2) = local_of(w);
    lemma_digits(a, b, c, a2, b2, c2);
}

/// The chunk of a chunk's minimum corner is that chunk again.
pub proof fn lemma_chunk_of_min_corner(v: Point3i)
    ensures
        chunk_in_range(chunk_of(v)),
        chunk_of(min_corner(chunk_of(v))) == chunk_of(v),
{
    lemma_component(v.x as int);
    lemma_component(v.y as int);
    lemma_component(v.z as int);
    let c = chunk_of(v);
    vstd::arithmetic::div_mod::lemma_div_multiples_vanish(c.x as int, 16);
    vstd::arithmetic::div_mod::lemma_div_multiples_vanish(c.y as int, 16);
    vstd::arithmetic::div_mod::lemma_div_multiples_vanish(c.z as int, 16);
    assert(min_corner(c).x == c.x * 16);
    assert(min_corner(c).y == c.y * 16);
    assert(min_corner(c).z == c.z * 16);
}

} // verus!
