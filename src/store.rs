use vstd::prelude::*;
use crate::coord_map::CoordMap;
use crate::coords::{chunk_of, lemma_local_index_bounds, local_index, Point3i, CHUNK_EDGE, CHUNK_VOLUME};
use crate::voxel::{default_chunk, default_voxel, lemma_chunk_len, ChunkArray, Voxel};

verus! {

/// The voxels of each stored chunk.
pub open spec fn chunk_seqs(m: Map<Point3i, ChunkArray>) -> Map<Point3i, Seq<Voxel>> {
    Map::new(|c: Point3i| m.dom().contains(c), |c: Point3i| m[c]@)
}

/// What a chunk holds before a write: its stored voxels, or defaults.
pub open spec fn chunk_or_default(m: Map<Point3i, Seq<Voxel>>, c: Point3i) -> Seq<Voxel> {
    if m.dom().contains(c) {
        m[c]
    } else {
        default_chunk()
    }
}

/// The voxel at `v`: the stored one, or the default where its chunk is absent.
pub open spec fn voxel_at(m: Map<Point3i, Seq<Voxel>>, v: Point3i) -> Voxel {
    if m.dom().contains(chunk_of(v)) {
        m[chunk_of(v)][local_index(v)]
    } else {
        default_voxel()
    }
}

/// The chunk holding `v` and the position of `v` in that chunk's array.
pub fn locate(v: &Point3i) -> (r: (Point3i, usize))
    ensures
        r.0 == chunk_of(*v),
        r.1 as int == local_index(*v),
        r.1 < CHUNK_VOLUME,
{
    proof { lemma_local_index_bounds(*v); }
    let (c, (u, w, t)) = v.local_of();
    let i: usize = u as usize + (CHUNK_EDGE as usize) * (w as usize)
        + (CHUNK_EDGE as usize) * (CHUNK_EDGE as usize) * (t as usize);
    (c, i)
}

/// Sparse storage of chunk arrays, keyed by chunk coordinate.
pub struct ChunkStore {
    chunks: CoordMap<ChunkArray>,
}

impl View for ChunkStore {
    type V = Map<Point3i, Seq<Voxel>>;

    closed spec fn view(&self) -> Map<Point3i, Seq<Voxel>> {
        chunk_seqs(self.chunks@)
    }
}

impl ChunkStore {
    pub closed spec fn wf(&self) -> bool {
        self.chunks.wf()
    }

    pub fn new() -> (r: ChunkStore)
        ensures
            r.wf(),
            r@ == Map::<Point3i, Seq<Voxel>>::empty(),
    {
        let r = ChunkStore { chunks: CoordMap::new() };
        assert(r@ =~= Map::<Point3i, Seq<Voxel>>::empty());
        r
    }

    pub fn get_chunk(&self, c: &Point3i) -> (r: Option<&ChunkArray>)
        requires
            self.wf(),
        ensures
            match r {
                Some(a) => self@.dom().contains(*c) && a@ == self@[*c],
                None => !self@.dom().contains(*c),
            },
    {
        self.chunks.get(c)
    }

    /// Every stored chunk holds `CHUNK_VOLUME` voxels.
    pub proof fn lemma_chunk_lens(&self)
        ensures
            forall|c: Point3i| #[trigger] self@.dom().contains(c) ==> self@[c].len() == CHUNK_VOLUME,
    {
        broadcast use lemma_chunk_len;
    }

    /// Mutable access to a stored chunk; an absent chunk is not created.
    pub fn get_chunk_mut(&mut self, c: &Point3i) -> (r: Option<&mut ChunkArray>)
        requires
            old(self).wf(),
        ensures
            final(self).wf(),
            match r {
                Some(a) => old(self)@.dom().contains(*c) && a@ == old(self)@[*c]
                    && final(self)@ == old(self)@.insert(*c, final(a)@),
                None => !old(self)@.dom().contains(*c) && final(self)@ == old(self)@,
            },
    {
        let r = self.chunks.get_mut(c);
        proof {
            assert(chunk_seqs(old(self).chunks@) =~= old(self)@);
        }
        r
    }

    /// Stores `a` as chunk `c`, returning the chunk it replaced.
    pub fn insert_chunk(&mut self, c: Point3i, a: ChunkArray) -> (r: Option<ChunkArray>)
        requires
            old(self).wf(),
        ensures
            final(self).wf(),
            final(self)@ == old(self)@.insert(c, a@),
            match r {
                Some(p) => old(self)@.dom().contains(c) && p@ == old(self)@[c],
                None => !old(self)@.dom().contains(c),
            },
    {
        let ghost a_view = a@;
        let r = self.chunks.insert(c, a);
        assert(self@ =~= old(self)@.insert(c, a_view));
        r
    }

    /// Takes chunk `c` out of the store.
    pub fn remove_chunk(&mut self, c: &Point3i) -> (r: Option<ChunkArray>)
        requires
            old(self).wf(),
        ensures
            final(self).wf(),
            final(self)@ == old(self)@.remove(*c),
            match r {
                Some(p) => old(self)@.dom().contains(*c) && p@ == old(self)@[*c],
                None => !old(self)@.dom().contains(*c),
            },
    {
        let r = self.chunks.remove(c);
        assert(self@ =~= old(self)@.remove(*c));
        r
    }

    /// The voxel at `v`, or the default voxel where its chunk is absent.
    pub fn get_voxel(&self, v: &Point3i) -> (r: Voxel)
        requires
            self.wf(),
        ensures
            r == voxel_at(self@, *v),
    {
        let (c, i) = locate(v);
        match self.chunks.get(&c) {
            Some(a) => a.get(i),
            None => Voxel::Air,
        }
    }

    /// Mutable access to the voxel at `v`; its chunk is created, full of
    /// default voxels, where it is absent.
    pub fn get_voxel_mut(&mut self, v: &Point3i) -> (r: &mut Voxel)
        requires
            old(self).wf(),
        ensures
            final(self).wf(),
            *r == voxel_at(old(self)@, *v),
            final(self)@ == old(self)@.insert(
                chunk_of(*v),
                chunk_or_default(old(self)@, chunk_of(*v)).update(local_index(*v), *final(r)),
            ),
    {
        let (c, i) = locate(v);
        if !self.chunks.contains_key(&c) {
            self.chunks.insert(c, ChunkArray::new());
        }
        let ghost mid = self@;
        assert(mid =~= old(self)@.insert(c, chunk_or_default(old(self)@, c)));
        let a = self.chunks.get_mut(&c).unwrap();
        let r = a.get_mut(i);
        r
    }
}

} // verus!
