use vstd::prelude::*;
use crate::coords::CHUNK_VOLUME;

verus! {

/// The content of one voxel. `Air` is the default, empty voxel.
#[derive(Clone, Copy, Debug, PartialEq, Eq, Hash, Structural)]
pub enum Voxel {
    Air,
    Solid,
}

/// The default voxel that fills new chunks and unloaded regions.
pub open spec fn default_voxel() -> Voxel {
    Voxel::Air
}

impl Default for Voxel {
    fn default() -> (r: Voxel)
        ensures
            r == default_voxel(),
    {
        Voxel::Air
    }
}

/// An opaque handle, issued by the scene registry, for a chunk's entity.
#[derive(Clone, Copy, Debug, PartialEq, Eq, Hash, Structural)]
pub struct Entity {
    pub bits: u64,
}

impl Entity {
    pub fn from_bits(bits: u64) -> (r: Entity)
        ensures
            r.bits == bits,
    {
        Entity { bits }
    }

    pub fn to_bits(&self) -> (r: u64)
        ensures
            r == self.bits,
    {
        self.bits
    }
}

/// Notice that the chunk of the given entity has changed.
#[derive(Clone, Copy, Debug, PartialEq, Eq, Hash, Structural)]
pub struct ChunkUpdateEvent(pub Entity);

/// The dense voxel array of one chunk, `CHUNK_VOLUME` voxels, x fastest.
pub struct ChunkArray {
    voxels: [Voxel; CHUNK_VOLUME],
}

impl View for ChunkArray {
    type V = Seq<Voxel>;

    closed spec fn view(&self) -> Seq<Voxel> {
        self.voxels@
    }
}

/// A chunk's worth of default voxels.
pub open spec fn default_chunk() -> Seq<Voxel> {
    Seq::new(CHUNK_VOLUME as nat, |i: int| default_voxel())
}

/// Every chunk array holds exactly `CHUNK_VOLUME` voxels.
pub broadcast proof fn lemma_chunk_len(a: ChunkArray)
    ensures
        #[trigger] a@.len() == CHUNK_VOLUME,
{
    broadcast use vstd::array::group_array_axioms;
}

impl ChunkArray {
    /// A chunk filled with the default voxel.
    pub fn new() -> (r: ChunkArray)
        ensures
            r@ == default_chunk(),
    {
        broadcast use vstd::array::group_array_axioms;
        let r = ChunkArray { voxels: [Voxel::Air; CHUNK_VOLUME] };
        assert(r@ =~= default_chunk());
        r
    }

    pub fn get(&self, i: usize) -> (r: Voxel)
        requires
            i < CHUNK_VOLUME,
        ensures
            r == self@[i as int],
    {
        broadcast use vstd::array::group_array_axioms;
        self.voxels[i]
    }

    pub fn set(&mut self, i: usize, v: Voxel)
        requires
            i < CHUNK_VOLUME,
        ensures
            final(self)@ == old(self)@.update(i as int, v),
    {
        broadcast use vstd::array::group_array_axioms;
        self.voxels[i] = v;
    }

    pub fn get_mut(&mut self, i: usize) -> (r: &mut Voxel)
        requires
            i < CHUNK_VOLUME,
        ensures
            *r == old(self)@[i as int],
            final(self)@ == old(self)@.update(i as int, *final(r)),
    {
        broadcast use vstd::array::group_array_axioms;
        &mut self.voxels[i]
    }
}

} // verus!
