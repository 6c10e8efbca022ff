use vstd::prelude::*;
use crate::coord_map::CoordMap;
use crate::coords::{chunk_of, local_index, Point3i};
use crate::laws::{law_write_isolated, law_write_then_read};
use crate::store::{chunk_or_default, voxel_at, ChunkStore};
use crate::voxel::{ChunkArray, ChunkUpdateEvent, Entity, Voxel};

verus! {

/// The registry of chunk entities, keyed by chunk coordinate.
pub type ChunkEntityMap = CoordMap<Entity>;

/// What the registry answers for chunk `c`.
pub open spec fn entity_of(entities: Map<Point3i, Entity>, c: Point3i) -> Option<Entity> {
    if entities.dom().contains(c) {
        Some(entities[c])
    } else {
        None
    }
}

/// The voxel store after `x` is written at `v`: the chunk of `v` is created
/// where absent, and exactly the cell of `v` changes.
pub open spec fn write_result(
    data: Map<Point3i, Seq<Voxel>>,
    v: Point3i,
    x: Voxel,
) -> Map<Point3i, Seq<Voxel>> {
    data.insert(chunk_of(v), chunk_or_default(data, chunk_of(v)).update(local_index(v), x))
}

/// The emitted events after the chunk of `v` is marked updated: one more event
/// carrying the chunk's entity where it is registered, none otherwise.
pub open spec fn mark_result(
    events: Seq<ChunkUpdateEvent>,
    entities: Map<Point3i, Entity>,
    v: Point3i,
) -> Seq<ChunkUpdateEvent> {
    match entity_of(entities, chunk_of(v)) {
        Some(h) => events.push(ChunkUpdateEvent(h)),
        None => events,
    }
}

/// Read-only view of the registry and the voxel store.
pub struct ChunkMapReader<'a> {
    pub chunk_entities: &'a ChunkEntityMap,
    pub chunk_data: &'a ChunkStore,
}

impl<'a> ChunkMapReader<'a> {
    pub open spec fn wf(&self) -> bool {
        self.chunk_entities.wf() && self.chunk_data.wf()
    }

    /// A reader over a registry and a store.
    pub fn new(chunk_entities: &'a ChunkEntityMap, chunk_data: &'a ChunkStore) -> (r: Self)
        ensures
            r.chunk_entities == chunk_entities,
            r.chunk_data == chunk_data,
    {
        ChunkMapReader { chunk_entities, chunk_data }
    }

    /// Whether an entity is registered for chunk `chunk_coords`.
    pub fn chunk_exists(&self, chunk_coords: Point3i) -> (r: bool)
        requires
            self.wf(),
        ensures
            r == self.chunk_entities@.dom().contains(chunk_coords),
    {
        self.chunk_entities.contains_key(&chunk_coords)
    }

    /// The entity registered for chunk `chunk_coords`, copied out.
    pub fn get_entity(&self, chunk_coords: Point3i) -> (r: Option<Entity>)
        requires
            self.wf(),
        ensures
            r == entity_of(self.chunk_entities@, chunk_coords),
    {
        match self.chunk_entities.get(&chunk_coords) {
            Some(e) => Some(*e),
            None => None,
        }
    }

    /// The voxel array stored for chunk `chunk_coords`, if any.
    pub fn get_chunk_data(&self, chunk_coords: Point3i) -> (r: Option<&ChunkArray>)
        requires
            self.wf(),
        ensures
            match r {
                Some(a) => self.chunk_data@.dom().contains(chunk_coords)
                    && a@ == self.chunk_data@[chunk_coords],
                None => !self.chunk_data@.dom().contains(chunk_coords),
            },
    {
        self.chunk_data.get_chunk(&chunk_coords)
    }

    /// The voxel at voxel coordinate `v`; the default voxel in an absent chunk.
    pub fn get_voxel(&self, v: Point3i) -> (r: Voxel)
        requires
            self.wf(),
        ensures
            r == voxel_at(self.chunk_data@, v),
    {
        self.chunk_data.get_voxel(&v)
    }
}

/// Exclusive view of the registry and the voxel store, with the outbox of
/// chunk-update events that it emits.
pub struct ChunkMapWriter {
    pub chunk_entities: ChunkEntityMap,
    pub chunk_data: ChunkStore,
    pub chunk_updates: Vec<ChunkUpdateEvent>,
}

impl ChunkMapWriter {
    pub open spec fn wf(&self) -> bool {
        self.chunk_entities.wf() && self.chunk_data.wf()
    }

    /// An empty chunk map with no pending events.
    pub fn new() -> (r: Self)
        ensures
            r.wf(),
            r.chunk_entities@ == Map::<Point3i, Entity>::empty(),
            r.chunk_data@ == Map::<Point3i, Seq<Voxel>>::empty(),
            r.chunk_updates@ == Seq::<ChunkUpdateEvent>::empty(),
    {
        ChunkMapWriter {
            chunk_entities: CoordMap::new(),
            chunk_data: ChunkStore::new(),
            chunk_updates: Vec::new(),
        }
    }

    /// A read-only view of the same registry and store.
    pub fn reader(&self) -> (r: ChunkMapReader<'_>)
        ensures
            r.chunk_entities == &self.chunk_entities,
            r.chunk_data == &self.chunk_data,
    {
        ChunkMapReader { chunk_entities: &self.chunk_entities, chunk_data: &self.chunk_data }
    }

    /// Mutable access to an existing chunk's array; an absent chunk is not created.
    pub fn get_chunk_data_mut(&mut self, chunk_coords: Point3i) -> (r: Option<&mut ChunkArray>)
        requires
            old(self).wf(),
        ensures
            final(self).wf(),
            final(self).chunk_entities == old(self).chunk_entities,
            final(self).chunk_updates == old(self).chunk_updates,
            match r {
                Some(a) => old(self).chunk_data@.dom().contains(chunk_coords)
                    && a@ == old(self).chunk_data@[chunk_coords]
                    && final(self).chunk_data@ == old(self).chunk_data@.insert(chunk_coords, final(a)@),
                None => !old(self).chunk_data@.dom().contains(chunk_coords)
                    && final(self).chunk_data@ == old(self).chunk_data@,
            },
    {
        self.chunk_data.get_chunk_mut(&chunk_coords)
    }

    /// Emits one update event for the entity of the chunk holding voxel
    /// `chunk_coords`; does nothing where no entity is registered there.
    pub fn mark_updated(&mut self, chunk_coords: Point3i)
        requires
            old(self).wf(),
        ensures
            final(self).wf(),
            final(self).chunk_entities == old(self).chunk_entities,
            final(self).chunk_data == old(self).chunk_data,
            final(self).chunk_updates@ == mark_result(
                old(self).chunk_updates@,
                old(self).chunk_entities@,
                chunk_coords,
            ),
    {
        let c = chunk_coords.chunk_of();
        match self.chunk_entities.get(&c) {
            Some(entity) => {
                let event = ChunkUpdateEvent(*entity);
                self.chunk_updates.push(event);
            },
            None => {},
        }
    }

    /// Writes `voxel` at voxel coordinate `chunk_coords`, creating its chunk
    /// where absent, and marks the chunk updated when `update` is set.
    pub fn write_voxel(&mut self, chunk_coords: Point3i, voxel: Voxel, update: bool)
        requires
            old(self).wf(),
        ensures
            final(self).wf(),
            final(self).chunk_entities == old(self).chunk_entities,
            final(self).chunk_data@ == write_result(old(self).chunk_data@, chunk_coords, voxel),
            voxel_at(final(self).chunk_data@, chunk_coords) == voxel,
            forall|w: Point3i|
                w != chunk_coords ==> #[trigger] voxel_at(final(self).chunk_data@, w) == voxel_at(
                    old(self).chunk_data@,
                    w,
                ),
            final(self).chunk_updates@ == if update {
                mark_result(old(self).chunk_updates@, old(self).chunk_entities@, chunk_coords)
            } else {
                old(self).chunk_updates@
            },
    {
        proof {
            let d = self.chunk_data@;
            self.chunk_data.lemma_chunk_lens();
            law_write_then_read(d, chunk_coords, voxel);
            assert forall|w: Point3i| w != chunk_coords implies #[trigger] voxel_at(
                write_result(d, chunk_coords, voxel),
                w,
            ) == voxel_at(d, w) by {
                law_write_isolated(d, chunk_coords, voxel, w);
            }
        }
        *self.chunk_data.get_voxel_mut(&chunk_coords) = voxel;
        if update {
            self.mark_updated(chunk_coords);
        }
    }

    /// The voxel at voxel coordinate `v`; the default voxel in an absent chunk.
    pub fn get_voxel(&self, v: Point3i) -> (r: Voxel)
        requires
            self.wf(),
        ensures
            r == voxel_at(self.chunk_data@, v),
    {
        self.chunk_data.get_voxel(&v)
    }

    /// Hands the pending events to the caller and empties the outbox.
    pub fn take_updates(&mut self) -> (r: Vec<ChunkUpdateEvent>)
        requires
            old(self).wf(),
        ensures
            final(self).wf(),
            final(self).chunk_entities == old(self).chunk_entities,
            final(self).chunk_data == old(self).chunk_data,
            r@ == old(self).chunk_updates@,
            final(self).chunk_updates@ == Seq::<ChunkUpdateEvent>::empty(),
    {
        let mut out: Vec<ChunkUpdateEvent> = Vec::new();
        std::mem::swap(&mut out, &mut self.chunk_updates);
        out
    }
}

} // verus!
