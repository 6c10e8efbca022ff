use vstd::prelude::*;
use crate::chunk_map::{entity_of, mark_result, write_result};
use crate::coords::{chunk_of, lemma_local_index_bounds, lemma_local_index_injective, local_index, Point3i, CHUNK_VOLUME};
use crate::store::{chunk_or_default, voxel_at};
use crate::voxel::{default_chunk, ChunkUpdateEvent, Entity, Voxel};

verus! {

/// Every chunk of a store view holds a full chunk of voxels.
pub open spec fn full_chunks(data: Map<Point3i, Seq<Voxel>>) -> bool {
    forall|c: Point3i| #[trigger] data.dom().contains(c) ==> data[c].len() == CHUNK_VOLUME
}

/// Right after an entity is inserted for chunk `c`, the chunk exists and its
/// entity is the one inserted.
pub proof fn law_insert_then_lookup(entities: Map<Point3i, Entity>, c: Point3i, h: Entity)
    ensures
        entities.insert(c, h).dom().contains(c),
        entity_of(entities.insert(c, h), c) == Some(h),
{
}

/// A written voxel reads back as the value written.
pub proof fn law_write_then_read(data: Map<Point3i, Seq<Voxel>>, v: Point3i, x: Voxel)
    requires
        full_chunks(data),
    ensures
        voxel_at(write_result(data, v, x), v) == x,
        full_chunks(write_result(data, v, x)),
{
    lemma_local_index_bounds(v);
    let c = chunk_of(v);
    assert(chunk_or_default(data, c).len() == CHUNK_VOLUME);
    let r = write_result(data, v, x);
    assert forall|d: Point3i| #[trigger] r.dom().contains(d) implies r[d].len() == CHUNK_VOLUME by {
        if d != c {
            assert(data.dom().contains(d));
        }
    }
}

/// A write changes no other voxel: neither in another chunk nor in its own.
pub proof fn law_write_isolated(data: Map<Point3i, Seq<Voxel>>, v: Point3i, x: Voxel, w: Point3i)
    requires
        full_chunks(data),
        w != v,
    ensures
        voxel_at(write_result(data, v, x), w) == voxel_at(data, w),
{
    lemma_local_index_bounds(w);
    if chunk_of(w) == chunk_of(v) {
        if local_index(w) == local_index(v) {
            lemma_local_index_injective(v, w);
        }
        let c = chunk_of(v);
        if !data.dom().contains(c) {
            assert(default_chunk()[local_index(w)] == voxel_at(data, w));
        }
    }
}

/// A write leaves every other chunk as it was: present or absent, with the
/// same voxels.
pub proof fn law_write_other_chunks(data: Map<Point3i, Seq<Voxel>>, v: Point3i, x: Voxel, c: Point3i)
    requires
        c != chunk_of(v),
    ensures
        write_result(data, v, x).dom().contains(c) == data.dom().contains(c),
        data.dom().contains(c) ==> write_result(data, v, x)[c] == data[c],
{
}

/// Writing the same voxel twice leaves the store as writing it once.
pub proof fn law_write_idempotent(data: Map<Point3i, Seq<Voxel>>, v: Point3i, x: Voxel)
    requires
        full_chunks(data),
    ensures
        write_result(write_result(data, v, x), v, x) == write_result(data, v, x),
{
    lemma_local_index_bounds(v);
    let once = write_result(data, v, x);
    let c = chunk_of(v);
    assert(chunk_or_default(data, c).len() == CHUNK_VOLUME);
    assert(chunk_or_default(once, c) == once[c]);
    assert(once[c].update(local_index(v), x) =~= once[c]);
    assert(write_result(once, v, x) =~= once);
}

/// Marking a voxel's chunk updated emits exactly one event, carrying the
/// chunk's entity, where an entity is registered for it, and none otherwise.
pub proof fn law_mark_emits_once(
    events: Seq<ChunkUpdateEvent>,
    entities: Map<Point3i, Entity>,
    v: Point3i,
)
    ensures
        entities.dom().contains(chunk_of(v)) ==> mark_result(events, entities, v) == events.push(
            ChunkUpdateEvent(entities[chunk_of(v)]),
        ),
        !entities.dom().contains(chunk_of(v)) ==> mark_result(events, entities, v) == events,
        mark_result(events, entities, v).len() == events.len() + if entities.dom().contains(
            chunk_of(v),
        ) {
            1int
        } else {
            0int
        },
{
}

/// Two notifying writes into one registered chunk emit two events; nothing is
/// merged on the way out.
pub proof fn law_two_notified_writes(
    events: Seq<ChunkUpdateEvent>,
    entities: Map<Point3i, Entity>,
    v1: Point3i,
    v2: Point3i,
)
    requires
        chunk_of(v1) == chunk_of(v2),
        entities.dom().contains(chunk_of(v1)),
    ensures
        mark_result(mark_result(events, entities, v1), entities, v2).len() >= events.len() + 2,
{
}

} // verus!
