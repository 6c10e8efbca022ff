use vx_core::{ChunkArray, ChunkMapWriter, ChunkUpdateEvent, CoordMap, Entity, Point3i, Voxel, CHUNK_VOLUME};

fn p(x: i32, y: i32, z: i32) -> Point3i {
    Point3i::new(x, y, z)
}

#[test]
fn insert_then_lookup() {
    let mut w = ChunkMapWriter::new();
    let c = p(-4, 7, 123);
    w.chunk_entities.insert(c, Entity::from_bits(9));
    assert!(w.reader().chunk_exists(c));
    assert_eq!(w.reader().get_entity(c), Some(Entity::from_bits(9)));
    assert_eq!(w.chunk_entities.insert(c, Entity::from_bits(10)), Some(Entity::from_bits(9)));
    assert_eq!(w.reader().get_entity(c), Some(Entity::from_bits(10)));
}

#[test]
fn write_then_read_negative_coordinates() {
    let mut w = ChunkMapWriter::new();
    w.write_voxel(p(-1, -17, -32), Voxel::Solid, false);
    assert_eq!(w.get_voxel(p(-1, -17, -32)), Voxel::Solid);
    assert!(w.reader().get_chunk_data(p(-1, -2, -2)).is_some());
    assert_eq!(w.get_voxel(p(0, -17, -32)), Voxel::Air);
}

#[test]
fn write_then_read_extreme_coordinates() {
    let mut w = ChunkMapWriter::new();
    w.write_voxel(p(i32::MIN, i32::MAX, 0), Voxel::Solid, false);
    assert_eq!(w.get_voxel(p(i32::MIN, i32::MAX, 0)), Voxel::Solid);
    assert!(w.reader().get_chunk_data(p(-134217728, 134217727, 0)).is_some());
}

#[test]
fn write_keeps_neighbor_chunks() {
    let mut w = ChunkMapWriter::new();
    w.write_voxel(p(16, 0, 0), Voxel::Solid, false);
    w.write_voxel(p(15, 0, 0), Voxel::Solid, false);
    w.write_voxel(p(15, 0, 0), Voxel::Air, false);
    assert_eq!(w.get_voxel(p(16, 0, 0)), Voxel::Solid);
    assert_eq!(w.get_voxel(p(17, 0, 0)), Voxel::Air);
}

#[test]
fn mark_updated_emits_iff_registered() {
    let mut w = ChunkMapWriter::new();
    w.chunk_entities.insert(p(1, 0, -1), Entity::from_bits(5));
    w.mark_updated(p(20, 3, -1));
    assert_eq!(w.chunk_updates, vec![ChunkUpdateEvent(Entity::from_bits(5))]);
    w.mark_updated(p(0, 0, 0));
    assert_eq!(w.chunk_updates.len(), 1);
    let taken = w.take_updates();
    assert_eq!(taken.len(), 1);
    assert!(w.chunk_updates.is_empty());
}

#[test]
fn min_corner_round_trip() {
    for v in [p(0, 0, 0), p(33, -1, -16), p(i32::MIN, i32::MAX, -17), p(15, 16, 17)] {
        let c = v.chunk_of();
        assert_eq!(c.min_corner().chunk_of(), c);
    }
    assert_eq!(p(33, -1, -16).chunk_of(), p(2, -1, -1));
    assert_eq!(p(2, -1, -1).min_corner(), p(32, -16, -16));
    assert_eq!(p(-17, 31, 0).local_of(), (p(-2, 1, 0), (15, 15, 0)));
}

#[test]
fn write_twice_same_as_once() {
    let mut once = ChunkMapWriter::new();
    once.write_voxel(p(5, 6, 7), Voxel::Solid, false);
    let mut twice = ChunkMapWriter::new();
    twice.write_voxel(p(5, 6, 7), Voxel::Solid, false);
    twice.write_voxel(p(5, 6, 7), Voxel::Solid, false);
    let once_reader = once.reader();
    let twice_reader = twice.reader();
    let a = once_reader.get_chunk_data(p(0, 0, 0)).unwrap();
    let b = twice_reader.get_chunk_data(p(0, 0, 0)).unwrap();
    for i in 0..CHUNK_VOLUME {
        assert_eq!(a.get(i), b.get(i));
    }
    assert_eq!(once.chunk_updates, twice.chunk_updates);
}

#[test]
fn two_notified_writes_emit_two_events() {
    let mut w = ChunkMapWriter::new();
    let e = Entity::from_bits(77);
    w.chunk_entities.insert(p(0, 0, 0), e);
    w.write_voxel(p(1, 2, 3), Voxel::Solid, true);
    w.write_voxel(p(1, 2, 3), Voxel::Solid, true);
    assert_eq!(w.chunk_updates, vec![ChunkUpdateEvent(e), ChunkUpdateEvent(e)]);
}

#[test]
fn chunk_data_mut_does_not_create() {
    let mut w = ChunkMapWriter::new();
    assert!(w.get_chunk_data_mut(p(0, 0, 0)).is_none());
    assert!(w.reader().get_chunk_data(p(0, 0, 0)).is_none());
    w.chunk_data.insert_chunk(p(0, 0, 0), ChunkArray::new());
    w.get_chunk_data_mut(p(0, 0, 0)).unwrap().set(17, Voxel::Solid);
    assert_eq!(w.get_voxel(p(1, 1, 0)), Voxel::Solid);
    assert!(w.chunk_data.remove_chunk(&p(0, 0, 0)).is_some());
    assert_eq!(w.get_voxel(p(1, 1, 0)), Voxel::Air);
}

#[test]
fn coord_map_insert_remove() {
    let mut m: CoordMap<u32> = CoordMap::new();
    assert_eq!(m.len(), 0);
    assert_eq!(m.insert(p(1, 2, 3), 7), None);
    assert_eq!(m.insert(p(3, 2, 1), 8), None);
    assert_eq!(m.insert(p(1, 2, 3), 9), Some(7));
    assert_eq!(m.len(), 2);
    assert_eq!(m.get(&p(1, 2, 3)), Some(&9));
    *m.get_mut(&p(3, 2, 1)).unwrap() = 11;
    assert_eq!(m.get(&p(3, 2, 1)), Some(&11));
    assert_eq!(m.remove(&p(1, 2, 3)), Some(9));
    assert_eq!(m.remove(&p(1, 2, 3)), None);
    assert!(!m.contains_key(&p(1, 2, 3)));
    assert_eq!(m.to_vec(), vec![(p(3, 2, 1), 11)]);
}

#[test]
fn store_voxel_mut_creates_chunk() {
    let mut s = vx_core::ChunkStore::new();
    assert!(s.get_chunk(&p(-1, 0, 0)).is_none());
    assert_eq!(s.get_voxel(&p(-5, 2, 9)), Voxel::Air);
    *s.get_voxel_mut(&p(-5, 2, 9)) = Voxel::Solid;
    assert!(s.get_chunk(&p(-1, 0, 0)).is_some());
    assert_eq!(s.get_voxel(&p(-5, 2, 9)), Voxel::Solid);
    assert_eq!(s.get_voxel(&p(-6, 2, 9)), Voxel::Air);
    assert_eq!(s.get_chunk(&p(-1, 0, 0)).unwrap().get(11 + 16 * 2 + 256 * 9), Voxel::Solid);
}

#[test]
fn default_voxel_is_air() {
    assert_eq!(Voxel::default(), Voxel::Air);
    assert_eq!(ChunkArray::new().get(CHUNK_VOLUME - 1), Voxel::Air);
}
