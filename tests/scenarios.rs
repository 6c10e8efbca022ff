use vx_core::{ChunkMapWriter, ChunkUpdateEvent, Entity, Point3i, Voxel};

fn p(x: i32, y: i32, z: i32) -> Point3i {
    Point3i::new(x, y, z)
}

fn registered_origin() -> (ChunkMapWriter, Entity) {
    let mut w = ChunkMapWriter::new();
    let e1 = Entity::from_bits(1);
    assert_eq!(w.chunk_entities.insert(p(0, 0, 0), e1), None);
    (w, e1)
}

#[test]
fn empty_read() {
    let w = ChunkMapWriter::new();
    assert!(w.reader().get_chunk_data(p(0, 0, 0)).is_none());
}

#[test]
fn register_and_read() {
    let (w, e1) = registered_origin();
    let r = w.reader();
    assert_eq!(r.get_entity(p(0, 0, 0)), Some(e1));
    assert!(r.chunk_exists(p(0, 0, 0)));
    assert!(!r.chunk_exists(p(1, 0, 0)));
}

#[test]
fn write_without_notify() {
    let (mut w, _) = registered_origin();
    w.write_voxel(p(3, 3, 3), Voxel::Solid, false);
    assert_eq!(w.get_voxel(p(3, 3, 3)), Voxel::Solid);
    assert_eq!(w.get_voxel(p(4, 3, 3)), Voxel::default());
    assert!(w.chunk_updates.is_empty());
}

#[test]
fn write_with_notify() {
    let (mut w, e1) = registered_origin();
    w.write_voxel(p(3, 3, 3), Voxel::Solid, true);
    assert_eq!(w.chunk_updates, vec![ChunkUpdateEvent(e1)]);
}

#[test]
fn write_into_unregistered_chunk() {
    let mut w = ChunkMapWriter::new();
    assert!(!w.reader().chunk_exists(p(2, 0, 0)));
    w.write_voxel(p(33, 0, 0), Voxel::Solid, true);
    assert_eq!(w.get_voxel(p(33, 0, 0)), Voxel::Solid);
    assert!(w.reader().get_chunk_data(p(2, 0, 0)).is_some());
    assert!(w.chunk_updates.is_empty());
}

#[test]
fn cross_chunk_isolation() {
    let mut w = ChunkMapWriter::new();
    w.write_voxel(p(15, 0, 0), Voxel::Solid, false);
    w.write_voxel(p(16, 0, 0), Voxel::Air, false);
    assert_eq!(w.get_voxel(p(15, 0, 0)), Voxel::Solid);
    assert_eq!(w.get_voxel(p(16, 0, 0)), Voxel::Air);
    let r = w.reader();
    let a0 = r.get_chunk_data(p(0, 0, 0)).unwrap();
    let a1 = r.get_chunk_data(p(1, 0, 0)).unwrap();
    assert_eq!(a0.get(15), Voxel::Solid);
    assert_eq!(a1.get(0), Voxel::Air);
    assert_eq!(a1.get(15), Voxel::Air);
}
