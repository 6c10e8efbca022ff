pub mod coords;
pub mod coord_map;
pub mod voxel;
pub mod store;
pub mod chunk_map;
pub mod laws;

pub use chunk_map::{ChunkEntityMap, ChunkMapReader, ChunkMapWriter};
pub use coord_map::CoordMap;
pub use coords::{Point3i, CHUNK_EDGE, CHUNK_VOLUME};
pub use store::ChunkStore;
pub use voxel::{ChunkArray, ChunkUpdateEvent, Entity, Voxel};
