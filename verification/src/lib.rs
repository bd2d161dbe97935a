//! Reads a voxel-world save in the Anvil region format and imports its
//! palette-compressed block data into the host engine's chunks.

pub mod bytes;
pub mod codec;
pub mod inflate;
pub mod nbt;
pub mod region;
pub mod stage;
