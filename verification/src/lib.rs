//! rdmalib: share memory regions between machines over RDMA.
//!
//! The low-level RDMA commands live in [`rdma`]; the high-level parts
//! are built on them. Client side (accessing remote regions):
//! [`RemoteMemoryProvider`]; server side (offering local regions to
//! remote readers): [`SharedMemoryRegionProvider`]. Regions are shared
//! as raw bytes or, without copying, as vectors of any [`RemoteSafe`]
//! type: types whose every bit pattern is valid, since remote machines
//! write arbitrary bytes into them. The two sides exchange metadata
//! over a TCP connection, see [`meta`].
//!
//! The library decides and checks; it makes no call into the network or
//! the device itself. What is to be called next, and what came of it,
//! passes between the library and its caller as plain values.

pub mod error;
pub mod meta;
pub mod pod;
pub mod rdma;
pub mod regions;
pub mod readers;
pub mod providers;
pub mod sessions;
pub mod shared;
pub mod cache;
pub mod wire;
pub mod text;

// What holds of the library as a whole.
pub mod access_laws;
pub mod error_laws;
pub mod exchange_laws;
pub mod input_laws;
pub mod meta_laws;
pub mod provider_laws;
pub mod reader_laws;
pub mod region_laws;
pub mod service_laws;
pub mod update_laws;
pub mod wire_laws;

pub use error::{Access, Error, ErrorKind};
pub use pod::RemoteSafe;
pub use providers::{
    SharedMemoryRegionHandle, SharedMemoryRegionMetadata, SharedMemoryRegionProvider,
    SharedMemoryRegionProviderAddr,
};
pub use readers::{
    RemoteMemoryProvider, RemoteMemoryProviderAddr, RemoteMemoryRegionMetadata,
};
pub use regions::RemoteMemoryRegion;
