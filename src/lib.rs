//! A read-only, zero-copy reader for flattened devicetree blobs.
//!
//! Every view handed out borrows from the blob's bytes; no byte of the blob is copied.

pub mod blob;
pub mod bytes;
pub mod error;
pub mod names;
pub mod node;
pub mod props;
pub mod schema;
pub mod token;

pub use blob::{parse_device_tree, Dtb};
pub use error::ParseDeviceTreeError;
pub use node::Node;
pub use props::{CellTable, Reg, StrSeq};
pub use schema::{get_compatible, get_compatible_and_range, Cpu, Cpus, Device, Memory, NodeSeq, Pmu, Tree};
