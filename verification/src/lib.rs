//! Reader and writer for BNL bundled-asset archives: a compressed container
//! whose records locate one another purely through byte offsets, plus a
//! virtual-addressing layer that presents physically disjoint byte ranges as
//! one contiguous resource, and a typed-asset layer on top.

pub mod asset;
pub mod bnl;
pub mod bytes;
pub mod d3d;
mod compress;
pub mod laws;
pub mod modding;
pub mod resource;
pub mod utils;
pub mod views;
pub mod xsb;

pub use bytes::{le16, le32, u16_le_bytes, u32_le_bytes};
pub use bnl::{BNLError, BNLFile, BNLHeader, RawAsset};
pub use resource::{VirtualResource, VirtualResourceError};
pub use views::{DataView, DataViewList};
