//! Client logic for an archive's item-metadata endpoint: the typed metadata
//! record, queries over its file list, and direct download URLs for its files.

pub mod metadata;
mod outside;
pub mod percent;

pub use metadata::{Metadata, MetadataData, MetadataError, MetadataFile};
