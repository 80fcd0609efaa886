//! Options under which a workspace index store is opened.
use vstd::prelude::*;

use crate::common::EmbeddingMetric;

verus! {

/// The embedding layout a writable store keeps.
#[derive(Debug, PartialEq, Eq)]
pub struct WorkspaceIndexEmbeddingSchema {
    pub provider: String,
    pub model: String,
    pub dimension: usize,
    pub metric: EmbeddingMetric,
}

/// How a store is opened: read-only, or writable with its embedding layout; either way at
/// one storage path.
#[derive(Debug, PartialEq, Eq)]
pub enum WorkspaceIndexStorageOptions {
    ReadOnly { storage_path: String },
    ReadWrite { storage_path: String, embedding: WorkspaceIndexEmbeddingSchema },
}

impl WorkspaceIndexStorageOptions {
    /// The storage path, whatever the mode.
    pub fn storage_path(&self) -> (p: &str)
        ensures
            p@ == match self {
                WorkspaceIndexStorageOptions::ReadOnly { storage_path } => storage_path@,
                WorkspaceIndexStorageOptions::ReadWrite { storage_path, .. } => storage_path@,
            },
    {
        match self {
            WorkspaceIndexStorageOptions::ReadOnly { storage_path } => storage_path.as_str(),
            WorkspaceIndexStorageOptions::ReadWrite { storage_path, .. } => storage_path.as_str(),
        }
    }

    /// Whether the store is opened read-only.
    pub fn is_read_only(&self) -> (r: bool)
        ensures
            r == (self is ReadOnly),
    {
        match self {
            WorkspaceIndexStorageOptions::ReadOnly { .. } => true,
            _ => false,
        }
    }
}

} // verus!
