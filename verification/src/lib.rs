use vstd::prelude::*;

pub mod text;
pub mod media_query;
pub mod models;
pub mod sql;
pub mod directory_tree;
pub mod format_type;
pub mod format;
pub mod exif;
pub mod scan_config;
pub mod ipc;
pub mod media_operations;
pub mod env;
pub mod stream;
pub mod export;

verus! {
} // verus!
