//! The virtual filesystem: paths, the results of file operations, and the
//! state of clients of attached files.

pub mod path;
pub mod result;
pub mod types;
pub mod internal_branch;
pub mod event_queue;
pub mod attachment;
pub mod special_files;
pub mod staticfs;
pub mod tree;
pub mod node;
pub mod descriptors;
pub mod trigger;
pub mod vfs;
