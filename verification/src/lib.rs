//! A virtual file system addressed by uris.
//!
//! The library holds the rules of the file system as verified code: uris and
//! their text form, typed errors, an in-memory provider, and the decision
//! machines behind the asynchronous parts (bulk operations of the engine,
//! file operations of the local provider, event batching, the `vfs://`
//! protocol).  A machine never performs a request itself: it names the next
//! request and is handed the reply.
pub mod bulk_laws;
pub mod chunks;
pub mod copy;
pub mod copy_laws;
pub mod copy_one;
pub mod copy_one_laws;
pub mod copy_tree_laws;
pub mod engine;
pub mod engine_laws;
pub mod error;
pub mod event_laws;
pub mod events;
pub mod ids;
pub mod ipc;
pub mod ipc_laws;
pub mod local;
pub mod local_copy;
pub mod local_files;
pub mod local_laws;
pub mod local_list;
pub mod local_write;
pub mod mem;
pub mod mem_call_laws;
pub mod mem_laws;
pub mod mime;
pub mod moves;
pub mod ops;
pub mod paths;
pub mod percent;
pub mod provider;
pub mod request;
pub mod session_laws;
pub mod text;
pub mod tree;
pub mod types;
pub mod uri;
pub mod uri_call_laws;
pub mod uri_laws;
pub mod value_laws;
pub mod walk;
pub mod watch;

pub use engine::VfsEngine;
pub use error::VfsError;
pub use types::{
    CopyOpts, DeleteOpts, DirEntry, FileType, FsEvent, FsEventKind, ListOpts, OpProgress,
    PerSourceResult, ProviderCaps, Stat, WriteOpts,
};
pub use uri::VfsUri;
pub use watch::WatchHandle;
