//! A remote object store presented as a filesystem: the inode registry, the
//! attribute projection and the per-operation decisions of the dispatcher.
pub mod attrs;
pub mod data;
pub mod dispatch;
pub mod path;
pub mod registry;
pub mod remote;

pub use attrs::{Attrs, FileKind, Owner, Timestamp};
pub use dispatch::{DirItem, FsError, Lookup, RemoteFS};
pub use registry::{INode, Registry, ROOT_INO};
pub use remote::{DirEntry, FileEntry, FileInfo, RemoteError};
