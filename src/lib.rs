//! Media packs: a single seekable container of media assets and text content with an
//! embedded index, and the logic around it — the container's binary framing, the
//! resolution of a pack's configuration into tagged items, the layout and compaction of
//! asset bytes, the index with its tag-filtered random queries, the request side of the
//! background media worker, and a pack's timed transition through tag sets.

pub mod config;
pub mod format;
pub mod index;
pub mod layout;
pub mod manager;
pub mod packing;
pub mod patterns;
pub mod target;
pub mod transition;
pub mod types;
pub mod validate;

pub use config::{Config, MediaOpts, OneOrMore, PackOpts, Resolved};
pub use format::{Header, ReadError, HEADER_SIZE, MAGIC, VERSION};
pub use index::{Link, MediaEntry, Notification, PackIndex, Prompt, Tag, Tagged};
pub use layout::{compact, layout_offsets, MediaData, PackLayout};
pub use manager::{MediaManager, MediaRequest, Request, Response, Selection, UserEvent};
pub use packing::{build_index, PackedEntry};
pub use target::{Either, Empty, FullItem, Items, NotificationOpts, ResolvedTarget};
pub use types::{classify_ext, FileType, FromStrError, MediaCategory, MediaType};
