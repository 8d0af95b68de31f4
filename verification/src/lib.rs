//! A read-only filesystem view of the media attachments of a chat account:
//! one directory per conversation, one file per attachment.
//!
//! The crate holds the logic of that view: how identifiers are allotted, how a
//! media item becomes a named file, how a generation of the cache is built and
//! swapped in, and how the four filesystem queries are answered from it.
//! Network access and the kernel transport are left to the caller. Beside it
//! stands the logic of a small storage bot, which keeps what users send it
//! and hands it back on request.

pub mod attr;
pub mod bot;
pub mod cache;
pub mod fs;
pub mod ident;
pub mod media;
pub mod refresh;
pub mod text;

pub use bot::{handle_update, FileInfo, Storage};
pub use cache::{CachedFile, Folder, FolderCache};
pub use fs::{DirEntry, FsError, TelegramFS};
