//! A live-reloadable, multi-locale key-value store for localization strings.
//!
//! Documents are flattened into dot-joined keys; each locale's table is shared
//! behind a reader/writer lock so that live views observe in-place reloads.
pub mod document;
pub mod error;
pub mod global;
pub mod locale;
pub mod provider;
pub mod registry;
pub mod shared;
pub mod structure;
pub mod table;
pub mod view;

pub use error::{Error, I18nError};
pub use provider::{FileProvider, StaticFileProvider, WatchProvider};
pub use registry::{Holder, InternationalCore};
pub use structure::{FileStructure, Providers};
pub use table::FlatTable;
pub use view::{Data, GetData, UnWatchData};
