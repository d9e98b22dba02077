//! Media catalog and thumbnail cache: cache key derivation, thumbnail geometry
//! and encoding, the catalog state machine, the indexer's upsert pass, the
//! worker's transitions and the artifact resolver.

pub mod catalog;
pub mod codec;
pub mod indexer;
pub mod keys;
pub mod resolver;
pub mod worker;

pub use catalog::{Catalog, CatalogError, MediaFile, Status};
pub use codec::{render_thumbnail, thumbnail_size, CodecError, Thumbnail};
pub use indexer::{index_paths, is_media_path, media_type, MediaType, ScanSummary};
pub use keys::get_thumbnail_filename;
pub use resolver::{resolve_thumbnail, ThumbnailLookup};
pub use worker::{complete_job, next_idle_delay, FIRST_IDLE_DELAY_MS, MAX_IDLE_DELAY_MS};
