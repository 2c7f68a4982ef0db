//! A configurable file-search engine: an immutable search configuration is
//! assembled through chained builder calls, compiled into a name matcher, and
//! executed as one concurrent traversal whose matches stream to the caller,
//! optionally capped by a result limit and re-ranked by textual similarity.

mod filter;
mod search;
mod utils;

pub use filter::CustomFilter;
pub use filter::CustomFilterHandle;
pub use filter::EntryMeta;
pub use filter::FileSize;
pub use filter::FilterType;
pub use filter::filter_passes_spec;
pub use filter::filters_pass;
pub use ignore::DirEntry;
pub use search::Search;
pub use search::SearchBuilder;
pub use search::SearchError;
pub use utils::file_name_from_path;
pub use utils::replace_tilde_with_home_dir;
pub use utils::similarity_sort;
