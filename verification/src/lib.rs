//! Generates a copy-pastable context dump from a source tree.
//!
//! The crate works over a snapshot of a directory tree, decides per entry
//! whether it is excluded by a categorized set of glob patterns, classifies
//! included files as text or binary, and renders either a delimited content
//! dump or a preview tree of what would be included and excluded.

pub mod catalog;
pub mod classify;
pub mod emit;
pub mod filter;
pub mod laws;
pub mod listing;
pub mod scanner;
pub mod strkit;
pub mod tree;

pub use catalog::ExclusionCategory;
pub use catalog::get_all_patterns;
pub use catalog::get_category_for_pattern;
pub use catalog::get_exclusion_categories;
pub use catalog::get_filtered_patterns;
pub use catalog::validate_category_ids;
pub use classify::is_text_content;
pub use emit::emit_file_block;
pub use filter::ExclusionReason;
pub use filter::Filter;
pub use filter::PatternError;
pub use listing::print_category_exclusions;
pub use listing::print_exclusions;
pub use listing::print_patterns_only;
pub use scanner::ScanEntry;
pub use scanner::ScanOutcome;
pub use scanner::ScanRoot;
pub use scanner::Scanner;
pub use tree::FileInfo;
pub use tree::print_dry_run_results;
