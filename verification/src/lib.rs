//! Library behind a disk-usage scanner that reports how many bytes live under
//! each directory of a tree and which files are reclaimable build artifacts.
//!
//! The filesystem is modelled as an explicit value (see [`fs_tree`]): the
//! traversal engines, classifiers and aggregation logic are all verified
//! against that model, while the thin binary around this crate performs the
//! actual reads and hands the model in.

pub mod classify;
pub mod cli_helpers;
pub mod clean;
pub mod error;
pub mod fs_tree;
pub mod gitignore;
pub mod matcher;
pub mod single_threaded;
pub mod strutil;
pub mod types;
pub mod utils;
pub mod walk_parallel;

pub use classify::ArtifactType;
pub use classify::glob_exists;
pub use classify::is_artifact;
pub use classify::is_executable;
pub use classify::is_project_dir;
pub use classify::match_extension;
pub use clean::clean_project_dirs;
pub use cli_helpers::get_depth;
pub use cli_helpers::get_excludes;
pub use cli_helpers::get_num;
pub use cli_helpers::get_threads;
pub use cli_helpers::threshold;
pub use cli_helpers::threshold_recognized;
pub use error::Internal;
pub use error::check_regex;
pub use fs_tree::FsDir;
pub use fs_tree::FsEntry;
pub use fs_tree::FsFile;
pub use gitignore::darcs_contents_to_regex;
pub use gitignore::darcs_recognized;
pub use gitignore::file_contents_to_regex;
pub use gitignore::gitignore_recognized;
pub use matcher::PatternSet;
pub use matcher::UserRegex;
pub use single_threaded::read_all;
pub use single_threaded::read_all_fast;
pub use single_threaded::read_no_excludes;
pub use single_threaded::read_size;
pub use types::FileSize;
pub use types::FileTree;
pub use types::NamePair;
pub use utils::get_processors;
pub use utils::mk_ignores;
pub use utils::size;
pub use utils::worker_count;
pub use walk_parallel::Status;
pub use walk_parallel::Walk;
pub use walk_parallel::print_dir;
pub use walk_parallel::push_subdir;
