//! Upward search for a compose file, and the command line that hands the
//! files it finds to the orchestration tool.
//!
//! The search itself never touches the filesystem: it is a step machine
//! ([`Search`]) that names the next directory to list and takes the listing
//! back. Its decisions are proved against [`locate`], a model of the whole
//! walk over a filesystem given as a map from directory paths to listings.

mod command;
mod depth;
mod model;
mod laws;
mod names;
mod scan;
mod search;

pub use depth::SearchDepth;
pub use model::{
    ancestor, direct_match, first_recognized, first_recognized_from, hit_between, listing_of, locate,
    nested, passes, recurse_dir, scan_dir, scan_from, walk, walk_above, FsModel, PathModel,
};
pub use scan::{lemma_hit_unique, lemma_scan_descend, lemma_scan_hit, lemma_scan_stop};
pub use search::{
    lemma_advance_keeps_outcome, lemma_start_outcome, step_outcome, Search, SearchModel, Step,
    StepModel,
};
pub use names::{base_filenames, first_match, holds, override_filenames, recurse_dir_name};
pub use laws::{
    lemma_limited_stays_near, lemma_nested_match, lemma_no_match_absent, lemma_search_finds_located,
    lemma_single_match_found, lemma_unlimited_reaches, run,
};
pub use command::{
    command_args, command_line, components_text, exit_code, path_text, render_path, ComposeError,
};
