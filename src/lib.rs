//! Batch archiving of the immediate subdirectories of a directory, one tar
//! file per subdirectory, with optional removal of each archived source and a
//! dry-run mode.
//!
//! The library holds the decisions: which target directory a run uses, which
//! entries of a listing become archives and under which names, what the
//! removal supervisor does after each attempt, and the order of the
//! archive-then-remove pipeline. The program around it performs the
//! filesystem work and feeds the outcomes back.

mod config;
mod pipeline;
mod removal;
mod scanner;

pub use config::{target_dir_finder, StartupError};
pub use pipeline::{
    lemma_dry_run_never_mutates, lemma_next_wf, lemma_remove_only_after_archive, mutates,
    run_actions, tarball_path, Action, Event, Progress, RunConfig, Stage, Tarballer,
};
pub use removal::{remove_dir_step, PromptReason, RemovalStep, RemoveOutcome};
pub use scanner::{
    archive_name, archive_name_of, archive_names_distinct, directory_count, directory_keys,
    lemma_scan_one_key_per_directory, lemma_scan_order_independent, lists_map, names_distinct,
    pathfinder, scan_map, tar_suffix, Candidate, ListedEntry,
};
