//! Staged, re-runnable building of source packages for one CPU
//! micro-architecture tier: the decisions of the pipeline, proved.

pub mod arch;
pub mod builder;
pub mod coordinator;
pub mod error;
pub mod names;
pub mod pkg;
pub mod pool;
pub mod repo;
pub mod stage;
pub mod text;
pub mod version;

pub use crate::arch::{highest_supported, parse_cpu_features, Arch};
pub use crate::error::{check_exit, BuildError};
pub use crate::pkg::{check_packages, source_values, source_versions, starts_with, Pkg};
pub use crate::text::{chars_of, decimal_string, lines_of};
pub use crate::stage::{
    plan_stage, stage_state, Outcome, StageAction, StageDirs, StageEnd, StagePlan, StagePolicy,
    StageRun, StageState, Work,
};
pub use crate::version::VersionPick;
pub use crate::names::{
    build_stage_name, chroot_name, dsc_file_name, partial_name, pinned, scratch_name,
    source_stage_name, synthetic_version,
};
pub use crate::builder::{
    binary_packages, build_args, build_config, build_work, is_binary_package, is_primary, join,
};
pub use crate::coordinator::{failed, successful_artifacts, ArchOutcome, Artifact};
pub use crate::pool::{contains_name, plan_links};
pub use crate::repo::{is_requested, release_text, repo_url, source_line};
