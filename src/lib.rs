//! A monorepo-aware task runner: task references and their resolution, the
//! configuration model, the plan builder that expands tasks into shell commands, and
//! the decisions of fetching and installing declared tools.
use vstd::prelude::*;

mod cli;
mod config;
mod context;
mod env;
mod names;
mod tools;
mod vec_map;

pub use cli::{Action, Args};
pub use config::{
    Package, Run, RunFieldError, RunFieldErrorView, RunKey, RunTable, RunTableView, RunValue,
    RunView, Task, TaskView, Tasks,
};
pub use context::{
    Context, ContextError, ContextView, PackageView, Plan, PlanEntry, PlanEntryView, PlanError,
    PlanErrorView, PlanView,
};
pub use env::{locate, merge_env, Location, Marker};
pub use names::{AbsoluteTaskName, AbsoluteTaskNameView, Never, TaskName, TaskNameView};
pub use tools::{
    archive_format, install_action, replace_all_exec, strip_outer, ArchiveFormat, DownloadJob,
    DownloadJobView, DownloadManager, DownloadOverride, DownloadOverrideInfo, DownloadProgress,
    DownloadProgressBar, Install, InstallAction, InstallError, SystemInfo, SystemInfoView, Tool,
};
pub use vec_map::VecMap;
