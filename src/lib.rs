//! Batch file renaming: the naming rules, the planning of target paths, the
//! conflict policy and the step machine that drives a batch with rollback.
pub mod batch;
pub mod bytes;
pub mod config;
pub mod helper;
pub mod path;
pub mod rename;
pub mod ui;

pub use batch::{
    parse_choice, Action, BatchError, BatchRun, ConflictChoice, ConflictDecision, Event, ExecError,
    Failure, ResolveError, Stage, ANSWER_LIMIT,
};
pub use config::{is_set_file, Config, ReplaceSet, ReplaceSetData, UsedReason};
pub use helper::{into_none_if, read_input_loop};
pub use rename::{parse_replace, ArgError, ConfigError, OnConflict, PlanError, Rename, RenameOut};
pub use ui::{FileItem, FileList, FileMessage, ReplaceItem, ReplaceMessage, SetUiMessage};
