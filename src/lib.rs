//! Concurrent recursive copy of a directory tree: the work queue shared by
//! the copying workers, the walk that fills it, and the mapping of each
//! source file onto its place in the destination tree.

pub mod cli;
pub mod path_map;
pub mod queue;
pub mod task;
pub mod walk;

pub use cli::{Cli, DEFAULT_WORKERS, FILES_PER_QUEUE};
pub use path_map::{child_relative, get_file_mover_obj, get_top_level_dir};
pub use queue::{drain_front, QueueOp, SafeQueue};
pub use task::FileMover;
pub use walk::{child_name, plan_copy, walk_directory, CopyPlan, SourceNode};
