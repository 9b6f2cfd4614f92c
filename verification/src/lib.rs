//! Bounded log rewriting and poll-based change detection for a single file.

pub mod env;
pub mod polling;
pub mod rotation;
pub mod text;
pub mod watch;

pub use env::get_env_var;
pub use rotation::log_line;
pub use watch::file_watch;
