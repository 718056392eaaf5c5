//! Query filtering, terminal rendering, error messages and a process
//! output cache for a monorepo task runner, with their contracts.

pub mod text;
pub mod style;
pub mod errors;
pub mod terminal;
pub mod projects;
pub mod process_cache;
