//! Planning and bookkeeping logic of the uv-ffi engine: command-line
//! parsing for the in-process `pip install` fast path, the choice between
//! the fast path and the full CLI, the install plan handed to uv, the
//! changelog summaries returned to Python and C callers, and the edits
//! applied to the in-memory site-packages cache.

pub mod text;
pub mod profile;
pub mod command;
pub mod dispatch;
pub mod install;
pub mod changelog;
pub mod site_packages;
