//! Editing of a Python project manifest that keeps its layout, and a compact
//! identifier for Git objects.

pub mod layout;
pub mod list;
pub mod name;
pub mod requirement;
pub mod schema;
pub mod sha;
pub mod text;
pub mod tree;
pub mod workspace;

pub use sha::{GitOid, GitSha, OidParseError};
pub use workspace::{Workspace, WorkspaceError};
