//! Lints the dependency declarations of a workspace's member packages
//! against the workspace's shared dependency table, and repairs the
//! redundant ones in place without disturbing the rest of each file.
pub mod document;
pub mod fix;
pub mod model;
pub mod package_id;
pub mod report;
pub mod rules;
pub mod unused;
