//! Classifies targets, loads markdown files, and splits them into frontmatter
//! and prose with content hashes.
pub mod errors;
pub mod hasher;
pub mod markdown;
pub mod fingerprint;
pub mod frontmatter;
pub mod prose;
pub mod file;
pub mod dispatch;
