use vstd::prelude::*;

verus! {

/// Failures while resolving a path or reading what it holds.
#[derive(Debug, PartialEq, Eq)]
pub enum IoError {
    /// The path could not be stat'ed.
    FileDoesNotExist(String),
    /// The path exists but is not a regular file, or its content is not UTF-8 text.
    PathExistsButNotFile(String),
    /// Binary content was requested; this is not supported.
    BinaryContentNotImplemented(String),
}

/// Failures while decoding a frontmatter block.
#[derive(Debug, PartialEq, Eq)]
pub enum MarkdownError {
    /// The block is not a key/value table, or a recognized key holds a value of the wrong type.
    FrontmatterDecodeError,
}

} // verus!
