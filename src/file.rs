use vstd::prelude::*;

use crate::errors::IoError;
use crate::hasher::{hash, xxh3_of};

verus! {

/// A point in time: whole seconds since the Unix epoch (negative before it)
/// and the nanoseconds past that second.
#[derive(Debug, Clone, Copy, PartialEq, Eq, Structural)]
pub struct Timestamp {
    pub secs: i64,
    pub nanos: u32,
}

/// What a filesystem stat reports of an existing path.
#[derive(Debug, Clone, Copy, PartialEq, Eq, Structural)]
pub struct PathStat {
    pub is_file: bool,
    pub is_symlink: bool,
    pub modified: Option<Timestamp>,
    pub created: Option<Timestamp>,
}

/// The metadata of a regular file.
#[derive(Debug)]
pub struct FileMeta {
    pub filename: String,
    /// whether or not the file is a symlink reference to a file
    pub is_symlink: bool,
    /// the last modified time of the file, where the OS provides it
    pub modified: Option<Timestamp>,
    /// the created time of the file, where the OS provides it
    pub created: Option<Timestamp>,
}

/// A file's metadata together with its text and the digest of that text.
#[derive(Debug)]
pub struct FileWithMeta {
    pub meta: FileMeta,
    pub content: String,
    pub hash: u64,
}

impl FileWithMeta {
    /// The digest is that of the content captured.
    pub open spec fn wf(&self) -> bool {
        self.hash == xxh3_of(self.content@)
    }
}

impl FileMeta {
    /// The metadata of `path` from the result of stat'ing it: `None` when the
    /// stat failed. A path that cannot be stat'ed does not exist; one that is
    /// not a regular file is refused.
    pub fn from_stat(path: &str, stat: Option<PathStat>) -> (r: Result<FileMeta, IoError>)
        ensures
            match stat {
                None => r matches Err(IoError::FileDoesNotExist(p)) && p@ == path@,
                Some(st) => if st.is_file {
                    &&& r is Ok
                    &&& r->Ok_0.filename@ == path@
                    &&& r->Ok_0.is_symlink == st.is_symlink
                    &&& r->Ok_0.modified == st.modified
                    &&& r->Ok_0.created == st.created
                } else {
                    r matches Err(IoError::PathExistsButNotFile(p)) && p@ == path@
                },
            },
    {
        match stat {
            None => Err(IoError::FileDoesNotExist(String::from_str(path))),
            Some(st) => if st.is_file {
                Ok(
                    FileMeta {
                        filename: String::from_str(path),
                        is_symlink: st.is_symlink,
                        modified: st.modified,
                        created: st.created,
                    },
                )
            } else {
                Err(IoError::PathExistsButNotFile(String::from_str(path)))
            },
        }
    }

    /// Upgrades the metadata to a `FileWithMeta` from the file's text as read:
    /// `None` when it could not be read as UTF-8 text.
    pub fn load_content(self, content: Option<String>) -> (r: Result<FileWithMeta, IoError>)
        ensures
            match content {
                None => r == Err::<FileWithMeta, IoError>(IoError::PathExistsButNotFile(self.filename)),
                Some(c) => r is Ok && r->Ok_0.meta == self && r->Ok_0.content == c && r->Ok_0.wf(),
            },
    {
        match content {
            None => Err(IoError::PathExistsButNotFile(self.filename)),
            Some(c) => {
                let h = hash(c.as_str());
                Ok(FileWithMeta { meta: self, content: c, hash: h })
            },
        }
    }
}

} // verus!
