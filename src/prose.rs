use vstd::prelude::*;

use crate::hasher::{hash, xxh3_of};

verus! {

/// The body of a markdown document, with the digest of its text.
#[derive(Debug)]
pub struct Prose {
    pub content: String,
    pub hash: u64,
}

impl Prose {
    /// The digest is that of the content.
    pub open spec fn wf(&self) -> bool {
        self.hash == xxh3_of(self.content@)
    }

    /// Prose holding a copy of `content` and its digest.
    pub fn new(content: &str) -> (r: Prose)
        ensures
            r.content@ == content@,
            r.wf(),
    {
        Prose { hash: hash(content), content: String::from_str(content) }
    }

    /// Prose that takes ownership of `content` and records its digest.
    pub fn from_string(content: String) -> (r: Prose)
        ensures
            r.content == content,
            r.wf(),
    {
        let h = hash(content.as_str());
        Prose { hash: h, content }
    }
}

} // verus!
