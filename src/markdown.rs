use vstd::prelude::*;
use vstd::string::StrSliceExecFns;

use crate::errors::MarkdownError;
use crate::file::{FileMeta, FileWithMeta};
use crate::frontmatter::{spec_decode, FmValue, Frontmatter, FrontmatterView};
use crate::hasher::xxh3_of;
use crate::prose::Prose;

verus! {

/// The text opens with the delimiter line `---`.
pub open spec fn opens_with_delimiter(s: Seq<char>) -> bool {
    s.len() >= 4 && s[0] == '-' && s[1] == '-' && s[2] == '-' && s[3] == '\n'
}

/// A frontmatter block closes at `j`: the text opens with `---` and a newline,
/// `j` is the first newline after it, and `---` follows that newline.
pub open spec fn closes_at(s: Seq<char>, j: int) -> bool {
    &&& opens_with_delimiter(s)
    &&& 4 <= j && j + 4 <= s.len()
    &&& s[j] == '\n'
    &&& forall|k: int| 4 <= k < j ==> s[k] != '\n'
    &&& s[j + 1] == '-' && s[j + 2] == '-' && s[j + 3] == '-'
}

/// The text begins with a delimited frontmatter block.
pub open spec fn spec_has_frontmatter(s: Seq<char>) -> bool {
    exists|j: int| closes_at(s, j)
}

/// The text with any leading frontmatter block removed: everything after the
/// closing delimiter, verbatim.
pub open spec fn spec_exclude_frontmatter(s: Seq<char>) -> Seq<char> {
    if spec_has_frontmatter(s) {
        let j = choose|j: int| closes_at(s, j);
        s.subrange(j + 4, s.len() as int)
    } else {
        s
    }
}

/// A block closes at no more than one place.
pub proof fn lemma_closing_unique(s: Seq<char>, i: int, j: int)
    requires
        closes_at(s, i),
        closes_at(s, j),
    ensures
        i == j,
{
    if i < j {
        assert(s[i] != '\n');
    } else if j < i {
        assert(s[j] != '\n');
    }
}

/// Where the leading frontmatter block closes, if there is one.
fn closing_index(content: &str) -> (r: Option<usize>)
    ensures
        match r {
            Some(j) => closes_at(content@, j as int),
            None => !spec_has_frontmatter(content@),
        },
{
    let n = content.unicode_len();
    if n < 4 || content.get_char(0) != '-' || content.get_char(1) != '-' || content.get_char(2)
        != '-' || content.get_char(3) != '\n' {
        return None;
    }
    let mut j: usize = 4;
    while j < n && content.get_char(j) != '\n'
        invariant
            4 <= j <= n,
            n == content@.len(),
            forall|k: int| 4 <= k < j ==> content@[k] != '\n',
        decreases n - j,
    {
        j = j + 1;
    }
    if j < n && 4 <= n - j && content.get_char(j + 1) == '-' && content.get_char(j + 2) == '-'
        && content.get_char(j + 3) == '-' {
        Some(j)
    } else {
        proof {
            assert forall|i: int| !closes_at(content@, i) by {
                if closes_at(content@, i) {
                    if i < j {
                        assert(content@[i] != '\n');
                    } else if j < i {
                        assert(content@[j as int] != '\n');
                    }
                }
            }
        }
        None
    }
}

/// Whether the raw text of a markdown file starts with a frontmatter block.
pub fn has_frontmatter(content: &str) -> (r: bool)
    ensures
        r == spec_has_frontmatter(content@),
{
    closing_index(content).is_some()
}

/// The raw text with its frontmatter block, if any, removed.
pub fn exclude_frontmatter(content: &str) -> (r: String)
    ensures
        r@ == spec_exclude_frontmatter(content@),
{
    match closing_index(content) {
        Some(j) => {
            proof {
                let c = choose|i: int| closes_at(content@, i);
                lemma_closing_unique(content@, c, j as int);
            }
            let n = content.unicode_len();
            let rest = content.substring_char(j + 4, n);
            String::from_str(rest)
        },
        None => String::from_str(content),
    }
}

/// Removing frontmatter leaves the text unchanged exactly when it has none.
pub proof fn lemma_exclude_identity_iff_absent(s: Seq<char>)
    ensures
        (spec_exclude_frontmatter(s) == s) <==> !spec_has_frontmatter(s),
{
    if spec_has_frontmatter(s) {
        let j = choose|j: int| closes_at(s, j);
        assert(spec_exclude_frontmatter(s).len() < s.len());
    }
}

/// What splitting `raw` gives when its frontmatter block decodes to `data`:
/// the prose is the text after the block, and the frontmatter is present
/// exactly when the block is.
pub open spec fn split_outcome(raw: Seq<char>, data: Option<FmValue>) -> Option<Option<FrontmatterView>> {
    if !spec_has_frontmatter(raw) {
        Some(None)
    } else {
        match data {
            Some(v) => match spec_decode(v) {
                Some(view) => Some(Some(view)),
                None => None,
            },
            None => None,
        }
    }
}

pub open spec fn split_matches(
    raw: Seq<char>,
    r: Result<(Prose, Option<Frontmatter>), MarkdownError>,
    expected: Option<Option<FrontmatterView>>,
) -> bool {
    match expected {
        Some(fm) => {
            &&& r is Ok
            &&& r->Ok_0.0.content@ == spec_exclude_frontmatter(raw)
            &&& r->Ok_0.0.wf()
            &&& match fm {
                Some(view) => r->Ok_0.1 is Some && r->Ok_0.1->Some_0@ == view && r->Ok_0.1->Some_0.wf(),
                None => r->Ok_0.1 is None,
            }
        },
        None => r == Err::<(Prose, Option<Frontmatter>), MarkdownError>(MarkdownError::FrontmatterDecodeError),
    }
}

/// Splits raw markdown into prose and frontmatter, given what the block at its
/// start decodes to (`data`; unused where there is no block).
pub fn split_parsed(raw: &str, data: Option<FmValue>) -> (r: Result<(Prose, Option<Frontmatter>), MarkdownError>)
    ensures
        split_matches(raw@, r, split_outcome(raw@, data)),
{
    let prose = Prose::from_string(exclude_frontmatter(raw));
    if has_frontmatter(raw) {
        match data {
            Some(v) => match Frontmatter::new(Some(v)) {
                Ok(fm) => Ok((prose, Some(fm))),
                Err(e) => Err(e),
            },
            None => Err(MarkdownError::FrontmatterDecodeError),
        }
    } else {
        Ok((prose, None))
    }
}

/// Splits the raw text of a markdown file into its prose and, where a block
/// opens it, its decoded frontmatter.
pub fn split_fm_from_prose(raw_content: &str) -> (r: Result<(Prose, Option<Frontmatter>), MarkdownError>)
    ensures
        !spec_has_frontmatter(raw_content@) ==> split_matches(raw_content@, r, Some(None)),
        spec_has_frontmatter(raw_content@) ==> (r matches Err(e) ==> e == MarkdownError::FrontmatterDecodeError),
        spec_has_frontmatter(raw_content@) ==> (r is Ok ==> exists|d: FmValue| split_matches(raw_content@, r, split_outcome(raw_content@, Some(d)))),
{
    if has_frontmatter(raw_content) {
        let data = crate::frontmatter::parse_matter(raw_content);
        let ghost d = data;
        let r = split_parsed(raw_content, data);
        proof {
            if r is Ok {
                assert(d is Some);
                assert(split_matches(raw_content@, r, split_outcome(raw_content@, Some(d->Some_0))));
            }
        }
        r
    } else {
        split_parsed(raw_content, None)
    }
}

/// Reserved for the headings of a document; not filled in yet.
#[derive(Debug)]
pub struct MarkdownStructure {
    pub h1: Vec<String>,
    pub has_multiple_h1: bool,
    pub h2: Vec<String>,
    pub h3: Vec<String>,
}

/// A markdown document: optional frontmatter, the prose, and the metadata of
/// the file it came from. The raw text is not kept.
#[derive(Debug)]
pub struct MarkdownDoc {
    pub has_frontmatter: bool,
    pub fm: Option<Frontmatter>,
    pub prose: Prose,
    pub structure: Option<MarkdownStructure>,
    pub file: Option<FileMeta>,
}

/// `doc` was assembled from the raw text `raw`.
pub open spec fn assembled_from(doc: MarkdownDoc, raw: Seq<char>) -> bool {
    &&& doc.has_frontmatter == spec_has_frontmatter(raw)
    &&& doc.fm is Some == spec_has_frontmatter(raw)
    &&& doc.prose.content@ == spec_exclude_frontmatter(raw)
    &&& doc.prose.wf()
    &&& doc.structure is None
}

/// `r` is the document assembled from `raw`, with the file metadata `file`,
/// where `expected` is what splitting `raw` gives (see `split_outcome`).
pub open spec fn doc_outcome(
    raw: Seq<char>,
    r: Result<MarkdownDoc, MarkdownError>,
    expected: Option<Option<FrontmatterView>>,
    file: Option<FileMeta>,
) -> bool {
    match expected {
        Some(fm) => {
            &&& r is Ok
            &&& assembled_from(r->Ok_0, raw)
            &&& r->Ok_0.file == file
            &&& match fm {
                Some(view) => r->Ok_0.fm is Some && r->Ok_0.fm->Some_0@ == view && r->Ok_0.fm->Some_0.wf(),
                None => r->Ok_0.fm is None,
            }
        },
        None => r == Err::<MarkdownDoc, MarkdownError>(MarkdownError::FrontmatterDecodeError),
    }
}

impl MarkdownDoc {
    /// Assembles a document from raw markdown text, given what the block at
    /// its start decodes to (`data`; unused where there is no block), and the
    /// metadata of the file it came from, if any.
    pub fn assemble(raw_content: &str, data: Option<FmValue>, file: Option<FileMeta>) -> (r: Result<MarkdownDoc, MarkdownError>)
        ensures
            doc_outcome(raw_content@, r, split_outcome(raw_content@, data), file),
    {
        match split_parsed(raw_content, data) {
            Ok((prose, fm)) => Ok(
                MarkdownDoc {
                    has_frontmatter: has_frontmatter(raw_content),
                    fm,
                    prose,
                    structure: None,
                    file,
                },
            ),
            Err(e) => Err(e),
        }
    }

    /// Builds a document from raw markdown text, with no file behind it.
    pub fn from_raw_text(raw_content: &str) -> (r: Result<MarkdownDoc, MarkdownError>)
        ensures
            !spec_has_frontmatter(raw_content@) ==> doc_outcome(raw_content@, r, Some(None), None),
            exists|d: Option<FmValue>| doc_outcome(raw_content@, r, split_outcome(raw_content@, d), None),
            r matches Err(e) ==> e == MarkdownError::FrontmatterDecodeError,
    {
        let data = if has_frontmatter(raw_content) {
            crate::frontmatter::parse_matter(raw_content)
        } else {
            None
        };
        let ghost d = data;
        let r = MarkdownDoc::assemble(raw_content, data, None);
        assert(doc_outcome(raw_content@, r, split_outcome(raw_content@, d), None));
        r
    }

    /// Builds a document from a loaded file: its text is split, its metadata
    /// kept, and its text and digest dropped.
    pub fn from_file_content(value: FileWithMeta) -> (r: Result<MarkdownDoc, MarkdownError>)
        ensures
            !spec_has_frontmatter(value.content@) ==> doc_outcome(value.content@, r, Some(None), Some(value.meta)),
            exists|d: Option<FmValue>| doc_outcome(value.content@, r, split_outcome(value.content@, d), Some(value.meta)),
            r matches Err(e) ==> e == MarkdownError::FrontmatterDecodeError,
    {
        let FileWithMeta { meta, content, hash: _ } = value;
        let raw = content.as_str();
        let data = if has_frontmatter(raw) {
            crate::frontmatter::parse_matter(raw)
        } else {
            None
        };
        let ghost d = data;
        let ghost m = meta;
        let r = MarkdownDoc::assemble(raw, data, Some(meta));
        assert(doc_outcome(raw@, r, split_outcome(raw@, d), Some(m)));
        r
    }
}

} // verus!
