use vstd::prelude::*;

use crate::errors::{IoError, MarkdownError};
use crate::file::{FileMeta, PathStat};
use crate::fingerprint::Fingerprint;
use crate::frontmatter::FmValue;
use crate::markdown::{assembled_from, doc_outcome, spec_has_frontmatter, split_outcome, MarkdownDoc};

verus! {

/// What processing one target produced.
#[derive(Debug)]
pub enum Outcome {
    /// A markdown file, assembled into a document.
    Document(MarkdownDoc),
    /// An HTML target; its handling is a stub with an empty result.
    Html,
}

/// Why processing one target failed.
#[derive(Debug)]
pub enum TargetError {
    Io(IoError),
    Markdown(MarkdownError),
}

/// What must be done for a target of a given kind.
#[derive(Debug, Clone, Copy, PartialEq, Eq, Structural)]
pub enum Action {
    /// Stat the path, read it, and assemble a markdown document.
    LoadMarkdown,
    /// Hand the target to the HTML stub.
    HtmlStub,
    /// Nothing: the target was already reported as unrecognized.
    Skip,
}

/// Routes a target by its kind.
pub fn route(kind: Fingerprint) -> (r: Action)
    ensures
        kind == Fingerprint::MarkdownFile ==> r == Action::LoadMarkdown,
        kind == Fingerprint::HtmlFile ==> r == Action::HtmlStub,
        kind == Fingerprint::Unknown ==> r == Action::Skip,
{
    match kind {
        Fingerprint::MarkdownFile => Action::LoadMarkdown,
        Fingerprint::HtmlFile => Action::HtmlStub,
        Fingerprint::Unknown => Action::Skip,
    }
}

/// The frontmatter of `doc` is what the block of `text` decodes to, where
/// that block's data is `d`.
pub open spec fn carries_frontmatter(doc: MarkdownDoc, text: Seq<char>, d: Option<FmValue>) -> bool {
    match split_outcome(text, d) {
        Some(Some(view)) => doc.fm is Some && doc.fm->Some_0@ == view,
        Some(None) => doc.fm is None,
        None => false,
    }
}

/// The outcome of a markdown file at `path` whose text is `text`: a document
/// assembled from the text that keeps the file's metadata and carries the
/// decoded frontmatter, or a frontmatter decode error; never an error where
/// the text has no frontmatter block.
pub open spec fn markdown_loaded(r: Result<Outcome, TargetError>, path: Seq<char>, text: Seq<char>) -> bool {
    &&& !spec_has_frontmatter(text) ==> r is Ok
    &&& match r {
        Ok(Outcome::Document(doc)) => {
            &&& assembled_from(doc, text)
            &&& exists|d: Option<FmValue>| carries_frontmatter(doc, text, d)
            &&& doc.file is Some
            &&& doc.file->Some_0.filename@ == path
        },
        Ok(_) => false,
        Err(e) => e == TargetError::Markdown(MarkdownError::FrontmatterDecodeError),
    }
}

/// The outcome of a markdown target at `path`, from its stat and its text.
pub open spec fn markdown_result(
    path: Seq<char>,
    stat: Option<PathStat>,
    content: Option<String>,
    r: Result<Outcome, TargetError>,
) -> bool {
    match stat {
        None => (r matches Err(TargetError::Io(IoError::FileDoesNotExist(p))) && p@ == path),
        Some(st) => if !st.is_file {
            (r matches Err(TargetError::Io(IoError::PathExistsButNotFile(p))) && p@ == path)
        } else {
            match content {
                None => (r matches Err(TargetError::Io(IoError::PathExistsButNotFile(p))) && p@ == path),
                Some(c) => markdown_loaded(r, path, c@),
            }
        },
    }
}

/// Processes a markdown target from what the filesystem gave: the stat of
/// the path (`None` when it failed) and the file's text (`None` when it could
/// not be read as UTF-8).
pub fn markdown_target(path: &str, stat: Option<PathStat>, content: Option<String>) -> (r: Result<Outcome, TargetError>)
    ensures
        markdown_result(path@, stat, content, r),
{
    match FileMeta::from_stat(path, stat) {
        Err(e) => Err(TargetError::Io(e)),
        Ok(meta) => {
            match meta.load_content(content) {
                Err(e) => Err(TargetError::Io(e)),
                Ok(fc) => {
                    let ghost text = fc.content@;
                    let ghost m = fc.meta;
                    let res = MarkdownDoc::from_file_content(fc);
                    match res {
                        Ok(doc) => {
                            proof {
                                let d = choose|d: Option<FmValue>| doc_outcome(text, res, split_outcome(text, d), Some(m));
                                assert(carries_frontmatter(doc, text, d));
                            }
                            Ok(Outcome::Document(doc))
                        },
                        Err(e) => Err(TargetError::Markdown(e)),
                    }
                },
            }
        },
    }
}

/// A classified target together with what the filesystem gave for it: the
/// stat of its path and its text (both `None` where not asked for or failed).
#[derive(Debug)]
pub struct LoadedTarget {
    pub kind: Fingerprint,
    pub path: String,
    pub stat: Option<PathStat>,
    pub content: Option<String>,
}

/// The result of one target, `None` where it is skipped.
pub open spec fn target_result(t: LoadedTarget, r: Option<Result<Outcome, TargetError>>) -> bool {
    match t.kind {
        Fingerprint::MarkdownFile => r is Some && markdown_result(t.path@, t.stat, t.content, r->Some_0),
        Fingerprint::HtmlFile => r == Some(Ok::<Outcome, TargetError>(Outcome::Html)),
        Fingerprint::Unknown => r is None,
    }
}

/// The outcomes that a batch keeps: those of the targets that succeeded, in order.
pub open spec fn kept(rs: Seq<Option<Result<Outcome, TargetError>>>) -> Seq<Outcome>
    decreases rs.len(),
{
    if rs.len() == 0 {
        Seq::empty()
    } else {
        let rest = kept(rs.drop_first());
        match rs[0] {
            Some(Ok(o)) => seq![o] + rest,
            _ => rest,
        }
    }
}

/// What keeping the outcomes of a batch gives is the same part by part.
pub proof fn lemma_kept_append(a: Seq<Option<Result<Outcome, TargetError>>>, b: Seq<Option<Result<Outcome, TargetError>>>)
    ensures
        kept(a + b) == kept(a) + kept(b),
    decreases a.len(),
{
    if a.len() == 0 {
        assert(a + b =~= b);
        assert(kept(a) + kept(b) =~= kept(b));
    } else {
        assert((a + b).drop_first() =~= a.drop_first() + b);
        lemma_kept_append(a.drop_first(), b);
        match a[0] {
            Some(Ok(o)) => {
                assert(seq![o] + (kept(a.drop_first()) + kept(b)) =~= (seq![o] + kept(a.drop_first())) + kept(b));
            },
            _ => {},
        }
    }
}

/// A markdown target whose path cannot be stat'ed leaves no trace in what
/// the batch keeps, and does not change what the others give.
pub proof fn lemma_missing_target_dropped(
    a: Seq<Option<Result<Outcome, TargetError>>>,
    t: LoadedTarget,
    x: Option<Result<Outcome, TargetError>>,
    b: Seq<Option<Result<Outcome, TargetError>>>,
)
    requires
        t.kind == Fingerprint::MarkdownFile,
        t.stat is None,
        target_result(t, x),
    ensures
        kept(a + seq![x] + b) == kept(a) + kept(b),
{
    lemma_kept_append(a, seq![x]);
    lemma_kept_append(a + seq![x], b);
    let empty = Seq::<Option<Result<Outcome, TargetError>>>::empty();
    assert(seq![x].drop_first() =~= empty);
    assert(kept(empty) == Seq::<Outcome>::empty());
    assert(kept(seq![x]) =~= Seq::<Outcome>::empty());
    assert(kept(a) + kept(seq![x]) =~= kept(a));
}

/// Processes a batch: each target is routed by its kind and handled on its
/// own; a failing target is dropped and the others go on, in their order.
pub fn process(targets: Vec<LoadedTarget>) -> (r: Vec<Outcome>)
    ensures
        exists|rs: Seq<Option<Result<Outcome, TargetError>>>| {
            &&& rs.len() == targets@.len()
            &&& forall|i: int| 0 <= i < rs.len() ==> target_result(#[trigger] targets@[i], rs[i])
            &&& r@ == kept(rs)
        },
{
    let ghost all = targets@;
    let mut targets = targets;
    let mut out: Vec<Outcome> = Vec::new();
    let ghost mut rs: Seq<Option<Result<Outcome, TargetError>>> = Seq::empty();
    while targets.len() > 0
        invariant
            rs.len() + targets@.len() == all.len(),
            targets@ =~= all.subrange(rs.len() as int, all.len() as int),
            forall|i: int| 0 <= i < rs.len() ==> target_result(#[trigger] all[i], rs[i]),
            out@ == kept(rs),
        decreases targets@.len(),
    {
        let t = targets.remove(0);
        assert(t == all[rs.len() as int]);
        let LoadedTarget { kind, path, stat, content } = t;
        let res: Option<Result<Outcome, TargetError>> = match route(kind) {
            Action::LoadMarkdown => Some(markdown_target(path.as_str(), stat, content)),
            Action::HtmlStub => Some(Ok(Outcome::Html)),
            Action::Skip => None,
        };
        proof {
            lemma_kept_append(rs, seq![res]);
            let empty = Seq::<Option<Result<Outcome, TargetError>>>::empty();
            assert(seq![res].drop_first() =~= empty);
            assert(kept(empty) == Seq::<Outcome>::empty());
        }
        let ghost old_rs = rs;
        proof {
            rs = rs.push(res);
            assert(old_rs + seq![res] =~= rs);
        }
        match res {
            Some(Ok(o)) => {
                assert(kept(seq![res]) =~= seq![o]);
                out.push(o);
                assert(out@ =~= kept(old_rs) + seq![o]);
            },
            _ => {
                assert(kept(old_rs) + kept(seq![res]) =~= kept(old_rs));
            },
        }
    }
    assert(rs.len() == all.len());
    out
}

/// The values of the successes among `rs`, in order.
pub open spec fn successes<T, E>(rs: Seq<Result<T, E>>) -> Seq<T>
    decreases rs.len(),
{
    if rs.len() == 0 {
        Seq::empty()
    } else {
        let rest = successes(rs.drop_first());
        match rs[0] {
            Ok(v) => seq![v] + rest,
            Err(_) => rest,
        }
    }
}

/// Keeps the successful results of a batch, in their order; failures are
/// dropped and do not stop the others.
pub fn collect_successes<T, E>(results: Vec<Result<T, E>>) -> (r: Vec<T>)
    ensures
        r@ == successes(results@),
{
    let ghost all = results@;
    let mut results = results;
    let mut out: Vec<T> = Vec::new();
    while results.len() > 0
        invariant
            successes(all) == out@ + successes(results@),
        decreases results@.len(),
    {
        let ghost before = results@;
        let x = results.remove(0);
        assert(results@ =~= before.drop_first());
        match x {
            Ok(v) => {
                assert(successes(before) == seq![v] + successes(results@));
                assert(out@.push(v) + successes(results@) =~= out@ + (seq![v] + successes(results@)));
                out.push(v);
            },
            Err(_) => {},
        }
    }
    assert(out@ + successes(results@) =~= out@);
    out
}

/// A failure in one part of a batch does not change what another part
/// yields: the successes of two batches joined are those of each, in order.
pub proof fn lemma_successes_append<T, E>(a: Seq<Result<T, E>>, b: Seq<Result<T, E>>)
    ensures
        successes(a + b) == successes(a) + successes(b),
    decreases a.len(),
{
    if a.len() == 0 {
        assert(a + b =~= b);
        assert(successes(a) + successes(b) =~= successes(b));
    } else {
        assert((a + b).drop_first() =~= a.drop_first() + b);
        lemma_successes_append(a.drop_first(), b);
        match a[0] {
            Ok(v) => {
                assert(seq![v] + (successes(a.drop_first()) + successes(b)) =~= (seq![v] + successes(a.drop_first())) + successes(b));
            },
            Err(_) => {},
        }
    }
}

/// Every failed result is dropped, and every success kept: as many values
/// come out as there are successes.
pub proof fn lemma_successes_count<T, E>(rs: Seq<Result<T, E>>)
    ensures
        successes(rs).len() == rs.filter(|x: Result<T, E>| x is Ok).len(),
    decreases rs.len(),
{
    reveal(Seq::filter);
    if rs.len() > 0 {
        let last = rs.len() - 1;
        lemma_successes_append(rs.drop_last(), seq![rs[last]]);
        assert(rs.drop_last() + seq![rs[last]] =~= rs);
        lemma_successes_count(rs.drop_last());
        let one = seq![rs[last]];
        assert(one.drop_first() =~= Seq::<Result<T, E>>::empty());
        assert(successes(one.drop_first()) == Seq::<T>::empty());
        match rs[last] {
            Ok(v) => assert(successes(one).len() == 1),
            Err(_) => assert(successes(one).len() == 0),
        }
    }
}

} // verus!
