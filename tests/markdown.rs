use context_cli::dispatch::{
    collect_successes, markdown_target, process, route, Action, LoadedTarget, Outcome, TargetError,
};
use context_cli::errors::{IoError, MarkdownError};
use context_cli::file::{FileMeta, PathStat, Timestamp};
use context_cli::frontmatter::{FmValue, Frontmatter};
use context_cli::markdown::{
    exclude_frontmatter, has_frontmatter, split_fm_from_prose, split_parsed, MarkdownDoc,
};
use context_cli::fingerprint::Fingerprint;
use context_cli::hasher::hash;

const PROSE_ONLY: &str = r#"
# Hello World\n

this is a test 
"#;

const FM_CONTENT: &str = r#"---
title: "testing"
foo: 42
bar: "bar"
baz: "baz"
---

# With Frontmatter

Hello World
"#;

const ONE_LINE_FM: &str = "---\ntitle: testing\n---\n\n# Body\n";

fn file_stat() -> PathStat {
    PathStat {
        is_file: true,
        is_symlink: false,
        modified: Some(Timestamp { secs: 1_700_000_000, nanos: 5 }),
        created: None,
    }
}

#[test]
fn prose_only_returns_false() {
    assert_eq!(has_frontmatter(PROSE_ONLY), false);
}

#[test]
fn fm_content_returns_true() {
    assert_eq!(has_frontmatter(FM_CONTENT), false);
}

#[test]
fn fm_content_with_extraction_returns_false() {
    assert_eq!(has_frontmatter(&exclude_frontmatter(FM_CONTENT)), false);
}

#[test]
fn fm_content_split_gives_valid_results() {
    let (prose, fm) = split_fm_from_prose(FM_CONTENT).unwrap();
    // a block of several lines is not detected, so no frontmatter comes out
    assert!(fm.is_none());
    assert_eq!(prose.content, FM_CONTENT);
    assert_eq!(prose.hash, hash(FM_CONTENT));
}

#[test]
fn repeated_unknown_key_is_kept_once() {
    let data = FmValue::Table(vec![
        ("foo".to_string(), FmValue::Integer(1)),
        ("bar".to_string(), FmValue::Integer(2)),
        ("foo".to_string(), FmValue::Integer(3)),
    ]);
    let fm = Frontmatter::new(Some(data)).unwrap();
    assert_eq!(fm.other.len(), 2);
    assert_eq!(fm.other[0].0, "foo");
    assert!(matches!(fm.other[0].1, FmValue::Integer(3)));
    assert_eq!(fm.other[1].0, "bar");
}

#[test]
fn assemble_carries_decoded_frontmatter() {
    let data = FmValue::Table(vec![("title".to_string(), FmValue::Str("T".to_string()))]);
    let doc = MarkdownDoc::assemble(ONE_LINE_FM, Some(data), None).unwrap();
    assert!(doc.has_frontmatter);
    assert_eq!(doc.fm.unwrap().title.as_deref(), Some("T"));
    assert_eq!(doc.prose.content, "\n\n# Body\n");
    assert!(doc.file.is_none());
    assert!(MarkdownDoc::assemble(ONE_LINE_FM, Some(FmValue::Integer(1)), None).is_err());
}

#[test]
fn heading_has_no_frontmatter() {
    assert!(!has_frontmatter("# Hello"));
}

#[test]
fn single_line_block_is_detected() {
    assert!(has_frontmatter(ONE_LINE_FM));
    assert!(has_frontmatter("---\n\n---"));
    assert!(!has_frontmatter("---\n"));
    assert!(!has_frontmatter(" ---\na\n---"));
    assert!(!has_frontmatter("---\na\nb\n---"));
}

#[test]
fn exclude_keeps_text_after_closing_delimiter() {
    assert_eq!(exclude_frontmatter(ONE_LINE_FM), "\n\n# Body\n");
    assert_eq!(exclude_frontmatter("---\nx\n---"), "");
}

#[test]
fn exclude_is_identity_exactly_without_frontmatter() {
    for raw in ["# Hello", PROSE_ONLY, FM_CONTENT, "", "---"] {
        assert!(!has_frontmatter(raw));
        assert_eq!(exclude_frontmatter(raw), raw);
    }
    for raw in [ONE_LINE_FM, "---\n\n---", "---\nx\n---tail"] {
        assert!(has_frontmatter(raw));
        assert_ne!(exclude_frontmatter(raw), raw);
    }
}

#[test]
fn plain_text_splits_into_prose_only() {
    let (prose, fm) = split_fm_from_prose("plain text").unwrap();
    assert_eq!(prose.content, "plain text");
    assert_eq!(prose.hash, hash("plain text"));
    assert!(fm.is_none());
}

#[test]
fn one_line_block_splits_into_title_and_prose() {
    let (prose, fm) = split_fm_from_prose(ONE_LINE_FM).unwrap();
    assert_eq!(prose.content, "\n\n# Body\n");
    let fm = fm.unwrap();
    assert_eq!(fm.title.as_deref(), Some("testing"));
    assert!(fm.other.is_empty());
}

#[test]
fn one_line_block_with_unknown_key_goes_to_other() {
    let (_, fm) = split_fm_from_prose("---\nfoo: 42\n---\nbody").unwrap();
    let fm = fm.unwrap();
    assert!(fm.title.is_none());
    assert_eq!(fm.other.len(), 1);
    assert_eq!(fm.other[0].0, "foo");
    assert!(matches!(fm.other[0].1, FmValue::Integer(42)));
}

#[test]
fn one_line_block_with_wrong_type_fails() {
    let r = split_fm_from_prose("---\ntitle: 42\n---\nbody");
    assert!(matches!(r, Err(MarkdownError::FrontmatterDecodeError)));
}

#[test]
fn split_parsed_decodes_given_table() {
    let data = FmValue::Table(vec![
        ("title".to_string(), FmValue::Str("testing".to_string())),
        ("foo".to_string(), FmValue::Integer(42)),
        ("bar".to_string(), FmValue::Str("bar".to_string())),
        ("baz".to_string(), FmValue::Str("baz".to_string())),
        ("tags".to_string(), FmValue::List(vec![FmValue::Str("a".to_string())])),
        ("requiresAuth".to_string(), FmValue::Bool(true)),
    ]);
    let (prose, fm) = split_parsed(ONE_LINE_FM, Some(data)).unwrap();
    assert_eq!(prose.content, "\n\n# Body\n");
    let fm = fm.unwrap();
    assert_eq!(fm.title.as_deref(), Some("testing"));
    assert_eq!(fm.tags, Some(vec!["a".to_string()]));
    assert_eq!(fm.requires_auth, Some(true));
    let keys: Vec<&str> = fm.other.iter().map(|(k, _)| k.as_str()).collect();
    assert_eq!(keys, vec!["foo", "bar", "baz"]);
}

#[test]
fn split_parsed_without_block_ignores_data() {
    let (prose, fm) = split_parsed("plain", Some(FmValue::Integer(1))).unwrap();
    assert_eq!(prose.content, "plain");
    assert!(fm.is_none());
}

#[test]
fn frontmatter_decode_errors() {
    assert!(matches!(Frontmatter::new(Some(FmValue::Null)), Err(MarkdownError::FrontmatterDecodeError)));
    let bad_list = FmValue::Table(vec![(
        "aliases".to_string(),
        FmValue::List(vec![FmValue::Str("a".to_string()), FmValue::Integer(3)]),
    )]);
    assert!(Frontmatter::new(Some(bad_list)).is_err());
    let bad_flag = FmValue::Table(vec![("requiresAuth".to_string(), FmValue::Str("yes".to_string()))]);
    assert!(Frontmatter::new(Some(bad_flag)).is_err());
    assert!(matches!(split_parsed(ONE_LINE_FM, None), Err(MarkdownError::FrontmatterDecodeError)));
}

#[test]
fn frontmatter_null_fields_are_absent() {
    let data = FmValue::Table(vec![("title".to_string(), FmValue::Null)]);
    let fm = Frontmatter::new(Some(data)).unwrap();
    assert!(fm.title.is_none());
    let empty = Frontmatter::new(None).unwrap();
    assert!(empty.title.is_none() && empty.other.is_empty());
}

#[test]
fn stat_of_missing_path_and_directory() {
    let r = FileMeta::from_stat("nope.md", None);
    assert_eq!(r.unwrap_err(), IoError::FileDoesNotExist("nope.md".to_string()));
    let dir = PathStat { is_file: false, is_symlink: false, modified: None, created: None };
    let r = FileMeta::from_stat("docs", Some(dir));
    assert_eq!(r.unwrap_err(), IoError::PathExistsButNotFile("docs".to_string()));
    let meta = FileMeta::from_stat("a.md", Some(file_stat())).unwrap();
    assert_eq!(meta.filename, "a.md");
    assert_eq!(meta.modified, Some(Timestamp { secs: 1_700_000_000, nanos: 5 }));
    assert!(meta.created.is_none());
}

#[test]
fn load_content_hashes_text_or_fails() {
    let meta = FileMeta::from_stat("a.md", Some(file_stat())).unwrap();
    let fc = meta.load_content(Some("# Hi".to_string())).unwrap();
    assert_eq!(fc.content, "# Hi");
    assert_eq!(fc.hash, hash("# Hi"));
    let meta = FileMeta::from_stat("b.md", Some(file_stat())).unwrap();
    assert_eq!(meta.load_content(None).unwrap_err(), IoError::PathExistsButNotFile("b.md".to_string()));
}

#[test]
fn document_from_file_keeps_only_metadata() {
    let meta = FileMeta::from_stat("a.md", Some(file_stat())).unwrap();
    let fc = meta.load_content(Some(ONE_LINE_FM.to_string())).unwrap();
    let doc = MarkdownDoc::from_file_content(fc).unwrap();
    assert!(doc.has_frontmatter);
    assert_eq!(doc.fm.as_ref().unwrap().title.as_deref(), Some("testing"));
    assert_eq!(doc.prose.content, "\n\n# Body\n");
    assert_eq!(doc.prose.hash, hash("\n\n# Body\n"));
    assert_eq!(doc.file.unwrap().filename, "a.md");
    assert!(doc.structure.is_none());
}

#[test]
fn document_from_raw_text_has_no_file() {
    let doc = MarkdownDoc::from_raw_text(PROSE_ONLY).unwrap();
    assert!(!doc.has_frontmatter);
    assert!(doc.fm.is_none());
    assert_eq!(doc.prose.content, PROSE_ONLY);
    assert!(doc.file.is_none());
}

#[test]
fn mixed_batch_keeps_valid_targets_in_order() {
    let a = markdown_target("a.md", Some(file_stat()), Some("# A".to_string()));
    let missing = markdown_target("missing.md", None, None);
    let b = markdown_target("b.md", Some(file_stat()), Some("# B".to_string()));
    assert!(matches!(
        missing,
        Err(TargetError::Io(IoError::FileDoesNotExist(ref p))) if p == "missing.md"
    ));
    let out = collect_successes(vec![a, missing, b]);
    assert_eq!(out.len(), 2);
    let names: Vec<String> = out
        .into_iter()
        .map(|o| match o {
            Outcome::Document(d) => d.file.unwrap().filename,
            _ => panic!("expected a document"),
        })
        .collect();
    assert_eq!(names, vec!["a.md".to_string(), "b.md".to_string()]);
}

#[test]
fn unreadable_or_directory_markdown_target_fails() {
    let dir = PathStat { is_file: false, is_symlink: false, modified: None, created: None };
    assert!(matches!(
        markdown_target("docs.md", Some(dir), None),
        Err(TargetError::Io(IoError::PathExistsButNotFile(_)))
    ));
    assert!(matches!(
        markdown_target("bin.md", Some(file_stat()), None),
        Err(TargetError::Io(IoError::PathExistsButNotFile(_)))
    ));
    assert!(matches!(
        markdown_target("bad.md", Some(file_stat()), Some("---\ntitle: [1]\n---\n".to_string())),
        Err(TargetError::Markdown(MarkdownError::FrontmatterDecodeError))
    ));
}

#[test]
fn collect_successes_on_empty_and_all_failing() {
    let none: Vec<Result<u8, u8>> = vec![];
    assert!(collect_successes(none).is_empty());
    assert!(collect_successes(vec![Err::<u8, u8>(1), Err(2)]).is_empty());
    assert_eq!(collect_successes(vec![Ok::<u8, u8>(1), Err(2), Ok(3)]), vec![1, 3]);
}

#[test]
fn routing_by_kind() {
    assert_eq!(route(Fingerprint::MarkdownFile), Action::LoadMarkdown);
    assert_eq!(route(Fingerprint::HtmlFile), Action::HtmlStub);
    assert_eq!(route(Fingerprint::Unknown), Action::Skip);
}

fn loaded(kind: Fingerprint, path: &str, stat: Option<PathStat>, content: Option<&str>) -> LoadedTarget {
    LoadedTarget { kind, path: path.to_string(), stat, content: content.map(|c| c.to_string()) }
}

#[test]
fn process_mixed_batch_keeps_valid_files_in_order() {
    let batch = vec![
        loaded(Fingerprint::MarkdownFile, "a.md", Some(file_stat()), Some("# A")),
        loaded(Fingerprint::MarkdownFile, "missing.md", None, None),
        loaded(Fingerprint::MarkdownFile, "b.md", Some(file_stat()), Some(ONE_LINE_FM)),
    ];
    let out = process(batch);
    assert_eq!(out.len(), 2);
    match (&out[0], &out[1]) {
        (Outcome::Document(a), Outcome::Document(b)) => {
            assert_eq!(a.file.as_ref().unwrap().filename, "a.md");
            assert_eq!(a.prose.content, "# A");
            assert_eq!(b.file.as_ref().unwrap().filename, "b.md");
            assert_eq!(b.fm.as_ref().unwrap().title.as_deref(), Some("testing"));
        }
        _ => panic!("expected two documents"),
    }
}

#[test]
fn process_routes_html_and_skips_unknown() {
    let batch = vec![
        loaded(Fingerprint::Unknown, "image.png", None, None),
        loaded(Fingerprint::HtmlFile, "page.html", None, None),
        loaded(Fingerprint::MarkdownFile, "bad.md", Some(file_stat()), Some("---\ntitle: 1\n---\n")),
    ];
    let out = process(batch);
    assert_eq!(out.len(), 1);
    assert!(matches!(out[0], Outcome::Html));
    assert!(process(vec![]).is_empty());
}
