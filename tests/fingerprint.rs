use context_cli::fingerprint::{classify_with, default_matchers, fingerprint, has_unknown, matches_extension, Fingerprint, Matcher};

#[test]
fn classification_of_common_targets() {
    assert_eq!(fingerprint("notes.md").kind, Fingerprint::MarkdownFile);
    assert_eq!(fingerprint("page.html").kind, Fingerprint::HtmlFile);
    assert_eq!(fingerprint("page.htm").kind, Fingerprint::HtmlFile);
    assert_eq!(fingerprint("image.png").kind, Fingerprint::Unknown);
    assert_eq!(fingerprint("notes.md").user_input, "notes.md");
}

#[test]
fn classification_goes_by_the_ending_alone() {
    assert_eq!(fingerprint(".md").kind, Fingerprint::MarkdownFile);
    assert_eq!(fingerprint("dir/.md").kind, Fingerprint::MarkdownFile);
    assert_eq!(fingerprint("a-.md").kind, Fingerprint::MarkdownFile);
    assert_eq!(fingerprint("notes .md").kind, Fingerprint::MarkdownFile);
    assert_eq!(fingerprint("md").kind, Fingerprint::Unknown);
    assert_eq!(fingerprint("a.MD").kind, Fingerprint::Unknown);
    assert_eq!(fingerprint("a.md").kind, Fingerprint::MarkdownFile);
    assert_eq!(fingerprint("é.md").kind, Fingerprint::MarkdownFile);
    assert_eq!(fingerprint("notes.md.bak").kind, Fingerprint::Unknown);
    assert_eq!(fingerprint("page.htmlx").kind, Fingerprint::Unknown);
    assert_eq!(fingerprint("").kind, Fingerprint::Unknown);
}

#[test]
fn extension_match() {
    assert!(matches_extension("x.md", "md"));
    assert!(!matches_extension("x.md", "htm"));
    assert!(!matches_extension("xmd", "md"));
}

#[test]
fn first_matching_rule_wins() {
    let rules = vec![
        Matcher { extension: "md".to_string(), kind: Fingerprint::HtmlFile },
        Matcher { extension: "md".to_string(), kind: Fingerprint::MarkdownFile },
    ];
    assert_eq!(classify_with(&rules, "a.md"), Fingerprint::HtmlFile);
    assert_eq!(classify_with(&vec![], "a.md"), Fingerprint::Unknown);
    assert_eq!(default_matchers().len(), 3);
}

#[test]
fn unknown_targets_are_reported() {
    let ts = vec![fingerprint("a.md"), fingerprint("b.txt")];
    assert!(has_unknown(&ts));
    let ts = vec![fingerprint("a.md"), fingerprint("b.html")];
    assert!(!has_unknown(&ts));
}
