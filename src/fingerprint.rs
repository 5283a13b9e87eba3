use vstd::prelude::*;
use vstd::string::StrSliceExecFns;

verus! {

/// The kinds of target that can be given context on.
#[derive(Debug, Clone, Copy, PartialEq, Eq, Structural)]
pub enum Fingerprint {
    MarkdownFile,
    HtmlFile,
    /// A target that matches none of the known patterns.
    Unknown,
}

/// A user-supplied target string together with its classification.
#[derive(Debug)]
pub struct Target {
    pub user_input: String,
    pub kind: Fingerprint,
}

/// One classification rule: a path ending in a dot and `extension` is of `kind`.
#[derive(Debug)]
pub struct Matcher {
    pub extension: String,
    pub kind: Fingerprint,
}

/// `s` ends with a dot and then exactly `ext`.
pub open spec fn ends_with_extension(s: Seq<char>, ext: Seq<char>) -> bool {
    let n = s.len() as int;
    let m = ext.len() as int;
    &&& n >= m + 1
    &&& s[n - m - 1] == '.'
    &&& s.subrange(n - m, n) == ext
}

/// The kind given by the first rule of `rules` that matches `s`, in order.
pub open spec fn first_match(rules: Seq<Matcher>, s: Seq<char>) -> Fingerprint
    decreases rules.len(),
{
    if rules.len() == 0 {
        Fingerprint::Unknown
    } else if ends_with_extension(s, rules[0].extension@) {
        rules[0].kind
    } else {
        first_match(rules.drop_first(), s)
    }
}

/// The built-in classification: `.md` is markdown, `.htm` and `.html` are HTML.
pub open spec fn spec_classify(s: Seq<char>) -> Fingerprint {
    if ends_with_extension(s, "md"@) {
        Fingerprint::MarkdownFile
    } else if ends_with_extension(s, "htm"@) || ends_with_extension(s, "html"@) {
        Fingerprint::HtmlFile
    } else {
        Fingerprint::Unknown
    }
}

/// The built-in rules, in priority order.
pub fn default_matchers() -> (r: Vec<Matcher>)
    ensures
        r@.len() == 3,
        r@[0].extension@ == "md"@ && r@[0].kind == Fingerprint::MarkdownFile,
        r@[1].extension@ == "htm"@ && r@[1].kind == Fingerprint::HtmlFile,
        r@[2].extension@ == "html"@ && r@[2].kind == Fingerprint::HtmlFile,
{
    let mut r: Vec<Matcher> = Vec::new();
    r.push(Matcher { extension: String::from_str("md"), kind: Fingerprint::MarkdownFile });
    r.push(Matcher { extension: String::from_str("htm"), kind: Fingerprint::HtmlFile });
    r.push(Matcher { extension: String::from_str("html"), kind: Fingerprint::HtmlFile });
    r
}

/// Whether `input` ends with a dot and `ext`.
pub fn matches_extension(input: &str, ext: &str) -> (r: bool)
    ensures
        r == ends_with_extension(input@, ext@),
{
    let n = input.unicode_len();
    let m = ext.unicode_len();
    if n < 1 || n - 1 < m {
        return false;
    }
    if input.get_char(n - m - 1) != '.' {
        return false;
    }
    let mut i: usize = 0;
    while i < m
        invariant
            n == input@.len(),
            m == ext@.len(),
            n >= m + 1,
            i <= m,
            forall|k: int| 0 <= k < i ==> input@[n - m + k] == ext@[k],
        decreases m - i,
    {
        if input.get_char(n - m + i) != ext.get_char(i) {
            assert(input@.subrange(n - m, n as int)[i as int] != ext@[i as int]);
            return false;
        }
        i = i + 1;
    }
    assert(input@.subrange(n - m, n as int) =~= ext@);
    true
}

/// The kind given by the first matching rule, or `Unknown`.
pub fn classify_with(rules: &Vec<Matcher>, input: &str) -> (r: Fingerprint)
    ensures
        r == first_match(rules@, input@),
{
    let mut i: usize = 0;
    assert(rules@.subrange(0, rules@.len() as int) =~= rules@);
    while i < rules.len()
        invariant
            i <= rules@.len(),
            first_match(rules@, input@) == first_match(rules@.subrange(i as int, rules@.len() as int), input@),
        decreases rules@.len() - i,
    {
        proof {
            let rest = rules@.subrange(i as int, rules@.len() as int);
            assert(rest.drop_first() =~= rules@.subrange(i + 1, rules@.len() as int));
        }
        if matches_extension(input, rules[i].extension.as_str()) {
            return rules[i].kind;
        }
        i = i + 1;
    }
    Fingerprint::Unknown
}

/// Classifies a target string by the built-in rules; the first match wins.
pub fn fingerprint(input: &str) -> (r: Target)
    ensures
        r.user_input@ == input@,
        r.kind == spec_classify(input@),
{
    let rules = default_matchers();
    let kind = classify_with(&rules, input);
    proof {
        reveal_with_fuel(first_match, 4);
    }
    Target { user_input: String::from_str(input), kind }
}

/// Whether any target was not recognized.
pub fn has_unknown(targets: &Vec<Target>) -> (r: bool)
    ensures
        r == exists|i: int| 0 <= i < targets@.len() && targets@[i].kind == Fingerprint::Unknown,
{
    let mut i: usize = 0;
    while i < targets.len()
        invariant
            i <= targets@.len(),
            forall|k: int| 0 <= k < i ==> targets@[k].kind != Fingerprint::Unknown,
        decreases targets@.len() - i,
    {
        if targets[i].kind == Fingerprint::Unknown {
            return true;
        }
        i = i + 1;
    }
    false
}

} // verus!
