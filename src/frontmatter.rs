use vstd::prelude::*;
use gray_matter::engine::YAML;
use gray_matter::{Matter, Pod};

use crate::errors::MarkdownError;

verus! {

/// The formats that a frontmatter block may be written in.
#[derive(Debug, Clone, Copy, PartialEq, Eq, Structural)]
pub enum FrontmatterEngineType {
    YAML,
    JSON,
    TOML,
}

/// Digests of the frontmatter at the stages of its processing.
#[derive(Debug, Clone, Copy, PartialEq, Eq, Structural)]
pub struct FmHashValues {
    /// The frontmatter just after it is extracted from the raw text.
    pub extracted: Option<u64>,
    /// The frontmatter after default values are applied.
    pub defaults_applied: Option<u64>,
    /// The frontmatter after both defaults and overrides are applied.
    pub overrides_applied: Option<u64>,
}

/// A decoded value of a frontmatter block.
#[derive(Debug)]
pub enum FmValue {
    Null,
    Bool(bool),
    Integer(i64),
    /// A floating-point number, kept as its decimal text.
    Float(String),
    Str(String),
    List(Vec<FmValue>),
    /// A key/value table, one entry per key.
    Table(Vec<(String, FmValue)>),
}

/// The frontmatter of a markdown document: the recognized keys as typed
/// fields, and every other key in `other`, untouched.
#[derive(Debug)]
pub struct Frontmatter {
    pub title: Option<String>,
    pub aliases: Option<Vec<String>>,
    pub tags: Option<Vec<String>>,
    pub description: Option<String>,
    pub subject: Option<String>,
    pub category: Option<String>,
    pub name: Option<String>,
    pub excerpt: Option<String>,
    pub image: Option<String>,
    pub icon: Option<String>,
    pub layout: Option<String>,
    pub requires_auth: Option<bool>,
    /// Keys that are not recognized, with their values, in the order met.
    pub other: Vec<(String, FmValue)>,
}

/// The model of a `Frontmatter`: texts as character sequences.
pub struct FrontmatterView {
    pub title: Option<Seq<char>>,
    pub aliases: Option<Seq<Seq<char>>>,
    pub tags: Option<Seq<Seq<char>>>,
    pub description: Option<Seq<char>>,
    pub subject: Option<Seq<char>>,
    pub category: Option<Seq<char>>,
    pub name: Option<Seq<char>>,
    pub excerpt: Option<Seq<char>>,
    pub image: Option<Seq<char>>,
    pub icon: Option<Seq<char>>,
    pub layout: Option<Seq<char>>,
    pub requires_auth: Option<bool>,
    pub other: Seq<(String, FmValue)>,
}

pub open spec fn text_of(o: Option<String>) -> Option<Seq<char>> {
    match o {
        Some(s) => Some(s@),
        None => None,
    }
}

pub open spec fn texts_of(o: Option<Vec<String>>) -> Option<Seq<Seq<char>>> {
    match o {
        Some(v) => Some(v@.map_values(|s: String| s@)),
        None => None,
    }
}

impl View for Frontmatter {
    type V = FrontmatterView;

    open spec fn view(&self) -> FrontmatterView {
        FrontmatterView {
            title: text_of(self.title),
            aliases: texts_of(self.aliases),
            tags: texts_of(self.tags),
            description: text_of(self.description),
            subject: text_of(self.subject),
            category: text_of(self.category),
            name: text_of(self.name),
            excerpt: text_of(self.excerpt),
            image: text_of(self.image),
            icon: text_of(self.icon),
            layout: text_of(self.layout),
            requires_auth: self.requires_auth,
            other: self.other@,
        }
    }
}

/// Frontmatter with no field set.
pub open spec fn empty_view() -> FrontmatterView {
    FrontmatterView {
        title: None,
        aliases: None,
        tags: None,
        description: None,
        subject: None,
        category: None,
        name: None,
        excerpt: None,
        image: None,
        icon: None,
        layout: None,
        requires_auth: None,
        other: Seq::empty(),
    }
}

/// A value read as an optional text: null is absent, a string is present,
/// anything else is a type error (`None`).
pub open spec fn text_field(v: FmValue) -> Option<Option<Seq<char>>> {
    match v {
        FmValue::Null => Some(None),
        FmValue::Str(s) => Some(Some(s@)),
        _ => None,
    }
}

pub open spec fn str_text(v: FmValue) -> Seq<char> {
    match v {
        FmValue::Str(s) => s@,
        _ => Seq::empty(),
    }
}

/// A value read as an optional list of texts.
pub open spec fn list_field(v: FmValue) -> Option<Option<Seq<Seq<char>>>> {
    match v {
        FmValue::Null => Some(None),
        FmValue::List(items) => if forall|i: int| 0 <= i < items@.len() ==> items@[i] is Str {
            Some(Some(items@.map_values(|x: FmValue| str_text(x))))
        } else {
            None
        },
        _ => None,
    }
}

/// A value read as an optional flag.
pub open spec fn flag_field(v: FmValue) -> Option<Option<bool>> {
    match v {
        FmValue::Null => Some(None),
        FmValue::Bool(b) => Some(Some(b)),
        _ => None,
    }
}

/// No key occurs twice.
pub open spec fn keys_unique(s: Seq<(String, FmValue)>) -> bool {
    forall|i: int, j: int| 0 <= i < s.len() && 0 <= j < s.len() && i != j ==> s[i].0@ != s[j].0@
}

/// `s` with the entry `e` set: it replaces the entry of the same key, or is
/// added at the end.
pub open spec fn upsert(s: Seq<(String, FmValue)>, e: (String, FmValue)) -> Seq<(String, FmValue)> {
    if exists|i: int| 0 <= i < s.len() && s[i].0@ == e.0@ {
        let i = choose|i: int| 0 <= i < s.len() && s[i].0@ == e.0@;
        s.update(i, e)
    } else {
        s.push(e)
    }
}

/// The keys that have a typed field of their own.
pub open spec fn recognized_key(k: Seq<char>) -> bool {
    ||| k == "title"@
    ||| k == "aliases"@
    ||| k == "tags"@
    ||| k == "description"@
    ||| k == "subject"@
    ||| k == "category"@
    ||| k == "name"@
    ||| k == "excerpt"@
    ||| k == "image"@
    ||| k == "icon"@
    ||| k == "layout"@
    ||| k == "requiresAuth"@
}

impl Frontmatter {
    /// `other` holds each key once, and none that has a typed field.
    pub open spec fn wf(&self) -> bool {
        &&& keys_unique(self.other@)
        &&& forall|i: int| 0 <= i < self.other@.len() ==> !recognized_key(#[trigger] self.other@[i].0@)
    }
}

/// The frontmatter after one more entry of the table is taken in.
pub open spec fn apply_entry(st: FrontmatterView, e: (String, FmValue)) -> Option<FrontmatterView> {
    let k = e.0@;
    let v = e.1;
    if k == "title"@ {
        match text_field(v) { Some(t) => Some(FrontmatterView { title: t, ..st }), None => None }
    } else if k == "aliases"@ {
        match list_field(v) { Some(t) => Some(FrontmatterView { aliases: t, ..st }), None => None }
    } else if k == "tags"@ {
        match list_field(v) { Some(t) => Some(FrontmatterView { tags: t, ..st }), None => None }
    } else if k == "description"@ {
        match text_field(v) { Some(t) => Some(FrontmatterView { description: t, ..st }), None => None }
    } else if k == "subject"@ {
        match text_field(v) { Some(t) => Some(FrontmatterView { subject: t, ..st }), None => None }
    } else if k == "category"@ {
        match text_field(v) { Some(t) => Some(FrontmatterView { category: t, ..st }), None => None }
    } else if k == "name"@ {
        match text_field(v) { Some(t) => Some(FrontmatterView { name: t, ..st }), None => None }
    } else if k == "excerpt"@ {
        match text_field(v) { Some(t) => Some(FrontmatterView { excerpt: t, ..st }), None => None }
    } else if k == "image"@ {
        match text_field(v) { Some(t) => Some(FrontmatterView { image: t, ..st }), None => None }
    } else if k == "icon"@ {
        match text_field(v) { Some(t) => Some(FrontmatterView { icon: t, ..st }), None => None }
    } else if k == "layout"@ {
        match text_field(v) { Some(t) => Some(FrontmatterView { layout: t, ..st }), None => None }
    } else if k == "requiresAuth"@ {
        match flag_field(v) { Some(t) => Some(FrontmatterView { requires_auth: t, ..st }), None => None }
    } else {
        Some(FrontmatterView { other: upsert(st.other, e), ..st })
    }
}

/// The frontmatter after the entries are taken in, in order; `None` at the
/// first type error.
pub open spec fn decode_entries(st: FrontmatterView, es: Seq<(String, FmValue)>) -> Option<FrontmatterView>
    decreases es.len(),
{
    if es.len() == 0 {
        Some(st)
    } else {
        match apply_entry(st, es[0]) {
            Some(next) => decode_entries(next, es.drop_first()),
            None => None,
        }
    }
}

/// The frontmatter that a decoded block gives: only a table decodes.
pub open spec fn spec_decode(v: FmValue) -> Option<FrontmatterView> {
    match v {
        FmValue::Table(es) => decode_entries(empty_view(), es@),
        _ => None,
    }
}


pub open spec fn text_value_of(o: Option<Option<String>>) -> Option<Option<Seq<char>>> {
    match o {
        Some(t) => Some(text_of(t)),
        None => None,
    }
}

pub open spec fn list_value_of(o: Option<Option<Vec<String>>>) -> Option<Option<Seq<Seq<char>>>> {
    match o {
        Some(t) => Some(texts_of(t)),
        None => None,
    }
}

fn text_value(v: FmValue) -> (r: Option<Option<String>>)
    ensures
        text_value_of(r) == text_field(v),
{
    match v {
        FmValue::Null => Some(None),
        FmValue::Str(s) => Some(Some(s)),
        _ => None,
    }
}

fn texts_of_items(items: &Vec<FmValue>) -> (r: Option<Vec<String>>)
    ensures
        r is Some <==> forall|k: int| 0 <= k < items@.len() ==> items@[k] is Str,
        r is Some ==> r->Some_0@.map_values(|s: String| s@) == items@.map_values(|x: FmValue| str_text(x)),
{
    let mut out: Vec<String> = Vec::new();
    let mut i: usize = 0;
    while i < items.len()
        invariant
            i <= items@.len(),
            out@.len() == i,
            forall|k: int| 0 <= k < i ==> items@[k] is Str,
            forall|k: int| 0 <= k < i ==> out@[k]@ == str_text(items@[k]),
        decreases items@.len() - i,
    {
        match &items[i] {
            FmValue::Str(t) => out.push(t.clone()),
            _ => {
                assert(!(items@[i as int] is Str));
                return None;
            },
        }
        i = i + 1;
    }
    assert(out@.map_values(|s: String| s@) =~= items@.map_values(|x: FmValue| str_text(x)));
    Some(out)
}

fn list_value(v: FmValue) -> (r: Option<Option<Vec<String>>>)
    ensures
        list_value_of(r) == list_field(v),
{
    match v {
        FmValue::Null => Some(None),
        FmValue::List(items) => match texts_of_items(&items) {
            Some(out) => Some(Some(out)),
            None => None,
        },
        _ => None,
    }
}

fn flag_value(v: FmValue) -> (r: Option<Option<bool>>)
    ensures
        r == flag_field(v),
{
    match v {
        FmValue::Null => Some(None),
        FmValue::Bool(b) => Some(Some(b)),
        _ => None,
    }
}

fn key_is(k: &String, lit: &str) -> (r: bool)
    ensures
        r == (k@ == lit@),
{
    let s = String::from_str(lit);
    *k == s
}

/// Sets an entry of `other`, replacing the one of the same key if any.
#[verifier::loop_isolation(false)]
fn upsert_other(other: &mut Vec<(String, FmValue)>, e: (String, FmValue))
    requires
        keys_unique(old(other)@),
    ensures
        final(other)@ == upsert(old(other)@, e),
        keys_unique(final(other)@),
{
    let ghost s0 = other@;
    let mut i: usize = 0;
    while i < other.len()
        invariant
            other@ == s0,
            i <= s0.len(),
            forall|k: int| 0 <= k < i ==> s0[k].0@ != e.0@,
        decreases s0.len() - i,
    {
        if other[i].0 == e.0 {
            proof {
                let j = choose|j: int| 0 <= j < s0.len() && s0[j].0@ == e.0@;
                assert(j == i);
            }
            other.remove(i);
            other.insert(i, e);
            assert(other@ =~= s0.update(i as int, e));
            return;
        }
        i = i + 1;
    }
    other.push(e);
}

/// Takes one more entry of the table into the frontmatter.
fn take_entry(fm: Frontmatter, e: (String, FmValue)) -> (r: Option<Frontmatter>)
    requires
        fm.wf(),
    ensures
        match apply_entry(fm@, e) {
            Some(next) => r is Some && r->Some_0@ == next && r->Some_0.wf(),
            None => r is None,
        },
{
    let (k, v) = e;
    if key_is(&k, "title") {
        match text_value(v) { Some(t) => Some(Frontmatter { title: t, ..fm }), None => None }
    } else if key_is(&k, "aliases") {
        match list_value(v) { Some(t) => Some(Frontmatter { aliases: t, ..fm }), None => None }
    } else if key_is(&k, "tags") {
        match list_value(v) { Some(t) => Some(Frontmatter { tags: t, ..fm }), None => None }
    } else if key_is(&k, "description") {
        match text_value(v) { Some(t) => Some(Frontmatter { description: t, ..fm }), None => None }
    } else if key_is(&k, "subject") {
        match text_value(v) { Some(t) => Some(Frontmatter { subject: t, ..fm }), None => None }
    } else if key_is(&k, "category") {
        match text_value(v) { Some(t) => Some(Frontmatter { category: t, ..fm }), None => None }
    } else if key_is(&k, "name") {
        match text_value(v) { Some(t) => Some(Frontmatter { name: t, ..fm }), None => None }
    } else if key_is(&k, "excerpt") {
        match text_value(v) { Some(t) => Some(Frontmatter { excerpt: t, ..fm }), None => None }
    } else if key_is(&k, "image") {
        match text_value(v) { Some(t) => Some(Frontmatter { image: t, ..fm }), None => None }
    } else if key_is(&k, "icon") {
        match text_value(v) { Some(t) => Some(Frontmatter { icon: t, ..fm }), None => None }
    } else if key_is(&k, "layout") {
        match text_value(v) { Some(t) => Some(Frontmatter { layout: t, ..fm }), None => None }
    } else if key_is(&k, "requiresAuth") {
        match flag_value(v) { Some(t) => Some(Frontmatter { requires_auth: t, ..fm }), None => None }
    } else {
        let ghost s0 = fm.other@;
        let mut fm = fm;
        upsert_other(&mut fm.other, (k, v));
        proof {
            assert(!recognized_key(k@));
            assert forall|i: int| 0 <= i < fm.other@.len() implies !recognized_key(#[trigger] fm.other@[i].0@) by {
                if i < s0.len() && fm.other@[i] == s0[i] {
                } else {
                    assert(fm.other@[i].0@ == k@);
                }
            }
        }
        Some(fm)
    }
}

/// Takes the entries of a table in, in order, into empty frontmatter.
#[verifier::loop_isolation(false)]
fn decode_table(entries: Vec<(String, FmValue)>) -> (r: Result<Frontmatter, MarkdownError>)
    ensures
        r matches Ok(fm) ==> fm.wf(),
        match decode_entries(empty_view(), entries@) {
            Some(view) => r is Ok && r->Ok_0@ == view,
            None => r == Err::<Frontmatter, MarkdownError>(MarkdownError::FrontmatterDecodeError),
        },
{
    let ghost all = entries@;
    let mut entries = entries;
    let mut fm = Frontmatter::empty();
    while entries.len() > 0
        invariant
            decode_entries(empty_view(), all) == decode_entries(fm@, entries@),
            fm.wf(),
        decreases entries@.len(),
    {
        let ghost before = entries@;
        let e = entries.remove(0);
        assert(entries@ =~= before.drop_first());
        match take_entry(fm, e) {
            Some(next) => {
                fm = next;
            },
            None => {
                assert(decode_entries(fm@, before) == None::<FrontmatterView>);
                return Err(MarkdownError::FrontmatterDecodeError);
            },
        }
    }
    Ok(fm)
}

impl Frontmatter {
    /// Frontmatter with no field set.
    pub fn empty() -> (r: Frontmatter)
        ensures
            r@ == empty_view(),
            r.wf(),
    {
        let r = Frontmatter {
            title: None,
            aliases: None,
            tags: None,
            description: None,
            subject: None,
            category: None,
            name: None,
            excerpt: None,
            image: None,
            icon: None,
            layout: None,
            requires_auth: None,
            other: Vec::new(),
        };
        assert(r@.other =~= Seq::<(String, FmValue)>::empty());
        r
    }

    /// Frontmatter from a decoded block: none gives the empty frontmatter; a
    /// table gives its recognized keys as fields and the rest in `other`.
    pub fn new(data: Option<FmValue>) -> (r: Result<Frontmatter, MarkdownError>)
        ensures
            r matches Ok(fm) ==> fm.wf(),
            match data {
                None => r is Ok && r->Ok_0@ == empty_view(),
                Some(v) => match spec_decode(v) {
                    Some(view) => r is Ok && r->Ok_0@ == view,
                    None => r == Err::<Frontmatter, MarkdownError>(MarkdownError::FrontmatterDecodeError),
                },
            },
    {
        match data {
            None => Ok(Frontmatter::empty()),
            Some(FmValue::Table(entries)) => decode_table(entries),
            Some(_) => Err(MarkdownError::FrontmatterDecodeError),
        }
    }
}

impl Default for Frontmatter {
    fn default() -> (r: Frontmatter)
        ensures
            r@ == empty_view(),
            r.wf(),
    {
        Frontmatter::empty()
    }
}

#[verifier::external_type_specification]
#[verifier::external_body]
pub struct ExPod(Pod);

/// Relies on the variants of gray_matter::Pod: each becomes the matching
/// value, a float as its decimal text, a table's entries in its map's order.
#[verifier::external_body]
fn from_pod(p: Pod) -> FmValue {
    match p {
        Pod::Null => FmValue::Null,
        Pod::String(s) => FmValue::Str(s),
        Pod::Integer(i) => FmValue::Integer(i),
        Pod::Float(x) => FmValue::Float(x.to_string()),
        Pod::Boolean(b) => FmValue::Bool(b),
        Pod::Array(v) => FmValue::List(v.into_iter().map(from_pod).collect()),
        Pod::Hash(m) => FmValue::Table(m.into_iter().map(|(k, v)| (k, from_pod(v))).collect()),
    }
}

/// Relies on gray_matter::Matter::<YAML>::parse: the YAML data of the
/// delimited block that opens the text, if it is not empty. The order of a
/// table's entries is that of a hash map walk, so nothing is promised of it.
#[verifier::external_body]
pub(crate) fn parse_matter(raw: &str) -> (r: Option<FmValue>) {
    Matter::<YAML>::new().parse(raw).data.map(from_pod)
}

impl Frontmatter {
    /// Decodes the frontmatter block that opens the raw text of a markdown
    /// file. A missing or empty block, a block that is not a table, and a
    /// recognized key with a value of the wrong type are decode errors.
    pub fn parse(raw: &str) -> (r: Result<Frontmatter, MarkdownError>)
        ensures
            match r {
                Ok(fm) => fm.wf() && exists|d: FmValue| spec_decode(d) == Some(fm@),
                Err(e) => e == MarkdownError::FrontmatterDecodeError,
            },
    {
        match parse_matter(raw) {
            Some(data) => {
                Frontmatter::new(Some(data))
            },
            None => Err(MarkdownError::FrontmatterDecodeError),
        }
    }
}

} // verus!
