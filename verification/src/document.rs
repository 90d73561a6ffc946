//! The template document: a JSON value tree, its mathematical model, and the
//! calls into `serde_json` that read and write it.

use vstd::prelude::*;

verus! {

/// `serde_json`'s number. The renderer never looks inside one.
#[verifier::external_type_specification]
#[verifier::external_body]
pub struct ExNumber(serde_json::Number);

/// `serde_json`'s value tree, as its parser hands it out.
#[verifier::external_type_specification]
#[verifier::external_body]
pub struct ExValue(serde_json::Value);

/// `serde_json`'s error.
#[verifier::external_type_specification]
#[verifier::external_body]
pub struct ExError(serde_json::Error);

/// A document: what a template is once parsed, and what rendering produces.
#[derive(Debug, PartialEq)]
pub enum Document {
    /// `null`.
    Null,
    /// `true` or `false`.
    Bool(bool),
    /// A number, kept as the parser read it.
    Number(serde_json::Number),
    /// A string.
    Text(String),
    /// An array: its items in order.
    Array(Vec<Document>),
    /// An object: its members in the order in which the parser hands them
    /// out.
    Object(Vec<Member>),
}

/// One member of an object.
#[derive(Debug, PartialEq)]
pub struct Member {
    /// The member's name.
    pub key: String,
    /// The member's value.
    pub value: Document,
}

/// The mathematical model of a [`Member`].
pub struct MemberView {
    pub key: Seq<char>,
    pub value: DocumentView,
}

/// The mathematical model of a [`Document`].
pub enum DocumentView {
    Null,
    Bool(bool),
    Number(serde_json::Number),
    Text(Seq<char>),
    Array(Seq<DocumentView>),
    Object(Seq<MemberView>),
}

impl View for Document {
    type V = DocumentView;

    open spec fn view(&self) -> DocumentView
        decreases self,
    {
        match self {
            Document::Null => DocumentView::Null,
            Document::Bool(b) => DocumentView::Bool(*b),
            Document::Number(n) => DocumentView::Number(*n),
            Document::Text(s) => DocumentView::Text(s@),
            Document::Array(items) => DocumentView::Array(
                Seq::new(
                    items@.len(),
                    |i: int|
                        if 0 <= i < items@.len() {
                            items@[i].view()
                        } else {
                            DocumentView::Null
                        },
                ),
            ),
            Document::Object(entries) => DocumentView::Object(
                Seq::new(
                    entries@.len(),
                    |i: int|
                        if 0 <= i < entries@.len() {
                            MemberView { key: entries@[i].key@, value: entries@[i].value.view() }
                        } else {
                            MemberView { key: Seq::empty(), value: DocumentView::Null }
                        },
                ),
            ),
        }
    }
}

/// The models of a sequence of documents.
pub open spec fn views(items: Seq<Document>) -> Seq<DocumentView> {
    Seq::new(items.len(), |i: int| items[i]@)
}

/// The models of a sequence of object entries.
pub open spec fn member_views(entries: Seq<Member>) -> Seq<MemberView> {
    Seq::new(entries.len(), |i: int| MemberView { key: entries[i].key@, value: entries[i].value@ })
}

/// An array's model is the models of its items.
pub proof fn lemma_array_view(items: Vec<Document>)
    ensures
        Document::Array(items)@ == DocumentView::Array(views(items@)),
{
    assert(Document::Array(items)@->Array_0 =~= views(items@));
}

/// An object's model is the models of its entries.
pub proof fn lemma_object_view(entries: Vec<Member>)
    ensures
        Document::Object(entries)@ == DocumentView::Object(member_views(entries@)),
{
    let built = Document::Object(entries)@->Object_0;
    assert(built =~= member_views(entries@));
}

/// What `serde_json::from_str` makes of `text`: the document that it
/// parses to, or `None` where it reports an error.
pub uninterp spec fn json_parse(text: Seq<char>) -> Option<DocumentView>;

/// What a `serde_json::Value` holds, as a document.
pub uninterp spec fn json_view(value: serde_json::Value) -> DocumentView;

/// The document as a `serde_json::Value` built from it holds it: in each
/// object the members are gathered into `serde_json`'s map, which keeps one
/// member for each key.
pub uninterp spec fn canonical(d: DocumentView) -> DocumentView;

/// The text that `serde_json::to_string_pretty` writes for a value that
/// holds `d`, or `None` where it reports an error.
pub uninterp spec fn json_pretty(d: DocumentView) -> Option<Seq<char>>;

/// Calls `serde_json::from_str` for a `serde_json::Value`. The parser reads
/// nothing but `text`, so its result has a name; the contract ties the value
/// or the error to that name and says nothing of what was parsed.
#[verifier::external_body]
pub(crate) fn parse_value(text: &str) -> (r: Result<serde_json::Value, serde_json::Error>)
    ensures
        match r {
            Ok(value) => json_parse(text@) == Some(json_view(value)),
            Err(_) => json_parse(text@) is None,
        },
{
    serde_json::from_str::<serde_json::Value>(text)
}

/// Copies a `serde_json::Value` into a [`Document`], variant by variant;
/// an object's members come in the order of `serde_json`'s map. The result
/// is, by definition, what the value holds.
#[verifier::external_body]
pub(crate) fn document_of(value: &serde_json::Value) -> (d: Document)
    ensures
        d@ == json_view(*value),
{
    match value {
        serde_json::Value::Null => Document::Null,
        serde_json::Value::Bool(b) => Document::Bool(*b),
        serde_json::Value::Number(n) => Document::Number(n.clone()),
        serde_json::Value::String(s) => Document::Text(s.clone()),
        serde_json::Value::Array(a) => Document::Array(a.iter().map(document_of).collect()),
        serde_json::Value::Object(m) => Document::Object(
            m.iter().map(|(k, v)| Member { key: k.clone(), value: document_of(v) }).collect(),
        ),
    }
}

/// Copies a [`Document`] into a `serde_json::Value`, variant by variant; an
/// object's members are collected into `serde_json`'s map. The value holds
/// the document in its canonical form.
#[verifier::external_body]
pub(crate) fn value_of(d: &Document) -> (value: serde_json::Value)
    ensures
        json_view(value) == canonical(d@),
{
    match d {
        Document::Null => serde_json::Value::Null,
        Document::Bool(b) => serde_json::Value::Bool(*b),
        Document::Number(n) => serde_json::Value::Number(n.clone()),
        Document::Text(s) => serde_json::Value::String(s.clone()),
        Document::Array(a) => serde_json::Value::Array(a.iter().map(value_of).collect()),
        Document::Object(m) => serde_json::Value::Object(
            m.iter().map(|e| (e.key.clone(), value_of(&e.value))).collect(),
        ),
    }
}

/// Calls `serde_json::to_string_pretty`. The text depends on the value
/// alone, so it has a name; the contract ties the text or the error to it.
#[verifier::external_body]
pub(crate) fn pretty_text(value: &serde_json::Value) -> (r: Result<String, serde_json::Error>)
    ensures
        match r {
            Ok(text) => json_pretty(json_view(*value)) == Some(text@),
            Err(_) => json_pretty(json_view(*value)) is None,
        },
{
    serde_json::to_string_pretty(value)
}

/// Calls `Clone::clone` on a `serde_json::Number`: the copy is the same
/// number.
#[verifier::external_body]
pub(crate) fn clone_number(n: &serde_json::Number) -> (copy: serde_json::Number)
    ensures
        copy == *n,
{
    n.clone()
}

/// Parses `text` as a JSON document.
pub fn parse_document(text: &str) -> (r: Result<Document, serde_json::Error>)
    ensures
        match r {
            Ok(d) => json_parse(text@) == Some(d@),
            Err(_) => json_parse(text@) is None,
        },
{
    match parse_value(text) {
        Ok(value) => Ok(document_of(&value)),
        Err(e) => Err(e),
    }
}

/// Writes `d` as pretty-printed JSON text.
pub fn write_document(d: &Document) -> (r: Result<String, serde_json::Error>)
    ensures
        match r {
            Ok(text) => json_pretty(canonical(d@)) == Some(text@),
            Err(_) => json_pretty(canonical(d@)) is None,
        },
{
    let value = value_of(d);
    pretty_text(&value)
}

} // verus!
