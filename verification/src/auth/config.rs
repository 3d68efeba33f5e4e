//! Remote configurations as JSON documents.

use vstd::prelude::*;

use crate::text;

verus! {

/// A table of a document: its key, its texts and its flags.
pub struct Table {
    pub key: String,
    pub texts: Vec<(String, String)>,
    pub flags: Vec<(String, bool)>,
}

/// A document: texts and tables.
pub struct Document {
    pub texts: Vec<(String, String)>,
    pub tables: Vec<Table>,
}

/// What a [`Table`] holds.
#[verifier::ext_equal]
pub struct TableView {
    pub key: Seq<char>,
    pub texts: Seq<(Seq<char>, Seq<char>)>,
    pub flags: Seq<(Seq<char>, bool)>,
}

/// What a [`Document`] holds.
#[verifier::ext_equal]
pub struct DocumentView {
    pub texts: Seq<(Seq<char>, Seq<char>)>,
    pub tables: Seq<TableView>,
}

impl View for Table {
    type V = TableView;

    open spec fn view(&self) -> TableView {
        TableView {
            key: self.key@,
            texts: text::views(self.texts@),
            flags: text::views(self.flags@),
        }
    }
}

impl View for Document {
    type V = DocumentView;

    open spec fn view(&self) -> DocumentView {
        DocumentView { texts: text::views(self.texts@), tables: text::views(self.tables@) }
    }
}

/// The text of a document as `serde_json` writes it.
pub uninterp spec fn json_text(document: DocumentView) -> Seq<char>;

/// Writes a document with `serde_json`: collects its entries into a
/// `serde_json::Value`, texts as strings, flags as booleans and tables as
/// objects, and gives what `Value::to_string` makes of it.
///
/// Stated of it: the text depends on the document alone. How the text looks
/// is left unsaid.
#[verifier::external_body]
pub(crate) fn to_json(document: Document) -> (json: String)
    ensures
        json@ == json_text(document@),
{
    let text = |(key, value): (String, String)| (key, serde_json::Value::from(value));
    let flag = |(key, value): (String, bool)| (key, serde_json::Value::from(value));
    let table = |table: Table| -> (String, serde_json::Value) {
        let texts = table.texts.into_iter().map(text);
        (table.key, texts.chain(table.flags.into_iter().map(flag)).collect())
    };
    let texts = document.texts.into_iter().map(text);
    let whole: serde_json::Value = texts.chain(document.tables.into_iter().map(table)).collect();
    whole.to_string()
}

/// A key and a text under it.
pub fn text_entry(key: &str, value: &str) -> (entry: (String, String))
    ensures
        entry@ == (key@, value@),
{
    (key.to_owned(), value.to_owned())
}

} // verus!
