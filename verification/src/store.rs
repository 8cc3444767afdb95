//! The open documents, keyed by URI: what the editor has opened, changed
//! and closed, and the text of each.

use vstd::prelude::*;
use crate::parse::{DocumentFormat, parse_document, build_tree, ts_nodes};
use crate::syntax::SyntaxTree;
use crate::diagnostics::{has_suffix, strip_suffix};

verus! {

#[verifier::external_type_specification]
#[verifier::external_body]
#[verifier::reject_recursive_types(K)]
#[verifier::reject_recursive_types(V)]
#[verifier::reject_recursive_types(S)]
pub struct ExDashMap<K, V, S>(dashmap::DashMap<K, V, S>);

/// One open document as the store keeps it.
#[derive(Debug)]
pub struct StoredDocument {
    pub language_id: String,
    pub version: i32,
    pub text: String,
    pub format: DocumentFormat,
}

/// Language id, version, text, format.
pub type DocView = (Seq<char>, i32, Seq<char>, DocumentFormat);

impl View for StoredDocument {
    type V = DocView;

    open spec fn view(&self) -> DocView {
        (self.language_id@, self.version, self.text@, self.format)
    }
}

impl StoredDocument {
    /// A copy with the same fields.
    pub fn duplicate(&self) -> (r: StoredDocument)
        ensures
            r@ == self@,
    {
        StoredDocument {
            language_id: self.language_id.clone(),
            version: self.version,
            text: self.text.clone(),
            format: self.format,
        }
    }
}

/// The map of open documents, by URI.
pub type DocMap = dashmap::DashMap<String, StoredDocument>;

/// What a `DashMap` of documents holds: each key's text and its document.
pub uninterp spec fn dash_contents(m: DocMap) -> Map<
    Seq<char>,
    DocView,
>;

/// No document at all.
pub open spec fn no_documents() -> Map<Seq<char>, DocView> {
    Map::empty()
}

/// `DashMap::new`: a map with no entries.
#[verifier::external_body]
fn dash_new() -> (r: DocMap)
    ensures
        dash_contents(r) == no_documents(),
{
    dashmap::DashMap::new()
}

/// `DashMap::insert`: the key now maps to the value, replacing what it
/// mapped to; the map stays finite. The crate's method takes `&self`; this
/// one takes the map exclusively, so the change is part of its contract.
#[verifier::external_body]
fn dash_insert(m: &mut DocMap, key: String, value: StoredDocument)
    requires
        dash_contents(*old(m)).dom().finite(),
    ensures
        dash_contents(*final(m)) == dash_contents(*old(m)).insert(key@, value@),
        dash_contents(*final(m)).dom().finite(),
{
    m.insert(key, value);
}

/// `DashMap::remove`: the key no longer maps to anything; the other
/// entries stay.
#[verifier::external_body]
fn dash_remove(m: &mut DocMap, key: &str)
    requires
        dash_contents(*old(m)).dom().finite(),
    ensures
        dash_contents(*final(m)) == dash_contents(*old(m)).remove(key@),
        dash_contents(*final(m)).dom().finite(),
{
    m.remove(key);
}

/// `DashMap::get`, the entry copied out: the document the key maps to, if
/// any.
#[verifier::external_body]
fn dash_get(m: &DocMap, key: &str) -> (r: Option<StoredDocument>)
    ensures
        r is Some <==> dash_contents(*m).dom().contains(key@),
        r matches Some(d) ==> d@ == dash_contents(*m)[key@],
{
    m.get(key).map(|entry| entry.value().duplicate())
}

/// `DashMap::len`: the number of entries.
#[verifier::external_body]
fn dash_len(m: &DocMap) -> (r: usize)
    requires
        dash_contents(*m).dom().finite(),
    ensures
        r == dash_contents(*m).dom().len(),
{
    m.len()
}

/// `DashMap::iter`, each entry's key copied out: every key once, in an
/// order the map does not promise.
#[verifier::external_body]
fn dash_keys(m: &DocMap) -> (r: Vec<String>)
    ensures
        forall|i: int, j: int| 0 <= i < j < r@.len() ==> r@[i]@ != r@[j]@,
        forall|k: Seq<char>|
            dash_contents(*m).dom().contains(k) <==> exists|i: int| 0 <= i < r@.len() && r@[i]@ == k,
{
    m.iter().map(|entry| entry.key().clone()).collect()
}

// ---------------------------------------------------------------------------
// The store
// ---------------------------------------------------------------------------

/// The format of a document by its URI's extension: `.json`, or `.yaml` /
/// `.yml`.
pub open spec fn spec_format_of_uri(uri: Seq<char>) -> Option<DocumentFormat> {
    if has_suffix(uri, ".json"@) {
        Some(DocumentFormat::Json)
    } else if has_suffix(uri, ".yaml"@) || has_suffix(uri, ".yml"@) {
        Some(DocumentFormat::Yaml)
    } else {
        None
    }
}

pub fn format_of_uri(uri: &str) -> (r: Option<DocumentFormat>)
    ensures
        r == spec_format_of_uri(uri@),
{
    if strip_suffix(uri, ".json").is_some() {
        Some(DocumentFormat::Json)
    } else if strip_suffix(uri, ".yaml").is_some() || strip_suffix(uri, ".yml").is_some() {
        Some(DocumentFormat::Yaml)
    } else {
        None
    }
}

/// The open documents.
pub struct DocumentStore {
    docs: DocMap,
}

/// A document handed out by the store: its text, format and syntax tree.
pub struct DocumentSnapshot {
    pub text: String,
    pub format: DocumentFormat,
    pub tree: Option<SyntaxTree>,
}

/// A well-formed tree built over a text with these characters.
pub open spec fn tree_over(t: &SyntaxTree, text: Seq<char>) -> bool {
    t.wf() && t.source_len == vstd::utf8::encode_utf8(text).len()
}

/// The document a URI is opened as: JSON unless its extension says YAML.
pub open spec fn opened_format(uri: Seq<char>) -> DocumentFormat {
    match spec_format_of_uri(uri) {
        Some(f) => f,
        None => DocumentFormat::Json,
    }
}

/// The store after a full-text change of `uri`: a document that is open
/// gets the new text and version, keeping its language and format; a URI
/// that is not open changes nothing.
pub open spec fn spec_update_full(
    s: Map<Seq<char>, DocView>,
    uri: Seq<char>,
    text: Seq<char>,
    version: i32,
) -> Map<Seq<char>, DocView> {
    if s.dom().contains(uri) {
        s.insert(uri, (s[uri].0, version, text, s[uri].3))
    } else {
        s
    }
}

/// The text of the document open at `uri`.
pub open spec fn spec_text_of(s: Map<Seq<char>, DocView>, uri: Seq<char>) -> Option<Seq<char>> {
    if s.dom().contains(uri) {
        Some(s[uri].2)
    } else {
        None
    }
}

impl View for DocumentStore {
    type V = Map<Seq<char>, DocView>;

    closed spec fn view(&self) -> Map<Seq<char>, DocView> {
        dash_contents(self.docs)
    }
}

impl DocumentStore {
    pub open spec fn wf(&self) -> bool {
        self@.dom().finite()
    }

    /// An empty store.
    pub fn new() -> (r: Self)
        ensures
            r.wf(),
            r@ == Map::<Seq<char>, DocView>::empty(),
    {
        DocumentStore { docs: dash_new() }
    }

    /// `textDocument/didOpen`: the document's text, language and version,
    /// in the format its extension names (JSON for any other).
    pub fn open(&mut self, uri: String, language_id: String, version: i32, text: String)
        requires
            old(self).wf(),
        ensures
            final(self).wf(),
            final(self)@ == old(self)@.insert(
                uri@,
                (language_id@, version, text@, opened_format(uri@)),
            ),
    {
        let format = match format_of_uri(uri.as_str()) {
            Some(f) => f,
            None => DocumentFormat::Json,
        };
        let doc = StoredDocument { language_id, version, text, format };
        dash_insert(&mut self.docs, uri, doc);
    }

    /// A full-sync `textDocument/didChange`.
    pub fn update_full(&mut self, uri: &str, text: String, version: i32)
        requires
            old(self).wf(),
        ensures
            final(self).wf(),
            final(self)@ == spec_update_full(old(self)@, uri@, text@, version),
    {
        match dash_get(&self.docs, uri) {
            Some(old_doc) => {
                let doc = StoredDocument {
                    language_id: old_doc.language_id,
                    version,
                    text,
                    format: old_doc.format,
                };
                dash_insert(&mut self.docs, String::from_str(uri), doc);
            },
            None => {},
        }
    }

    /// `textDocument/didClose`.
    pub fn close(&mut self, uri: &str)
        requires
            old(self).wf(),
        ensures
            final(self).wf(),
            final(self)@ == old(self)@.remove(uri@),
    {
        dash_remove(&mut self.docs, uri);
    }

    /// Number of open documents.
    pub fn len(&self) -> (r: usize)
        requires
            self.wf(),
        ensures
            r == self@.dom().len(),
    {
        dash_len(&self.docs)
    }

    /// No document is open.
    pub fn is_empty(&self) -> (r: bool)
        requires
            self.wf(),
        ensures
            r == (self@.dom().len() == 0),
    {
        dash_len(&self.docs) == 0
    }

    /// The text of the document open at `uri`.
    pub fn text_of(&self, uri: &str) -> (r: Option<String>)
        ensures
            match r {
                Some(t) => spec_text_of(self@, uri@) == Some(t@),
                None => spec_text_of(self@, uri@) is None,
            },
    {
        match dash_get(&self.docs, uri) {
            Some(d) => Some(d.text),
            None => None,
        }
    }

    /// The document open at `uri`, parsed: its text and format as stored,
    /// and a tree over that text.
    pub fn snapshot(&self, uri: &str) -> (r: Option<DocumentSnapshot>)
        ensures
            r is Some <==> self@.dom().contains(uri@),
            r matches Some(s) ==> s.text@ == self@[uri@].2 && s.format == self@[uri@].3 && (
            s.tree matches Some(t) && tree_over(&t, s.text@) && t.node_views() == build_tree(
                ts_nodes(s.text@, s.format),
                t.source_len,
            )),
    {
        match dash_get(&self.docs, uri) {
            Some(d) => {
                let tree = parse_document(d.text.as_str(), d.format);
                Some(DocumentSnapshot { text: d.text, format: d.format, tree })
            },
            None => None,
        }
    }

    /// The URIs of the open documents, each once.
    pub fn open_uris(&self) -> (r: Vec<String>)
        ensures
            forall|i: int, j: int| 0 <= i < j < r@.len() ==> r@[i]@ != r@[j]@,
            forall|k: Seq<char>|
                self@.dom().contains(k) <==> exists|i: int| 0 <= i < r@.len() && r@[i]@ == k,
    {
        dash_keys(&self.docs)
    }
}

// ---------------------------------------------------------------------------
// Laws
// ---------------------------------------------------------------------------

/// Reading a document after opening it gives back the text it was opened
/// with, and opening leaves every other document as it was.
pub proof fn lemma_open_then_read(
    s: Map<Seq<char>, DocView>,
    uri: Seq<char>,
    language_id: Seq<char>,
    version: i32,
    text: Seq<char>,
    other: Seq<char>,
)
    ensures
        spec_text_of(s.insert(uri, (language_id, version, text, opened_format(uri))), uri) == Some(
            text,
        ),
        other != uri ==> spec_text_of(
            s.insert(uri, (language_id, version, text, opened_format(uri))),
            other,
        ) == spec_text_of(s, other),
{
}

/// A full-text change of an open document is what a read then gives
/// back; a change of a document that is not open is no change.
pub proof fn lemma_update_then_read(s: Map<Seq<char>, DocView>, uri: Seq<char>, text: Seq<char>, version: i32)
    ensures
        s.dom().contains(uri) ==> spec_text_of(spec_update_full(s, uri, text, version), uri)
            == Some(text),
        s.dom().contains(uri) ==> spec_update_full(s, uri, text, version)[uri].3 == s[uri].3,
        !s.dom().contains(uri) ==> spec_update_full(s, uri, text, version) == s,
{
}

/// After closing a document there is nothing to read at its URI, and one
/// open document fewer.
pub proof fn lemma_close_then_read(s: Map<Seq<char>, DocView>, uri: Seq<char>)
    requires
        s.dom().finite(),
    ensures
        spec_text_of(s.remove(uri), uri) is None,
        s.dom().contains(uri) ==> s.remove(uri).dom().len() == s.dom().len() - 1,
        !s.dom().contains(uri) ==> s.remove(uri) == s,
{
    if !s.dom().contains(uri) {
        assert(s.remove(uri) =~= s);
    }
}

} // verus!
