//! The tree-shaped documents that the catalog service answers with.

use crate::error::ApiError;
use crate::strings::str_eq;
use vstd::prelude::*;

verus! {

/// `serde_json::Number`: a number of a document, carried through as it is.
#[verifier::external_type_specification]
#[verifier::external_body]
pub struct ExNumber(serde_json::Number);

/// `Clone` of `serde_json::Number`: the copy is the same number.
pub assume_specification[ <serde_json::Number as Clone>::clone ](
    n: &serde_json::Number,
) -> (r: serde_json::Number)
    ensures
        r == *n,
;

/// `serde_json::Value`: what the parser hands out, before it is rebuilt as a `Document`.
#[verifier::external_type_specification]
#[verifier::external_body]
pub struct ExValue(serde_json::Value);

/// A node of a document: no node kind is assumed at any depth.
#[derive(Debug, PartialEq)]
pub enum Document {
    Null,
    Bool(bool),
    Number(serde_json::Number),
    String(String),
    Array(Vec<Document>),
    /// The entries of a mapping, in the document's own key order.
    Object(Vec<(String, Document)>),
}

/// The mathematical value of a [`Document`].
pub enum DocumentView {
    Null,
    Bool(bool),
    Number(serde_json::Number),
    String(Seq<char>),
    Array(Seq<DocumentView>),
    Object(Seq<(Seq<char>, DocumentView)>),
}

/// The value of a document: the same tree, with text and sequences as mathematical values.
pub open spec fn value_of(d: Document) -> DocumentView
    decreases d,
{
    match d {
        Document::Null => DocumentView::Null,
        Document::Bool(b) => DocumentView::Bool(b),
        Document::Number(n) => DocumentView::Number(n),
        Document::String(s) => DocumentView::String(s@),
        Document::Array(items) => DocumentView::Array(
            Seq::new(
                items.len() as nat,
                |i: int|
                    if 0 <= i < items.len() {
                        value_of(items[i])
                    } else {
                        DocumentView::Null
                    },
            ),
        ),
        Document::Object(entries) => DocumentView::Object(
            Seq::new(
                entries.len() as nat,
                |i: int|
                    if 0 <= i < entries.len() {
                        (entries[i].0@, value_of(entries[i].1))
                    } else {
                        (Seq::empty(), DocumentView::Null)
                    },
            ),
        ),
    }
}

impl View for Document {
    type V = DocumentView;

    open spec fn view(&self) -> DocumentView {
        value_of(*self)
    }
}

/// The tree that a JSON text denotes, or nothing where the text is not well-formed JSON.
pub uninterp spec fn json_tree(text: Seq<char>) -> Option<DocumentView>;

/// The tree that a parsed JSON value holds.
pub uninterp spec fn tree_of(value: serde_json::Value) -> DocumentView;

/// `serde_json::from_str` at the type `serde_json::Value`: the text is well-formed JSON
/// exactly when the call succeeds, and the value then holds the tree that the text denotes.
#[verifier::external_body]
fn parse_value(json: &str) -> (r: Result<serde_json::Value, serde_json::Error>)
    ensures
        match r {
            Ok(value) => json_tree(json@) == Some(tree_of(value)),
            Err(_) => json_tree(json@) is None,
        },
{
    serde_json::from_str(json)
}

/// One level of a parsed value: its own kind, with what is below it still as it was parsed.
enum Level {
    Null,
    Bool(bool),
    Number(serde_json::Number),
    String(String),
    Array(Vec<serde_json::Value>),
    Object(Vec<(String, serde_json::Value)>),
}

/// The tree of one level: the trees of what is below it, in the same order.
spec fn level_tree(level: Level) -> DocumentView {
    match level {
        Level::Null => DocumentView::Null,
        Level::Bool(b) => DocumentView::Bool(b),
        Level::Number(n) => DocumentView::Number(n),
        Level::String(s) => DocumentView::String(s@),
        Level::Array(items) => DocumentView::Array(
            Seq::new(items.len() as nat, |i: int| tree_of(items[i])),
        ),
        Level::Object(entries) => DocumentView::Object(
            Seq::new(entries.len() as nat, |i: int| (entries[i].0@, tree_of(entries[i].1))),
        ),
    }
}

/// Takes a `serde_json::Value` apart by its six variants: a scalar is moved over, a
/// sequence hands over its elements, and a mapping its entries in the order in which
/// `serde_json::Map` iterates. The tree of the value is made of the trees of these parts.
#[verifier::external_body]
fn level_of(value: serde_json::Value) -> (level: Level)
    ensures
        level_tree(level) == tree_of(value),
{
    match value {
        serde_json::Value::Null => Level::Null,
        serde_json::Value::Bool(b) => Level::Bool(b),
        serde_json::Value::Number(n) => Level::Number(n),
        serde_json::Value::String(s) => Level::String(s),
        serde_json::Value::Array(a) => Level::Array(a),
        serde_json::Value::Object(o) => Level::Object(o.into_iter().collect()),
    }
}

/// Rebuilds a parsed value as a `Document`, level by level.
fn document_of(value: serde_json::Value) -> (d: Document)
    ensures
        d@ == tree_of(value),
    decreases tree_of(value),
{
    let ghost tree = tree_of(value);
    match level_of(value) {
        Level::Null => Document::Null,
        Level::Bool(b) => Document::Bool(b),
        Level::Number(n) => Document::Number(n),
        Level::String(s) => Document::String(s),
        Level::Array(items) => {
            let ghost all = items@;
            let mut out: Vec<Document> = Vec::new();
            for item in it: items.into_iter()
                invariant
                    it.seq() == all,
                    tree == tree_of(value),
                    tree == DocumentView::Array(Seq::new(all.len(), |i: int| tree_of(all[i]))),
                    out.len() == it.index(),
                    forall|j: int| 0 <= j < out.len() ==> (#[trigger] out[j])@ == tree_of(all[j]),
            {
                proof {
                    lemma_child_decreases(tree, it.index() as int);
                    assert(tree.children()[it.index() as int] == tree_of(item));
                }
                out.push(document_of(item));
            }
            let d = Document::Array(out);
            assert(d@->Array_0 =~= tree->Array_0);
            d
        },
        Level::Object(entries) => {
            let ghost all = entries@;
            let mut out: Vec<(String, Document)> = Vec::new();
            for entry in it: entries.into_iter()
                invariant
                    it.seq() == all,
                    tree == tree_of(value),
                    tree == DocumentView::Object(
                        Seq::new(all.len(), |i: int| (all[i].0@, tree_of(all[i].1))),
                    ),
                    out.len() == it.index(),
                    forall|j: int|
                        0 <= j < out.len() ==> (#[trigger] out[j]).0@ == all[j].0@ && out[j].1@
                            == tree_of(all[j].1),
            {
                proof {
                    lemma_child_decreases(tree, it.index() as int);
                    assert(tree.children()[it.index() as int] == tree_of(entry.1));
                }
                let (key, below) = entry;
                out.push((key, document_of(below)));
            }
            let d = Document::Object(out);
            assert(d@->Object_0 =~= tree->Object_0);
            d
        },
    }
}

/// The value of an optional node.
pub open spec fn opt_tree(node: Option<&Document>) -> Option<DocumentView> {
    match node {
        Some(node) => Some(node@),
        None => None,
    }
}

/// Whether some entry of a mapping has the key `key`.
pub open spec fn has_key(entries: Seq<(Seq<char>, DocumentView)>, key: Seq<char>) -> bool {
    exists|i: int| 0 <= i < entries.len() && (#[trigger] entries[i]).0 == key
}

/// The place of the first entry of a mapping with the key `key`.
pub open spec fn key_index(entries: Seq<(Seq<char>, DocumentView)>, key: Seq<char>) -> int {
    choose|i: int|
        0 <= i < entries.len() && (#[trigger] entries[i]).0 == key && forall|j: int|
            0 <= j < i ==> (#[trigger] entries[j]).0 != key
}

impl DocumentView {
    /// The value under `key`, where this node is a mapping that has the key: that of the
    /// first entry with the key.
    #[verifier::opaque]
    pub open spec fn get(self, key: Seq<char>) -> Option<DocumentView> {
        match self {
            DocumentView::Object(entries) => if has_key(entries, key) {
                Some(entries[key_index(entries, key)].1)
            } else {
                None
            },
            _ => None,
        }
    }

    /// The text of a string node.
    pub open spec fn as_str(self) -> Option<Seq<char>> {
        match self {
            DocumentView::String(s) => Some(s),
            _ => None,
        }
    }

    /// The nodes directly below this one, in traversal order: the elements of a sequence,
    /// the values of a mapping, nothing for a scalar.
    pub open spec fn children(self) -> Seq<DocumentView> {
        match self {
            DocumentView::Array(items) => items,
            DocumentView::Object(entries) => Seq::new(entries.len(), |i: int| entries[i].1),
            _ => Seq::empty(),
        }
    }
}

/// A child is a smaller tree than its parent.
pub proof fn lemma_child_decreases(node: DocumentView, i: int)
    requires
        0 <= i < node.children().len(),
    ensures
        decreases_to!(node => node.children()[i]),
{
    match node {
        DocumentView::Array(items) => {
            assert(decreases_to!(items => items[i]));
        },
        DocumentView::Object(entries) => {
            assert(decreases_to!(entries => entries[i]));
            assert(decreases_to!(entries[i] => entries[i].1));
        },
        _ => {},
    }
}

/// The children of a document's value are the values of the document's own children.
pub proof fn lemma_children_of_view(d: Document)
    ensures
        match d {
            Document::Array(items) => {
                &&& d@.children().len() == items.len()
                &&& forall|i: int| 0 <= i < items.len() ==> d@.children()[i] == #[trigger] items[i]@
            },
            Document::Object(entries) => {
                &&& d@.children().len() == entries.len()
                &&& forall|i: int|
                    0 <= i < entries.len() ==> d@.children()[i] == (#[trigger] entries[i]).1@
            },
            _ => d@.children().len() == 0,
        },
{
    match d {
        Document::Array(items) => {
            assert(d@ is Array);
            assert(d@->Array_0.len() == items.len());
            assert forall|i: int| 0 <= i < items.len() implies d@.children()[i] == #[trigger] items[i]@ by {
                assert(d@->Array_0[i] == items[i]@);
            }
        },
        Document::Object(entries) => {
            assert(d@ is Object);
            assert(d@->Object_0.len() == entries.len());
            assert forall|i: int| 0 <= i < entries.len() implies d@.children()[i] == (
            #[trigger] entries[i]).1@ by {
                assert(d@->Object_0[i] == (entries[i].0@, entries[i].1@));
            }
        },
        _ => {},
    }
}

/// The first entry with a key exists as soon as any entry has the key.
pub proof fn lemma_key_index(entries: Seq<(Seq<char>, DocumentView)>, key: Seq<char>)
    requires
        has_key(entries, key),
    ensures
        0 <= key_index(entries, key) < entries.len(),
        entries[key_index(entries, key)].0 == key,
        forall|j: int| 0 <= j < key_index(entries, key) ==> (#[trigger] entries[j]).0 != key,
{
    let some = choose|i: int| 0 <= i < entries.len() && (#[trigger] entries[i]).0 == key;
    lemma_first_key(entries, key, some);
}

proof fn lemma_first_key(entries: Seq<(Seq<char>, DocumentView)>, key: Seq<char>, at: int)
    requires
        0 <= at < entries.len(),
        entries[at].0 == key,
    ensures
        exists|i: int|
            0 <= i < entries.len() && (#[trigger] entries[i]).0 == key && forall|j: int|
                0 <= j < i ==> (#[trigger] entries[j]).0 != key,
    decreases at,
{
    if exists|j: int| 0 <= j < at && (#[trigger] entries[j]).0 == key {
        let j = choose|j: int| 0 <= j < at && (#[trigger] entries[j]).0 == key;
        lemma_first_key(entries, key, j);
    }
}

/// What `get` finds is a smaller tree than the mapping it is found in.
pub proof fn lemma_get_decreases(node: DocumentView, key: Seq<char>)
    requires
        node.get(key) is Some,
    ensures
        decreases_to!(node => node.get(key)->0),
{
    reveal(DocumentView::get);
    let entries = node->Object_0;
    lemma_key_index(entries, key);
    let i = key_index(entries, key);
    assert(decreases_to!(entries => entries[i]));
    assert(decreases_to!(entries[i] => entries[i].1));
}

impl Clone for Document {
    fn clone(&self) -> (r: Self)
        ensures
            r@ == self@,
        decreases self@,
    {
        match self {
            Document::Null => Document::Null,
            Document::Bool(b) => Document::Bool(*b),
            Document::Number(n) => Document::Number(n.clone()),
            Document::String(s) => Document::String(s.clone()),
            Document::Array(items) => {
                let mut out: Vec<Document> = Vec::new();
                let mut i: usize = 0;
                while i < items.len()
                    invariant
                        i <= items.len(),
                        *self == Document::Array(*items),
                        out.len() == i,
                        forall|j: int| 0 <= j < i ==> (#[trigger] out[j])@ == items[j]@,
                    decreases items.len() - i,
                {
                    proof {
                        lemma_children_of_view(*self);
                        lemma_child_decreases(self@, i as int);
                    }
                    out.push(items[i].clone());
                    i += 1;
                }
                let r = Document::Array(out);
                assert(r@->Array_0 =~= self@->Array_0);
                r
            },
            Document::Object(entries) => {
                let mut out: Vec<(String, Document)> = Vec::new();
                let mut i: usize = 0;
                while i < entries.len()
                    invariant
                        i <= entries.len(),
                        *self == Document::Object(*entries),
                        out.len() == i,
                        forall|j: int|
                            0 <= j < i ==> (#[trigger] out[j]).0@ == entries[j].0@ && out[j].1@
                                == entries[j].1@,
                    decreases entries.len() - i,
                {
                    proof {
                        lemma_children_of_view(*self);
                        lemma_child_decreases(self@, i as int);
                    }
                    out.push((entries[i].0.clone(), entries[i].1.clone()));
                    i += 1;
                }
                let r = Document::Object(out);
                assert(r@->Object_0 =~= self@->Object_0);
                r
            },
        }
    }
}

impl Document {
    /// Reads a document from JSON text. Fails exactly when the text is not well-formed.
    pub fn parse(json: &str) -> (r: Result<Document, ApiError>)
        ensures
            match r {
                Ok(d) => json_tree(json@) == Some(d@),
                Err(_) => json_tree(json@) is None,
            },
    {
        match parse_value(json) {
            Ok(value) => Ok(document_of(value)),
            Err(e) => Err(ApiError::SerdeJson(e)),
        }
    }

    /// The value under `key`, where this node is a mapping that has the key.
    pub fn get(&self, key: &str) -> (r: Option<&Document>)
        ensures
            opt_tree(r) == self@.get(key@),
    {
        reveal(DocumentView::get);
        match self {
            Document::Object(entries) => {
                let mut i: usize = 0;
                while i < entries.len()
                    invariant
                        i <= entries.len(),
                        *self == Document::Object(*entries),
                        forall|j: int| 0 <= j < i ==> (#[trigger] entries[j]).0@ != key@,
                    decreases entries.len() - i,
                {
                    if str_eq(entries[i].0.as_str(), key) {
                        proof {
                            reveal(DocumentView::get);
                            let seen = self@->Object_0;
                            assert(seen[i as int].0 == key@);
                            lemma_key_index(seen, key@);
                            let first = key_index(seen, key@);
                            if first < i {
                                assert(seen[first].0 == entries[first].0@);
                            }
                            assert(seen[i as int].1 == entries[i as int].1@);
                        }
                        return Some(&entries[i].1);
                    }
                    i += 1;
                }
                proof {
                    let seen = self@->Object_0;
                    if has_key(seen, key@) {
                        lemma_key_index(seen, key@);
                        let first = key_index(seen, key@);
                        assert(seen[first].0 == entries[first].0@);
                    }
                }
                None
            },
            _ => None,
        }
    }

    /// The text of a string node.
    pub fn as_str(&self) -> (r: Option<&str>)
        ensures
            match r {
                Some(s) => self@.as_str() == Some(s@),
                None => self@.as_str() is None,
            },
    {
        match self {
            Document::String(s) => Some(s.as_str()),
            _ => None,
        }
    }

    /// The elements of a sequence node.
    pub fn as_array(&self) -> (r: Option<&Vec<Document>>)
        ensures
            match r {
                Some(items) => *self == Document::Array(*items),
                None => !(self is Array),
            },
    {
        match self {
            Document::Array(items) => Some(items),
            _ => None,
        }
    }

    /// The entries of a mapping node.
    pub fn as_object(&self) -> (r: Option<&Vec<(String, Document)>>)
        ensures
            match r {
                Some(entries) => *self == Document::Object(*entries),
                None => !(self is Object),
            },
    {
        match self {
            Document::Object(entries) => Some(entries),
            _ => None,
        }
    }
}

} // verus!
