//! Reconstruction of plain text from the service's rich-text encoding: a value is a literal
//! string, a wrapper around one nested text value, or a sequence of runs to be joined.

use crate::document::{lemma_get_decreases, Document, DocumentView};
use crate::strings::{trim, trimmed};
use vstd::prelude::*;
use vstd::string::StringExecFns;

verus! {

/// What stands between two joined pieces.
pub open spec fn separator(dot: bool) -> Seq<char> {
    if dot {
        " • "@
    } else {
        " "@
    }
}

/// The first `n` of `parts`, without those that are empty.
pub open spec fn kept(parts: Seq<Seq<char>>, n: nat) -> Seq<Seq<char>>
    decreases n,
{
    if n == 0 || n > parts.len() {
        Seq::empty()
    } else {
        let before = kept(parts, (n - 1) as nat);
        if parts[n - 1].len() == 0 {
            before
        } else {
            before.push(parts[n - 1])
        }
    }
}

/// The first `n` of `parts` in one text, with `sep` between each two.
pub open spec fn joined(parts: Seq<Seq<char>>, sep: Seq<char>, n: nat) -> Seq<char>
    decreases n,
{
    if n == 0 || n > parts.len() {
        Seq::empty()
    } else if n == 1 {
        parts[0]
    } else {
        joined(parts, sep, (n - 1) as nat) + sep + parts[n - 1]
    }
}

/// The parts that are not empty in one text, with a space between each two, or with
/// " • " where `dot` is set.
pub open spec fn join_text(parts: Seq<Seq<char>>, dot: bool) -> Seq<char> {
    let rest = kept(parts, parts.len());
    joined(rest, separator(dot), rest.len())
}

/// Each of `strings`, trimmed.
pub open spec fn trimmed_all(strings: Seq<Seq<char>>) -> Seq<Seq<char>> {
    Seq::new(strings.len(), |i: int| trimmed(strings[i]))
}

/// The text that `join_clean` makes of `strings`: each is trimmed, and those that are
/// not empty then are joined.
pub open spec fn join_clean_text(strings: Seq<Seq<char>>, dot: bool) -> Seq<char> {
    join_text(trimmed_all(strings), dot)
}

/// The characters of each string.
pub open spec fn texts(strings: Seq<String>) -> Seq<Seq<char>> {
    Seq::new(strings.len(), |i: int| strings[i]@)
}

/// The characters of each string slice.
pub open spec fn slice_texts(parts: Seq<&str>) -> Seq<Seq<char>> {
    Seq::new(parts.len(), |i: int| parts[i]@)
}

/// The characters of an optional string.
pub open spec fn opt_text(s: Option<String>) -> Option<Seq<char>> {
    match s {
        Some(s) => Some(s@),
        None => None,
    }
}

/// Joining one more part appends the separator and the part, unless it is the first.
proof fn lemma_joined_push(parts: Seq<Seq<char>>, sep: Seq<char>, piece: Seq<char>)
    ensures
        joined(parts.push(piece), sep, parts.len() + 1) == if parts.len() == 0 {
            piece
        } else {
            joined(parts, sep, parts.len()) + sep + piece
        },
{
    let more = parts.push(piece);
    lemma_joined_prefix(parts, more, sep, parts.len());
}

/// The join of the first `n` parts looks at those parts only.
proof fn lemma_joined_prefix(a: Seq<Seq<char>>, b: Seq<Seq<char>>, sep: Seq<char>, n: nat)
    requires
        n <= a.len(),
        n <= b.len(),
        forall|i: int| 0 <= i < n ==> a[i] == b[i],
    ensures
        joined(a, sep, n) == joined(b, sep, n),
    decreases n,
{
    if n > 1 {
        lemma_joined_prefix(a, b, sep, (n - 1) as nat);
    }
}

/// Joins the parts that are not empty with a single space, or with " • " where `dot` is
/// set.
pub fn join_nonempty(parts: &Vec<&str>, dot: bool) -> (r: String)
    ensures
        r@ == join_text(slice_texts(parts@), dot),
{
    let sep = if dot {
        " • "
    } else {
        " "
    };
    let mut out = String::new();
    let mut first = true;
    let mut i: usize = 0;
    let ghost all = slice_texts(parts@);
    while i < parts.len()
        invariant
            i <= parts.len(),
            all == slice_texts(parts@),
            sep@ == separator(dot),
            first == (kept(all, i as nat).len() == 0),
            out@ == joined(kept(all, i as nat), sep@, kept(all, i as nat).len()),
        decreases parts.len() - i,
    {
        let piece = parts[i];
        if !piece.is_empty() {
            proof {
                lemma_joined_push(kept(all, i as nat), sep@, piece@);
            }
            if !first {
                out.append(sep);
            }
            out.append(piece);
            first = false;
        }
        i += 1;
    }
    out
}

/// Trims each of `strings`, drops those that are then empty, and joins the rest with a
/// single space, or with " • " where `dot` is set.
pub fn join_clean(strings: &[String], dot: bool) -> (r: String)
    ensures
        r@ == join_clean_text(texts(strings@), dot),
{
    let mut parts: Vec<&str> = Vec::new();
    let mut i: usize = 0;
    while i < strings.len()
        invariant
            i <= strings.len(),
            parts.len() == i,
            forall|j: int| 0 <= j < i ==> (#[trigger] parts[j])@ == trimmed(strings[j]@),
        decreases strings.len() - i,
    {
        parts.push(trim(strings[i].as_str()));
        i += 1;
    }
    assert(slice_texts(parts@) =~= trimmed_all(texts(strings@)));
    join_nonempty(&parts, dot)
}

/// The texts of the first `n` of `items`, in order, without the items that have none.
pub open spec fn run_texts(
    items: Seq<DocumentView>,
    text_clean: bool,
    dot: bool,
    n: nat,
) -> Seq<Seq<char>>
    decreases items, n,
{
    if n == 0 || n > items.len() {
        Seq::empty()
    } else {
        let before = run_texts(items, text_clean, dot, (n - 1) as nat);
        match text_of(items[n - 1], text_clean, dot) {
            Some(t) => before.push(t),
            None => before,
        }
    }
}

/// The plain text of a node, or nothing where the node is not text.
///
/// A string is its own text. A mapping with the key "text" has the text of that value,
/// unless `text_clean` is set and "text" is its only key. A mapping with the key "runs"
/// has the cleaned join of the texts of the runs, unless that is empty.
pub open spec fn text_of(node: DocumentView, text_clean: bool, dot: bool) -> Option<Seq<char>>
    decreases node, 0nat,
{
    match node {
        DocumentView::String(s) => Some(s),
        DocumentView::Object(entries) => {
            if node.get("text"@) is Some {
                if text_clean && entries.len() == 1 {
                    None
                } else {
                    proof {
                        lemma_get_decreases(node, "text"@);
                    }
                    text_of(node.get("text"@)->0, text_clean, dot)
                }
            } else if node.get("runs"@) is Some {
                match node.get("runs"@)->0 {
                    DocumentView::Array(items) => {
                        proof {
                            lemma_get_decreases(node, "runs"@);
                        }
                        let all = join_clean_text(
                            run_texts(items, text_clean, dot, items.len()),
                            dot,
                        );
                        if all.len() == 0 {
                            None
                        } else {
                            Some(all)
                        }
                    },
                    _ => None,
                }
            } else {
                None
            }
        },
        _ => None,
    }
}

/// Extracts the plain text of `value`, or nothing where `value` is not text.
///
/// With `text_clean` set, a mapping whose only key is "text" counts as a bare marker and
/// has no text. With `dot` set, runs are joined with " • " in place of a space.
pub fn get_text(value: &Document, text_clean: bool, dot: bool) -> (r: Option<String>)
    ensures
        opt_text(r) == text_of(value@, text_clean, dot),
    decreases value@, 1nat,
{
    if let Some(e) = value.as_str() {
        return Some(e.to_owned());
    }
    let obj = match value.as_object() {
        Some(obj) => obj,
        None => {
            return None;
        },
    };
    if let Some(e) = value.get("text") {
        if text_clean && obj.len() == 1 {
            return None;
        }
        proof {
            lemma_get_decreases(value@, "text"@);
        }
        get_text(e, text_clean, dot)
    } else if let Some(e) = value.get("runs") {
        let items = match e.as_array() {
            Some(items) => items,
            None => {
                return None;
            },
        };
        proof {
            lemma_get_decreases(value@, "runs"@);
        }
        let k = run_strings(items, text_clean, dot, Ghost(value@));
        let all = join_clean(k.as_slice(), dot);
        if all.as_str().is_empty() {
            None
        } else {
            Some(all)
        }
    } else {
        None
    }
}

/// The texts of `items`, in order, without the items that have none.
fn run_strings(
    items: &Vec<Document>,
    text_clean: bool,
    dot: bool,
    Ghost(parent): Ghost<DocumentView>,
) -> (k: Vec<String>)
    requires
        decreases_to!(parent => Document::Array(*items)@),
    ensures
        texts(k@) == run_texts(
            Document::Array(*items)@->Array_0,
            text_clean,
            dot,
            items.len() as nat,
        ),
    decreases parent, 0nat,
{
    let ghost all = Document::Array(*items)@->Array_0;
    let mut k: Vec<String> = Vec::new();
    let mut i: usize = 0;
    while i < items.len()
        invariant
            i <= items.len(),
            all == Document::Array(*items)@->Array_0,
            all.len() == items.len(),
            decreases_to!(parent => Document::Array(*items)@),
            texts(k@) == run_texts(all, text_clean, dot, i as nat),
        decreases items.len() - i,
    {
        assert(all[i as int] == items[i as int]@);
        assert(decreases_to!(Document::Array(*items)@ => all));
        assert(decreases_to!(all => all[i as int]));
        let ghost before = k@;
        if let Some(t) = get_text(&items[i], text_clean, dot) {
            k.push(t);
            assert(texts(k@) =~= texts(before).push(t@));
        }
        i += 1;
    }
    k
}

} // verus!
