//! Depth-first, match-then-stop traversal of a document.
//!
//! A crawl visits the nodes of a document in pre-order and asks a matcher about each. Where
//! the matcher answers, the answer is collected, unless an equal one has been collected
//! before, and the node's children are not visited. Where it does not, the crawl goes on
//! into the elements of a sequence, or into the values of a mapping.

use crate::document::{
    json_tree, lemma_child_decreases, lemma_children_of_view, Document, DocumentView,
};
use crate::error::ApiError;
use vstd::laws_eq::obeys_eq;
use vstd::prelude::*;
use vstd::std_specs::cmp::PartialEqSpec;

verus! {

/// Whether `items` already holds an element that `same` takes for `e`.
pub open spec fn contains_same<A>(items: Seq<A>, e: A, same: spec_fn(A, A) -> bool) -> bool {
    exists|k: int| 0 <= k < items.len() && #[trigger] same(items[k], e)
}

/// `items` with `e` appended, unless an element that `same` takes for `e` is already there.
pub open spec fn insert_unique<A>(items: Seq<A>, e: A, same: spec_fn(A, A) -> bool) -> Seq<A> {
    if contains_same(items, e, same) {
        items
    } else {
        items.push(e)
    }
}

/// What a crawl of `node` adds to `found`: the match of `node` itself if there is one,
/// and otherwise what the crawls of its children add, one after the other.
pub open spec fn crawl<A>(
    node: DocumentView,
    matcher: spec_fn(DocumentView) -> Option<A>,
    same: spec_fn(A, A) -> bool,
    found: Seq<A>,
) -> Seq<A>
    decreases node, node.children().len() + 1,
{
    match matcher(node) {
        Some(e) => insert_unique(found, e, same),
        None => crawl_children(node, matcher, same, found, node.children().len()),
    }
}

/// What the crawls of the first `n` children of `node` add to `found`.
pub open spec fn crawl_children<A>(
    node: DocumentView,
    matcher: spec_fn(DocumentView) -> Option<A>,
    same: spec_fn(A, A) -> bool,
    found: Seq<A>,
    n: nat,
) -> Seq<A>
    decreases node, n,
{
    if n == 0 || n > node.children().len() {
        found
    } else {
        proof {
            lemma_child_decreases(node, n - 1);
        }
        crawl(
            node.children()[n - 1],
            matcher,
            same,
            crawl_children(node, matcher, same, found, (n - 1) as nat),
        )
    }
}

/// Whether no two of `items` are the same.
pub open spec fn no_duplicates<A>(items: Seq<A>, same: spec_fn(A, A) -> bool) -> bool {
    forall|i: int, j: int| 0 <= i < j < items.len() ==> !#[trigger] same(items[i], items[j])
}

/// A crawl only appends: what was found before stays first, in its order.
pub proof fn lemma_crawl_extends<A>(
    node: DocumentView,
    matcher: spec_fn(DocumentView) -> Option<A>,
    same: spec_fn(A, A) -> bool,
    found: Seq<A>,
)
    ensures
        found.is_prefix_of(crawl(node, matcher, same, found)),
    decreases node, node.children().len() + 1,
{
    if matcher(node) is None {
        lemma_crawl_children_extends(node, matcher, same, found, node.children().len());
    }
}

/// The crawls of the first `n` children only append.
pub proof fn lemma_crawl_children_extends<A>(
    node: DocumentView,
    matcher: spec_fn(DocumentView) -> Option<A>,
    same: spec_fn(A, A) -> bool,
    found: Seq<A>,
    n: nat,
)
    requires
        n <= node.children().len(),
    ensures
        found.is_prefix_of(crawl_children(node, matcher, same, found, n)),
    decreases node, n,
{
    if n > 0 {
        let before = crawl_children(node, matcher, same, found, (n - 1) as nat);
        lemma_crawl_children_extends(node, matcher, same, found, (n - 1) as nat);
        lemma_child_decreases(node, n - 1);
        lemma_crawl_extends(node.children()[n - 1], matcher, same, before);
    }
}

/// A crawl never collects an item twice: a result without duplicates stays without.
pub proof fn lemma_crawl_no_duplicates<A>(
    node: DocumentView,
    matcher: spec_fn(DocumentView) -> Option<A>,
    same: spec_fn(A, A) -> bool,
    found: Seq<A>,
)
    requires
        no_duplicates(found, same),
    ensures
        no_duplicates(crawl(node, matcher, same, found), same),
    decreases node, node.children().len() + 1,
{
    if matcher(node) is None {
        lemma_crawl_children_no_duplicates(node, matcher, same, found, node.children().len());
    }
}

/// The crawls of the first `n` children never collect an item twice.
pub proof fn lemma_crawl_children_no_duplicates<A>(
    node: DocumentView,
    matcher: spec_fn(DocumentView) -> Option<A>,
    same: spec_fn(A, A) -> bool,
    found: Seq<A>,
    n: nat,
)
    requires
        no_duplicates(found, same),
        n <= node.children().len(),
    ensures
        no_duplicates(crawl_children(node, matcher, same, found, n), same),
    decreases node, n,
{
    if n > 0 {
        let before = crawl_children(node, matcher, same, found, (n - 1) as nat);
        lemma_crawl_children_no_duplicates(node, matcher, same, found, (n - 1) as nat);
        lemma_child_decreases(node, n - 1);
        lemma_crawl_no_duplicates(node.children()[n - 1], matcher, same, before);
    }
}

/// Match, then stop: the crawl of a node that matches collects that match and nothing
/// from below the node.
pub proof fn lemma_match_stops_descent<A>(
    node: DocumentView,
    matcher: spec_fn(DocumentView) -> Option<A>,
    same: spec_fn(A, A) -> bool,
    found: Seq<A>,
)
    requires
        matcher(node) is Some,
    ensures
        crawl(node, matcher, same, found) == insert_unique(found, matcher(node)->0, same),
        crawl(node, matcher, same, Seq::empty()) == seq![matcher(node)->0],
{
    assert(Seq::<A>::empty().push(matcher(node)->0) =~= seq![matcher(node)->0]);
}

/// A matcher that never matches collects nothing: that is no failure.
pub proof fn lemma_crawl_without_match<A>(
    node: DocumentView,
    matcher: spec_fn(DocumentView) -> Option<A>,
    same: spec_fn(A, A) -> bool,
    found: Seq<A>,
)
    requires
        forall|v: DocumentView| #[trigger] matcher(v) is None,
    ensures
        crawl(node, matcher, same, found) == found,
    decreases node, node.children().len() + 1,
{
    lemma_crawl_children_without_match(node, matcher, same, found, node.children().len());
}

/// A matcher that never matches collects nothing from the first `n` children.
pub proof fn lemma_crawl_children_without_match<A>(
    node: DocumentView,
    matcher: spec_fn(DocumentView) -> Option<A>,
    same: spec_fn(A, A) -> bool,
    found: Seq<A>,
    n: nat,
)
    requires
        forall|v: DocumentView| #[trigger] matcher(v) is None,
        n <= node.children().len(),
    ensures
        crawl_children(node, matcher, same, found, n) == found,
    decreases node, n,
{
    if n > 0 {
        lemma_crawl_children_without_match(node, matcher, same, found, (n - 1) as nat);
        lemma_child_decreases(node, n - 1);
        lemma_crawl_without_match(node.children()[n - 1], matcher, same, found);
    }
}

/// The comparison that `==` makes of two items.
pub open spec fn eq_of<T: PartialEq>() -> spec_fn(T, T) -> bool {
    |a: T, b: T| a.eq_spec(&b)
}

/// The comparison that takes only identical values for the same.
pub open spec fn identical<A>() -> spec_fn(A, A) -> bool {
    |a: A, b: A| a == b
}

/// Two results that `rel` relates item by item.
pub open spec fn related<A, B>(a: Seq<A>, b: Seq<B>, rel: spec_fn(A, B) -> bool) -> bool {
    &&& a.len() == b.len()
    &&& forall|i: int| 0 <= i < a.len() ==> #[trigger] rel(a[i], b[i])
}

/// Two answers that `rel` relates: both are nothing, or both are related items.
pub open spec fn related_answer<A, B>(a: Option<A>, b: Option<B>, rel: spec_fn(A, B) -> bool) -> bool {
    match (a, b) {
        (Some(x), Some(y)) => rel(x, y),
        (None, None) => true,
        _ => false,
    }
}

/// Two results that no comparison of items can tell apart.
pub open spec fn same_items<T: PartialEq>(a: Seq<T>, b: Seq<T>) -> bool {
    related(a, b, eq_of::<T>())
}

/// Where `==` tells no two different values apart, results that no comparison can tell
/// apart are the same result.
pub proof fn lemma_same_items_identical<T: PartialEq>(a: Seq<T>, b: Seq<T>)
    requires
        vstd::laws_eq::obeys_concrete_eq::<T>(),
        same_items(a, b),
    ensures
        a == b,
{
    reveal(vstd::laws_eq::obeys_concrete_eq);
    assert forall|i: int| 0 <= i < a.len() implies a[i] == b[i] by {
        assert(eq_of::<T>()(a[i], b[i]));
    }
    assert(a =~= b);
}

/// A matcher is a pure function of the node it is shown: it accepts every node, and what it
/// answers depends on the node's value alone.
pub open spec fn is_matcher<T: PartialEq, F: Fn(&Document) -> Option<T>>(f: F) -> bool {
    &&& forall|d: Document| #[trigger] call_requires(f, (&d,))
    &&& forall|d1: Document, d2: Document, r1: Option<T>, r2: Option<T>|
        d1@ == d2@ && #[trigger] call_ensures(f, (&d1,), r1) && #[trigger] call_ensures(
            f,
            (&d2,),
            r2,
        ) ==> related_answer(r1, r2, eq_of::<T>())
}

/// Whether `r` is an answer of `f` for a node of value `v`.
pub open spec fn answers<T: PartialEq, F: Fn(&Document) -> Option<T>>(
    f: F,
    v: DocumentView,
    r: Option<T>,
) -> bool {
    exists|d: Document| d@ == v && #[trigger] call_ensures(f, (&d,), r)
}

/// The function that a matcher computes.
pub open spec fn matcher_of<T: PartialEq, F: Fn(&Document) -> Option<T>>(f: F) -> spec_fn(
    DocumentView,
) -> Option<T> {
    |v: DocumentView| choose|r: Option<T>| answers(f, v, r)
}

/// Whether `g` describes the matcher `f` up to `rel`: whatever `f` answers for a node is
/// related to what `g` gives for the node's value.
pub open spec fn describes<T, B, F: Fn(&Document) -> Option<T>>(
    f: F,
    g: spec_fn(DocumentView) -> Option<B>,
    rel: spec_fn(T, B) -> bool,
) -> bool {
    forall|d: Document, r: Option<T>| #[trigger]
        call_ensures(f, (&d,), r) ==> related_answer(r, g(d@), rel)
}

/// Whether `rel` carries the comparison `same1` over to the comparison `same2`.
pub open spec fn respects<A, B>(
    rel: spec_fn(A, B) -> bool,
    same1: spec_fn(A, A) -> bool,
    same2: spec_fn(B, B) -> bool,
) -> bool {
    forall|x1: A, x2: A, y1: B, y2: B|
        #[trigger] rel(x1, y1) && #[trigger] rel(x2, y2) ==> (same1(x1, x2) <==> same2(y1, y2))
}

/// Related items are found in, and added to, related results in the same way.
proof fn lemma_insert_unique_related<A, B>(
    a: Seq<A>,
    b: Seq<B>,
    x: A,
    y: B,
    same1: spec_fn(A, A) -> bool,
    same2: spec_fn(B, B) -> bool,
    rel: spec_fn(A, B) -> bool,
)
    requires
        respects(rel, same1, same2),
        related(a, b, rel),
        rel(x, y),
    ensures
        contains_same(a, x, same1) == contains_same(b, y, same2),
        related(insert_unique(a, x, same1), insert_unique(b, y, same2), rel),
{
    if contains_same(a, x, same1) {
        let k = choose|k: int| 0 <= k < a.len() && #[trigger] same1(a[k], x);
        assert(rel(a[k], b[k]));
        assert(same2(b[k], y));
    }
    if contains_same(b, y, same2) {
        let k = choose|k: int| 0 <= k < b.len() && #[trigger] same2(b[k], y);
        assert(rel(a[k], b[k]));
        assert(same1(a[k], x));
    }
}

/// A matcher is described, up to comparison, by the function that it computes.
proof fn lemma_described<T: PartialEq, F: Fn(&Document) -> Option<T>>(f: F)
    requires
        is_matcher::<T, F>(f),
    ensures
        describes(f, matcher_of::<T, F>(f), eq_of::<T>()),
{
    assert forall|d: Document, r: Option<T>| #[trigger]
        call_ensures(f, (&d,), r) implies related_answer(
        r,
        matcher_of::<T, F>(f)(d@),
        eq_of::<T>(),
    ) by {
        assert(answers(f, d@, r));
        let r0 = matcher_of::<T, F>(f)(d@);
        assert(answers(f, d@, r0));
        let d0 = choose|d0: Document| d0@ == d@ && #[trigger] call_ensures(f, (&d0,), r0);
        assert(call_ensures(f, (&d0,), r0));
    }
}

/// `==` on a type that obeys the laws of equality respects itself.
proof fn lemma_eq_respects_itself<T: PartialEq>()
    requires
        obeys_eq::<T>(),
    ensures
        respects(eq_of::<T>(), eq_of::<T>(), eq_of::<T>()),
{
    reveal(vstd::laws_eq::obeys_eq_spec_properties);
    assert forall|x1: T, x2: T, y1: T, y2: T|
        #[trigger] eq_of::<T>()(x1, y1) && #[trigger] eq_of::<T>()(x2, y2) implies (eq_of::<T>()(
        x1,
        x2,
    ) <==> eq_of::<T>()(y1, y2)) by {
        assert(y1.eq_spec(&x1));
        assert(y2.eq_spec(&x2));
        if x1.eq_spec(&x2) {
            assert(y1.eq_spec(&x2));
            assert(y1.eq_spec(&y2));
        }
        if y1.eq_spec(&y2) {
            assert(x1.eq_spec(&y2));
            assert(x1.eq_spec(&x2));
        }
    }
}

fn contains<T: PartialEq>(items: &Vec<T>, e: &T) -> (r: bool)
    requires
        T::obeys_eq_spec(),
    ensures
        r == contains_same(items@, *e, eq_of::<T>()),
{
    let mut k: usize = 0;
    while k < items.len()
        invariant
            T::obeys_eq_spec(),
            k <= items.len(),
            forall|j: int| 0 <= j < k ==> !(#[trigger] eq_of::<T>()(items@[j], *e)),
        decreases items.len() - k,
    {
        if items[k] == *e {
            assert(eq_of::<T>()(items@[k as int], *e));
            return true;
        }
        k += 1;
    }
    false
}

fn inner_crawl<T: PartialEq, B, F: Fn(&Document) -> Option<T>>(
    value: &Document,
    playlists: &mut Vec<T>,
    transformer: &F,
    Ghost(g): Ghost<spec_fn(DocumentView) -> Option<B>>,
    Ghost(same): Ghost<spec_fn(B, B) -> bool>,
    Ghost(rel): Ghost<spec_fn(T, B) -> bool>,
    Ghost(model): Ghost<Seq<B>>,
)
    requires
        T::obeys_eq_spec(),
        forall|d: Document| #[trigger] call_requires(*transformer, (&d,)),
        describes(*transformer, g, rel),
        respects(rel, eq_of::<T>(), same),
        related(old(playlists)@, model, rel),
    ensures
        related(final(playlists)@, crawl(value@, g, same, model), rel),
    decreases value,
{
    let answer = transformer(value);
    assert(related_answer(answer, g(value@), rel));
    if let Some(e) = answer {
        proof {
            lemma_insert_unique_related(
                playlists@,
                model,
                e,
                g(value@)->0,
                eq_of::<T>(),
                same,
                rel,
            );
        }
        if !contains(playlists, &e) {
            playlists.push(e);
        }
        return ;
    }
    proof {
        lemma_children_of_view(*value);
    }
    match value {
        Document::Array(a) => {
            let mut i: usize = 0;
            while i < a.len()
                invariant
                    T::obeys_eq_spec(),
                    forall|d: Document| #[trigger] call_requires(*transformer, (&d,)),
                    describes(*transformer, g, rel),
                    respects(rel, eq_of::<T>(), same),
                    *value == Document::Array(*a),
                    i <= a.len(),
                    related(playlists@, crawl_children(value@, g, same, model, i as nat), rel),
                decreases a.len() - i,
            {
                proof {
                    lemma_children_of_view(*value);
                }
                inner_crawl::<T, B, F>(
                    &a[i],
                    playlists,
                    transformer,
                    Ghost(g),
                    Ghost(same),
                    Ghost(rel),
                    Ghost(crawl_children(value@, g, same, model, i as nat)),
                );
                i += 1;
            }
        },
        Document::Object(o) => {
            let mut i: usize = 0;
            while i < o.len()
                invariant
                    T::obeys_eq_spec(),
                    forall|d: Document| #[trigger] call_requires(*transformer, (&d,)),
                    describes(*transformer, g, rel),
                    respects(rel, eq_of::<T>(), same),
                    *value == Document::Object(*o),
                    i <= o.len(),
                    related(playlists@, crawl_children(value@, g, same, model, i as nat), rel),
                decreases o.len() - i,
            {
                proof {
                    lemma_children_of_view(*value);
                }
                inner_crawl::<T, B, F>(
                    &o[i].1,
                    playlists,
                    transformer,
                    Ghost(g),
                    Ghost(same),
                    Ghost(rel),
                    Ghost(crawl_children(value@, g, same, model, i as nat)),
                );
                i += 1;
            }
        },
        _ => {},
    }
}

/// Crawls `json` with a matcher that `g` describes up to `rel`: what is collected is, up
/// to `rel`, the crawl with `g`.
pub(crate) fn crawl_described<T: PartialEq, B, F: Fn(&Document) -> Option<T>>(
    json: &Document,
    transformer: F,
    Ghost(g): Ghost<spec_fn(DocumentView) -> Option<B>>,
    Ghost(same): Ghost<spec_fn(B, B) -> bool>,
    Ghost(rel): Ghost<spec_fn(T, B) -> bool>,
) -> (found: Vec<T>)
    requires
        T::obeys_eq_spec(),
        forall|d: Document| #[trigger] call_requires(transformer, (&d,)),
        describes(transformer, g, rel),
        respects(rel, eq_of::<T>(), same),
    ensures
        related(found@, crawl(json@, g, same, Seq::empty()), rel),
        no_duplicates(found@, eq_of::<T>()),
{
    proof {
        let model = crawl(json@, g, same, Seq::empty());
        lemma_crawl_no_duplicates(json@, g, same, Seq::empty());
        assert forall|a: Seq<T>| #[trigger] related(a, model, rel) implies no_duplicates(
            a,
            eq_of::<T>(),
        ) by {
            assert forall|i: int, j: int| 0 <= i < j < a.len() implies !#[trigger] eq_of::<T>()(
                a[i],
                a[j],
            ) by {
                assert(rel(a[i], model[i]));
                assert(rel(a[j], model[j]));
                assert(!same(model[i], model[j]));
            }
        }
    }
    let mut playlists = Vec::new();
    inner_crawl::<T, B, F>(
        json,
        &mut playlists,
        &transformer,
        Ghost(g),
        Ghost(same),
        Ghost(rel),
        Ghost(Seq::empty()),
    );
    playlists
}

/// Crawls `json` depth-first and in pre-order, and collects what `transformer` answers.
///
/// A node for which the matcher answers is not descended into; an answer equal to one
/// already collected is dropped. There is no failure: the result is always `Ok`.
pub fn from_json<T: PartialEq>(
    json: &Document,
    transformer: impl Fn(&Document) -> Option<T>,
) -> (r: Result<Vec<T>, ApiError>)
    requires
        obeys_eq::<T>(),
        is_matcher(transformer),
    ensures
        r matches Ok(found) && same_items(
            found@,
            crawl(json@, matcher_of(transformer), eq_of::<T>(), Seq::empty()),
        ) && no_duplicates(found@, eq_of::<T>()),
{
    proof {
        lemma_described::<T, _>(transformer);
        lemma_eq_respects_itself::<T>();
    }
    Ok(
        crawl_described::<T, T, _>(
            json,
            transformer,
            Ghost(matcher_of(transformer)),
            Ghost(eq_of::<T>()),
            Ghost(eq_of::<T>()),
        ),
    )
}

/// What `from_json_string` owes for the text `json`: the crawl of the document that the
/// text denotes, or an error where it denotes none.
pub open spec fn crawled_text<T: PartialEq>(
    json: Seq<char>,
    matcher: spec_fn(DocumentView) -> Option<T>,
    r: Result<Vec<T>, ApiError>,
) -> bool {
    match json_tree(json) {
        Some(tree) => r matches Ok(found) && same_items(
            found@,
            crawl(tree, matcher, eq_of::<T>(), Seq::empty()),
        ) && no_duplicates(found@, eq_of::<T>()),
        None => r is Err,
    }
}

/// Parses `json` and crawls the document. Fails exactly when `json` is not well-formed.
pub fn from_json_string<T: PartialEq>(
    json: &str,
    transformer: impl Fn(&Document) -> Option<T>,
) -> (r: Result<Vec<T>, ApiError>)
    requires
        obeys_eq::<T>(),
        is_matcher(transformer),
    ensures
        crawled_text(json@, matcher_of(transformer), r),
{
    match Document::parse(json) {
        Ok(document) => from_json(&document, transformer),
        Err(e) => Err(e),
    }
}

} // verus!
