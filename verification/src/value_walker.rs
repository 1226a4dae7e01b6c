//! The selection steps: from an ordered batch of views to the next batch.
//!
//! Three steps look at each view of a batch by itself and append what it
//! contributes, in the order of the batch: the element at an index, the value
//! under a key (or the object that has the key), and all the children of one
//! level. The fourth searches the arrays below one root for objects that
//! hold a key, and takes each position once.
//!
//! A step fails only where a view cannot be decoded. What the views before
//! that one contributed has been appended by then.

use crate::tag;
use crate::value::{DecodeError, FbMap, FbValue, Shape, Value};
use std::collections::HashSet;
use vstd::prelude::*;

verus! {

broadcast use vstd::std_specs::hash::group_hash_axioms;

/// What a step takes from one view.
pub enum Selector<'k> {
    /// From an array, the element at the index.
    Index(usize),
    /// From an object, the value under the key.
    Project(&'k str),
    /// The object itself, where it holds the key.
    Retain(&'k str),
    /// From an array, every element; from an object, every value.
    Flatten,
}

/// The selector of a keyed step: with `is_filter` set, an object that holds
/// the key is kept; without, the value under the key is taken.
pub open spec fn keyed<'k>(key: &'k str, is_filter: bool) -> Selector<'k> {
    if is_filter {
        Selector::Retain(key)
    } else {
        Selector::Project(key)
    }
}

/// What a step has appended, and the error that stopped it, if one did.
pub struct Selection<'de> {
    pub out: Seq<FbValue<'de>>,
    pub failure: Option<DecodeError>,
}

/// The result that goes with a failure, or with none.
pub open spec fn verdict(failure: Option<DecodeError>) -> Result<(), DecodeError> {
    match failure {
        Some(e) => Err(e),
        None => Ok(()),
    }
}

/// What one view contributes to a step.
pub open spec fn contribution<'de>(v: FbValue<'de>, sel: Selector) -> Seq<FbValue<'de>> {
    match v.decoded() {
        Ok(Shape::Array(items)) => match sel {
            Selector::Index(i) => if i < items.len() {
                seq![items[i as int]]
            } else {
                Seq::empty()
            },
            Selector::Flatten => items,
            _ => Seq::empty(),
        },
        Ok(Shape::Object(map)) => match sel {
            Selector::Project(key) => match map.lookup(key@) {
                Some(value) => seq![value],
                None => Seq::empty(),
            },
            Selector::Retain(key) => if map.has_key(key@) {
                seq![v]
            } else {
                Seq::empty()
            },
            Selector::Flatten => map.values(),
            Selector::Index(_) => Seq::empty(),
        },
        _ => Seq::empty(),
    }
}

/// What a step appends for a batch: the contributions of its views, in the
/// order of the batch, up to the first view that cannot be decoded.
pub open spec fn selected<'de>(batch: Seq<FbValue<'de>>, sel: Selector) -> Selection<'de>
    decreases batch.len(),
{
    if batch.len() == 0 {
        Selection { out: Seq::empty(), failure: None }
    } else {
        match batch[0].decoded() {
            Err(e) => Selection { out: Seq::empty(), failure: Some(e) },
            Ok(_) => {
                let rest = selected(batch.drop_first(), sel);
                Selection { out: contribution(batch[0], sel) + rest.out, failure: rest.failure }
            },
        }
    }
}

/// What a search has found, the positions it has taken so far, and the error
/// that stopped it, if one did.
pub struct Search<'de> {
    pub found: Seq<FbValue<'de>>,
    pub seen: Set<usize>,
    pub failure: Option<DecodeError>,
}

/// How deep a search can go below a view: nothing lies below a view that is
/// not an array, and what lies below an array lies before it in the buffer.
pub open spec fn rank(v: FbValue) -> nat {
    if tag::is_vector(v.tag()) {
        v.position() as nat + 1
    } else {
        0
    }
}

/// Whether a search goes on from an array at offset `below` into `item`. An
/// encoder writes an array after everything the array holds, so a nested array
/// lies before the one that holds it. A search does not follow an array that
/// lies elsewhere: that is what makes it end on every buffer.
pub open spec fn descends(item: FbValue, below: usize) -> bool {
    !tag::is_vector(item.tag()) || item.position() < below
}

/// The search from one view, with `seen` the positions taken before it.
///
/// An object is found if it holds the key and its position has not been
/// taken; it is not searched further. An array is searched element by element,
/// in order. Every other view is a leaf.
pub open spec fn search<'de>(v: FbValue<'de>, key: Seq<char>, seen: Set<usize>) -> Search<'de>
    decreases rank(v), 1nat, 0nat,
{
    match v.decoded() {
        Err(e) => Search { found: Seq::empty(), seen, failure: Some(e) },
        Ok(Shape::Object(map)) => if map.has_key(key) && !seen.contains(v.position()) {
            Search { found: seq![v], seen: seen.insert(v.position()), failure: None }
        } else {
            Search { found: Seq::empty(), seen, failure: None }
        },
        Ok(Shape::Array(items)) => search_items(items, v.position(), key, seen),
        Ok(_) => Search { found: Seq::empty(), seen, failure: None },
    }
}

/// The search through the elements of an array at offset `below`, first to
/// last, each with the positions that the ones before it have taken. It stops
/// at the first element that fails.
pub open spec fn search_items<'de>(
    items: Seq<FbValue<'de>>,
    below: usize,
    key: Seq<char>,
    seen: Set<usize>,
) -> Search<'de>
    decreases below as nat + 1, 0nat, items.len(),
{
    if items.len() == 0 {
        Search { found: Seq::empty(), seen, failure: None }
    } else {
        let first = if descends(items[0], below) {
            search(items[0], key, seen)
        } else {
            Search { found: Seq::empty(), seen, failure: None }
        };
        if first.failure is Some {
            first
        } else {
            let rest = search_items(items.drop_first(), below, key, first.seen);
            Search { found: first.found + rest.found, seen: rest.seen, failure: rest.failure }
        }
    }
}

/// A step fails on a batch exactly where some view of the batch cannot be
/// decoded.
pub proof fn lemma_step_fails_on_undecodable(batch: Seq<FbValue>, sel: Selector)
    ensures
        selected(batch, sel).failure is None <==> forall|i: int|
            0 <= i < batch.len() ==> (#[trigger] batch[i]).decoded() is Ok,
    decreases batch.len(),
{
    if batch.len() > 0 {
        let rest = batch.drop_first();
        lemma_step_fails_on_undecodable(rest, sel);
        if selected(batch, sel).failure is None {
            assert forall|i: int| 0 <= i < batch.len() implies (#[trigger] batch[i]).decoded() is Ok by {
                if i > 0 {
                    assert(batch[i] == rest[i - 1]);
                }
            }
        }
        if forall|i: int| 0 <= i < batch.len() ==> (#[trigger] batch[i]).decoded() is Ok {
            assert(batch[0].decoded() is Ok);
            assert forall|i: int| 0 <= i < rest.len() implies (#[trigger] rest[i]).decoded() is Ok by {
                assert(rest[i] == batch[i + 1]);
            }
        }
    }
}

/// The contributions of a batch are those of its views, joined in the order
/// of the batch: where the first part of a batch decodes, what a step takes
/// from the whole is what it takes from the first part, then what it takes
/// from the rest.
pub proof fn lemma_step_joins_in_order(front: Seq<FbValue>, back: Seq<FbValue>, sel: Selector)
    requires
        selected(front, sel).failure is None,
    ensures
        selected(front + back, sel).out == selected(front, sel).out + selected(back, sel).out,
        selected(front + back, sel).failure == selected(back, sel).failure,
    decreases front.len(),
{
    if front.len() == 0 {
        assert(front + back =~= back);
        assert(selected(front, sel).out + selected(back, sel).out =~= selected(back, sel).out);
    } else {
        let whole = front + back;
        assert(whole[0] == front[0]);
        assert(whole.drop_first() =~= front.drop_first() + back);
        lemma_step_joins_in_order(front.drop_first(), back, sel);
        let head = contribution(front[0], sel);
        assert(head + (selected(front.drop_first(), sel).out + selected(back, sel).out) =~= (head
            + selected(front.drop_first(), sel).out) + selected(back, sel).out);
    }
}

/// A step on a batch of one view that decodes takes that view's contribution.
pub proof fn lemma_step_of_one(v: FbValue, sel: Selector)
    requires
        v.decoded() is Ok,
    ensures
        selected(seq![v], sel).out == contribution(v, sel),
        selected(seq![v], sel).failure is None,
{
    let batch = seq![v];
    assert(batch[0] == v);
    assert(batch.drop_first() =~= Seq::<FbValue>::empty());
    assert(selected(batch.drop_first(), sel).out =~= Seq::<FbValue>::empty());
    assert(contribution(v, sel) + Seq::<FbValue>::empty() =~= contribution(v, sel));
}

/// The indexed step on an array alone yields the element at the index where
/// the array has one, and nothing where it has none; on a view that is not
/// an array it yields nothing.
pub proof fn lemma_indexed_step(a: FbValue, index: usize)
    requires
        a.decoded() is Ok,
    ensures
        selected(seq![a], Selector::Index(index)).failure is None,
        tag::is_vector(a.tag()) && index < a.elements().len() ==> selected(
            seq![a],
            Selector::Index(index),
        ).out == seq![a.elements()[index as int]],
        tag::is_vector(a.tag()) && index >= a.elements().len() ==> selected(
            seq![a],
            Selector::Index(index),
        ).out == Seq::<FbValue>::empty(),
        !tag::is_vector(a.tag()) ==> selected(seq![a], Selector::Index(index)).out == Seq::<
            FbValue,
        >::empty(),
{
    lemma_step_of_one(a, Selector::Index(index));
}

/// The keyed step on an object alone. Where the object maps the key to a
/// value, projecting yields that value and filtering yields the object
/// itself; where the object does not hold the key, both yield nothing. On a
/// view that is not an object both yield nothing.
pub proof fn lemma_keyed_step(o: FbValue, key: &str)
    requires
        o.decoded() is Ok,
    ensures
        selected(seq![o], Selector::Project(key)).failure is None,
        selected(seq![o], Selector::Retain(key)).failure is None,
        o.tag() == tag::MAP ==> match o.object().lookup(key@) {
            Some(value) => {
                &&& o.object().has_key(key@)
                &&& selected(seq![o], Selector::Project(key)).out == seq![value]
                &&& selected(seq![o], Selector::Retain(key)).out == seq![o]
            },
            None => selected(seq![o], Selector::Project(key)).out == Seq::<FbValue>::empty(),
        },
        o.tag() == tag::MAP && !o.object().has_key(key@) ==> {
            &&& selected(seq![o], Selector::Project(key)).out == Seq::<FbValue>::empty()
            &&& selected(seq![o], Selector::Retain(key)).out == Seq::<FbValue>::empty()
        },
        o.tag() != tag::MAP ==> {
            &&& selected(seq![o], Selector::Project(key)).out == Seq::<FbValue>::empty()
            &&& selected(seq![o], Selector::Retain(key)).out == Seq::<FbValue>::empty()
        },
{
    lemma_step_of_one(o, Selector::Project(key));
    lemma_step_of_one(o, Selector::Retain(key));
    if o.tag() == tag::MAP {
        o.object().lemma_lookup_needs_key(key@);
    }
}

/// The flattening step on one view alone yields the elements of an array in
/// their order, the values of an object in the order of its keys, and
/// nothing for any other view.
pub proof fn lemma_flattening_step(v: FbValue)
    requires
        v.decoded() is Ok,
    ensures
        selected(seq![v], Selector::Flatten).failure is None,
        tag::is_vector(v.tag()) ==> selected(seq![v], Selector::Flatten).out == v.elements(),
        v.tag() == tag::MAP ==> selected(seq![v], Selector::Flatten).out == v.object().values(),
        !tag::is_vector(v.tag()) && v.tag() != tag::MAP ==> selected(
            seq![v],
            Selector::Flatten,
        ).out == Seq::<FbValue>::empty(),
{
    lemma_step_of_one(v, Selector::Flatten);
}

/// Whether a view is an object that holds the key.
pub open spec fn holds_key(v: FbValue, key: Seq<char>) -> bool {
    v.tag() == tag::MAP && v.object().has_key(key)
}

/// The positions of the views of a sequence.
pub open spec fn positions(views: Seq<FbValue>) -> Seq<usize> {
    Seq::new(views.len(), |i: int| views[i].position())
}

/// The set of the positions of the views of a sequence.
pub open spec fn taken(views: Seq<FbValue>) -> Set<usize> {
    Set::new(|p: usize| exists|i: int| 0 <= i < views.len() && (#[trigger] views[i]).position() == p)
}

/// What holds of every search, finished or stopped: each view found is an
/// object that holds the key; none of them stood at a position taken before
/// the search; no two of them stand at one position; and the positions taken
/// after the search are those taken before it and those of the views found.
pub open spec fn orderly(s: Search, key: Seq<char>, seen: Set<usize>) -> bool {
    &&& forall|i: int| 0 <= i < s.found.len() ==> holds_key(#[trigger] s.found[i], key)
    &&& forall|i: int| 0 <= i < s.found.len() ==> !seen.contains((#[trigger] s.found[i]).position())
    &&& forall|i: int, j: int|
        0 <= i < j < s.found.len() ==> (#[trigger] s.found[i]).position() != (
        #[trigger] s.found[j]).position()
    &&& s.seen == seen.union(taken(s.found))
}

/// Every search from a view is orderly.
pub proof fn lemma_search_orderly(v: FbValue, key: Seq<char>, seen: Set<usize>)
    ensures
        orderly(search(v, key, seen), key, seen),
    decreases rank(v), 1nat, 0nat,
{
    let s = search(v, key, seen);
    match v.decoded() {
        Ok(Shape::Array(items)) => {
            lemma_search_items_orderly(items, v.position(), key, seen);
        },
        Ok(Shape::Object(map)) => {
            if map.has_key(key) && !seen.contains(v.position()) {
                assert(s.found[0] == v);
                assert(s.seen =~= seen.union(taken(s.found)));
            } else {
                assert(s.seen =~= seen.union(taken(s.found)));
            }
        },
        _ => {
            assert(s.seen =~= seen.union(taken(s.found)));
        },
    }
}

/// Every search through the elements of an array is orderly.
pub proof fn lemma_search_items_orderly(
    items: Seq<FbValue>,
    below: usize,
    key: Seq<char>,
    seen: Set<usize>,
)
    ensures
        orderly(search_items(items, below, key, seen), key, seen),
    decreases below as nat + 1, 0nat, items.len(),
{
    let s = search_items(items, below, key, seen);
    if items.len() == 0 {
        assert(s.seen =~= seen.union(taken(s.found)));
    } else {
        let first = if descends(items[0], below) {
            search(items[0], key, seen)
        } else {
            Search { found: Seq::empty(), seen, failure: None }
        };
        if descends(items[0], below) {
            lemma_search_orderly(items[0], key, seen);
        } else {
            assert(first.seen =~= seen.union(taken(first.found)));
        }
        assert(orderly(first, key, seen));
        if first.failure is None {
            let rest = search_items(items.drop_first(), below, key, first.seen);
            lemma_search_items_orderly(items.drop_first(), below, key, first.seen);
            let n = first.found.len() as int;
            assert forall|i: int| 0 <= i < s.found.len() implies holds_key(
                #[trigger] s.found[i],
                key,
            ) && !seen.contains(s.found[i].position()) by {
                if i < n {
                    assert(s.found[i] == first.found[i]);
                } else {
                    assert(s.found[i] == rest.found[i - n]);
                    assert(!first.seen.contains(rest.found[i - n].position()));
                }
            }
            assert forall|i: int, j: int| 0 <= i < j < s.found.len() implies (
            #[trigger] s.found[i]).position() != (#[trigger] s.found[j]).position() by {
                if j < n {
                    assert(s.found[i] == first.found[i]);
                    assert(s.found[j] == first.found[j]);
                } else if i >= n {
                    assert(s.found[i] == rest.found[i - n]);
                    assert(s.found[j] == rest.found[j - n]);
                } else {
                    assert(s.found[i] == first.found[i]);
                    assert(s.found[j] == rest.found[j - n]);
                    assert(taken(first.found).contains(first.found[i].position()));
                    assert(!first.seen.contains(rest.found[j - n].position()));
                }
            }
            assert forall|p: usize| s.seen.contains(p) <==> seen.union(taken(s.found)).contains(
                p,
            ) by {
                if taken(first.found).contains(p) {
                    let i = choose|i: int|
                        0 <= i < first.found.len() && (#[trigger] first.found[i]).position() == p;
                    assert(s.found[i] == first.found[i]);
                }
                if taken(rest.found).contains(p) {
                    let i = choose|i: int|
                        0 <= i < rest.found.len() && (#[trigger] rest.found[i]).position() == p;
                    assert(s.found[i + n] == rest.found[i]);
                }
                if taken(s.found).contains(p) {
                    let i = choose|i: int|
                        0 <= i < s.found.len() && (#[trigger] s.found[i]).position() == p;
                    if i < n {
                        assert(s.found[i] == first.found[i]);
                    } else {
                        assert(s.found[i] == rest.found[i - n]);
                    }
                }
            }
            assert(s.seen =~= seen.union(taken(s.found)));
        }
    }
}

/// Whether a search from `v` comes to `node`: `node` is `v` itself, or the
/// search goes on from the array `v` into an element from which it comes to
/// `node`.
pub open spec fn reaches(v: FbValue, node: FbValue) -> bool
    decreases rank(v),
{
    v == node || (tag::is_vector(v.tag()) && exists|i: int|
        0 <= i < v.elements().len() && descends(#[trigger] v.elements()[i], v.position())
            && reaches(v.elements()[i], node))
}

/// A search that finished has missed nothing: every object it comes to that
/// holds the key stands at a position that is taken afterwards, because it was
/// taken before or because the search found the object.
pub proof fn lemma_search_misses_nothing(
    v: FbValue,
    node: FbValue,
    key: Seq<char>,
    seen: Set<usize>,
)
    requires
        search(v, key, seen).failure is None,
        reaches(v, node),
        holds_key(node, key),
    ensures
        search(v, key, seen).seen.contains(node.position()),
    decreases rank(v), 1nat, 0nat,
{
    if v == node {
    } else {
        let i = choose|i: int|
            0 <= i < v.elements().len() && descends(#[trigger] v.elements()[i], v.position())
                && reaches(v.elements()[i], node);
        lemma_search_items_misses_nothing(v.elements(), i, v.position(), node, key, seen);
    }
}

/// The same of a search through the elements of an array, for what it comes
/// to from the element at index `i`.
pub proof fn lemma_search_items_misses_nothing(
    items: Seq<FbValue>,
    i: int,
    below: usize,
    node: FbValue,
    key: Seq<char>,
    seen: Set<usize>,
)
    requires
        search_items(items, below, key, seen).failure is None,
        0 <= i < items.len(),
        descends(items[i], below),
        reaches(items[i], node),
        holds_key(node, key),
    ensures
        search_items(items, below, key, seen).seen.contains(node.position()),
    decreases below as nat + 1, 0nat, items.len(),
{
    let first = if descends(items[0], below) {
        search(items[0], key, seen)
    } else {
        Search { found: Seq::empty(), seen, failure: None }
    };
    let rest = search_items(items.drop_first(), below, key, first.seen);
    lemma_search_items_orderly(items.drop_first(), below, key, first.seen);
    if i == 0 {
        lemma_search_misses_nothing(items[0], node, key, seen);
        assert(first.seen.contains(node.position()));
    } else {
        assert(items.drop_first()[i - 1] == items[i]);
        lemma_search_items_misses_nothing(items.drop_first(), i - 1, below, node, key, first.seen);
    }
}

/// A search is a function of its root, the key and the positions taken
/// before it: from the same root, for the same key and from an empty set of
/// positions, it finds the same positions in the same order every time.
pub proof fn lemma_search_repeats(root: FbValue, key: Seq<char>, once: Search, again: Search)
    requires
        once == search(root, key, Set::<usize>::empty()),
        again == search(root, key, Set::<usize>::empty()),
    ensures
        positions(once.found) == positions(again.found),
        once.seen == again.seen,
        once.failure == again.failure,
{
}

/// Positions are taken once: a search that finished, run again from the same
/// root with the positions it left (or more), finds nothing and takes nothing.
pub proof fn lemma_search_again_is_empty(
    v: FbValue,
    key: Seq<char>,
    seen: Set<usize>,
    later: Set<usize>,
)
    requires
        search(v, key, seen).failure is None,
        search(v, key, seen).seen.subset_of(later),
    ensures
        search(v, key, later).found == Seq::<FbValue>::empty(),
        search(v, key, later).seen == later,
        search(v, key, later).failure is None,
    decreases rank(v), 1nat, 0nat,
{
    match v.decoded() {
        Ok(Shape::Array(items)) => {
            lemma_search_items_again_is_empty(items, v.position(), key, seen, later);
        },
        Ok(Shape::Object(map)) => {
            if map.has_key(key) && !seen.contains(v.position()) {
                assert(search(v, key, seen).seen.contains(v.position()));
            }
        },
        _ => {},
    }
}

/// The same of a search through the elements of an array.
pub proof fn lemma_search_items_again_is_empty(
    items: Seq<FbValue>,
    below: usize,
    key: Seq<char>,
    seen: Set<usize>,
    later: Set<usize>,
)
    requires
        search_items(items, below, key, seen).failure is None,
        search_items(items, below, key, seen).seen.subset_of(later),
    ensures
        search_items(items, below, key, later).found == Seq::<FbValue>::empty(),
        search_items(items, below, key, later).seen == later,
        search_items(items, below, key, later).failure is None,
    decreases below as nat + 1, 0nat, items.len(),
{
    if items.len() > 0 {
        let first = if descends(items[0], below) {
            search(items[0], key, seen)
        } else {
            Search { found: Seq::empty(), seen, failure: None }
        };
        let rest = search_items(items.drop_first(), below, key, first.seen);
        lemma_search_items_orderly(items.drop_first(), below, key, first.seen);
        assert(first.seen.subset_of(rest.seen));
        if descends(items[0], below) {
            lemma_search_again_is_empty(items[0], key, seen, later);
        }
        lemma_search_items_again_is_empty(items.drop_first(), below, key, first.seen, later);
        assert(Seq::<FbValue>::empty() + Seq::<FbValue>::empty() =~= Seq::<FbValue>::empty());
    }
}

pub struct ValueWalker;

impl ValueWalker {
    /// Indexed step: each array of the batch that has an element at `index`
    /// contributes that element.
    pub fn all_with_num<'a>(vec: &[FbValue<'a>], tmp: &mut Vec<FbValue<'a>>, index: usize) -> (out:
        Result<(), DecodeError>)
        ensures
            final(tmp)@ == old(tmp)@ + selected(vec@, Selector::Index(index)).out,
            out == verdict(selected(vec@, Selector::Index(index)).failure),
    {
        Self::walk(vec, tmp, &Selector::Index(index))
    }

    /// Keyed step: each object of the batch that holds `key` contributes the
    /// value under the key, or, where `is_filter` is set, itself.
    pub fn all_with_str<'a>(
        vec: &[FbValue<'a>],
        tmp: &mut Vec<FbValue<'a>>,
        key: &str,
        is_filter: bool,
    ) -> (out: Result<(), DecodeError>)
        ensures
            final(tmp)@ == old(tmp)@ + selected(vec@, keyed(key, is_filter)).out,
            out == verdict(selected(vec@, keyed(key, is_filter)).failure),
    {
        if is_filter {
            Self::walk(vec, tmp, &Selector::Retain(key))
        } else {
            Self::walk(vec, tmp, &Selector::Project(key))
        }
    }

    /// Flattening step: each array of the batch contributes its elements,
    /// each object its values, in their order.
    pub fn all<'a>(vec: &[FbValue<'a>], tmp: &mut Vec<FbValue<'a>>) -> (out: Result<
        (),
        DecodeError,
    >)
        ensures
            final(tmp)@ == old(tmp)@ + selected(vec@, Selector::Flatten).out,
            out == verdict(selected(vec@, Selector::Flatten).failure),
    {
        Self::walk(vec, tmp, &Selector::Flatten)
    }

    /// Takes from each view of the batch in turn.
    fn walk<'a>(vec: &[FbValue<'a>], tmp: &mut Vec<FbValue<'a>>, sel: &Selector) -> (out: Result<
        (),
        DecodeError,
    >)
        ensures
            final(tmp)@ == old(tmp)@ + selected(vec@, *sel).out,
            out == verdict(selected(vec@, *sel).failure),
    {
        let ghost before = tmp@;
        let ghost mut done: Seq<FbValue<'a>> = Seq::empty();
        let mut i: usize = 0;
        assert(vec@.skip(0) =~= vec@);
        while i < vec.len()
            invariant
                i <= vec@.len(),
                before == old(tmp)@,
                tmp@ == before + done,
                selected(vec@, *sel).out == done + selected(vec@.skip(i as int), *sel).out,
                selected(vec@, *sel).failure == selected(vec@.skip(i as int), *sel).failure,
            decreases vec@.len() - i,
        {
            let ghost rest = vec@.skip(i as int);
            assert(rest[0] == vec@[i as int]);
            assert(rest.drop_first() =~= vec@.skip(i + 1));
            match Self::_walk(&vec[i], tmp, sel) {
                Err(e) => {
                    assert(selected(rest, *sel).failure == Some(e));
                    assert(selected(rest, *sel).out == Seq::<FbValue<'a>>::empty());
                    assert(done + Seq::<FbValue<'a>>::empty() =~= done);
                    return Err(e);
                },
                Ok(()) => {
                    proof {
                        let more = contribution(vec@[i as int], *sel);
                        assert(before + done + more =~= before + (done + more));
                        assert(done + (more + selected(vec@.skip(i + 1), *sel).out) =~= (done
                            + more) + selected(vec@.skip(i + 1), *sel).out);
                        done = done + more;
                    }
                },
            }
            i += 1;
        }
        assert(done + Seq::<FbValue<'a>>::empty() =~= done);
        Ok(())
    }

    /// Takes from one view.
    fn _walk<'a>(v: &FbValue<'a>, tmp: &mut Vec<FbValue<'a>>, sel: &Selector) -> (out: Result<
        (),
        DecodeError,
    >)
        ensures
            match out {
                Ok(()) => v.decoded() is Ok && final(tmp)@ == old(tmp)@ + contribution(*v, *sel),
                Err(e) => v.decoded() == Err::<Shape<'a>, DecodeError>(e) && final(tmp)@ == old(
                    tmp,
                )@,
            },
    {
        let ghost before = tmp@;
        match v.classify() {
            Err(e) => {
                return Err(e);
            },
            Ok(Value::Array(items)) => match sel {
                Selector::Index(i) => {
                    if *i < items.len() {
                        tmp.push(items[*i].clone());
                    }
                },
                Selector::Flatten => {
                    let mut items = items;
                    tmp.append(&mut items);
                },
                _ => {},
            },
            Ok(Value::Object(map)) => match sel {
                Selector::Project(key) => {
                    match map.get(key) {
                        Some(value) => {
                            tmp.push(value);
                        },
                        None => {},
                    }
                },
                Selector::Retain(key) => {
                    if map.contains_key(key) {
                        tmp.push(v.clone());
                    }
                },
                Selector::Flatten => {
                    Self::push_values(&map, tmp);
                },
                Selector::Index(_) => {},
            },
            Ok(_) => {},
        }
        assert(tmp@ =~= before + contribution(*v, *sel));
        Ok(())
    }

    /// Descendant search: appends every object below `v` that holds `key` and
    /// whose position is not in `visited`, in the order a depth-first walk
    /// meets them, and takes their positions into `visited`.
    pub fn walk_dedup<'a>(
        v: FbValue<'a>,
        tmp: &mut Vec<FbValue<'a>>,
        key: &str,
        visited: &mut HashSet<usize>,
    ) -> (out: Result<(), DecodeError>)
        ensures
            final(tmp)@ == old(tmp)@ + search(v, key@, old(visited)@).found,
            final(visited)@ == search(v, key@, old(visited)@).seen,
            out == verdict(search(v, key@, old(visited)@).failure),
        decreases rank(v),
    {
        let ghost before = tmp@;
        let ghost seen = visited@;
        match v.classify() {
            Err(e) => {
                assert(tmp@ =~= before + Seq::<FbValue<'a>>::empty());
                Err(e)
            },
            Ok(Value::Object(map)) => {
                if map.contains_key(key) {
                    let at = v.address();
                    if !visited.contains(&at) {
                        visited.insert(at);
                        tmp.push(v);
                    }
                }
                assert(tmp@ =~= before + search(v, key@, seen).found);
                Ok(())
            },
            Ok(Value::Array(items)) => {
                let here = v.address();
                let ghost total = search_items(items@, here, key@, seen);
                let ghost mut done: Seq<FbValue<'a>> = Seq::empty();
                let mut i: usize = 0;
                assert(items@.skip(0) =~= items@);
                assert(tmp@ =~= before + done);
                while i < items.len()
                    invariant
                        i <= items@.len(),
                        rank(v) == here + 1,
                        before == old(tmp)@,
                        seen == old(visited)@,
                        total == search(v, key@, seen),
                        tmp@ == before + done,
                        total == search_items(items@, here, key@, seen),
                        total.found == done + search_items(
                            items@.skip(i as int),
                            here,
                            key@,
                            visited@,
                        ).found,
                        total.seen == search_items(items@.skip(i as int), here, key@, visited@).seen,
                        total.failure == search_items(
                            items@.skip(i as int),
                            here,
                            key@,
                            visited@,
                        ).failure,
                    decreases items@.len() - i,
                {
                    let ghost rest = items@.skip(i as int);
                    let ghost taken = visited@;
                    assert(rest[0] == items@[i as int]);
                    assert(rest.drop_first() =~= items@.skip(i + 1));
                    let item = items[i].clone();
                    if !item.is_array() || item.address() < here {
                        let ghost first = search(item, key@, taken);
                        match Self::walk_dedup(item, tmp, key, visited) {
                            Err(e) => {
                                assert(before + done + first.found =~= before + (done
                                    + first.found));
                                return Err(e);
                            },
                            Ok(()) => {
                                proof {
                                    let after = search_items(items@.skip(i + 1), here, key@, visited@);
                                    assert(before + done + first.found =~= before + (done
                                        + first.found));
                                    assert(done + (first.found + after.found) =~= (done
                                        + first.found) + after.found);
                                    done = done + first.found;
                                }
                            },
                        }
                    } else {
                        proof {
                            let after = search_items(items@.skip(i + 1), here, key@, visited@);
                            assert(Seq::<FbValue<'a>>::empty() + after.found =~= after.found);
                        }
                    }
                    i += 1;
                }
                assert(done + Seq::<FbValue<'a>>::empty() =~= done);
                Ok(())
            },
            Ok(_) => {
                assert(tmp@ =~= before + Seq::<FbValue<'a>>::empty());
                Ok(())
            },
        }
    }

    /// Appends the views of a map's values, in the order of the encoding.
    fn push_values<'a>(map: &FbMap<'a>, tmp: &mut Vec<FbValue<'a>>)
        ensures
            final(tmp)@ == old(tmp)@ + map.values(),
    {
        let ghost before = tmp@;
        let pairs = map.pairs();
        let mut i: usize = 0;
        while i < pairs.len()
            invariant
                i <= pairs@.len(),
                pairs@.len() == map.entries().len(),
                forall|j: int| 0 <= j < pairs@.len() ==> (#[trigger] pairs@[j]).1 == map.entries()[j].1,
                tmp@ == before + map.values().take(i as int),
            decreases pairs@.len() - i,
        {
            tmp.push(pairs[i].1.clone());
            assert(map.values().take(i + 1) =~= map.values().take(i as int).push(
                map.values()[i as int],
            ));
            i += 1;
        }
        assert(map.values().take(i as int) =~= map.values());
    }
}

} // verus!
