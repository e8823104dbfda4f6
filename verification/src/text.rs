//! Lists of text fragments and how they are laid out in generated code.

use vstd::prelude::*;

verus! {

/// The fragments one after another.
pub open spec fn concat(parts: Seq<Seq<char>>) -> Seq<char>
    decreases parts.len(),
{
    if parts.len() == 0 {
        Seq::empty()
    } else {
        concat(parts.drop_last()) + parts.last()
    }
}

/// The items one after another, a comma behind each of them.
pub open spec fn comma_terminated(items: Seq<Seq<char>>) -> Seq<char>
    decreases items.len(),
{
    if items.len() == 0 {
        Seq::empty()
    } else {
        comma_terminated(items.drop_last()) + items.last() + ", "@
    }
}

/// The first result that `f` gives along the items, `None` where it gives
/// none.
pub open spec fn first_some<T, U>(items: Seq<T>, f: spec_fn(T) -> Option<U>) -> Option<U>
    decreases items.len(),
{
    if items.len() == 0 {
        None
    } else {
        match f(items.first()) {
            Some(found) => Some(found),
            None => first_some(items.drop_first(), f),
        }
    }
}

/// Items without a result can be passed over in the search for the first
/// result.
pub proof fn lemma_first_some_skip<T, U>(items: Seq<T>, f: spec_fn(T) -> Option<U>, i: int)
    requires
        0 <= i <= items.len(),
        forall|k: int| 0 <= k < i ==> f(#[trigger] items[k]) is None,
    ensures
        first_some(items, f) == first_some(items.skip(i), f),
        i < items.len() && f(items[i]) is Some ==> first_some(items, f) == f(items[i]),
        i == items.len() ==> first_some(items, f) is None,
    decreases i,
{
    if i == 0 {
        assert(items.skip(0) =~= items);
    } else {
        lemma_first_some_skip(items.drop_first(), f, i - 1);
        assert(items.drop_first().skip(i - 1) =~= items.skip(i));
    }
}

/// The position of the first item that `p` holds of, `None` where it holds of
/// none.
pub open spec fn first_index<T>(items: Seq<T>, p: spec_fn(T) -> bool) -> Option<int>
    decreases items.len(),
{
    if items.len() == 0 {
        None
    } else {
        match first_index(items.drop_last(), p) {
            Some(i) => Some(i),
            None => if p(items.last()) {
                Some(items.len() - 1)
            } else {
                None
            },
        }
    }
}

/// The first position holds an item that `p` holds of, and no position before
/// it does.
pub proof fn lemma_first_index<T>(items: Seq<T>, p: spec_fn(T) -> bool)
    ensures
        match first_index(items, p) {
            Some(i) => 0 <= i < items.len() && p(items[i]) && forall|k: int|
                0 <= k < i ==> !p(#[trigger] items[k]),
            None => forall|k: int| 0 <= k < items.len() ==> !p(#[trigger] items[k]),
        },
    decreases items.len(),
{
    if items.len() > 0 {
        lemma_first_index(items.drop_last(), p);
        assert(forall|k: int| 0 <= k < items.len() - 1 ==> items.drop_last()[k] == items[k]);
    }
}

/// A position is the first one where `p` holds if `p` holds there and at no
/// position before it; there is none if `p` holds nowhere.
pub proof fn lemma_first_index_is<T>(items: Seq<T>, p: spec_fn(T) -> bool, i: int)
    requires
        0 <= i <= items.len(),
        forall|k: int| 0 <= k < i ==> !p(#[trigger] items[k]),
        i < items.len() ==> p(items[i]),
    ensures
        first_index(items, p) == if i < items.len() {
            Some(i)
        } else {
            None
        },
{
    lemma_first_index(items, p);
}

/// Appending a fragment to a list appends it to the text.
pub proof fn lemma_concat_push(parts: Seq<Seq<char>>, part: Seq<char>)
    ensures
        concat(parts.push(part)) == concat(parts) + part,
        concat(parts + seq![part]) == concat(parts) + part,
{
    assert(parts.push(part).drop_last() =~= parts);
    assert(parts + seq![part] =~= parts.push(part));
}

/// Appending an item to a list appends the item and its comma to the text.
pub proof fn lemma_comma_terminated_push(items: Seq<Seq<char>>, item: Seq<char>)
    ensures
        comma_terminated(items.push(item)) == comma_terminated(items) + item + ", "@,
        comma_terminated(items + seq![item]) == comma_terminated(items) + item + ", "@,
{
    assert(items.push(item).drop_last() =~= items);
    assert(items + seq![item] =~= items.push(item));
}

/// Going one item further in a list that is filtered and mapped to text
/// appends the item's text and comma where the item has a text, and nothing
/// where it has none.
pub proof fn lemma_comma_terminated_next<T>(
    items: Seq<T>,
    f: spec_fn(T) -> Option<Seq<char>>,
    i: int,
)
    requires
        0 <= i < items.len(),
    ensures
        comma_terminated(items.take(i + 1).filter_map(f)) == match f(items[i]) {
            Some(text) => comma_terminated(items.take(i).filter_map(f)) + text + ", "@,
            None => comma_terminated(items.take(i).filter_map(f)),
        },
{
    items.lemma_filter_map_take_succ(f, i);
    match f(items[i]) {
        Some(text) => {
            lemma_comma_terminated_push(items.take(i).filter_map(f), text);
        },
        None => {
            assert(items.take(i).filter_map(f) + Seq::<Seq<char>>::empty() =~= items.take(
                i,
            ).filter_map(f));
        },
    }
}

/// Going one item further in a list that is mapped to text appends the item's
/// text and comma.
pub proof fn lemma_comma_terminated_map_next<T>(items: Seq<T>, f: spec_fn(T) -> Seq<char>, i: int)
    requires
        0 <= i < items.len(),
    ensures
        comma_terminated(items.take(i + 1).map_values(f)) == comma_terminated(
            items.take(i).map_values(f),
        ) + f(items[i]) + ", "@,
{
    assert(items.take(i + 1).map_values(f) =~= items.take(i).map_values(f).push(f(items[i])));
    lemma_comma_terminated_push(items.take(i).map_values(f), f(items[i]));
}

/// Going one item further in a list that is filtered and mapped to text
/// appends the item's text where the item has one.
pub proof fn lemma_concat_next<T>(items: Seq<T>, f: spec_fn(T) -> Option<Seq<char>>, i: int)
    requires
        0 <= i < items.len(),
    ensures
        concat(items.take(i + 1).filter_map(f)) == match f(items[i]) {
            Some(text) => concat(items.take(i).filter_map(f)) + text,
            None => concat(items.take(i).filter_map(f)),
        },
{
    items.lemma_filter_map_take_succ(f, i);
    match f(items[i]) {
        Some(text) => {
            lemma_concat_push(items.take(i).filter_map(f), text);
        },
        None => {
            assert(items.take(i).filter_map(f) + Seq::<Seq<char>>::empty() =~= items.take(
                i,
            ).filter_map(f));
        },
    }
}

} // verus!
