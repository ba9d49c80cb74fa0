//! What deduplication means: the stream of corner references of a geometry
//! group, the distinct keys of that stream in order of first occurrence, and
//! the defect that stops a traversal.

use vstd::prelude::*;
use crate::error::StructuralError;
use crate::source::{Primitive, VertexKey};

verus! {

/// The corners of all the shapes, shape by shape, each shape's corners in
/// the order it lists them.
pub open spec fn references(shapes: Seq<Primitive>) -> Seq<VertexKey>
    decreases shapes.len(),
{
    if shapes.len() == 0 {
        Seq::empty()
    } else {
        references(shapes.drop_last()) + shapes.last().corners()
    }
}

/// The distinct items of a sequence, each at the place of its first occurrence.
pub open spec fn first_occurrences<A>(items: Seq<A>) -> Seq<A>
    decreases items.len(),
{
    if items.len() == 0 {
        Seq::empty()
    } else {
        let before = first_occurrences(items.drop_last());
        if before.contains(items.last()) {
            before
        } else {
            before.push(items.last())
        }
    }
}

/// The place where `item` first occurs in `items`; `items.len()` if it never does.
pub open spec fn first_position<A>(items: Seq<A>, item: A) -> int
    decreases items.len(),
{
    if items.len() == 0 {
        0
    } else if items.drop_last().contains(item) {
        first_position(items.drop_last(), item)
    } else if items.last() == item {
        items.len() - 1
    } else {
        items.len() as int
    }
}

/// Why a corner cannot be taken into a mesh that already holds the vertices
/// `seen`, if it cannot.
///
/// A key that is already among the vertices is always accepted. A new key
/// needs a normal, and an index that fits in 32 bits.
pub open spec fn corner_defect(seen: Seq<VertexKey>, key: VertexKey) -> Option<StructuralError> {
    if seen.contains(key) {
        None
    } else if key.normal is None {
        Some(StructuralError::MissingNormal)
    } else if seen.len() > u32::MAX {
        Some(StructuralError::TooManyVertices)
    } else {
        None
    }
}

/// Why a shape cannot be taken into a mesh after the corner references
/// `before`, if it cannot: it is no triangle, or one of its corners, taken
/// left to right, has a defect.
pub open spec fn shape_defect(before: Seq<VertexKey>, shape: Primitive) -> Option<StructuralError> {
    match shape {
        Primitive::Triangle(a, b, c) => {
            let first = corner_defect(first_occurrences(before), a);
            let second = corner_defect(first_occurrences(before.push(a)), b);
            let third = corner_defect(first_occurrences(before.push(a).push(b)), c);
            if first is Some {
                first
            } else if second is Some {
                second
            } else {
                third
            }
        },
        _ => Some(StructuralError::UnsupportedShape),
    }
}

/// The defect of the first shape that has one, if any shape does.
pub open spec fn first_defect(shapes: Seq<Primitive>) -> Option<StructuralError>
    decreases shapes.len(),
{
    if shapes.len() == 0 {
        None
    } else {
        let earlier = first_defect(shapes.drop_last());
        if earlier is Some {
            earlier
        } else {
            shape_defect(references(shapes.drop_last()), shapes.last())
        }
    }
}

/// Pushing one more item either leaves the distinct items alone or appends it.
pub proof fn lemma_first_occurrences_push<A>(items: Seq<A>, item: A)
    ensures
        first_occurrences(items.push(item)) == if first_occurrences(items).contains(item) {
            first_occurrences(items)
        } else {
            first_occurrences(items).push(item)
        },
{
    assert(items.push(item).drop_last() =~= items);
}

/// The distinct items hold no item twice, hold exactly the items of the
/// sequence, and are no more than the sequence is long.
pub proof fn lemma_first_occurrences_distinct<A>(items: Seq<A>)
    ensures
        first_occurrences(items).no_duplicates(),
        forall|x: A| first_occurrences(items).contains(x) <==> items.contains(x),
        first_occurrences(items).len() <= items.len(),
    decreases items.len(),
{
    if items.len() > 0 {
        let init = items.drop_last();
        lemma_first_occurrences_distinct(init);
        let before = first_occurrences(init);
        let all = first_occurrences(items);
        assert forall|x: A| all.contains(x) <==> items.contains(x) by {
            if items.contains(x) {
                let t = choose|t: int| 0 <= t < items.len() && items[t] == x;
                if t < init.len() {
                    assert(init[t] == x);
                    assert(init.contains(x));
                    let i = choose|i: int| 0 <= i < before.len() && before[i] == x;
                    assert(all[i] == x);
                } else {
                    if !before.contains(x) {
                        assert(all[before.len() as int] == x);
                    }
                }
            }
            if all.contains(x) {
                let i = choose|i: int| 0 <= i < all.len() && all[i] == x;
                if i < before.len() {
                    assert(init.contains(x));
                }
            }
        }
    }
}

/// There are as many distinct items as the set of items has elements.
pub proof fn lemma_first_occurrences_count<A>(items: Seq<A>)
    ensures
        first_occurrences(items).len() == items.to_set().len(),
{
    lemma_first_occurrences_distinct(items);
    first_occurrences(items).unique_seq_to_set();
    assert(first_occurrences(items).to_set() =~= items.to_set());
}

/// An item that occurs has a first position: it stands there, and nowhere before.
pub proof fn lemma_first_position<A>(items: Seq<A>, item: A)
    requires
        items.contains(item),
    ensures
        0 <= first_position(items, item) < items.len(),
        items[first_position(items, item)] == item,
        forall|t: int| 0 <= t < first_position(items, item) ==> items[t] != item,
    decreases items.len(),
{
    let init = items.drop_last();
    let t = choose|t: int| 0 <= t < items.len() && items[t] == item;
    if init.contains(item) {
        lemma_first_position(init, item);
        assert forall|u: int| 0 <= u < first_position(items, item) implies items[u] != item by {
            assert(items[u] == init[u]);
        }
    } else {
        if t < init.len() {
            assert(init[t] == item);
        }
        assert forall|u: int| 0 <= u < items.len() - 1 implies items[u] != item by {
            if items[u] == item {
                assert(init[u] == item);
            }
        }
    }
}

/// In a sequence without repetition an item's place is its first position.
pub proof fn lemma_first_position_unique<A>(items: Seq<A>, i: int)
    requires
        items.no_duplicates(),
        0 <= i < items.len(),
    ensures
        first_position(items, items[i]) == i,
{
    lemma_first_position(items, items[i]);
}

/// The distinct items stand in the order in which they first occur: each is
/// the item at its first position, and first positions grow along them.
pub proof fn lemma_first_occurrences_ordered<A>(items: Seq<A>)
    ensures
        forall|i: int, j: int|
            0 <= i < j < first_occurrences(items).len() ==> first_position(
                items,
                #[trigger] first_occurrences(items)[i],
            ) < first_position(items, #[trigger] first_occurrences(items)[j]),
    decreases items.len(),
{
    if items.len() > 0 {
        let init = items.drop_last();
        lemma_first_occurrences_ordered(init);
        lemma_first_occurrences_distinct(init);
        let all = first_occurrences(items);
        assert forall|i: int, j: int| 0 <= i < j < all.len() implies first_position(
            items,
            #[trigger] all[i],
        ) < first_position(items, #[trigger] all[j]) by {
            lemma_first_position(init, all[i]);
        }
    }
}

} // verus!
