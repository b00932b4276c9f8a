//! Mathematical views of values nested in options and sequences.

use vstd::prelude::*;

verus! {

/// The view of the value inside an option.
pub open spec fn opt_view<T: View>(o: Option<T>) -> Option<T::V> {
    match o {
        Some(x) => Some(x@),
        None => None,
    }
}

/// The views of the elements of a sequence.
pub open spec fn seq_views<T: View>(s: Seq<T>) -> Seq<T::V> {
    Seq::new(s.len(), |i: int| s[i]@)
}

/// The views of the values of a map.
pub open spec fn map_views<K, T: View>(m: Map<K, T>) -> Map<K, T::V> {
    Map::new(|k: K| m.dom().contains(k), |k: K| m[k]@)
}

/// Appending sequences appends their views.
pub broadcast proof fn lemma_seq_views_add<T: View>(a: Seq<T>, b: Seq<T>)
    ensures
        #[trigger] seq_views(a + b) == seq_views(a) + seq_views(b),
{
    assert(seq_views(a + b) =~= seq_views(a) + seq_views(b));
}

/// Pushing an element pushes its view.
pub broadcast proof fn lemma_seq_views_push<T: View>(a: Seq<T>, x: T)
    ensures
        #[trigger] seq_views(a.push(x)) == seq_views(a).push(x@),
{
    assert(seq_views(a.push(x)) =~= seq_views(a).push(x@));
}

/// Inserting a value inserts its view.
pub broadcast proof fn lemma_map_views_insert<K, T: View>(m: Map<K, T>, k: K, x: T)
    ensures
        #[trigger] map_views(m.insert(k, x)) == map_views(m).insert(k, x@),
{
    assert(map_views(m.insert(k, x)) =~= map_views(m).insert(k, x@));
}

/// Removing a key removes it from the views.
pub broadcast proof fn lemma_map_views_remove<K, T: View>(m: Map<K, T>, k: K)
    ensures
        #[trigger] map_views(m.remove(k)) == map_views(m).remove(k),
{
    assert(map_views(m.remove(k)) =~= map_views(m).remove(k));
}

/// How views go through the operations on sequences and maps.
pub broadcast group group_views {
    lemma_seq_views_add,
    lemma_seq_views_push,
    lemma_map_views_insert,
    lemma_map_views_remove,
}

} // verus!
