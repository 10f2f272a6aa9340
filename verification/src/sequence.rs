//! Sequences that are laid end to end.

use vstd::prelude::*;

verus! {

/// Where an item of a part stands once all the parts are laid end to end: after those of the parts
/// before it, and after those before it in its own part.
pub proof fn lemma_flatten_place<T>(parts: Seq<Seq<T>>, i: int, j: int)
    requires
        0 <= i < parts.len(),
        0 <= j < parts[i].len(),
    ensures
        parts.take(i).flatten().len() + j < parts.flatten().len(),
        parts.flatten()[parts.take(i).flatten().len() + j] == parts[i][j],
    decreases parts.len(),
{
    let shorter = parts.drop_last();
    lemma_flatten_last(parts);
    if i < shorter.len() {
        lemma_flatten_place(shorter, i, j);
        assert(parts.take(i) =~= shorter.take(i));
    } else {
        assert(parts.take(i) =~= shorter);
    }
}

/// There is room for a part after those before it.
pub proof fn lemma_flatten_room<T>(parts: Seq<Seq<T>>, i: int)
    requires
        0 <= i < parts.len(),
    ensures
        parts.take(i).flatten().len() + parts[i].len() <= parts.flatten().len(),
    decreases parts.len(),
{
    let shorter = parts.drop_last();
    lemma_flatten_last(parts);
    if i < shorter.len() {
        lemma_flatten_room(shorter, i);
        assert(parts.take(i) =~= shorter.take(i));
    } else {
        assert(parts.take(i) =~= shorter);
    }
}

/// The last part comes after all the others.
pub proof fn lemma_flatten_last<T>(parts: Seq<Seq<T>>)
    requires
        parts.len() > 0,
    ensures
        parts.flatten() == parts.drop_last().flatten() + parts.last(),
{
    parts.lemma_flatten_and_flatten_alt_are_equivalent();
    parts.drop_last().lemma_flatten_and_flatten_alt_are_equivalent();
}

} // verus!
