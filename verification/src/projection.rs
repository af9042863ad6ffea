//! Index lists that pick columns, and what they pick.

use vstd::prelude::*;

verus! {

/// Whether every index of `indices` names one of `width` columns.
pub open spec fn admits(width: nat, indices: Seq<usize>) -> bool {
    forall|j: int| 0 <= j < indices.len() ==> indices[j] < width
}

/// The items that `indices` picks from `items`, in the order of `indices`.
pub open spec fn select<T>(items: Seq<T>, indices: Seq<usize>) -> Seq<T> {
    Seq::new(indices.len(), |j: int| items[indices[j] as int])
}

/// The columns that an optional projection keeps: all of them where there is
/// none.
pub open spec fn select_opt<T>(items: Seq<T>, projection: Option<Seq<usize>>) -> Seq<T> {
    match projection {
        Some(indices) => select(items, indices),
        None => items,
    }
}

/// Whether an optional projection fits `width` columns.
pub open spec fn admits_opt(width: nat, projection: Option<Seq<usize>>) -> bool {
    match projection {
        Some(indices) => admits(width, indices),
        None => true,
    }
}

/// The indices of an optional projection.
pub open spec fn indices_of(projection: Option<Vec<usize>>) -> Option<Seq<usize>> {
    match projection {
        Some(indices) => Some(indices@),
        None => None,
    }
}

/// The indices of an optional projection that is borrowed.
pub open spec fn indices_of_ref(projection: Option<&Vec<usize>>) -> Option<Seq<usize>> {
    match projection {
        Some(indices) => Some(indices@),
        None => None,
    }
}

/// Whether `at` is the first position of `indices` whose index is not below
/// `width`.
pub open spec fn first_misfit(width: nat, indices: Seq<usize>, at: int) -> bool {
    &&& 0 <= at < indices.len()
    &&& indices[at] >= width
    &&& forall|j: int| 0 <= j < at ==> indices[j] < width
}

/// Finds the first position of `indices` whose index is out of range for
/// `width` columns.
pub fn find_misfit(indices: &Vec<usize>, width: usize) -> (r: Option<usize>)
    ensures
        r is None <==> admits(width as nat, indices@),
        r matches Some(at) ==> first_misfit(width as nat, indices@, at as int),
{
    let mut at: usize = 0;
    while at < indices.len()
        invariant
            at <= indices.len(),
            forall|j: int| 0 <= j < at ==> indices[j] < width,
        decreases indices.len() - at,
    {
        if indices[at] >= width {
            return Some(at);
        }
        at += 1;
    }
    None
}

} // verus!
